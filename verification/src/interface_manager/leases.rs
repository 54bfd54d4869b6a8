//! Leases: resources handed out for a while, and kept for their holder by a
//! token that changes with every refresh.
//!
//! Seed-assigned networks and claimed node addresses share this machinery.
//! Times are counted in nanoseconds from an arbitrary start.

use vstd::prelude::*;

verus! {

/// A point in time, in nanoseconds from an arbitrary start.
pub type Nanos = u128;

/// One second.
pub const NANOS_PER_SEC: u128 = 1000000000;

/// Initial lease duration for a newly granted seed net_id or node_id (seconds).
pub const INITIAL_LEASE_SECS: u16 = 30;

/// Maximum lease duration after refresh (seconds).
pub const MAX_LEASE_SECS: u16 = 120;

/// Refresh is allowed only when remaining time is less than this (seconds).
pub const MIN_REFRESH_SECS: u16 = 62;

/// Tombstone duration: how long a revoked net_id/node_id stays reserved,
/// measured from its lease expiration, before it can be reused (seconds).
pub const TOMBSTONE_DURATION_SECS: u16 = 30;

/// The time `secs` seconds after `now`; time ends at `u128::MAX`.
pub open spec fn later(now: Nanos, secs: u16) -> Nanos {
    if now + secs * NANOS_PER_SEC > u128::MAX {
        u128::MAX
    } else {
        (now + secs * NANOS_PER_SEC) as u128
    }
}

/// The time `secs` seconds after `now`; time ends at `u128::MAX`.
pub fn time_after(now: Nanos, secs: u16) -> (r: Nanos)
    ensures
        r == later(now, secs),
{
    now.saturating_add((secs as u128) * NANOS_PER_SEC)
}

/// The time left of a lease in seconds, rounded up, as far as 16 bits go.
pub open spec fn remaining_seconds(expiration: Nanos, now: Nanos) -> u16 {
    if expiration <= now {
        0
    } else {
        let rounded_up = (expiration - now + NANOS_PER_SEC - 1) / (NANOS_PER_SEC as int);
        if rounded_up > u16::MAX {
            u16::MAX
        } else {
            rounded_up as u16
        }
    }
}

/// The time left of a lease in seconds, rounded up, as far as 16 bits go.
pub fn remaining_lease_seconds(expiration: Nanos, now: Nanos) -> (r: u16)
    ensures
        r == remaining_seconds(expiration, now),
{
    if expiration <= now {
        return 0;
    }
    let remaining: u128 = expiration - now;
    let whole_seconds: u128 = remaining / NANOS_PER_SEC;
    let rounded_up: u128 = if remaining > whole_seconds * NANOS_PER_SEC {
        whole_seconds + 1
    } else {
        whole_seconds
    };
    if rounded_up > 65535 {
        65535
    } else {
        rounded_up as u16
    }
}

/// A refresh token as it is handed out: eight bytes, least significant first.
pub open spec fn token_bytes(token: u64) -> [u8; 8] {
    let s = vstd::bytes::spec_u64_to_le_bytes(token);
    [s[0], s[1], s[2], s[3], s[4], s[5], s[6], s[7]]
}

/// The refresh token that eight bytes stand for.
pub open spec fn token_of(bytes: [u8; 8]) -> u64 {
    vstd::bytes::spec_u64_from_le_bytes(bytes@)
}

/// A refresh token as it is handed out.
pub fn token_to_bytes(token: u64) -> (r: [u8; 8])
    ensures
        r == token_bytes(token),
{
    let v = vstd::bytes::u64_to_le_bytes(token);
    let r = [v[0], v[1], v[2], v[3], v[4], v[5], v[6], v[7]];
    assert(r =~= token_bytes(token));
    r
}

/// The refresh token that eight bytes stand for.
pub fn token_from_bytes(bytes: [u8; 8]) -> (r: u64)
    ensures
        r == token_of(bytes),
{
    vstd::bytes::u64_from_le_bytes(bytes.as_slice())
}

/// A token that was handed out is recognised.
pub proof fn token_round_trip(token: u64)
    ensures
        token_of(token_bytes(token)) == token,
{
    vstd::bytes::lemma_auto_spec_u64_to_from_le_bytes();
    assert(token_bytes(token)@ =~= vstd::bytes::spec_u64_to_le_bytes(token));
}

/// A granted lease: when it expires, and the token required to refresh it.
#[derive(Clone, Copy, Debug, PartialEq, Eq, Structural)]
pub struct Lease {
    pub expiration: Nanos,
    pub refresh_token: u64,
    /// The immediately previous token remains valid only for replaying a lost
    /// refresh response. A successful refresh replaces this replay slot.
    pub previous_refresh_token: Option<u64>,
}

/// The state of a leased resource.
#[derive(Clone, Copy, Debug, PartialEq, Eq, Structural)]
pub enum LeaseKind {
    /// An active lease.
    Active(Lease),
    /// Expired, but the key stays reserved until `clear_time` (the grace
    /// period) so it isn't reused while a stale peer might still use it.
    Tombstone { clear_time: Nanos },
}

/// Why a [`LeaseKind::refresh`] was rejected.
#[derive(Clone, Copy, Debug, PartialEq, Eq, Structural)]
pub enum RefreshDenied {
    /// Already expired (and now tombstoned).
    Expired,
    /// The presented refresh token doesn't match.
    BadToken,
    /// Too early to refresh.
    TooSoon,
}

/// Which of its tokens a lease was asked for.
#[derive(Clone, Copy, Debug, PartialEq, Eq, Structural)]
pub enum TokenMatch {
    Current,
    Replay,
}

impl LeaseKind {
    /// A fresh active lease expiring `secs` from `now`.
    pub open spec fn fresh(now: Nanos, secs: u16, token: u64) -> LeaseKind {
        LeaseKind::Active(
            Lease {
                expiration: later(now, secs),
                refresh_token: token,
                previous_refresh_token: None,
            },
        )
    }

    /// A fresh active lease expiring `secs` from `now`.
    pub fn active(now: Nanos, secs: u16, token: u64) -> (r: LeaseKind)
        ensures
            r == LeaseKind::fresh(now, secs, token),
    {
        LeaseKind::Active(
            Lease {
                expiration: time_after(now, secs),
                refresh_token: token,
                previous_refresh_token: None,
            },
        )
    }

    /// Whether this is an active lease that hasn't expired yet.
    pub open spec fn active_at(self, now: Nanos) -> bool {
        match self {
            LeaseKind::Active(lease) => lease.expiration > now,
            LeaseKind::Tombstone { clear_time } => false,
        }
    }

    /// `true` if this is an active lease that hasn't expired yet.
    pub fn is_active(&self, now: Nanos) -> (r: bool)
        ensures
            r == self.active_at(now),
    {
        match self {
            LeaseKind::Active(lease) => lease.expiration > now,
            LeaseKind::Tombstone { .. } => false,
        }
    }

    /// What is left of a lease at `now`: an expired active lease is a tombstone
    /// (grace anchored to the expiration), and of a tombstone whose grace period
    /// has elapsed nothing is left.
    pub open spec fn aged(self, now: Nanos) -> Option<LeaseKind> {
        match self {
            LeaseKind::Active(lease) => if now < lease.expiration {
                Some(self)
            } else if now < later(lease.expiration, TOMBSTONE_DURATION_SECS) {
                Some(
                    LeaseKind::Tombstone {
                        clear_time: later(lease.expiration, TOMBSTONE_DURATION_SECS),
                    },
                )
            } else {
                None
            },
            LeaseKind::Tombstone { clear_time } => if now < clear_time {
                Some(self)
            } else {
                None
            },
        }
    }

    /// An expired active lease becomes a tombstone, and a tombstone whose grace
    /// period has elapsed is to be dropped: then the result is `false`.
    pub fn gc_retain(&mut self, now: Nanos) -> (r: bool)
        ensures
            r == (old(self).aged(now) is Some),
            *final(self) == (match old(self).aged(now) {
                Some(kind) => kind,
                None => *old(self),
            }),
    {
        match *self {
            LeaseKind::Active(lease) => {
                if now >= lease.expiration {
                    let clear_time: Nanos = time_after(lease.expiration, TOMBSTONE_DURATION_SECS);
                    if now >= clear_time {
                        false
                    } else {
                        *self = LeaseKind::Tombstone { clear_time };
                        true
                    }
                } else {
                    true
                }
            },
            LeaseKind::Tombstone { clear_time } => clear_time > now,
        }
    }

    /// What a token is worth at `now`: the lease afterwards, and which of its
    /// tokens it was. A lease that is found to be expired becomes a tombstone.
    pub open spec fn validated(self, req_token: u64, now: Nanos, allow_replay: bool) -> (
        LeaseKind,
        Result<TokenMatch, RefreshDenied>,
    ) {
        match self {
            LeaseKind::Tombstone { clear_time } => (self, Err(RefreshDenied::Expired)),
            LeaseKind::Active(lease) => {
                let current = lease.refresh_token == req_token;
                let replay = allow_replay && lease.previous_refresh_token == Some(req_token);
                if !current && !replay {
                    (self, Err(RefreshDenied::BadToken))
                } else if now >= lease.expiration {
                    (
                        LeaseKind::Tombstone {
                            clear_time: later(lease.expiration, TOMBSTONE_DURATION_SECS),
                        },
                        Err(RefreshDenied::Expired),
                    )
                } else if current {
                    (self, Ok(TokenMatch::Current))
                } else {
                    (self, Ok(TokenMatch::Replay))
                }
            },
        }
    }

    /// Validate a current refresh token or, when enabled, the immediately
    /// previous token used to replay a lost response.
    pub fn validate_token(&mut self, req_token: u64, now: Nanos, allow_replay: bool) -> (r: Result<
        TokenMatch,
        RefreshDenied,
    >)
        ensures
            (*final(self), r) == old(self).validated(req_token, now, allow_replay),
    {
        let lease = match *self {
            LeaseKind::Tombstone { .. } => {
                return Err(RefreshDenied::Expired);
            },
            LeaseKind::Active(lease) => lease,
        };
        let replay = match lease.previous_refresh_token {
            Some(previous) => allow_replay && previous == req_token,
            None => false,
        };
        let token_match = if lease.refresh_token == req_token {
            TokenMatch::Current
        } else if replay {
            TokenMatch::Replay
        } else {
            return Err(RefreshDenied::BadToken);
        };
        if now >= lease.expiration {
            *self =
            LeaseKind::Tombstone {
                clear_time: time_after(lease.expiration, TOMBSTONE_DURATION_SECS),
            };
            return Err(RefreshDenied::Expired);
        }
        Ok(token_match)
    }

    /// What a refresh does: the lease afterwards, and either the lease as it
    /// stands with whether this was a replay, or why it was denied.
    ///
    /// - The previous token replays: the lease is not touched.
    /// - The current token extends the lease to [`MAX_LEASE_SECS`] from `now`,
    ///   and `new_token` takes its place, but only once less than
    ///   [`MIN_REFRESH_SECS`] are left.
    pub open spec fn refreshed(
        self,
        req_token: u64,
        now: Nanos,
        new_token: u64,
        allow_replay: bool,
    ) -> (LeaseKind, Result<(Lease, bool), RefreshDenied>) {
        let (kind, checked) = self.validated(req_token, now, allow_replay);
        match (kind, checked) {
            (LeaseKind::Active(lease), Ok(TokenMatch::Replay)) => (kind, Ok((lease, true))),
            (LeaseKind::Active(lease), Ok(TokenMatch::Current)) => if lease.expiration - now
                >= MIN_REFRESH_SECS * NANOS_PER_SEC {
                (kind, Err(RefreshDenied::TooSoon))
            } else {
                let renewed = Lease {
                    expiration: later(now, MAX_LEASE_SECS),
                    refresh_token: new_token,
                    previous_refresh_token: if allow_replay {
                        Some(lease.refresh_token)
                    } else {
                        None
                    },
                };
                (LeaseKind::Active(renewed), Ok((renewed, false)))
            },
            (_, Err(denied)) => (kind, Err(denied)),
            _ => (kind, Err(RefreshDenied::Expired)),
        }
    }

    /// Refresh an active lease: verify the token, reject if expired (tombstoning
    /// it) or too soon, otherwise extend to [`MAX_LEASE_SECS`] and rotate the
    /// token to `new_token`. Returns the renewed lease and whether this was an
    /// idempotent replay rather than a new extension.
    pub fn refresh(&mut self, req_token: u64, now: Nanos, new_token: u64, allow_replay: bool) -> (r:
        Result<(Lease, bool), RefreshDenied>)
        ensures
            (*final(self), r) == old(self).refreshed(req_token, now, new_token, allow_replay),
    {
        let token_match = match self.validate_token(req_token, now, allow_replay) {
            Ok(token_match) => token_match,
            Err(denied) => {
                return Err(denied);
            },
        };
        let mut lease = match *self {
            LeaseKind::Active(lease) => lease,
            LeaseKind::Tombstone { .. } => {
                return Err(RefreshDenied::Expired);
            },
        };
        if token_match == TokenMatch::Replay {
            return Ok((lease, true));
        }
        if lease.expiration - now >= (MIN_REFRESH_SECS as u128) * NANOS_PER_SEC {
            return Err(RefreshDenied::TooSoon);
        }
        lease.expiration = time_after(now, MAX_LEASE_SECS);
        lease.previous_refresh_token =
        if allow_replay {
            Some(lease.refresh_token)
        } else {
            None
        };
        lease.refresh_token = new_token;
        *self = LeaseKind::Active(lease);
        Ok((lease, false))
    }
}

/// A refresh whose response was lost can be repeated: presenting the same
/// token again, before the lease expires, gives the renewed lease as it stands
/// and does not extend it.
pub proof fn refresh_replay_is_idempotent(
    kind: LeaseKind,
    token: u64,
    now: Nanos,
    new_token: u64,
    now2: Nanos,
    other_token: u64,
)
    requires
        kind.refreshed(token, now, new_token, true).1 is Ok,
        now2 < (kind.refreshed(token, now, new_token, true).1->Ok_0).0.expiration,
        kind matches LeaseKind::Active(lease) && lease.refresh_token == token,
        token != new_token,
    ensures
        ({
            let (kind1, r1) = kind.refreshed(token, now, new_token, true);
            let (kind2, r2) = kind1.refreshed(token, now2, other_token, true);
            &&& kind2 == kind1
            &&& r2 == Ok::<(Lease, bool), RefreshDenied>(((r1->Ok_0).0, true))
        }),
{
}

/// A refresh changes the token: afterwards neither the old token nor any other
/// one but the new token extends the lease.
pub proof fn refresh_rotates_token(
    kind: LeaseKind,
    token: u64,
    now: Nanos,
    new_token: u64,
    now2: Nanos,
    presented: u64,
    next_token: u64,
)
    requires
        kind.refreshed(token, now, new_token, true).1 matches Ok((_, replayed)) && !replayed,
        presented != new_token,
    ensures
        kind.refreshed(token, now, new_token, true).0.refreshed(
            presented,
            now2,
            next_token,
            true,
        ).1 matches Ok((_, replayed)) ==> replayed && presented == token,
{
}

/// A lease that was just refreshed cannot be refreshed again at once: the
/// renewed lease has more than [`MIN_REFRESH_SECS`] left.
pub proof fn refresh_is_paced(
    kind: LeaseKind,
    token: u64,
    now: Nanos,
    new_token: u64,
    now2: Nanos,
    next_token: u64,
)
    requires
        kind.refreshed(token, now, new_token, true).1 matches Ok((_, replayed)) && !replayed,
        now <= now2 <= now + (MAX_LEASE_SECS - MIN_REFRESH_SECS) * NANOS_PER_SEC,
        now + MAX_LEASE_SECS * NANOS_PER_SEC <= u128::MAX,
    ensures
        kind.refreshed(token, now, new_token, true).0.refreshed(new_token, now2, next_token, true).1
            == Err::<(Lease, bool), _>(RefreshDenied::TooSoon),
{
}

/// Once a lease has expired it is never active again, whatever it is asked.
pub proof fn tombstones_stay_dead(
    clear_time: Nanos,
    now: Nanos,
    token: u64,
    new_token: u64,
    allow_replay: bool,
)
    ensures
        ({
            let dead = LeaseKind::Tombstone { clear_time };
            &&& !dead.active_at(now)
            &&& dead.validated(token, now, allow_replay) == (
                dead,
                Err::<TokenMatch, _>(RefreshDenied::Expired),
            )
            &&& dead.refreshed(token, now, new_token, allow_replay) == (
                dead,
                Err::<(Lease, bool), _>(RefreshDenied::Expired),
            )
            &&& dead.aged(now) matches Some(kind) ==> kind == dead
        }),
{
}

/// An expired lease keeps its key reserved for the whole grace period and not
/// a moment longer.
pub proof fn grace_period(lease: Lease, now: Nanos)
    requires
        lease.expiration <= now,
        lease.expiration + TOMBSTONE_DURATION_SECS * NANOS_PER_SEC <= u128::MAX,
    ensures
        LeaseKind::Active(lease).aged(now) is Some <==> now < lease.expiration
            + TOMBSTONE_DURATION_SECS * NANOS_PER_SEC,
        LeaseKind::Active(lease).aged(now) matches Some(kind) ==> kind is Tombstone,
{
}

/// Looking at a lease early and late is the same as looking at it late.
pub proof fn aging_composes(kind: LeaseKind, now: Nanos, now2: Nanos)
    requires
        now <= now2,
    ensures
        match kind.aged(now) {
            Some(kind1) => kind1.aged(now2) == kind.aged(now2),
            None => kind.aged(now2) is None,
        },
{
}

} // verus!
