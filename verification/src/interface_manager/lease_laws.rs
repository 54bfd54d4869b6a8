//! What the holder of a lease can rely on, told by the clock: how long a lease
//! runs, when it can be refreshed and by which token, and how long its key stays
//! reserved.

use vstd::prelude::*;
use crate::interface_manager::lease_table;
use crate::interface_manager::lease_table::LeaseEntry;
use crate::interface_manager::leases;
use crate::interface_manager::leases::{Lease, LeaseKind, Nanos, RefreshDenied, TokenMatch};

verus! {

/// A second, in nanoseconds.
pub open spec fn second() -> int {
    1_000_000_000
}

/// `secs` seconds after `now`, or the end of time if that comes first.
pub open spec fn after(now: Nanos, secs: int) -> int {
    if now + secs * second() <= u128::MAX {
        now + secs * second()
    } else {
        u128::MAX as int
    }
}

/// Whether a lease is held: it is active and has not expired.
pub open spec fn running(kind: LeaseKind, now: Nanos) -> bool {
    kind matches LeaseKind::Active(lease) && now < lease.expiration
}

/// When the key of a lease is free again: half a minute after the lease expires.
pub open spec fn free_from(kind: LeaseKind) -> int {
    match kind {
        LeaseKind::Active(lease) => after(lease.expiration, 30),
        LeaseKind::Tombstone { clear_time } => clear_time as int,
    }
}

/// Whether the key of a lease is taken: the lease is held, or its grace period is
/// not over.
pub open spec fn taken(kind: LeaseKind, now: Nanos) -> bool {
    running(kind, now) || now < free_from(kind)
}

/// Times add up to the end of time and no further.
pub proof fn later_is_after(now: Nanos, secs: u16)
    ensures
        leases::later(now, secs) == after(now, secs as int),
        now <= leases::later(now, secs),
{
    assert(secs * leases::NANOS_PER_SEC == secs * second());
}

/// The seconds that the holder of a lease is told are enough and no more than
/// needed: waiting them out reaches the expiration, one fewer does not.
pub proof fn remaining_seconds_are_rounded_up(expiration: Nanos, now: Nanos)
    ensures
        ({
            let r = leases::remaining_seconds(expiration, now);
            &&& expiration <= now <==> r == 0
            &&& expiration > now ==> (r - 1) * second() < expiration - now
            &&& expiration - now <= 65535 * second() ==> expiration - now <= r * second()
            &&& expiration - now > 65535 * second() ==> r == 65535
        }),
{
    if expiration > now {
        let left = expiration - now;
        let up = (left + second() - 1) / second();
        assert(second() == leases::NANOS_PER_SEC as int);
        assert((up - 1) * second() < left <= up * second()) by (nonlinear_arith)
            requires
                up == (left + second() - 1) / second(),
                second() == 1_000_000_000,
                left > 0,
        ;
        if up > 65535 {
            assert(65534 * second() < left) by (nonlinear_arith)
                requires
                    (up - 1) * second() < left,
                    up > 65535,
                    second() == 1_000_000_000,
            ;
            assert(!(left <= 65535 * second())) by (nonlinear_arith)
                requires
                    (up - 1) * second() < left,
                    up > 65535,
                    second() == 1_000_000_000,
            ;
        } else if left > 65535 * second() {
            assert(false) by (nonlinear_arith)
                requires
                    left <= up * second(),
                    up <= 65535,
                    left > 65535 * second(),
                    second() == 1_000_000_000,
            ;
        }
    }
}

/// A lease that was just granted runs for as long as it was granted.
pub proof fn granted_leases_run(now: Nanos, secs: u16, token: u64, now2: Nanos)
    ensures
        running(LeaseKind::fresh(now, secs, token), now2) <==> now2 < after(now, secs as int),
        LeaseKind::fresh(now, secs, token) matches LeaseKind::Active(lease)
            && lease.refresh_token == token && lease.previous_refresh_token is None,
{
    later_is_after(now, secs);
}

/// Who asks whether a lease is held gets the truth.
pub proof fn held_leases_are_active(kind: LeaseKind, now: Nanos)
    ensures
        kind.active_at(now) <==> running(kind, now),
{
}

/// Time alone does nothing to a lease that is held. One that has expired keeps its
/// key, but nothing else, for the grace period, and then is gone.
pub proof fn time_takes_expired_leases(kind: LeaseKind, now: Nanos)
    ensures
        running(kind, now) ==> kind.aged(now) == Some(kind),
        kind.aged(now) is Some <==> taken(kind, now),
        taken(kind, now) && !running(kind, now) ==> (kind.aged(now) matches Some(
            LeaseKind::Tombstone { clear_time },
        ) && clear_time == free_from(kind)),
{
    if let LeaseKind::Active(lease) = kind {
        later_is_after(lease.expiration, 30);
    }
}

/// The current token refreshes a lease that is held and has less than 62 seconds
/// left, however often it was refreshed before: the lease then runs for two
/// minutes from now, by the new token. With more time left it is too soon, and
/// nothing changes.
pub proof fn current_token_refreshes(
    lease: Lease,
    now: Nanos,
    new_token: u64,
    allow_replay: bool,
)
    requires
        now < lease.expiration,
    ensures
        ({
            let kind = LeaseKind::Active(lease);
            let (after_kind, r) = kind.refreshed(lease.refresh_token, now, new_token, allow_replay);
            if lease.expiration - now < 62 * second() {
                &&& r matches Ok((renewed, replayed)) && {
                    &&& !replayed
                    &&& after_kind == LeaseKind::Active(renewed)
                    &&& renewed.refresh_token == new_token
                    &&& renewed.expiration == after(now, 120)
                    &&& renewed.previous_refresh_token == (if allow_replay {
                        Some(lease.refresh_token)
                    } else {
                        None
                    })
                }
            } else {
                after_kind == kind && r == Err::<(Lease, bool), _>(RefreshDenied::TooSoon)
            }
        }),
{
    later_is_after(now, 120);
}

/// The previous token of a lease that is held, where it may be presented again,
/// gets the lease as it stands. Without that it is as good as any wrong token.
pub proof fn previous_token_replays(
    lease: Lease,
    token: u64,
    now: Nanos,
    new_token: u64,
    allow_replay: bool,
)
    requires
        now < lease.expiration,
        lease.previous_refresh_token == Some(token),
        token != lease.refresh_token,
    ensures
        ({
            let kind = LeaseKind::Active(lease);
            kind.refreshed(token, now, new_token, allow_replay) == (
                kind,
                if allow_replay {
                    Ok((lease, true))
                } else {
                    Err(RefreshDenied::BadToken)
                },
            )
        }),
{
}

/// A token that is neither the current nor the previous one of a lease is
/// refused, whether the lease has expired or not, and changes nothing.
pub proof fn wrong_tokens_are_refused(
    lease: Lease,
    token: u64,
    now: Nanos,
    new_token: u64,
    allow_replay: bool,
)
    requires
        token != lease.refresh_token,
        lease.previous_refresh_token != Some(token),
    ensures
        ({
            let kind = LeaseKind::Active(lease);
            &&& kind.refreshed(token, now, new_token, allow_replay) == (
                kind,
                Err::<(Lease, bool), _>(RefreshDenied::BadToken),
            )
            &&& kind.validated(token, now, allow_replay) == (
                kind,
                Err::<TokenMatch, _>(RefreshDenied::BadToken),
            )
        }),
{
}

/// A lease that has expired cannot be refreshed by any token. Presenting a good
/// one lets the lease go, with its key reserved for the grace period.
pub proof fn expired_leases_stay_expired(
    kind: LeaseKind,
    token: u64,
    now: Nanos,
    new_token: u64,
    allow_replay: bool,
)
    requires
        !running(kind, now),
    ensures
        kind.refreshed(token, now, new_token, allow_replay).1 is Err,
        kind.validated(token, now, allow_replay).1 is Err,
        !running(kind.refreshed(token, now, new_token, allow_replay).0, now),
        free_from(kind.refreshed(token, now, new_token, allow_replay).0) == free_from(kind),
        free_from(kind.validated(token, now, allow_replay).0) == free_from(kind),
        kind is Tombstone ==> {
            &&& kind.refreshed(token, now, new_token, allow_replay) == (
                kind,
                Err::<(Lease, bool), _>(RefreshDenied::Expired),
            )
            &&& kind.validated(token, now, allow_replay) == (
                kind,
                Err::<TokenMatch, _>(RefreshDenied::Expired),
            )
        },
        kind matches LeaseKind::Active(lease) ==> (token == lease.refresh_token ==> {
            &&& kind.refreshed(token, now, new_token, allow_replay).1 == Err::<(Lease, bool), _>(
                RefreshDenied::Expired,
            )
            &&& kind.validated(token, now, allow_replay).1 == Err::<TokenMatch, _>(
                RefreshDenied::Expired,
            )
        }),
{
    if let LeaseKind::Active(lease) = kind {
        later_is_after(lease.expiration, 30);
    }
}

/// The tokens of a lease that is held are told apart: the current one, and the
/// previous one where it may be presented again. Looking changes nothing.
pub proof fn held_leases_know_their_tokens(
    lease: Lease,
    token: u64,
    now: Nanos,
    allow_replay: bool,
)
    requires
        now < lease.expiration,
    ensures
        LeaseKind::Active(lease).validated(token, now, allow_replay) == (
            LeaseKind::Active(lease),
            if token == lease.refresh_token {
                Ok(TokenMatch::Current)
            } else if allow_replay && lease.previous_refresh_token == Some(token) {
                Ok(TokenMatch::Replay)
            } else {
                Err(RefreshDenied::BadToken)
            },
        ),
{
}

/// What time leaves of a table: every entry whose key is taken, in the same
/// order, with the same key, segment and payload. Those that are held stay as
/// they are; of the others only the key is left. Nothing else is in the table.
pub proof fn tables_lose_what_is_free<K, X>(s: Seq<LeaseEntry<K, X>>, now: Nanos)
    ensures
        ({
            let t = lease_table::table_aged(s, now);
            let kept = s.filter(|e: LeaseEntry<K, X>| taken(e.kind, now));
            &&& t.len() == kept.len()
            &&& forall|i: int|
                0 <= i < t.len() ==> {
                    let e = #[trigger] t[i];
                    &&& e.key == kept[i].key
                    &&& e.scope == kept[i].scope
                    &&& e.extra == kept[i].extra
                    &&& if running(kept[i].kind, now) {
                        e.kind == kept[i].kind
                    } else {
                        e.kind matches LeaseKind::Tombstone { clear_time } && clear_time
                            == free_from(kept[i].kind)
                    }
                }
        }),
{
    let f = lease_table::entry_aged::<K, X>(now);
    let t = lease_table::table_aged(s, now);
    let some = |e: LeaseEntry<K, X>| f(e) is Some;
    let p = |e: LeaseEntry<K, X>| taken(e.kind, now);
    lease_table::retained_is_filter(s, f);
    assert forall|e: LeaseEntry<K, X>| #[trigger] some(e) == p(e) by {
        time_takes_expired_leases(e.kind, now);
    }
    assert(some =~= p);
    let kept = s.filter(p);
    assert(t == kept.map_values(|e: LeaseEntry<K, X>| f(e)->0));
    assert forall|i: int| 0 <= i < t.len() implies ({
        let e = #[trigger] t[i];
        &&& e.key == kept[i].key
        &&& e.scope == kept[i].scope
        &&& e.extra == kept[i].extra
        &&& if running(kept[i].kind, now) {
            e.kind == kept[i].kind
        } else {
            e.kind matches LeaseKind::Tombstone { clear_time } && clear_time == free_from(
                kept[i].kind,
            )
        }
    }) by {
        s.lemma_filter_pred(p, i);
        assert(p(kept[i]));
        time_takes_expired_leases(kept[i].kind, now);
    }
}

/// A token is handed out, and read again, lowest byte first.
pub proof fn tokens_come_lowest_byte_first(token: u64, bytes: [u8; 8])
    ensures
        leases::token_bytes(token)@ == vstd::bytes::spec_u64_to_le_bytes(token),
        leases::token_of(bytes) == vstd::bytes::spec_u64_from_le_bytes(bytes@),
{
    vstd::bytes::lemma_auto_spec_u64_to_from_le_bytes();
    assert(leases::token_bytes(token)@ =~= vstd::bytes::spec_u64_to_le_bytes(token));
}

} // verus!
