//! Who gets a node_id on a bus, and who keeps it, told by what is claimed there.

use vstd::prelude::*;
use crate::interface_manager::lease_laws::{after, running, second, taken};
use crate::interface_manager::lease_laws as lease;
use crate::interface_manager::lease_table;
use crate::interface_manager::lease_table::LeaseEntry;
use crate::interface_manager::leases;
use crate::interface_manager::leases::{LeaseKind, Nanos};
use crate::interface_manager::profiles::router_model as model;
use crate::interface_manager::profiles::router_model::RouterView;
use crate::interface_manager::{
    AddressClaimError, AddressRefreshError, Interface, NodeClaimAssignment,
};

verus! {

/// The entry at `k` is about this node_id on this bus.
pub open spec fn about<I: Interface>(v: RouterView<I>, net_id: u16, node_id: u8, k: int) -> bool {
    0 <= k < v.claims.len() && v.claims[k].key == node_id && v.claims[k].scope == net_id
}

/// How many entries of a table are taken.
pub open spec fn taken_count<K, X>(entries: Seq<LeaseEntry<K, X>>, now: Nanos) -> nat {
    entries.filter(|e: LeaseEntry<K, X>| taken(e.kind, now)).len()
}

/// A bus of this router.
pub open spec fn is_bus<I: Interface>(v: RouterView<I>, net_id: u16) -> bool {
    net_id != 0 && exists|i: int| 0 <= i < v.slots.len() && (#[trigger] v.slots[i]).net_id == net_id
}

/// Everything but the claims is as before.
pub open spec fn only_claims_changed<I: Interface>(v: RouterView<I>, v2: RouterView<I>) -> bool {
    v2.slots == v.slots && v2.seeds == v.seeds && v2.upstream == v.upstream
}

/// Nobody gets a reserved node_id, nor a node_id on a bus that does not exist.
pub proof fn some_claims_are_refused<I: Interface>(
    v: RouterView<I>,
    net_id: u16,
    node_id: u8,
    nonce: u64,
    cap: nat,
    now: Nanos,
    token: u64,
)
    ensures
        ({
            let (v2, r) = model::claimed(v, net_id, node_id, nonce, cap, now, token);
            let reserved = node_id == 0 || node_id == 1 || node_id == 2 || node_id == 255;
            &&& only_claims_changed(v, v2)
            &&& reserved ==> v2 == v && r == Err::<NodeClaimAssignment, _>(
                AddressClaimError::InvalidNodeId,
            )
            &&& !reserved && !is_bus(v, net_id) ==> r == Err::<NodeClaimAssignment, _>(
                AddressClaimError::UnknownSource,
            )
            &&& !reserved && is_bus(v, net_id) ==> r != Err::<NodeClaimAssignment, _>(
                AddressClaimError::InvalidNodeId,
            ) && r != Err::<NodeClaimAssignment, _>(AddressClaimError::UnknownSource)
        }),
{
}

/// Whoever asks first for a node_id that is free on a bus gets it, whatever is
/// claimed on other buses, as long as there is room for one more claim. It is
/// theirs for half a minute, by the token that they are told.
pub proof fn free_node_ids_are_granted<I: Interface>(
    v: RouterView<I>,
    net_id: u16,
    node_id: u8,
    nonce: u64,
    cap: nat,
    now: Nanos,
    token: u64,
    n: nat,
    s: nat,
)
    requires
        model::router_wf(v, n, s, cap),
        node_id != 0,
        node_id != 1,
        node_id != 2,
        node_id != 255,
        is_bus(v, net_id),
        forall|k: int| #[trigger] about(v, net_id, node_id, k) ==> !taken(v.claims[k].kind, now),
    ensures
        ({
            let (v2, r) = model::claimed(v, net_id, node_id, nonce, cap, now, token);
            if taken_count(v.claims, now) < cap {
                &&& r matches Ok(a) && {
                    &&& a.node_id == node_id
                    &&& a.net_id == net_id
                    &&& a.expires_seconds == 30
                    &&& a.max_refresh_seconds == 120
                    &&& a.min_refresh_seconds == 62
                    &&& a.refresh_token == leases::token_bytes(token)
                }
                &&& v2.claims.len() == taken_count(v.claims, now) + 1
                &&& v2.claims.drop_last() == lease_table::table_aged(v.claims, now)
                &&& v2.claims.last().key == node_id
                &&& v2.claims.last().scope == net_id
                &&& v2.claims.last().extra == nonce
                &&& v2.claims.last().kind matches LeaseKind::Active(l) && l.refresh_token == token
                    && l.previous_refresh_token is None && l.expiration == after(now, 30)
            } else {
                r == Err::<NodeClaimAssignment, _>(AddressClaimError::Exhausted)
            }
        }),
{
    let f = lease_table::entry_aged::<u8, u64>(now);
    assert forall|k: int|
        0 <= k < v.claims.len() && (#[trigger] v.claims[k]).key == node_id && v.claims[k].scope
            == net_id implies f(v.claims[k]) is None by {
        assert(about(v, net_id, node_id, k));
        lease::time_takes_expired_leases(v.claims[k].kind, now);
    }
    lease_table::lookup_after_pair(v.claims, f, node_id, net_id);
    lease::tables_lose_what_is_free(v.claims, now);
    lease::later_is_after(now, 30);
    lease_table::retained_members(v.claims, f);
    let v2 = model::claimed(v, net_id, node_id, nonce, cap, now, token).0;
    if taken_count(v.claims, now) < cap {
        assert(v2.claims.drop_last() =~= lease_table::table_aged(v.claims, now));
    }
}

/// While a node_id is taken on a bus, nobody else gets it there: only the device
/// that holds the claim, which it shows by its nonce, is given what it has.
pub proof fn taken_node_ids_are_not_granted<I: Interface>(
    v: RouterView<I>,
    net_id: u16,
    node_id: u8,
    nonce: u64,
    cap: nat,
    now: Nanos,
    token: u64,
    k: int,
    n: nat,
    s: nat,
    c: nat,
)
    requires
        model::router_wf(v, n, s, c),
        about(v, net_id, node_id, k),
        taken(v.claims[k].kind, now),
    ensures
        ({
            let (v2, r) = model::claimed(v, net_id, node_id, nonce, cap, now, token);
            &&& v2.claims == lease_table::table_aged(v.claims, now)
            &&& v2.claimed_at == v.claimed_at
            &&& if running(v.claims[k].kind, now) && v.claims[k].extra == nonce {
                r matches Ok(a) && v.claims[k].kind matches LeaseKind::Active(l) && {
                    &&& a.node_id == node_id
                    &&& a.net_id == net_id
                    &&& a.max_refresh_seconds == 120
                    &&& a.min_refresh_seconds == 62
                    &&& a.refresh_token == leases::token_bytes(l.refresh_token)
                    &&& l.expiration - now < 65536 * second() ==> a.expires_seconds * second()
                        <= l.expiration - now < (a.expires_seconds + 1) * second()
                }
            } else {
                r == Err::<NodeClaimAssignment, _>(AddressClaimError::Conflict)
            }
        }),
{
    let f = lease_table::entry_aged::<u8, u64>(now);
    let e = v.claims[k];
    assert(model::claim_wf(v.slots, e));
    lease::time_takes_expired_leases(e.kind, now);
    assert(f(e) is Some);
    lease_table::lookup_after_pair(v.claims, f, node_id, net_id);
    assert(lease_table::finds(
        lease_table::table_aged(v.claims, now),
        lease_table::about_pair(node_id, net_id),
        f(e)->0,
    ));
    if let LeaseKind::Active(l) = e.kind {
        if now < l.expiration {
            lemma_whole_seconds(l.expiration, now);
        }
    }
}

/// The seconds that a device is told are whole ones that it has.
proof fn lemma_whole_seconds(expiration: Nanos, now: Nanos)
    requires
        now < expiration,
    ensures
        expiration - now < 65536 * second() ==> model::whole_seconds(expiration, now) * second()
            <= expiration - now < (model::whole_seconds(expiration, now) + 1) * second(),
{
    let left = expiration - now;
    if left < 65536 * second() {
        let w = left / second();
        assert(w * second() <= left < (w + 1) * second() && 0 <= w < 65536) by (nonlinear_arith)
            requires
                w == left / second(),
                second() == 1_000_000_000,
                0 < left < 65536 * second(),
        ;
        assert(second() == leases::NANOS_PER_SEC as int);
    }
}

/// A node may send on a bus if it has one of the two roles of a point-to-point
/// link, or holds a claim on that very bus. Nobody else may.
pub proof fn holders_may_send<I: Interface>(
    v: RouterView<I>,
    net_id: u16,
    node_id: u8,
    now: Nanos,
    n: nat,
    s: nat,
    c: nat,
)
    requires
        model::router_wf(v, n, s, c),
    ensures
        model::node_claimed(v, net_id, node_id, now) <==> {
            ||| node_id == 1
            ||| node_id == 2
            ||| exists|k: int| #[trigger]
                about(v, net_id, node_id, k) && running(v.claims[k].kind, now)
        },
{
    let p = lease_table::about_pair::<u8, u64>(node_id, net_id);
    lease_table::first_where_none(v.claims, p);
    if let Some(i) = lease_table::first_where(v.claims, p) {
        assert(about(v, net_id, node_id, i));
        assert forall|k: int| #[trigger] about(v, net_id, node_id, k) implies k == i by {
            if k < i {
                assert(!(v.claims[k].key == v.claims[i].key && v.claims[k].scope
                    == v.claims[i].scope));
            } else if i < k {
                assert(!(v.claims[i].key == v.claims[k].key && v.claims[i].scope
                    == v.claims[k].scope));
            }
        }
    } else {
        assert forall|k: int| #[trigger] about(v, net_id, node_id, k) implies false by {
            assert(!p(v.claims[k]));
        }
    }
}

/// A claim that is nobody's cannot be refreshed.
pub proof fn unknown_claims_are_not_refreshed<I: Interface>(
    v: RouterView<I>,
    net_id: u16,
    node_id: u8,
    req_token: u64,
    now: Nanos,
    token: u64,
)
    requires
        forall|k: int| !#[trigger] about(v, net_id, node_id, k),
    ensures
        model::claim_refreshed(v, net_id, node_id, req_token, now, token) == (
            v,
            Err::<NodeClaimAssignment, _>(AddressRefreshError::UnknownNodeId),
        ),
{
    let p = lease_table::about_pair::<u8, u64>(node_id, net_id);
    lease_table::first_where_none(v.claims, p);
    if let Some(i) = lease_table::first_where(v.claims, p) {
        assert(about(v, net_id, node_id, i));
    }
}

/// Whoever holds a claim keeps it by refreshing it with its current token in its
/// last minute: it then runs for two minutes more, by the new token. Sooner is too
/// soon. The previous token gets the claim as it stands. Any other token is
/// refused, and an expired claim is not refreshed. No other claim is touched.
pub proof fn holders_keep_their_claims<I: Interface>(
    v: RouterView<I>,
    net_id: u16,
    node_id: u8,
    req_token: u64,
    now: Nanos,
    token: u64,
    k: int,
    n: nat,
    s: nat,
    c: nat,
)
    requires
        model::router_wf(v, n, s, c),
        about(v, net_id, node_id, k),
    ensures
        ({
            let (v2, r) = model::claim_refreshed(v, net_id, node_id, req_token, now, token);
            let e = v.claims[k];
            let e2 = v2.claims[k];
            &&& only_claims_changed(v, v2)
            &&& v2.claims.len() == v.claims.len()
            &&& forall|j: int|
                0 <= j < v.claims.len() && j != k ==> #[trigger] v2.claims[j] == v.claims[j]
            &&& e2 == (LeaseEntry { kind: e2.kind, ..e })
            &&& r matches Ok(a) ==> {
                &&& a.node_id == node_id
                &&& a.net_id == net_id
                &&& a.max_refresh_seconds == 120
                &&& a.min_refresh_seconds == 62
            }
            &&& match e.kind {
                LeaseKind::Tombstone { clear_time } => {
                    &&& e2 == e
                    &&& r == Err::<NodeClaimAssignment, _>(AddressRefreshError::AlreadyExpired)
                },
                LeaseKind::Active(l) => if req_token != l.refresh_token
                    && l.previous_refresh_token != Some(req_token) {
                    &&& e2 == e
                    &&& r == Err::<NodeClaimAssignment, _>(AddressRefreshError::BadRequest)
                } else if l.expiration <= now {
                    &&& !running(e2.kind, now)
                    &&& r == Err::<NodeClaimAssignment, _>(AddressRefreshError::AlreadyExpired)
                } else if req_token != l.refresh_token {
                    &&& e2 == e
                    &&& r matches Ok(a) && a.refresh_token == leases::token_bytes(l.refresh_token)
                        && a.expires_seconds == leases::remaining_seconds(l.expiration, now)
                } else if l.expiration - now >= 62 * second() {
                    &&& e2 == e
                    &&& r == Err::<NodeClaimAssignment, _>(AddressRefreshError::TooSoon)
                } else {
                    &&& r matches Ok(a) && a.refresh_token == leases::token_bytes(token)
                        && a.expires_seconds == 120
                    &&& e2.kind matches LeaseKind::Active(l2) && l2.refresh_token == token
                        && l2.previous_refresh_token == Some(l.refresh_token) && l2.expiration
                        == after(now, 120)
                },
            }
        }),
{
    let p = lease_table::about_pair::<u8, u64>(node_id, net_id);
    assert forall|j: int| 0 <= j < k implies !p(#[trigger] v.claims[j]) by {
        assert(!(v.claims[j].key == v.claims[k].key && v.claims[j].scope == v.claims[k].scope));
    }
    lease_table::first_where_is(v.claims, p, k);
    lease::later_is_after(now, 120);
}

/// A claim is new exactly if it is granted and becomes one more entry of the table.
pub proof fn new_claims_are_added<I: Interface>(
    v: RouterView<I>,
    net_id: u16,
    node_id: u8,
    nonce: u64,
    cap: nat,
    now: Nanos,
    token: u64,
)
    ensures
        ({
            let (v2, r) = model::claimed(v, net_id, node_id, nonce, cap, now, token);
            model::claim_is_new(v, net_id, node_id, nonce, cap, now) <==> r is Ok && v2.claims.len()
                == lease_table::table_aged(v.claims, now).len() + 1
        }),
{
}

/// Asking for a node_id that can be claimed brings the claims up to date, whether or not it
/// is granted. Nothing else happens to them if no new claim is granted.
pub proof fn asking_brings_claims_up_to_date<I: Interface>(
    v: RouterView<I>,
    net_id: u16,
    node_id: u8,
    nonce: u64,
    cap: nat,
    now: Nanos,
    token: u64,
)
    requires
        node_id != 0,
        node_id != 1,
        node_id != 2,
        node_id != 255,
    ensures
        ({
            let (v2, r) = model::claimed(v, net_id, node_id, nonce, cap, now, token);
            let current = lease_table::table_aged(v.claims, now);
            &&& v2.claims == current || v2.claims.drop_last() == current
            &&& r is Err ==> v2.claims == current && v2.claimed_at == v.claimed_at
        }),
{
    let v2 = model::claimed(v, net_id, node_id, nonce, cap, now, token).0;
    let current = lease_table::table_aged(v.claims, now);
    if v2.claims.len() == current.len() + 1 {
        assert(v2.claims.drop_last() =~= current);
    }
}

} // verus!
