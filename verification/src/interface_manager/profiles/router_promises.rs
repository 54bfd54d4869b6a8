//! What users of a router can rely on.

use vstd::prelude::*;
use crate::interface_manager::edge_port::CENTRAL_NODE_ID;
use crate::interface_manager::lease_table;
use crate::interface_manager::lease_table::LeaseEntry;
use crate::interface_manager::leases;
use crate::interface_manager::leases::{Lease, LeaseKind, Nanos, INITIAL_LEASE_SECS};
use crate::interface_manager::profiles::router_laws as laws;
use crate::interface_manager::profiles::router_model as model;
use crate::interface_manager::profiles::router_model::{
    Route, RouterView, SeedRoute, Slot, SEED_DELEGATION_REFRESH_MARGIN, UPSTREAM_IDENT,
};
use crate::interface_manager::{
    AddressClaimError, AddressRefreshError, DelegatedRefreshPreparation, Interface, InterfaceSendError, InterfaceState,
    NodeClaimAssignment, Payload, SeedAssignmentError, SeedLease, SeedNetAssignment,
    SeedRefreshError,
};
use crate::Header;

verus! {

// ---------------------------------------------------------------------------
// Sending
// ---------------------------------------------------------------------------
/// A frame with no hops left goes nowhere, and nothing changes.
pub proof fn expired_frames_stop<I: Interface>(
    before: RouterView<I>,
    after: RouterView<I>,
    hdr: Header,
    what: Payload,
    source: Option<u8>,
    now: Nanos,
    r: Result<(), InterfaceSendError>,
)
    requires
        model::sent(before, after, hdr, what, source, now, r),
        hdr.ttl == 0,
    ensures
        r == Err::<(), InterfaceSendError>(InterfaceSendError::TtlExpired),
        after == before,
{
}

/// The first slot of a well-formed router that has an ident is the only one.
proof fn lemma_ident_unique<I: Interface>(slots: Seq<Slot<I>>, n: nat, ident: u8, i: int)
    requires
        model::slots_wf(slots, n),
        0 <= i < slots.len(),
        slots[i].ident == ident,
    ensures
        model::slot_of_ident(slots, ident) == Some(i),
{
    let p = |s: Slot<I>| s.ident == ident;
    assert forall|j: int| 0 <= j < i implies !p(#[trigger] slots[j]) by {
        assert(slots[j].ident != slots[i].ident);
    }
    lease_table::first_where_is(slots, p, i);
}

/// The slot of a well-formed router that has a net_id is the only one.
proof fn lemma_net_unique<I: Interface>(slots: Seq<Slot<I>>, n: nat, net_id: u16, i: int)
    requires
        model::slots_wf(slots, n),
        0 <= i < slots.len(),
        slots[i].net_id == net_id,
        net_id != 0,
    ensures
        model::slot_of_net(slots, net_id) == Some(i),
{
    let p = |s: Slot<I>| s.net_id == net_id;
    assert forall|j: int| 0 <= j < i implies !p(#[trigger] slots[j]) by {
        assert(slots[j].net_id == slots[i].net_id ==> slots[j].net_id == 0);
    }
    lease_table::first_where_is(slots, p, i);
}

/// No frame is sent back to where it came from: the interface that it came in
/// on is not touched.
pub proof fn never_back_to_source<I: Interface>(
    before: RouterView<I>,
    after: RouterView<I>,
    hdr: Header,
    what: Payload,
    source: u8,
    now: Nanos,
    r: Result<(), InterfaceSendError>,
    n: nat,
    s: nat,
    c: nat,
)
    requires
        model::router_wf(before, n, s, c),
        model::sent(before, after, hdr, what, Some(source), now, r),
    ensures
        after.slots.len() == before.slots.len(),
        forall|i: int|
            0 <= i < before.slots.len() && (#[trigger] before.slots[i]).ident == source
                ==> after.slots[i] == before.slots[i],
        source == UPSTREAM_IDENT ==> after.upstream == before.upstream,
{
    if let Ok(h) = hdr.decremented() {
        if h.dst.port_id == 255 && !(what is Error) {
            if !(h.any_all is None) && !(before.slots.len() == 0 && before.upstream is None) {
                let legs = choose|legs: Seq<Option<Result<(), InterfaceSendError>>>|
                    {
                        &&& legs.len() == before.slots.len() + 1
                        &&& model::slot_legs(
                            before.slots,
                            after.slots,
                            h,
                            what,
                            Some(source),
                            legs,
                            before.slots.len(),
                        )
                        &&& model::upstream_leg(
                            before,
                            after.upstream,
                            h,
                            what,
                            Some(source),
                            legs.last(),
                        )
                        &&& #[trigger] model::legs_folded(legs) == model::legs_folded(legs)
                    };
                assert forall|i: int|
                    0 <= i < before.slots.len() && (#[trigger] before.slots[i]).ident
                        == source implies after.slots[i] == before.slots[i] by {
                    let leg = legs[i];
                }
            }
        } else {
            let v1 = model::found(before, h, Some(source), now).0;
            if let (_, Ok(Route::Slot(pos))) = model::found(before, h, Some(source), now) {
                lemma_route_avoids_source(v1, h, source, now, n, s, c, before, pos);
            }
        }
    }
}

/// The slot that a frame is routed to is not the one it came in on.
proof fn lemma_route_avoids_source<I: Interface>(
    v1: RouterView<I>,
    h: Header,
    source: u8,
    now: Nanos,
    n: nat,
    s: nat,
    c: nat,
    before: RouterView<I>,
    pos: usize,
)
    requires
        model::router_wf(before, n, s, c),
        v1.slots == before.slots,
        model::route(v1, h, Some(source), now) == Ok::<Route, InterfaceSendError>(
            Route::Slot(pos),
        ),
    ensures
        pos < before.slots.len(),
        before.slots[pos as int].ident != source,
{
    let net = h.dst.network_id;
    lease_table::first_where_none(v1.slots, |x: Slot<I>| x.net_id == net);
    if net != 0 && model::slot_of_net(v1.slots, net) is Some {
    } else {
        let k = lease_table::first_where(v1.seeds, lease_table::about_key(net))->0;
        let via = v1.seeds[k].extra.via_ident;
        lease_table::first_where_none(v1.slots, |x: Slot<I>| x.ident == via);
    }
}

/// Whether a leg of a broadcast succeeded.
pub open spec fn leg_good(leg: Option<Result<(), InterfaceSendError>>) -> bool {
    leg matches Some(Ok(_))
}

/// Whether a leg of a broadcast failed for a reason worth reporting.
pub open spec fn leg_failed(leg: Option<Result<(), InterfaceSendError>>) -> bool {
    leg matches Some(Err(e)) && model::genuine_failure(e)
}

/// Whether `i` is the last leg of a broadcast that failed for a reason worth
/// reporting.
pub open spec fn last_failed(legs: Seq<Option<Result<(), InterfaceSendError>>>, i: int) -> bool {
    &&& 0 <= i < legs.len()
    &&& leg_failed(legs[i])
    &&& forall|j: int| i < j < legs.len() ==> !leg_failed(#[trigger] legs[j])
}

/// A broadcast succeeds if any leg does. It reports the last genuine failure if
/// there was one and nothing succeeded, and "nobody there" only if there was
/// neither.
pub proof fn broadcast_outcome(
    legs: Seq<Option<Result<(), InterfaceSendError>>>,
    fallback: InterfaceSendError,
)
    ensures
        ({
            let r = model::broadcast_result(model::legs_folded(legs), fallback);
            &&& r is Ok <==> exists|i: int| 0 <= i < legs.len() && leg_good(#[trigger] legs[i])
            &&& (r is Err && exists|i: int| 0 <= i < legs.len() && leg_failed(#[trigger] legs[i]))
                ==> exists|i: int| #[trigger] last_failed(legs, i) && legs[i] == Some(r)
            &&& (r is Err && forall|i: int| 0 <= i < legs.len() ==> !leg_failed(#[trigger] legs[i]))
                ==> r == Err::<(), _>(fallback)
        }),
{
    lemma_legs_folded(legs);
}

proof fn lemma_legs_folded(legs: Seq<Option<Result<(), InterfaceSendError>>>)
    ensures
        model::legs_folded(legs).0 <==> exists|i: int|
            0 <= i < legs.len() && leg_good(#[trigger] legs[i]),
        match model::legs_folded(legs).1 {
            Some(e) => exists|i: int| #[trigger]
                last_failed(legs, i) && legs[i] == Some(Err::<(), _>(e)),
            None => forall|i: int| 0 <= i < legs.len() ==> !leg_failed(#[trigger] legs[i]),
        },
    decreases legs.len(),
{
    if legs.len() > 0 {
        let rest = legs.drop_last();
        lemma_legs_folded(rest);
        let last = legs.len() - 1;
        assert(legs[last] == legs.last());
        if model::legs_folded(rest).0 {
            let i = choose|i: int| 0 <= i < rest.len() && leg_good(#[trigger] rest[i]);
            assert(leg_good(legs[i]));
        }
        if exists|i: int| 0 <= i < legs.len() && leg_good(#[trigger] legs[i]) {
            let i = choose|i: int| 0 <= i < legs.len() && leg_good(#[trigger] legs[i]);
            if i < last {
                assert(leg_good(rest[i]));
            }
        }
        match model::legs_folded(legs).1 {
            Some(e) => {
                if leg_failed(legs.last()) {
                    assert(last_failed(legs, last));
                } else {
                    let i = choose|i: int| #[trigger]
                        last_failed(rest, i) && rest[i] == Some(Err::<(), _>(e));
                    assert forall|j: int| i < j < legs.len() implies !leg_failed(
                        #[trigger] legs[j],
                    ) by {
                        if j < last {
                            assert(!leg_failed(rest[j]));
                        }
                    }
                    assert(last_failed(legs, i));
                }
            },
            None => {
                assert forall|i: int| 0 <= i < legs.len() implies !leg_failed(
                    #[trigger] legs[i],
                ) by {
                    if i < last {
                        assert(!leg_failed(rest[i]));
                    }
                }
            },
        }
    }
}

// ---------------------------------------------------------------------------
// Numbering
// ---------------------------------------------------------------------------
/// A bridge never numbers its own segments.
pub proof fn bridges_do_not_number<I: Interface>(
    v: RouterView<I>,
    sink: I::Sink,
    source_net: u16,
    n: nat,
    s: nat,
    now: Nanos,
    token: u64,
)
    requires
        v.upstream is Some,
    ensures
        model::registered(v, sink, n, now) == (
            v,
            Err::<u8, model::RegisterError>(model::RegisterError::BridgeRequiresSeedAssignment),
        ),
        model::seed_assigned(v, source_net, s, now, token) == (
            v,
            Err::<SeedNetAssignment, _>(SeedAssignmentError::ProfileCantSeed),
        ),
{
}

/// A new interface gets a net_id that nothing else has, not even a route in its
/// grace period, and frames for it go out over the new interface.
pub proof fn registered_interface_is_reachable<I: Interface>(
    v: RouterView<I>,
    sink: I::Sink,
    hdr: Header,
    n: nat,
    s: nat,
    c: nat,
    now: Nanos,
    now2: Nanos,
)
    requires
        model::router_wf(v, n, s, c),
        model::registered(v, sink, n, now).1 is Ok,
        hdr.dst.network_id == model::registered(v, sink, n, now).0.slots.last().net_id,
        hdr.dst.node_id != CENTRAL_NODE_ID,
    ensures
        ({
            let (v2, r) = model::registered(v, sink, n, now);
            &&& v2.slots.last().ident == r->Ok_0
            &&& !model::net_in_use(model::with_seeds_aged(v, now), v2.slots.last().net_id)
            &&& model::route(v2, hdr, None, now2) == Ok::<Route, InterfaceSendError>(
                Route::Slot((v2.slots.len() - 1) as usize),
            )
        }),
{
    let (v2, r) = model::registered(v, sink, n, now);
    laws::register_keeps_wf(v, sink, now, n, s, c);
    laws::lowest_free_exists(model::with_seeds_aged(v, now));
    lemma_net_unique(v2.slots, n, hdr.dst.network_id, v2.slots.len() - 1);
}

/// A leased network is one that nothing else has, and as long as the lease
/// lasts frames for it go to the segment that asked for it.
pub proof fn leased_network_is_reachable<I: Interface>(
    v: RouterView<I>,
    source_net: u16,
    hdr: Header,
    n: nat,
    s: nat,
    c: nat,
    now: Nanos,
    now2: Nanos,
    token: u64,
)
    requires
        model::router_wf(v, n, s, c),
        model::seed_assigned(v, source_net, s, now, token).1 matches Ok(a) && hdr.dst.network_id
            == a.net_id,
        now2 < leases::later(now, INITIAL_LEASE_SECS),
    ensures
        ({
            let (v2, r) = model::seed_assigned(v, source_net, s, now, token);
            &&& !model::net_in_use(model::with_seeds_aged(v, now), hdr.dst.network_id)
            &&& model::route(v2, hdr, None, now2) matches Ok(Route::Slot(pos))
            &&& pos < v2.slots.len()
            &&& v2.slots[pos as int].net_id == source_net
        }),
{
    let v1 = model::with_seeds_aged(v, now);
    let (v2, r) = model::seed_assigned(v, source_net, s, now, token);
    let net = hdr.dst.network_id;
    model::aging_keeps_wf(v, now, n, s, c);
    laws::lowest_free_exists(v1);
    lease_table::first_where_none(v1.slots, |x: Slot<I>| x.net_id == source_net);
    let pos = model::slot_of_net(v1.slots, source_net)->0;
    lease_table::first_where_none(v2.slots, |x: Slot<I>| x.net_id == net);
    assert(model::slot_of_net(v2.slots, net) is None) by {
        if let Some(i) = model::slot_of_net(v2.slots, net) {
            assert(model::has_net(v1.slots, net));
        }
    }
    let last = v1.seeds.len() as int;
    let p = lease_table::about_key::<u16, SeedRoute>(net);
    assert forall|j: int| 0 <= j < last implies !p(#[trigger] v2.seeds[j]) by {
        assert(v2.seeds[j] == v1.seeds[j]);
    }
    lease_table::first_where_is(v2.seeds, p, last);
    lemma_ident_unique(v2.slots, n, v2.slots[pos].ident, pos);
    assert(pos < 255);
    assert(model::route(v2, hdr, None, now2) == Ok::<Route, InterfaceSendError>(
        Route::Slot(pos as usize),
    ));
}

/// An expired route keeps its network from being handed out again until its
/// grace period is over.
pub proof fn tombstones_reserve_their_net<I: Interface>(
    v: RouterView<I>,
    k: int,
    now: Nanos,
)
    requires
        0 <= k < v.seeds.len(),
        v.seeds[k].kind.aged(now) is Some,
    ensures
        model::lowest_free(model::with_seeds_aged(v, now)) != Some(v.seeds[k].key),
{
    let f = lease_table::entry_aged::<u16, SeedRoute>(now);
    let aged = lease_table::table_aged(v.seeds, now);
    lease_table::retained_members(v.seeds, f);
    assert(f(v.seeds[k]) is Some);
    let i = choose|i: int| 0 <= i < aged.len() && Some(#[trigger] aged[i]) == f(v.seeds[k]);
    assert(aged[i].key == v.seeds[k].key);
    let v1 = model::with_seeds_aged(v, now);
    assert(model::net_in_use(v1, v.seeds[k].key));
    laws::lowest_free_exists(v1);
}

/// Once an interface is gone, no active route leads through it, and no node
/// claim on its segment is left.
pub proof fn deregistered_interface_is_forgotten<I: Interface>(
    v: RouterView<I>,
    ident: u8,
    pos: int,
    node_id: u8,
    now: Nanos,
    now2: Nanos,
    n: nat,
    s: nat,
    c: nat,
)
    requires
        model::router_wf(v, n, s, c),
        0 <= pos < v.slots.len(),
        v.slots[pos].ident == ident,
        model::claimable(node_id),
    ensures
        ({
            let (v2, r) = model::deregistered(v, ident, now);
            &&& r is Ok
            &&& !model::has_ident(v2.slots, ident)
            &&& forall|k: int|
                0 <= k < v2.seeds.len() && (#[trigger] v2.seeds[k]).extra.via_ident == ident
                    ==> !v2.seeds[k].kind.active_at(now2)
            &&& !model::node_claimed(v2, v.slots[pos].net_id, node_id, now2)
        }),
{
    lemma_ident_unique(v.slots, n, ident, pos);
    let (v2, r) = model::deregistered(v, ident, now);
    let net = v.slots[pos].net_id;
    if model::has_ident(v2.slots, ident) {
        let i = choose|i: int| 0 <= i < v2.slots.len() && (#[trigger] v2.slots[i]).ident == ident;
        if i == pos {
            assert(v.slots[v.slots.len() - 1].ident == ident);
        } else {
            assert(v.slots[i].ident == ident);
        }
    }
    lease_table::dropped_scope_is_gone(v.claims, net);
    lease_table::first_where_none(
        v2.claims,
        lease_table::about_pair::<u8, u64>(node_id, net),
    );
}

/// Once an interface has another net_id, no node claim on its old segment is
/// left.
pub proof fn reassigned_interface_loses_claims<I: Interface>(
    v: RouterView<I>,
    ident: u8,
    pos: int,
    new_net_id: u16,
    node_id: u8,
    now: Nanos,
    n: nat,
    s: nat,
    c: nat,
)
    requires
        model::router_wf(v, n, s, c),
        0 <= pos < v.slots.len(),
        v.slots[pos].ident == ident,
        v.slots[pos].net_id != new_net_id,
        model::reassigned(v, ident, new_net_id).1 is Ok,
        model::claimable(node_id),
    ensures
        !model::node_claimed(
            model::reassigned(v, ident, new_net_id).0,
            v.slots[pos].net_id,
            node_id,
            now,
        ),
        model::reassigned(v, ident, new_net_id).0.slots[pos].port.state == (
        InterfaceState::Active { net_id: new_net_id, node_id: CENTRAL_NODE_ID }),
{
    lemma_ident_unique(v.slots, n, ident, pos);
    lease_table::dropped_scope_is_gone(v.claims, v.slots[pos].net_id);
    lease_table::first_where_none(
        model::reassigned(v, ident, new_net_id).0.claims,
        lease_table::about_pair::<u8, u64>(node_id, v.slots[pos].net_id),
    );
}

// ---------------------------------------------------------------------------
// Claims
// ---------------------------------------------------------------------------
/// A claim that was granted is valid on its own bus, until it expires, and on
/// no other.
pub proof fn granted_claim_is_valid<I: Interface>(
    v: RouterView<I>,
    source_net: u16,
    node_id: u8,
    nonce: u64,
    cap: nat,
    now: Nanos,
    token: u64,
    now2: Nanos,
)
    requires
        model::claim_is_new(v, source_net, node_id, nonce, cap, now),
    ensures
        ({
            let v2 = model::claimed(v, source_net, node_id, nonce, cap, now, token).0;
            model::node_claimed(v2, source_net, node_id, now2) <==> now2 < leases::later(
                now,
                INITIAL_LEASE_SECS,
            )
        }),
{
    let v1 = model::with_claims_aged(v, now);
    let v2 = model::claimed(v, source_net, node_id, nonce, cap, now, token).0;
    let p = lease_table::about_pair::<u8, u64>(node_id, source_net);
    lease_table::first_where_none(v1.claims, p);
    let last = v1.claims.len() as int;
    assert forall|j: int| 0 <= j < last implies !p(#[trigger] v2.claims[j]) by {
        assert(v2.claims[j] == v1.claims[j]);
    }
    lease_table::first_where_is(v2.claims, p, last);
}

/// The lease by which a node_id is claimed on a bus with this nonce, unless it
/// has been tombstoned.
pub open spec fn claim_lease<I: Interface>(
    v: RouterView<I>,
    net_id: u16,
    node_id: u8,
    nonce: u64,
) -> Option<Lease> {
    match lease_table::first_where(v.claims, lease_table::about_pair(node_id, net_id)) {
        Some(k) => match v.claims[k].kind {
            LeaseKind::Active(lease) => if v.claims[k].extra == nonce {
                Some(lease)
            } else {
                None
            },
            LeaseKind::Tombstone { clear_time } => None,
        },
        None => None,
    }
}

/// A claim that is granted, for the first time or again, is held by the lease
/// that the device is told of.
pub proof fn granted_claim_is_held<I: Interface>(
    v: RouterView<I>,
    source_net: u16,
    node_id: u8,
    nonce: u64,
    cap: nat,
    now: Nanos,
    token: u64,
)
    requires
        model::claimed(v, source_net, node_id, nonce, cap, now, token).1 is Ok,
    ensures
        ({
            let (v2, r) = model::claimed(v, source_net, node_id, nonce, cap, now, token);
            &&& claim_lease(v2, source_net, node_id, nonce) matches Some(lease) && {
                &&& now < lease.expiration || now == u128::MAX
                &&& r == Ok::<_, AddressClaimError>(
                    model::claim_assignment(
                        node_id,
                        source_net,
                        (r->Ok_0).expires_seconds,
                        lease.refresh_token,
                    ),
                )
                &&& model::whole_seconds(lease.expiration, now) <= (r->Ok_0).expires_seconds
            }
        }),
{
    let v1 = model::with_claims_aged(v, now);
    let p = lease_table::about_pair::<u8, u64>(node_id, source_net);
    lease_table::first_where_none(v1.claims, p);
    if model::claim_is_new(v, source_net, node_id, nonce, cap, now) {
        let v2 = model::claimed(v, source_net, node_id, nonce, cap, now, token).0;
        let last = v1.claims.len() as int;
        assert forall|j: int| 0 <= j < last implies !p(#[trigger] v2.claims[j]) by {
            assert(v2.claims[j] == v1.claims[j]);
        }
        lease_table::first_where_is(v2.claims, p, last);
    } else {
        let k = lease_table::first_where(v1.claims, p)->0;
        let f = lease_table::entry_aged::<u8, u64>(now);
        lease_table::retained_members(v.claims, f);
        let j = choose|j: int| 0 <= j < v.claims.len() && f(#[trigger] v.claims[j]) == Some(
            v1.claims[k],
        );
        assert(f(v.claims[j]) == Some(v1.claims[k]));
    }
}

/// A claim that has not expired stays as it is while other claims age.
proof fn lemma_claim_kept<I: Interface>(
    v: RouterView<I>,
    net_id: u16,
    node_id: u8,
    nonce: u64,
    now: Nanos,
)
    requires
        lease_table::unique_pairs(v.claims),
        claim_lease(v, net_id, node_id, nonce) matches Some(lease) && now < lease.expiration,
    ensures
        claim_lease(model::with_claims_aged(v, now), net_id, node_id, nonce) == claim_lease(
            v,
            net_id,
            node_id,
            nonce,
        ),
        model::with_claims_aged(v, now).claims.len() <= v.claims.len(),
{
    lease_table::kept_entry_is_found(v.claims, lease_table::entry_aged(now), node_id, net_id);
}

/// While a claim has not expired, a device that repeats it gets the assignment
/// that it has, and a device with another nonce is turned away. Either way no
/// further entry is used, and the node_id stays claimed by the same lease.
pub proof fn claims_are_exclusive<I: Interface>(
    v: RouterView<I>,
    net_id: u16,
    node_id: u8,
    nonce: u64,
    other_nonce: u64,
    lease: Lease,
    now: Nanos,
    token: u64,
    n: nat,
    s: nat,
    c: nat,
)
    requires
        model::router_wf(v, n, s, c),
        claim_lease(v, net_id, node_id, nonce) == Some(lease),
        now < lease.expiration,
        other_nonce != nonce,
    ensures
        ({
            let later = model::with_claims_aged(v, now);
            &&& model::claimed(v, net_id, node_id, nonce, c, now, token) == (
                later,
                Ok::<_, AddressClaimError>(
                    model::claim_assignment(
                        node_id,
                        net_id,
                        model::whole_seconds(lease.expiration, now),
                        lease.refresh_token,
                    ),
                ),
            )
            &&& model::claimed(v, net_id, node_id, other_nonce, c, now, token) == (
                later,
                Err::<NodeClaimAssignment, _>(AddressClaimError::Conflict),
            )
            &&& later.claims.len() <= v.claims.len()
            &&& claim_lease(later, net_id, node_id, nonce) == Some(lease)
            &&& model::node_claimed(later, net_id, node_id, now)
        }),
{
    let p = lease_table::about_pair::<u8, u64>(node_id, net_id);
    lease_table::first_where_none(v.claims, p);
    let k = lease_table::first_where(v.claims, p)->0;
    assert(model::claim_wf(v.slots, v.claims[k]));
    lemma_claim_kept(v, net_id, node_id, nonce, now);
    lease_table::first_where_none(model::with_claims_aged(v, now).claims, p);
}

/// A device that was granted a claim and repeats it before the claim expires
/// gets the same node_id, network and token, with no more seconds left than
/// before, if time does not run backwards. A device with another nonce is turned
/// away, and the node stays claimed.
pub proof fn repeated_claim_is_the_same<I: Interface>(
    v: RouterView<I>,
    net_id: u16,
    node_id: u8,
    nonce: u64,
    other_nonce: u64,
    now: Nanos,
    token: u64,
    now2: Nanos,
    token2: u64,
    n: nat,
    s: nat,
    c: nat,
)
    requires
        model::router_wf(v, n, s, c),
        v.claimed_at <= now <= now2,
        model::claimed(v, net_id, node_id, nonce, c, now, token).1 is Ok,
        claim_lease(
            model::claimed(v, net_id, node_id, nonce, c, now, token).0,
            net_id,
            node_id,
            nonce,
        ) matches Some(lease) && now2 < lease.expiration,
        other_nonce != nonce,
    ensures
        ({
            let (v2, first) = model::claimed(v, net_id, node_id, nonce, c, now, token);
            let (v3, again) = model::claimed(v2, net_id, node_id, nonce, c, now2, token2);
            let (v4, other) = model::claimed(v2, net_id, node_id, other_nonce, c, now2, token2);
            &&& first matches Ok(a) && again matches Ok(b) && {
                &&& b.node_id == node_id && a.node_id == node_id
                &&& b.net_id == net_id && a.net_id == net_id
                &&& b.refresh_token == a.refresh_token
                &&& b.expires_seconds <= a.expires_seconds
            }
            &&& other == Err::<NodeClaimAssignment, _>(AddressClaimError::Conflict)
            &&& v3.claims.len() <= v2.claims.len() && v4 == v3
            &&& model::node_claimed(v3, net_id, node_id, now2)
        }),
{
    let v2 = model::claimed(v, net_id, node_id, nonce, c, now, token).0;
    let lease = claim_lease(v2, net_id, node_id, nonce)->0;
    granted_claim_is_held(v, net_id, node_id, nonce, c, now, token);
    laws::claim_keeps_wf(v, net_id, node_id, nonce, 0, now, token, n, s, c);
    claims_are_exclusive(v2, net_id, node_id, nonce, other_nonce, lease, now2, token2, n, s, c);
    let p = lease_table::about_pair::<u8, u64>(node_id, net_id);
    lease_table::first_where_none(v2.claims, p);
    let k = lease_table::first_where(v2.claims, p)->0;
    assert(model::lease_timely(v2.claims[k].kind, v2.claimed_at));
    lemma_seconds_shrink(lease.expiration, now, now2);
}

/// The seconds that are left of a lease within the longest that is granted do
/// not grow as time passes.
proof fn lemma_seconds_shrink(expiration: Nanos, now: Nanos, now2: Nanos)
    requires
        now <= now2 < expiration,
        expiration <= leases::later(now, leases::MAX_LEASE_SECS),
    ensures
        model::whole_seconds(expiration, now2) <= model::whole_seconds(expiration, now),
{
    let second = leases::NANOS_PER_SEC as int;
    assert((expiration - now2) / second <= (expiration - now) / second <= 120) by (nonlinear_arith)
        requires
            second == 1000000000,
            0 <= expiration - now2 <= expiration - now <= 120 * second,
    ;
}

// ---------------------------------------------------------------------------
// Leases
// ---------------------------------------------------------------------------
/// A refresh whose response was lost can be repeated with the same token: the
/// second response carries the same new token, with the seconds that are left by
/// then, rounded up, and the lease is not extended again.
pub proof fn seed_refresh_retry<I: Interface>(
    v: RouterView<I>,
    source_net: u16,
    net_id: u16,
    token: u64,
    now: Nanos,
    new_token: u64,
    now2: Nanos,
    other_token: u64,
)
    requires
        model::seed_refreshed(v, source_net, net_id, token, now, new_token).1 is Ok,
        token != new_token,
        now <= now2,
        now2 < leases::later(now, leases::MAX_LEASE_SECS),
        lease_table::first_where(
            v.seeds,
            lease_table::about_pair(net_id, source_net),
        ) matches Some(k) && v.seeds[k].kind matches LeaseKind::Active(lease)
            && lease.refresh_token == token,
    ensures
        ({
            let (v1, r1) = model::seed_refreshed(v, source_net, net_id, token, now, new_token);
            let (v2, r2) = model::seed_refreshed(
                v1,
                source_net,
                net_id,
                token,
                now2,
                other_token,
            );
            &&& v2 == v1
            &&& r2 == Ok::<_, SeedRefreshError>(
                SeedNetAssignment {
                    expires_seconds: leases::remaining_seconds(
                        leases::later(now, leases::MAX_LEASE_SECS),
                        now2,
                    ),
                    ..r1->Ok_0
                },
            )
            &&& now2 == now && now + leases::MAX_LEASE_SECS * leases::NANOS_PER_SEC <= u128::MAX
                ==> r2 == r1
        }),
{
    let p = lease_table::about_pair::<u16, SeedRoute>(net_id, source_net);
    lease_table::first_where_none(v.seeds, p);
    let k = lease_table::first_where(v.seeds, p)->0;
    let (v1, r1) = model::seed_refreshed(v, source_net, net_id, token, now, new_token);
    assert forall|j: int| 0 <= j < k implies !p(#[trigger] v1.seeds[j]) by {
        assert(!p(v.seeds[j]));
    }
    lease_table::first_where_is(v1.seeds, p, k);
    let v2 = model::seed_refreshed(v1, source_net, net_id, token, now2, other_token).0;
    assert(v2.seeds =~= v1.seeds);
}

/// A refresh of a node claim whose response was lost can be repeated with the
/// same token: the second response carries the same new token, with the seconds
/// that are left by then, rounded up, and the claim is not extended again.
pub proof fn claim_refresh_retry<I: Interface>(
    v: RouterView<I>,
    source_net: u16,
    node_id: u8,
    token: u64,
    now: Nanos,
    new_token: u64,
    now2: Nanos,
    other_token: u64,
)
    requires
        model::claim_refreshed(v, source_net, node_id, token, now, new_token).1 is Ok,
        token != new_token,
        now <= now2,
        now2 < leases::later(now, leases::MAX_LEASE_SECS),
        lease_table::first_where(
            v.claims,
            lease_table::about_pair(node_id, source_net),
        ) matches Some(k) && v.claims[k].kind matches LeaseKind::Active(lease)
            && lease.refresh_token == token,
    ensures
        ({
            let (v1, r1) = model::claim_refreshed(v, source_net, node_id, token, now, new_token);
            let (v2, r2) = model::claim_refreshed(
                v1,
                source_net,
                node_id,
                token,
                now2,
                other_token,
            );
            &&& v2 == v1
            &&& r2 == Ok::<_, AddressRefreshError>(
                NodeClaimAssignment {
                    expires_seconds: leases::remaining_seconds(
                        leases::later(now, leases::MAX_LEASE_SECS),
                        now2,
                    ),
                    ..r1->Ok_0
                },
            )
            &&& now2 == now && now + leases::MAX_LEASE_SECS * leases::NANOS_PER_SEC <= u128::MAX
                ==> r2 == r1
        }),
{
    let p = lease_table::about_pair::<u8, u64>(node_id, source_net);
    lease_table::first_where_none(v.claims, p);
    let k = lease_table::first_where(v.claims, p)->0;
    let v1 = model::claim_refreshed(v, source_net, node_id, token, now, new_token).0;
    assert forall|j: int| 0 <= j < k implies !p(#[trigger] v1.claims[j]) by {
        assert(!p(v.claims[j]));
    }
    lease_table::first_where_is(v1.claims, p, k);
    let v2 = model::claim_refreshed(v1, source_net, node_id, token, now2, other_token).0;
    assert(v2.claims =~= v1.claims);
}

/// A released network is free at once.
pub proof fn released_network_is_free<I: Interface>(
    v: RouterView<I>,
    source_net: u16,
    net_id: u16,
    token: u64,
    now: Nanos,
    n: nat,
    s: nat,
    c: nat,
)
    requires
        model::router_wf(v, n, s, c),
        model::released(v, source_net, net_id, token, now).1 is Ok,
    ensures
        !lease_table::holds_key(
            model::released(v, source_net, net_id, token, now).0.seeds,
            net_id,
        ),
{
    let p = lease_table::about_pair::<u16, SeedRoute>(net_id, source_net);
    lease_table::first_where_none(v.seeds, p);
    let k = lease_table::first_where(v.seeds, p)->0;
    let f = lease_table::other_pair::<u16, SeedRoute>(net_id, source_net);
    let kept = lease_table::retained(v.seeds, f);
    lease_table::retained_members(v.seeds, f);
    if lease_table::holds_key(kept, net_id) {
        let i = choose|i: int| 0 <= i < kept.len() && (#[trigger] kept[i]).key == net_id;
        let j = choose|j: int| 0 <= j < v.seeds.len() && f(#[trigger] v.seeds[j]) == Some(kept[i]);
        assert(f(v.seeds[j]) is Some);
        assert(j != k);
        if j < k {
            assert(v.seeds[j].key != v.seeds[k].key);
        } else {
            assert(v.seeds[k].key != v.seeds[j].key);
        }
    }
}

/// Each hop of delegation has a refresh window smaller by the margin than the
/// one above it; where no window would be left, the hop is refused.
pub proof fn delegation_shrinks_the_window<I: Interface>(
    v: RouterView<I>,
    source_net: u16,
    parent: SeedLease,
    cap: nat,
    now: Nanos,
    token: u64,
)
    ensures
        model::delegation_registered(v, source_net, parent, cap, now, token).1 matches Ok(a) ==> {
            &&& a.net_id == parent.net_id
            &&& a.expires_seconds == parent.expires_seconds
            &&& 0 < a.min_refresh_seconds
            &&& a.min_refresh_seconds + SEED_DELEGATION_REFRESH_MARGIN
                == parent.min_refresh_seconds
        },
        parent.min_refresh_seconds <= SEED_DELEGATION_REFRESH_MARGIN
            ==> model::delegation_registered(v, source_net, parent, cap, now, token).1 is Err,
{
}

/// The segment `source_net` holds a passed-on route by the given token.
pub open spec fn held_by(
    e: LeaseEntry<u16, SeedRoute>,
    source_net: u16,
    net_id: u16,
    token: u64,
    now: Nanos,
    parent: SeedLease,
) -> bool {
    &&& e.key == net_id
    &&& e.scope == source_net
    &&& e.kind.active_at(now)
    &&& (e.kind->Active_0).refresh_token == token
    &&& e.extra.parent == Some(parent)
}

/// A request that is turned away leads to no traffic: the parent lease is only
/// given out for the current token of the segment that holds the route.
pub proof fn forwarding_needs_the_token<I: Interface>(
    v: RouterView<I>,
    source_net: u16,
    net_id: u16,
    token: u64,
    now: Nanos,
)
    ensures
        model::refresh_prepared(v, source_net, net_id, token, now).1 matches Ok(
            DelegatedRefreshPreparation::Forward(parent),
        ) ==> exists|k: int|
            0 <= k < model::with_seeds_aged(v, now).seeds.len() && held_by(
                #[trigger] model::with_seeds_aged(v, now).seeds[k],
                source_net,
                net_id,
                token,
                now,
                parent,
            ),
{
    let v1 = model::with_seeds_aged(v, now);
    lease_table::first_where_none(v1.seeds, lease_table::about_key(net_id));
    if let Some(k) = lease_table::first_where(v1.seeds, lease_table::about_key(net_id)) {
        assert(v1.seeds[k].key == net_id);
    }
}

/// The segment `source_net` holds the passed-on route for `net_id` by a lease,
/// on the strength of a parent lease.
pub open spec fn route_held<I: Interface>(
    v: RouterView<I>,
    source_net: u16,
    net_id: u16,
    lease: Lease,
    parent: SeedLease,
) -> bool {
    lease_table::first_where(v.seeds, lease_table::about_key(net_id)) matches Some(k) && {
        &&& v.seeds[k].scope == source_net
        &&& v.seeds[k].kind == LeaseKind::Active(lease)
        &&& v.seeds[k].extra.parent == Some(parent)
    }
}

/// Once a refresh that the parent router granted is committed, the route is held
/// by the new token on the strength of the new parent lease, and the token that
/// was presented is the previous one.
pub proof fn committed_refresh_is_held<I: Interface>(
    v: RouterView<I>,
    source_net: u16,
    token: u64,
    parent: SeedLease,
    now: Nanos,
    new_token: u64,
    n: nat,
    s: nat,
    c: nat,
)
    requires
        model::router_wf(v, n, s, c),
        model::refresh_committed(v, source_net, token, parent, now, new_token).1 is Ok,
    ensures
        model::refresh_committed(v, source_net, token, parent, now, new_token).1 == Ok::<
            _,
            SeedRefreshError,
        >(model::delegated(parent, new_token, parent.expires_seconds)),
        route_held(
            model::refresh_committed(v, source_net, token, parent, now, new_token).0,
            source_net,
            parent.net_id,
            (Lease {
                expiration: leases::later(now, parent.expires_seconds),
                refresh_token: new_token,
                previous_refresh_token: Some(token),
            }),
            parent,
        ),
{
    let p = lease_table::about_pair::<u16, SeedRoute>(parent.net_id, source_net);
    let q = lease_table::about_key::<u16, SeedRoute>(parent.net_id);
    let v1 = model::refresh_committed(v, source_net, token, parent, now, new_token).0;
    lease_table::first_where_none(v.seeds, p);
    let k = lease_table::first_where(v.seeds, p)->0;
    assert forall|j: int| 0 <= j < k implies !q(#[trigger] v1.seeds[j]) by {
        assert(v.seeds[j].key != v.seeds[k].key);
    }
    lease_table::first_where_is(v1.seeds, q, k);
}

/// While a passed-on route is held, however often it is asked for: the previous
/// token replays the last response with the seconds that are left, the current
/// one leads to the parent lease, any other token and any other segment are
/// refused, and the route stays as it is.
pub proof fn delegated_refresh_answers<I: Interface>(
    v: RouterView<I>,
    source_net: u16,
    net_id: u16,
    lease: Lease,
    parent: SeedLease,
    token: u64,
    other_net: u16,
    now: Nanos,
    n: nat,
    s: nat,
    c: nat,
)
    requires
        model::router_wf(v, n, s, c),
        route_held(v, source_net, net_id, lease, parent),
        now < lease.expiration,
        other_net != source_net,
    ensures
        model::refresh_prepared(v, source_net, net_id, token, now) == (
            model::with_seeds_aged(v, now),
            if token == lease.refresh_token {
                Ok::<_, SeedRefreshError>(DelegatedRefreshPreparation::Forward(parent))
            } else if lease.previous_refresh_token == Some(token) {
                Ok(
                    DelegatedRefreshPreparation::Replay(
                        model::delegated(
                            parent,
                            lease.refresh_token,
                            leases::remaining_seconds(lease.expiration, now),
                        ),
                    ),
                )
            } else {
                Err(SeedRefreshError::BadRequest)
            },
        ),
        model::refresh_prepared(v, other_net, net_id, token, now) == (
            model::with_seeds_aged(v, now),
            Err::<DelegatedRefreshPreparation, _>(SeedRefreshError::BadRequest),
        ),
        route_held(model::with_seeds_aged(v, now), source_net, net_id, lease, parent),
        model::router_wf(model::with_seeds_aged(v, now), n, s, c),
{
    let q = lease_table::about_key::<u16, SeedRoute>(net_id);
    let v1 = model::with_seeds_aged(v, now);
    lease_table::first_where_none(v.seeds, q);
    lease_table::kept_key_is_found(v.seeds, lease_table::entry_aged(now), net_id);
    lease_table::first_where_none(v1.seeds, q);
    let k = lease_table::first_where(v1.seeds, q)->0;
    assert(v1.seeds.update(k, v1.seeds[k]) =~= v1.seeds);
    model::aging_keeps_wf(v, now, n, s, c);
}

/// After a refresh was committed, and until the lease expires, the token that was
/// presented replays the response, with no more seconds left than it said; the
/// new token leads to the new parent lease; any other token and any other segment
/// are refused. None of these changes the route.
pub proof fn committed_refresh_answers<I: Interface>(
    v: RouterView<I>,
    source_net: u16,
    token: u64,
    parent: SeedLease,
    now: Nanos,
    new_token: u64,
    third_token: u64,
    other_net: u16,
    now2: Nanos,
    n: nat,
    s: nat,
    c: nat,
)
    requires
        model::router_wf(v, n, s, c),
        model::refresh_committed(v, source_net, token, parent, now, new_token).1 is Ok,
        token != new_token,
        third_token != token,
        third_token != new_token,
        other_net != source_net,
        now <= now2,
        now2 < leases::later(now, parent.expires_seconds),
    ensures
        ({
            let (v1, r) = model::refresh_committed(
                v,
                source_net,
                token,
                parent,
                now,
                new_token,
            );
            let v2 = model::with_seeds_aged(v1, now2);
            let lease = Lease {
                expiration: leases::later(now, parent.expires_seconds),
                refresh_token: new_token,
                previous_refresh_token: Some(token),
            };
            let (v3, replayed) = model::refresh_prepared(
                v1,
                source_net,
                parent.net_id,
                token,
                now2,
            );
            &&& r matches Ok(a) && replayed matches Ok(DelegatedRefreshPreparation::Replay(b)) && b
                == (SeedNetAssignment { expires_seconds: b.expires_seconds, ..a })
                && b.expires_seconds <= a.expires_seconds
            &&& v3 == v2
            &&& model::refresh_prepared(v1, source_net, parent.net_id, new_token, now2) == (
                v2,
                Ok::<_, SeedRefreshError>(DelegatedRefreshPreparation::Forward(parent)),
            )
            &&& model::refresh_prepared(v1, source_net, parent.net_id, third_token, now2) == (
                v2,
                Err::<DelegatedRefreshPreparation, _>(SeedRefreshError::BadRequest),
            )
            &&& model::refresh_prepared(v1, other_net, parent.net_id, token, now2) == (
                v2,
                Err::<DelegatedRefreshPreparation, _>(SeedRefreshError::BadRequest),
            )
            &&& route_held(v1, source_net, parent.net_id, lease, parent)
            &&& route_held(v2, source_net, parent.net_id, lease, parent)
        }),
{
    let v1 = model::refresh_committed(v, source_net, token, parent, now, new_token).0;
    let lease = Lease {
        expiration: leases::later(now, parent.expires_seconds),
        refresh_token: new_token,
        previous_refresh_token: Some(token),
    };
    let net = parent.net_id;
    committed_refresh_is_held(v, source_net, token, parent, now, new_token, n, s, c);
    laws::delegated_refresh_keeps_wf(
        v, source_net, parent.net_id, token, parent, now, new_token, n, s, c,
    );
    delegated_refresh_answers(
        v1, source_net, net, lease, parent, token, other_net, now2, n, s, c,
    );
    delegated_refresh_answers(
        v1, source_net, net, lease, parent, new_token, other_net, now2, n, s, c,
    );
    delegated_refresh_answers(
        v1, source_net, net, lease, parent, third_token, other_net, now2, n, s, c,
    );
    lemma_remaining_shrinks(now, parent.expires_seconds, now2);
}

/// Of a lease, never more seconds are left than it was granted for.
proof fn lemma_remaining_shrinks(now: Nanos, secs: u16, now2: Nanos)
    requires
        now <= now2,
    ensures
        leases::remaining_seconds(leases::later(now, secs), now2) <= secs,
{
    let second = leases::NANOS_PER_SEC as int;
    let left = leases::later(now, secs) - now2;
    if left > 0 {
        assert((left + second - 1) / second <= secs) by (nonlinear_arith)
            requires
                second == 1000000000,
                0 < left <= secs * second,
        ;
    }
}

} // verus!
