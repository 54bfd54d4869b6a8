//! What every router operation keeps, and what its users can rely on.

use vstd::prelude::*;
use crate::interface_manager::edge_port::CENTRAL_NODE_ID;
use crate::interface_manager::lease_table;
use crate::interface_manager::lease_table::LeaseEntry;
use crate::interface_manager::leases;
use crate::interface_manager::leases::{LeaseKind, Nanos, TOMBSTONE_DURATION_SECS};
use crate::interface_manager::profiles::router_model as model;
use crate::interface_manager::profiles::router_model::{
    RouterView, SeedRoute, Slot, SEED_DELEGATION_REFRESH_MARGIN,
};
use crate::interface_manager::{Interface, InterfaceSendError, InterfaceState, Payload, SeedLease};
use crate::Header;

verus! {

// ---------------------------------------------------------------------------
// The invariant is kept
// ---------------------------------------------------------------------------
/// A router with more slots than before, all others in place, stays well
/// formed if the new one is.
proof fn lemma_slot_pushed<I: Interface>(
    v: RouterView<I>,
    slot: Slot<I>,
    n: nat,
    s: nat,
    c: nat,
)
    requires
        model::router_wf(v, n, s, c),
        v.slots.len() < n,
        slot.ident < n,
        !model::has_ident(v.slots, slot.ident),
        slot.net_id != 0 ==> !model::has_net(v.slots, slot.net_id) && !lease_table::holds_key(
            v.seeds,
            slot.net_id,
        ),
    ensures
        model::router_wf((RouterView { slots: v.slots.push(slot), ..v }), n, s, c),
{
    let slots = v.slots.push(slot);
    let last = v.slots.len() as int;
    assert(model::slots_wf(slots, n)) by {
        assert forall|i: int, j: int| 0 <= i < j < slots.len() implies (#[trigger] slots[i]).ident
            != (#[trigger] slots[j]).ident by {
            if j == last {
                assert(slots[i] == v.slots[i]);
            }
        }
        assert forall|i: int, j: int|
            0 <= i < j < slots.len() && (#[trigger] slots[i]).net_id == (
            #[trigger] slots[j]).net_id implies slots[i].net_id == 0 by {
            if j == last {
                assert(slots[i] == v.slots[i]);
            }
        }
    }
    assert forall|k: int| 0 <= k < v.seeds.len() implies model::seed_wf(
        slots,
        #[trigger] v.seeds[k],
    ) by {
        let e = v.seeds[k];
        assert(model::seed_wf(v.slots, e));
        if e.key != 0 && model::has_net(slots, e.key) {
            let i = choose|i: int| 0 <= i < slots.len() && (#[trigger] slots[i]).net_id == e.key;
            if i < last {
                assert(v.slots[i].net_id == e.key);
            } else {
                assert(lease_table::holds_key(v.seeds, slot.net_id));
            }
        }
        if e.kind is Active {
            let i = choose|i: int|
                0 <= i < v.slots.len() && (#[trigger] v.slots[i]).ident == e.extra.via_ident;
            assert(slots[i].ident == e.extra.via_ident);
        }
    }
    assert forall|k: int| 0 <= k < v.claims.len() implies model::claim_wf(
        slots,
        #[trigger] v.claims[k],
    ) by {
        let e = v.claims[k];
        assert(model::claim_wf(v.slots, e));
        let i = choose|i: int| 0 <= i < v.slots.len() && (#[trigger] v.slots[i]).net_id == e.scope;
        assert(slots[i].net_id == e.scope);
    }
}

/// As long as a slot is free there is a lowest free ident.
pub proof fn lowest_ident_exists<I: Interface>(slots: Seq<Slot<I>>, n: nat)
    requires
        model::slots_wf(slots, n),
        slots.len() < n,
    ensures
        model::is_lowest_ident(slots, n, model::lowest_ident(slots, n)),
{
    if forall|id: u8| id < n ==> #[trigger] model::has_ident(slots, id) {
        model::free_ident_exists(slots, n);
    }
    let id = choose|id: u8| id < n && !#[trigger] model::has_ident(slots, id);
    lemma_lowest_ident_below(slots, n, id);
}

proof fn lemma_lowest_ident_below<I: Interface>(slots: Seq<Slot<I>>, n: nat, id: u8)
    requires
        id < n,
        !model::has_ident(slots, id),
    ensures
        exists|k: u8| model::is_lowest_ident(slots, n, k),
    decreases id,
{
    if forall|other: u8| other < id ==> #[trigger] model::has_ident(slots, other) {
        assert(model::is_lowest_ident(slots, n, id));
    } else {
        let other = choose|other: u8| other < id && !#[trigger] model::has_ident(slots, other);
        lemma_lowest_ident_below(slots, n, other);
    }
}

/// If a net_id was handed out, it is the lowest free one.
pub proof fn lowest_free_exists<I: Interface>(v: RouterView<I>)
    ensures
        model::lowest_free(v) matches Some(net_id) ==> model::is_lowest_free(v, net_id),
{
}

/// Registering an interface keeps the invariant.
pub proof fn register_keeps_wf<I: Interface>(
    v: RouterView<I>,
    sink: I::Sink,
    now: Nanos,
    n: nat,
    s: nat,
    c: nat,
)
    requires
        model::router_wf(v, n, s, c),
    ensures
        model::router_wf(model::registered(v, sink, n, now).0, n, s, c),
        model::router_wf(model::registered_pending(v, sink, n).0, n, s, c),
{
    model::aging_keeps_wf(v, now, n, s, c);
    let v1 = model::with_seeds_aged(v, now);
    if v.slots.len() < n {
        lowest_ident_exists(v.slots, n);
        let ident = model::lowest_ident(v.slots, n);
        lemma_slot_pushed(
            v,
            model::new_slot(ident, sink, InterfaceState::Down, 0),
            n,
            s,
            c,
        );
        if let Some(net_id) = model::lowest_free(v1) {
            lowest_free_exists(v1);
            let state = InterfaceState::Active { net_id, node_id: CENTRAL_NODE_ID };
            lemma_slot_pushed(v1, model::new_slot(ident, sink, state, net_id), n, s, c);
        }
    }
}

/// Removing an interface keeps the invariant.
pub proof fn deregister_keeps_wf<I: Interface>(
    v: RouterView<I>,
    ident: u8,
    now: Nanos,
    n: nat,
    s: nat,
    c: nat,
)
    requires
        model::router_wf(v, n, s, c),
    ensures
        model::router_wf(model::deregistered(v, ident, now).0, n, s, c),
{
    lease_table::first_where_none(v.slots, |x: Slot<I>| x.ident == ident);
    if let Some(pos) = model::slot_of_ident(v.slots, ident) {
        let v2 = model::deregistered(v, ident, now).0;
        let clear_time = leases::later(now, TOMBSTONE_DURATION_SECS);
        lemma_swap_removed(v.slots, v2.slots, pos, n);
        lemma_seeds_without_slot(v.slots, v2.slots, pos, v.seeds, clear_time, s);
        lemma_claims_without_slot(v.slots, v2.slots, pos, v.claims, c);
        lease_table::dropped_scope_is_gone(v.claims, v.slots[pos].net_id);
        model::claims_timely_continues(v.claims, v2.claims, v.claimed_at, v.claimed_at);
    }
}

/// `slots2` is `slots` without the slot at `pos`, whose place the last one
/// takes.
spec fn swap_removed<I: Interface>(slots: Seq<Slot<I>>, slots2: Seq<Slot<I>>, pos: int) -> bool {
    &&& 0 <= pos < slots.len()
    &&& slots2 == slots.update(pos, slots.last()).drop_last()
}

/// Where the slot at `j` has gone.
spec fn moved_to(pos: int, last: int, j: int) -> int {
    if j == last {
        pos
    } else {
        j
    }
}

proof fn lemma_seeds_without_slot<I: Interface>(
    slots: Seq<Slot<I>>,
    slots2: Seq<Slot<I>>,
    pos: int,
    seeds: Seq<LeaseEntry<u16, SeedRoute>>,
    clear_time: Nanos,
    n: nat,
)
    requires
        model::seeds_wf(slots, seeds, n),
        swap_removed(slots, slots2, pos),
    ensures
        model::seeds_wf(slots2, model::tombstoned_via(seeds, slots[pos].ident, clear_time), n),
{
    let seeds2 = model::tombstoned_via(seeds, slots[pos].ident, clear_time);
    let last = slots.len() - 1;
    assert forall|k: int| 0 <= k < seeds2.len() implies model::seed_wf(
        slots2,
        #[trigger] seeds2[k],
    ) by {
        let e = seeds[k];
        assert(model::seed_wf(slots, e));
        if e.key != 0 && model::has_net(slots2, e.key) {
            let i = choose|i: int| 0 <= i < slots2.len() && (#[trigger] slots2[i]).net_id == e.key;
            if i == pos {
                assert(slots[last].net_id == e.key);
            } else {
                assert(slots[i].net_id == e.key);
            }
        }
        if seeds2[k].kind is Active {
            let j = choose|j: int|
                0 <= j < slots.len() && (#[trigger] slots[j]).ident == e.extra.via_ident;
            assert(slots2[moved_to(pos, last, j)].ident == e.extra.via_ident);
        }
    }
    assert forall|i: int, j: int| 0 <= i < j < seeds2.len() implies #[trigger] seeds2[i].key
        != #[trigger] seeds2[j].key by {
        assert(seeds[i].key != seeds[j].key);
    }
}

proof fn lemma_claims_without_slot<I: Interface>(
    slots: Seq<Slot<I>>,
    slots2: Seq<Slot<I>>,
    pos: int,
    claims: Seq<LeaseEntry<u8, u64>>,
    n: nat,
)
    requires
        model::claims_wf(slots, claims, n),
        swap_removed(slots, slots2, pos),
    ensures
        model::claims_wf(
            slots2,
            lease_table::retained(claims, lease_table::outside_scope(slots[pos].net_id)),
            n,
        ),
{
    let claims2 = lease_table::retained(claims, lease_table::outside_scope(slots[pos].net_id));
    let last = slots.len() - 1;
    lease_table::dropped_scope_is_gone(claims, slots[pos].net_id);
    model::claims_wf_continues(slots, claims, claims2, n);
    assert forall|k: int| 0 <= k < claims2.len() implies model::claim_wf(
        slots2,
        #[trigger] claims2[k],
    ) by {
        let e = claims2[k];
        assert(model::claim_wf(slots, e));
        let j = choose|j: int| 0 <= j < slots.len() && (#[trigger] slots[j]).net_id == e.scope;
        assert(slots2[moved_to(pos, last, j)].net_id == e.scope);
    }
}

proof fn lemma_swap_removed<I: Interface>(
    slots: Seq<Slot<I>>,
    slots2: Seq<Slot<I>>,
    pos: int,
    n: nat,
)
    requires
        model::slots_wf(slots, n),
        swap_removed(slots, slots2, pos),
    ensures
        model::slots_wf(slots2, n),
{
    assert forall|i: int, j: int| 0 <= i < j < slots2.len() implies (#[trigger] slots2[i]).ident
        != (#[trigger] slots2[j]).ident && (slots2[i].net_id == slots2[j].net_id
        ==> slots2[i].net_id == 0) by {
        let last = slots.len() - 1;
        if i == pos {
            assert(slots[j].ident != slots[last].ident);
            assert(slots[j].net_id == slots[last].net_id ==> slots[j].net_id == 0);
        } else if j == pos {
            assert(slots[i].ident != slots[last].ident);
            assert(slots[i].net_id == slots[last].net_id ==> slots[i].net_id == 0);
        } else {
            assert(slots[i].ident != slots[j].ident);
            assert(slots[i].net_id == slots[j].net_id ==> slots[i].net_id == 0);
        }
    }
}

/// Slots that differ only in their ports and closers are as well formed as
/// before.
pub proof fn ports_do_not_matter<I: Interface>(
    v: RouterView<I>,
    after: RouterView<I>,
    n: nat,
    s: nat,
    c: nat,
)
    requires
        model::router_wf(v, n, s, c),
        after.seeds == v.seeds,
        after.claims == v.claims,
        after.claimed_at == v.claimed_at,
        after.slots.len() == v.slots.len(),
        forall|i: int|
            0 <= i < v.slots.len() ==> (#[trigger] after.slots[i]).ident == v.slots[i].ident
                && after.slots[i].net_id == v.slots[i].net_id,
    ensures
        model::router_wf(after, n, s, c),
{
    assert(model::slots_wf(after.slots, n)) by {
        assert forall|i: int, j: int|
            0 <= i < j < after.slots.len() implies (#[trigger] after.slots[i]).ident != (
        #[trigger] after.slots[j]).ident && (after.slots[i].net_id == after.slots[j].net_id
            ==> after.slots[i].net_id == 0) by {
            assert(v.slots[i].ident != v.slots[j].ident);
        }
    }
    assert forall|k: int| 0 <= k < v.seeds.len() implies model::seed_wf(
        after.slots,
        #[trigger] after.seeds[k],
    ) by {
        let e = v.seeds[k];
        assert(model::seed_wf(v.slots, e));
        if e.key != 0 && model::has_net(after.slots, e.key) {
            let i = choose|i: int|
                0 <= i < after.slots.len() && (#[trigger] after.slots[i]).net_id == e.key;
            assert(v.slots[i].net_id == e.key);
        }
        if e.kind is Active {
            let i = choose|i: int|
                0 <= i < v.slots.len() && (#[trigger] v.slots[i]).ident == e.extra.via_ident;
            assert(after.slots[i].ident == e.extra.via_ident);
        }
    }
    assert forall|k: int| 0 <= k < v.claims.len() implies model::claim_wf(
        after.slots,
        #[trigger] after.claims[k],
    ) by {
        let e = v.claims[k];
        assert(model::claim_wf(v.slots, e));
        let i = choose|i: int| 0 <= i < v.slots.len() && (#[trigger] v.slots[i]).net_id == e.scope;
        assert(after.slots[i].net_id == e.scope);
    }
}

/// Setting the state of an interface keeps the invariant.
pub proof fn set_state_keeps_wf<I: Interface>(
    v: RouterView<I>,
    ident: u8,
    state: InterfaceState,
    n: nat,
    s: nat,
    c: nat,
)
    requires
        model::router_wf(v, n, s, c),
    ensures
        model::router_wf(model::state_set(v, ident, state).0, n, s, c),
{
    lease_table::first_where_none(v.slots, |x: Slot<I>| x.ident == ident);
    ports_do_not_matter(v, model::state_set(v, ident, state).0, n, s, c);
}

/// Giving an interface a new net_id keeps the invariant.
pub proof fn reassign_keeps_wf<I: Interface>(
    v: RouterView<I>,
    ident: u8,
    new_net_id: u16,
    n: nat,
    s: nat,
    c: nat,
)
    requires
        model::router_wf(v, n, s, c),
    ensures
        model::router_wf(model::reassigned(v, ident, new_net_id).0, n, s, c),
{
    lease_table::first_where_none(v.slots, |x: Slot<I>| x.ident == ident);
    if new_net_id != 0 && !model::net_taken(v, ident, new_net_id) {
        if let Some(pos) = model::slot_of_ident(v.slots, ident) {
            let v2 = model::reassigned(v, ident, new_net_id).0;
            let old_net = v.slots[pos].net_id;
            lemma_slots_renumbered(v.slots, v2.slots, pos, new_net_id, n);
            lemma_seeds_renumbered(v.slots, v2.slots, pos, new_net_id, v.seeds, s);
            if old_net != new_net_id {
                lease_table::dropped_scope_is_gone(v.claims, old_net);
                model::claims_wf_continues(v.slots, v.claims, v2.claims, c);
                model::claims_timely_continues(v.claims, v2.claims, v.claimed_at, v.claimed_at);
            }
            lemma_claims_renumbered(v.slots, v2.slots, pos, new_net_id, v2.claims, c);
        }
    }
}

/// `slots2` is `slots` with another net_id for the slot at `pos`.
spec fn renumbered<I: Interface>(
    slots: Seq<Slot<I>>,
    slots2: Seq<Slot<I>>,
    pos: int,
    net_id: u16,
) -> bool {
    &&& 0 <= pos < slots.len() == slots2.len()
    &&& slots2[pos].ident == slots[pos].ident
    &&& slots2[pos].net_id == net_id
    &&& forall|i: int|
        0 <= i < slots.len() && i != pos ==> (#[trigger] slots2[i]) == slots[i] && slots[i].net_id
            != net_id
}

proof fn lemma_slots_renumbered<I: Interface>(
    slots: Seq<Slot<I>>,
    slots2: Seq<Slot<I>>,
    pos: int,
    net_id: u16,
    n: nat,
)
    requires
        model::slots_wf(slots, n),
        renumbered(slots, slots2, pos, net_id),
    ensures
        model::slots_wf(slots2, n),
{
    assert forall|i: int, j: int| 0 <= i < j < slots2.len() implies (#[trigger] slots2[i]).ident
        != (#[trigger] slots2[j]).ident && (slots2[i].net_id == slots2[j].net_id
        ==> slots2[i].net_id == 0) by {
        assert(slots[i].ident != slots[j].ident);
        assert(slots[i].net_id == slots[j].net_id ==> slots[i].net_id == 0);
    }
    assert forall|i: int| 0 <= i < slots2.len() implies (#[trigger] slots2[i]).ident < n by {
        assert(slots[i].ident < n);
    }
}

proof fn lemma_seeds_renumbered<I: Interface>(
    slots: Seq<Slot<I>>,
    slots2: Seq<Slot<I>>,
    pos: int,
    net_id: u16,
    seeds: Seq<LeaseEntry<u16, SeedRoute>>,
    n: nat,
)
    requires
        model::seeds_wf(slots, seeds, n),
        renumbered(slots, slots2, pos, net_id),
        !lease_table::holds_key(seeds, net_id),
    ensures
        model::seeds_wf(slots2, seeds, n),
{
    assert forall|k: int| 0 <= k < seeds.len() implies model::seed_wf(
        slots2,
        #[trigger] seeds[k],
    ) by {
        let e = seeds[k];
        assert(model::seed_wf(slots, e));
        if e.key != 0 && model::has_net(slots2, e.key) {
            let i = choose|i: int| 0 <= i < slots2.len() && (#[trigger] slots2[i]).net_id == e.key;
            assert(i != pos);
            assert(slots[i].net_id == e.key);
        }
        if e.kind is Active {
            let i = choose|i: int|
                0 <= i < slots.len() && (#[trigger] slots[i]).ident == e.extra.via_ident;
            assert(slots2[i].ident == e.extra.via_ident);
        }
    }
}

proof fn lemma_claims_renumbered<I: Interface>(
    slots: Seq<Slot<I>>,
    slots2: Seq<Slot<I>>,
    pos: int,
    net_id: u16,
    claims: Seq<LeaseEntry<u8, u64>>,
    n: nat,
)
    requires
        model::claims_wf(slots, claims, n),
        renumbered(slots, slots2, pos, net_id),
        slots[pos].net_id != net_id ==> forall|k: int|
            0 <= k < claims.len() ==> (#[trigger] claims[k]).scope != slots[pos].net_id,
    ensures
        model::claims_wf(slots2, claims, n),
{
    assert forall|k: int| 0 <= k < claims.len() implies model::claim_wf(
        slots2,
        #[trigger] claims[k],
    ) by {
        let e = claims[k];
        assert(model::claim_wf(slots, e));
        let i = choose|i: int| 0 <= i < slots.len() && (#[trigger] slots[i]).net_id == e.scope;
        assert(slots2[i].net_id == e.scope);
    }
}

/// Sending keeps the invariant.
pub proof fn send_keeps_wf<I: Interface>(
    v: RouterView<I>,
    after: RouterView<I>,
    hdr: Header,
    what: Payload,
    source: Option<u8>,
    now: Nanos,
    r: Result<(), InterfaceSendError>,
    n: nat,
    s: nat,
    c: nat,
)
    requires
        model::router_wf(v, n, s, c),
        model::sent(v, after, hdr, what, source, now, r),
    ensures
        model::router_wf(after, n, s, c),
{
    model::aging_keeps_wf(v, now, n, s, c);
    if let Ok(h) = hdr.decremented() {
        if h.dst.port_id == 255 && !(what is Error) {
            if !(h.any_all is None) && !(source is Some && v.slots.len() == 0 && v.upstream
                is None) {
                let legs = choose|legs: Seq<Option<Result<(), InterfaceSendError>>>|
                    {
                        &&& legs.len() == v.slots.len() + 1
                        &&& model::slot_legs(
                            v.slots,
                            after.slots,
                            h,
                            what,
                            source,
                            legs,
                            v.slots.len(),
                        )
                        &&& #[trigger] model::legs_folded(legs) == model::legs_folded(legs)
                    };
                assert forall|i: int| 0 <= i < v.slots.len() implies (
                #[trigger] after.slots[i]).ident == v.slots[i].ident && after.slots[i].net_id
                    == v.slots[i].net_id by {
                    let leg = legs[i];
                }
                ports_do_not_matter(v, after, n, s, c);
            }
        } else {
            let (v1, way) = model::found(v, h, source, now);
            assert(model::router_wf(v1, n, s, c));
            if way is Ok {
                assert forall|i: int| 0 <= i < v1.slots.len() implies (
                #[trigger] after.slots[i]).ident == v1.slots[i].ident && after.slots[i].net_id
                    == v1.slots[i].net_id by {}
                ports_do_not_matter(v1, after, n, s, c);
            }
        }
    }
}

proof fn lemma_seed_pushed<I: Interface>(
    slots: Seq<Slot<I>>,
    seeds: Seq<LeaseEntry<u16, SeedRoute>>,
    e: LeaseEntry<u16, SeedRoute>,
    n: nat,
)
    requires
        model::seeds_wf(slots, seeds, n),
        seeds.len() < n,
        !lease_table::holds_key(seeds, e.key),
        model::seed_wf(slots, e),
    ensures
        model::seeds_wf(slots, seeds.push(e), n),
{
    let seeds2 = seeds.push(e);
    assert forall|i: int, j: int| 0 <= i < j < seeds2.len() implies #[trigger] seeds2[i].key
        != #[trigger] seeds2[j].key by {
        assert(seeds2[i] == seeds[i]);
        if j < seeds.len() {
            assert(seeds2[j] == seeds[j]);
        }
    }
}

proof fn lemma_seed_replaced<I: Interface>(
    slots: Seq<Slot<I>>,
    seeds: Seq<LeaseEntry<u16, SeedRoute>>,
    k: int,
    e: LeaseEntry<u16, SeedRoute>,
    n: nat,
)
    requires
        model::seeds_wf(slots, seeds, n),
        0 <= k < seeds.len(),
        e.key == seeds[k].key,
        model::seed_wf(slots, e),
    ensures
        model::seeds_wf(slots, seeds.update(k, e), n),
{
    let seeds2 = seeds.update(k, e);
    assert forall|i: int, j: int| 0 <= i < j < seeds2.len() implies #[trigger] seeds2[i].key
        != #[trigger] seeds2[j].key by {
        assert(seeds[i].key != seeds[j].key);
    }
}

/// A route whose lease was looked at, refreshed or found expired is as good as
/// before.
proof fn lemma_seed_rekinded<I: Interface>(
    slots: Seq<Slot<I>>,
    seeds: Seq<LeaseEntry<u16, SeedRoute>>,
    k: int,
    kind: LeaseKind,
    n: nat,
)
    requires
        model::seeds_wf(slots, seeds, n),
        0 <= k < seeds.len(),
        kind is Active ==> seeds[k].kind is Active,
    ensures
        model::seeds_wf(slots, seeds.update(k, LeaseEntry { kind, ..seeds[k] }), n),
{
    assert(model::seed_wf(slots, seeds[k]));
    lemma_seed_replaced(slots, seeds, k, LeaseEntry { kind, ..seeds[k] }, n);
}

/// After the routes for a network are dropped, none is held.
proof fn lemma_key_dropped(seeds: Seq<LeaseEntry<u16, SeedRoute>>, key: u16)
    ensures
        lease_table::continues(seeds, lease_table::retained(seeds, lease_table::other_key(key))),
        !lease_table::holds_key(lease_table::retained(seeds, lease_table::other_key(key)), key),
{
    let f = lease_table::other_key::<u16, SeedRoute>(key);
    let kept = lease_table::retained(seeds, f);
    lease_table::retained_continues(seeds, f);
    lease_table::retained_members(seeds, f);
    if lease_table::holds_key(kept, key) {
        let i = choose|i: int| 0 <= i < kept.len() && (#[trigger] kept[i]).key == key;
        let j = choose|j: int| 0 <= j < seeds.len() && f(#[trigger] seeds[j]) == Some(kept[i]);
        assert(f(seeds[j]) is Some);
    }
}

/// Leasing a network keeps the invariant.
pub proof fn seed_assign_keeps_wf<I: Interface>(
    v: RouterView<I>,
    source_net: u16,
    now: Nanos,
    token: u64,
    n: nat,
    s: nat,
    c: nat,
)
    requires
        model::router_wf(v, n, s, c),
    ensures
        model::router_wf(model::seed_checked(v, source_net, s, now).0, n, s, c),
        model::router_wf(model::seed_assigned(v, source_net, s, now, token).0, n, s, c),
        model::router_wf(model::delegation_possible(v, source_net, s, now).0, n, s, c),
{
    model::aging_keeps_wf(v, now, n, s, c);
    let v1 = model::with_seeds_aged(v, now);
    lease_table::first_where_none(v1.slots, |x: Slot<I>| x.net_id == source_net);
    if let (v2, Ok((via_ident, net_id))) = model::seed_checked(v, source_net, s, now) {
        lowest_free_exists(v1);
        assert(v2 == v1);
        let pos = model::slot_of_net(v1.slots, source_net)->0;
        assert(v1.slots[pos].ident == via_ident);
        let e = LeaseEntry {
            key: net_id,
            scope: source_net,
            extra: SeedRoute { via_ident, parent: None },
            kind: LeaseKind::fresh(now, leases::INITIAL_LEASE_SECS, token),
        };
        lemma_seed_pushed(v1.slots, v1.seeds, e, s);
    }
}

/// Passing on a lease keeps the invariant.
pub proof fn delegation_keeps_wf<I: Interface>(
    v: RouterView<I>,
    source_net: u16,
    parent: SeedLease,
    now: Nanos,
    token: u64,
    n: nat,
    s: nat,
    c: nat,
)
    requires
        model::router_wf(v, n, s, c),
    ensures
        model::router_wf(model::delegation_checked(v, source_net, parent, s, now).0, n, s, c),
        model::router_wf(
            model::delegation_registered(v, source_net, parent, s, now, token).0,
            n,
            s,
            c,
        ),
{
    model::aging_keeps_wf(v, now, n, s, c);
    let v1 = model::with_seeds_aged(v, now);
    lease_table::first_where_none(v1.slots, |x: Slot<I>| x.net_id == source_net);
    lemma_key_dropped(v1.seeds, parent.net_id);
    let kept = lease_table::retained(v1.seeds, lease_table::other_key(parent.net_id));
    model::seeds_wf_continues(v1.slots, v1.seeds, kept, s);
    if let (v2, Ok(via_ident)) = model::delegation_checked(v, source_net, parent, s, now) {
        let pos = model::slot_of_net(v1.slots, source_net)->0;
        assert(v1.slots[pos].ident == via_ident);
        let e = LeaseEntry {
            key: parent.net_id,
            scope: source_net,
            extra: SeedRoute { via_ident, parent: Some(parent) },
            kind: LeaseKind::fresh(now, parent.expires_seconds, token),
        };
        lemma_seed_pushed(v2.slots, v2.seeds, e, s);
    }
}

/// Refreshing or releasing a passed-on lease keeps the invariant.
pub proof fn delegated_refresh_keeps_wf<I: Interface>(
    v: RouterView<I>,
    source_net: u16,
    net_id: u16,
    req_token: u64,
    parent: SeedLease,
    now: Nanos,
    token: u64,
    n: nat,
    s: nat,
    c: nat,
)
    requires
        model::router_wf(v, n, s, c),
    ensures
        model::router_wf(
            model::refresh_prepared(v, source_net, net_id, req_token, now).0,
            n,
            s,
            c,
        ),
        model::router_wf(
            model::refresh_committed(v, source_net, req_token, parent, now, token).0,
            n,
            s,
            c,
        ),
        model::router_wf(
            model::release_prepared(v, source_net, net_id, req_token, now).0,
            n,
            s,
            c,
        ),
{
    model::aging_keeps_wf(v, now, n, s, c);
    let v1 = model::with_seeds_aged(v, now);
    lease_table::first_where_none(v1.seeds, lease_table::about_key(net_id));
    if let Some(k) = lease_table::first_where(v1.seeds, lease_table::about_key(net_id)) {
        let kind = v1.seeds[k].kind.validated(req_token, now, true).0;
        lemma_seed_rekinded(v1.slots, v1.seeds, k, kind, s);
    }
    lease_table::first_where_none(v1.seeds, lease_table::about_pair(net_id, source_net));
    if let Some(k) = lease_table::first_where(
        v1.seeds,
        lease_table::about_pair(net_id, source_net),
    ) {
        let kind = v1.seeds[k].kind.validated(req_token, now, false).0;
        lemma_seed_rekinded(v1.slots, v1.seeds, k, kind, s);
    }
    lease_table::first_where_none(v.seeds, lease_table::about_pair(parent.net_id, source_net));
    if let Some(k) = lease_table::first_where(
        v.seeds,
        lease_table::about_pair(parent.net_id, source_net),
    ) {
        let e = v.seeds[k];
        let (kind, checked) = e.kind.validated(req_token, now, false);
        lemma_seed_rekinded(v.slots, v.seeds, k, kind, s);
        let v2 = model::refresh_committed(v, source_net, req_token, parent, now, token).0;
        if parent.min_refresh_seconds > SEED_DELEGATION_REFRESH_MARGIN && checked is Ok
            && e.extra.parent is Some {
            assert(model::seed_wf(v.slots, e));
            lemma_seed_replaced(v.slots, v.seeds, k, v2.seeds[k], s);
        }
    }
}

/// Refreshing or releasing a lease that this router granted keeps the
/// invariant.
pub proof fn seed_refresh_keeps_wf<I: Interface>(
    v: RouterView<I>,
    source_net: u16,
    net_id: u16,
    req_token: u64,
    now: Nanos,
    token: u64,
    n: nat,
    s: nat,
    c: nat,
)
    requires
        model::router_wf(v, n, s, c),
    ensures
        model::router_wf(
            model::seed_refreshed(v, source_net, net_id, req_token, now, token).0,
            n,
            s,
            c,
        ),
        model::router_wf(model::released(v, source_net, net_id, req_token, now).0, n, s, c),
{
    lease_table::first_where_none(v.seeds, lease_table::about_pair(net_id, source_net));
    if let Some(k) = lease_table::first_where(
        v.seeds,
        lease_table::about_pair(net_id, source_net),
    ) {
        let e = v.seeds[k];
        lemma_seed_rekinded(
            v.slots,
            v.seeds,
            k,
            e.kind.validated(req_token, now, false).0,
            s,
        );
        lemma_seed_rekinded(
            v.slots,
            v.seeds,
            k,
            e.kind.refreshed(req_token, now, token, true).0,
            s,
        );
    }
    let f = lease_table::other_pair::<u16, SeedRoute>(net_id, source_net);
    lease_table::retained_continues(v.seeds, f);
    model::seeds_wf_continues(v.slots, v.seeds, lease_table::retained(v.seeds, f), s);
}

/// Claiming a node_id, or refreshing a claim, keeps the invariant.
pub proof fn claim_keeps_wf<I: Interface>(
    v: RouterView<I>,
    source_net: u16,
    node_id: u8,
    nonce: u64,
    req_token: u64,
    now: Nanos,
    token: u64,
    n: nat,
    s: nat,
    c: nat,
)
    requires
        model::router_wf(v, n, s, c),
    ensures
        model::router_wf(
            model::claim_checked(v, source_net, node_id, nonce, c, now).0,
            n,
            s,
            c,
        ),
        model::router_wf(
            model::claimed(v, source_net, node_id, nonce, c, now, token).0,
            n,
            s,
            c,
        ),
        model::router_wf(
            model::claim_refreshed(v, source_net, node_id, req_token, now, token).0,
            n,
            s,
            c,
        ),
{
    model::aging_keeps_wf(v, now, n, s, c);
    let p = lease_table::about_pair::<u8, u64>(node_id, source_net);
    let v1 = model::with_claims_aged(v, now);
    lease_table::first_where_none(v1.claims, p);
    if let (_, Ok(None)) = model::claim_checked(v, source_net, node_id, nonce, c, now) {
        let v2 = model::claimed(v, source_net, node_id, nonce, c, now, token).0;
        assert(lease_table::unique_pairs(v2.claims)) by {
            assert forall|i: int, j: int| 0 <= i < j < v2.claims.len() implies !(
            #[trigger] v2.claims[i].key == #[trigger] v2.claims[j].key && v2.claims[i].scope
                == v2.claims[j].scope) by {
                assert(v2.claims[i] == v1.claims[i]);
                assert(!p(v1.claims[i]));
                if j < v1.claims.len() {
                    assert(v2.claims[j] == v1.claims[j]);
                }
            }
        }
        assert forall|k: int| 0 <= k < v2.claims.len() implies model::lease_timely(
            (#[trigger] v2.claims[k]).kind,
            v2.claimed_at,
        ) by {
            if k < v1.claims.len() {
                assert(model::lease_timely(v1.claims[k].kind, v1.claimed_at));
            }
        }
    }
    lease_table::first_where_none(v.claims, p);
    if let Some(k) = lease_table::first_where(v.claims, p) {
        let v2 = model::claim_refreshed(v, source_net, node_id, req_token, now, token).0;
        assert(model::claim_wf(v.slots, v.claims[k]));
        assert forall|i: int, j: int| 0 <= i < j < v2.claims.len() implies !(
        #[trigger] v2.claims[i].key == #[trigger] v2.claims[j].key && v2.claims[i].scope
            == v2.claims[j].scope) by {
            assert(!(v.claims[i].key == v.claims[j].key && v.claims[i].scope == v.claims[j].scope));
        }
        assert forall|i: int| 0 <= i < v2.claims.len() implies model::lease_timely(
            (#[trigger] v2.claims[i]).kind,
            v2.claimed_at,
        ) by {
            assert(model::lease_timely(v.claims[i].kind, v.claimed_at));
        }
    }
}

/// Asking whether a net is routed to keeps the invariant.
pub proof fn transit_keeps_wf<I: Interface>(
    v: RouterView<I>,
    net_id: u16,
    now: Nanos,
    n: nat,
    s: nat,
    c: nat,
)
    requires
        model::router_wf(v, n, s, c),
    ensures
        model::router_wf(model::transit(v, net_id, now).0, n, s, c),
{
    lease_table::looked_at_continues(v.seeds, net_id, now);
    model::seeds_wf_continues(
        v.slots,
        v.seeds,
        lease_table::looked_at(v.seeds, net_id, now),
        s,
    );
}

} // verus!
