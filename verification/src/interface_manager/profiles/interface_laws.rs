//! What becomes of the interfaces of a router as they come, change and go.

use vstd::prelude::*;
use crate::clock::Closer;
use crate::interface_manager::edge_port;
use crate::interface_manager::lease_laws::after;
use crate::interface_manager::lease_laws as lease;
use crate::interface_manager::lease_table;
use crate::interface_manager::lease_table::LeaseEntry;
use crate::interface_manager::leases::{LeaseKind, Nanos};
use crate::interface_manager::profiles::router;
use crate::interface_manager::profiles::router_laws as laws;
use crate::interface_manager::profiles::router_model as model;
use crate::interface_manager::profiles::router_model::{
    DeregisterError, RegisterError, RouterView, Slot, UpstreamPort,
};
use crate::interface_manager::profiles::router_state::RouterState;
use crate::interface_manager::profiles::seed_laws::{on_upstream, used};
use crate::interface_manager::profiles::seed_laws as seeds;
use crate::interface_manager::{Interface, InterfaceState, SetStateError};

verus! {

/// The slot at `i` is that of the interface with this ident.
pub open spec fn is_at<I: Interface>(v: RouterView<I>, ident: u8, i: int) -> bool {
    0 <= i < v.slots.len() && v.slots[i].ident == ident
}

/// An interface that just came: the router is the central node of its link, and
/// nobody waits for it yet.
pub open spec fn just_came<I: Interface>(slot: Slot<I>, ident: u8, sink: I::Sink) -> bool {
    &&& slot.ident == ident
    &&& slot.port.sink == sink
    &&& slot.port.own_node_id == 1
    &&& slot.port.other_node_id == 2
    &&& slot.closer is None
}

/// Some interface has this ident.
pub open spec fn has_ident<I: Interface>(v: RouterView<I>, ident: u8) -> bool {
    exists|i: int| #[trigger] is_at(v, ident, i)
}

/// The lowest ident that no interface has.
pub open spec fn lowest_unused<I: Interface>(v: RouterView<I>, ident: u8) -> bool {
    &&& !has_ident(v, ident)
    &&& forall|other: u8| other < ident ==> #[trigger] has_ident(v, other)
}

/// A root router takes every interface that it has room for, as long as it has a
/// net_id for it: the lowest that is not in use. The interface is active at once,
/// under the lowest ident that no other has. The others stay as they are.
pub proof fn root_routers_take_interfaces<I: Interface>(
    v: RouterView<I>,
    sink: I::Sink,
    n: nat,
    now: Nanos,
    s: nat,
    c: nat,
)
    requires
        model::router_wf(v, n, s, c),
    ensures
        ({
            let (v2, r) = model::registered(v, sink, n, now);
            &&& v2.claims == v.claims && v2.upstream == v.upstream && v2.claimed_at == v.claimed_at
            &&& v2.seeds == v.seeds || v2.seeds == lease_table::table_aged(v.seeds, now)
            &&& if v.upstream is Some {
                v2.slots == v.slots && r == Err::<u8, _>(
                    RegisterError::BridgeRequiresSeedAssignment,
                )
            } else if v.slots.len() == n {
                v2.slots == v.slots && r == Err::<u8, _>(RegisterError::Full)
            } else if forall|other: u16| 1 <= other < 65535 ==> #[trigger] used(v, other, now) {
                v2.slots == v.slots && r == Err::<u8, _>(RegisterError::NetIdsExhausted)
            } else {
                let slot = v2.slots.last();
                &&& v2.slots.len() == v.slots.len() + 1
                &&& v2.slots.drop_last() == v.slots
                &&& r matches Ok(ident) && lowest_unused(v, ident) && just_came(slot, ident, sink)
                &&& slot.port.state == (InterfaceState::Active {
                    net_id: slot.net_id,
                    node_id: 1,
                })
                &&& 1 <= slot.net_id < 65535
                &&& !used(v, slot.net_id, now)
                &&& forall|other: u16| 1 <= other < slot.net_id ==> #[trigger] used(v, other, now)
            }
        }),
{
    let (v2, r) = model::registered(v, sink, n, now);
    seeds::free_nets_are_found(v, now);
    if v.slots.len() < n {
        lemma_ident(v, n);
    }
    if r is Ok {
        assert(v2.slots.drop_last() =~= v.slots);
    }
}

proof fn lemma_ident<I: Interface>(v: RouterView<I>, n: nat)
    requires
        model::slots_wf(v.slots, n),
        v.slots.len() < n,
    ensures
        lowest_unused(v, model::lowest_ident(v.slots, n)),
{
    laws::lowest_ident_exists(v.slots, n);
    let ident = model::lowest_ident(v.slots, n);
    assert forall|i: int| !#[trigger] is_at(v, ident, i) by {
        if is_at(v, ident, i) {
            assert(model::has_ident(v.slots, ident));
        }
    }
    assert forall|other: u8| other < ident implies #[trigger] has_ident(v, other) by {
        assert(model::has_ident(v.slots, other));
        let i = choose|i: int| 0 <= i < v.slots.len() && (#[trigger] v.slots[i]).ident == other;
        assert(is_at(v, other, i));
    }
}

/// Every router takes an interface that has no number yet, if it has room for it.
/// It is down until it gets one.
pub proof fn routers_take_pending_interfaces<I: Interface>(
    v: RouterView<I>,
    sink: I::Sink,
    n: nat,
    s: nat,
    c: nat,
)
    requires
        model::router_wf(v, n, s, c),
    ensures
        ({
            let (v2, r) = model::registered_pending(v, sink, n);
            &&& v2 == (RouterView { slots: v2.slots, ..v })
            &&& if v.slots.len() == n {
                v2.slots == v.slots && r == Err::<u8, _>(RegisterError::Full)
            } else {
                let slot = v2.slots.last();
                &&& v2.slots.len() == v.slots.len() + 1
                &&& v2.slots.drop_last() == v.slots
                &&& r matches Ok(ident) && lowest_unused(v, ident) && just_came(slot, ident, sink)
                &&& slot.port.state == InterfaceState::Down
                &&& slot.net_id == 0
            }
        }),
{
    let (v2, r) = model::registered_pending(v, sink, n);
    if v.slots.len() < n {
        lemma_ident(v, n);
        assert(v2.slots.drop_last() =~= v.slots);
    }
}

/// The slot of an interface is found by its ident.
proof fn lemma_found<I: Interface>(v: RouterView<I>, ident: u8, i: int, n: nat)
    requires
        model::slots_wf(v.slots, n),
        is_at(v, ident, i),
    ensures
        model::slot_of_ident(v.slots, ident) == Some(i),
{
    let p = |x: Slot<I>| x.ident == ident;
    assert forall|j: int| 0 <= j < i implies !p(#[trigger] v.slots[j]) by {
        assert(v.slots[j].ident != v.slots[i].ident);
    }
    lease_table::first_where_is(v.slots, p, i);
}

proof fn lemma_not_found<I: Interface>(v: RouterView<I>, ident: u8)
    requires
        forall|i: int| !#[trigger] is_at(v, ident, i),
    ensures
        model::slot_of_ident(v.slots, ident) is None,
{
    lease_table::first_where_none(v.slots, |x: Slot<I>| x.ident == ident);
    if let Some(i) = model::slot_of_ident(v.slots, ident) {
        assert(is_at(v, ident, i));
    }
}

/// Whether a claim is on another bus.
pub open spec fn elsewhere(net_id: u16) -> spec_fn(LeaseEntry<u8, u64>) -> bool {
    |e: LeaseEntry<u8, u64>| e.scope != net_id
}

/// An interface that goes takes its slot and the claims on its bus with it. The
/// routes over it stay reserved for half a minute. Everything else stays: the other
/// interfaces, their routes, and the claims on other buses.
pub proof fn interfaces_go<I: Interface>(
    v: RouterView<I>,
    ident: u8,
    now: Nanos,
    i: int,
    n: nat,
    s: nat,
    c: nat,
)
    requires
        model::router_wf(v, n, s, c),
        is_at(v, ident, i),
    ensures
        ({
            let (v2, r) = model::deregistered(v, ident, now);
            &&& r is Ok
            &&& v2.upstream == v.upstream
            &&& v2.slots.len() == v.slots.len() - 1
            &&& forall|j: int| !#[trigger] is_at(v2, ident, j)
            &&& forall|j: int|
                0 <= j < v.slots.len() && j != i ==> v2.slots.contains(#[trigger] v.slots[j])
            &&& v2.seeds.len() == v.seeds.len()
            &&& forall|k: int|
                0 <= k < v.seeds.len() ==> {
                    let e = v.seeds[k];
                    let e2 = #[trigger] v2.seeds[k];
                    &&& e2 == (LeaseEntry { kind: e2.kind, ..e })
                    &&& if e.extra.via_ident == ident {
                        e2.kind matches LeaseKind::Tombstone { clear_time } && clear_time == after(
                            now,
                            30,
                        )
                    } else {
                        e2 == e
                    }
                }
            &&& v2.claims == v.claims.filter(elsewhere(v.slots[i].net_id))
        }),
{
    let (v2, r) = model::deregistered(v, ident, now);
    lemma_found(v, ident, i, n);
    lease::later_is_after(now, 30);
    let last = v.slots.len() - 1;
    assert forall|j: int| !#[trigger] is_at(v2, ident, j) by {
        if is_at(v2, ident, j) {
            if j == i {
                assert(v.slots[i].ident != v.slots[last].ident);
            } else if j < i {
                assert(v.slots[j].ident != v.slots[i].ident);
            } else {
                assert(v.slots[i].ident != v.slots[j].ident);
            }
        }
    }
    assert forall|j: int| 0 <= j < v.slots.len() && j != i implies v2.slots.contains(
        #[trigger] v.slots[j],
    ) by {
        if j == last {
            assert(v2.slots[i] == v.slots[j]);
        } else {
            assert(v2.slots[j] == v.slots[j]);
        }
    }
    lemma_dropped(v.claims, v.slots[i].net_id);
}

/// Dropping the claims of one bus leaves those on other buses.
proof fn lemma_dropped(s: Seq<LeaseEntry<u8, u64>>, net_id: u16)
    ensures
        lease_table::retained(s, lease_table::outside_scope(net_id)) == s.filter(
            elsewhere(net_id),
        ),
    decreases s.len(),
{
    reveal(Seq::filter);
    if s.len() > 0 {
        lemma_dropped(s.drop_last(), net_id);
    }
}

/// An interface that does not exist cannot go, be renumbered or be set.
pub proof fn unknown_interfaces_are_not_found<I: Interface>(
    v: RouterView<I>,
    ident: u8,
    now: Nanos,
    state: InterfaceState,
)
    requires
        forall|i: int| !#[trigger] is_at(v, ident, i),
    ensures
        model::deregistered(v, ident, now) == (v, Err::<(), _>(DeregisterError::NotFound)),
        ident != 255 || v.upstream is None ==> {
            &&& model::state_of(v, ident) is None
            &&& model::state_set(v, ident, state) == (
                v,
                Err::<(), _>(SetStateError::InterfaceNotFound),
            )
        },
{
    lemma_not_found(v, ident);
}

/// The state of a downstream interface is read and set by its ident. Setting is
/// refused only for a reserved node_id; it changes nothing but the state, and the
/// node that the router is on that link.
pub proof fn interfaces_have_states<I: Interface>(
    v: RouterView<I>,
    ident: u8,
    state: InterfaceState,
    i: int,
    n: nat,
    s: nat,
    c: nat,
)
    requires
        model::router_wf(v, n, s, c),
        is_at(v, ident, i),
    ensures
        model::state_of(v, ident) == Some(v.slots[i].port.state),
        ({
            let (v2, r) = model::state_set(v, ident, state);
            &&& match v.slots[i].port.with_state(state) {
                Ok(port) => {
                    &&& r is Ok
                    &&& v2 == (RouterView { slots: v2.slots, ..v })
                    &&& v2.slots.len() == v.slots.len()
                    &&& v2.slots[i] == (Slot { port, ..v.slots[i] })
                    &&& forall|j: int|
                        0 <= j < v.slots.len() && j != i ==> #[trigger] v2.slots[j] == v.slots[j]
                },
                Err(e) => v2 == v && r == Err::<(), _>(e),
            }
            &&& v.slots[i].port.with_state(state) is Ok <==> r is Ok
        }),
{
    lemma_found(v, ident, i, n);
    assert(v.slots[i].ident < n);
    edge_port::ports_take_states(v.slots[i].port, state);
}

/// The state of the upstream of a bridge is read and set by the ident 255.
pub proof fn upstreams_have_states<I: Interface>(v: RouterView<I>, state: InterfaceState)
    requires
        v.upstream is Some,
    ensures
        ({
            let up = v.upstream->0;
            let (v2, r) = model::state_set(v, 255, state);
            &&& model::state_of(v, 255) == Some(up.port.state)
            &&& match up.port.with_state(state) {
                Ok(port) => {
                    &&& r is Ok
                    &&& v2 == (RouterView { upstream: v2.upstream, ..v })
                    &&& v2.upstream matches Some(up2) && up2.port == port && up2.closer
                        == up.closer
                },
                Err(e) => v2 == v && r == Err::<(), _>(e),
            }
        }),
{
}

/// A downstream interface takes any number that no other interface, no route and
/// not the link to the upstream has. It is then active under that number, and the
/// claims on its old bus are gone. Everything else stays.
pub proof fn interfaces_are_renumbered<I: Interface>(
    v: RouterView<I>,
    ident: u8,
    new_net_id: u16,
    i: int,
    n: nat,
    s: nat,
    c: nat,
)
    requires
        model::router_wf(v, n, s, c),
        is_at(v, ident, i),
    ensures
        ({
            let (v2, r) = model::reassigned(v, ident, new_net_id);
            let had = on_upstream(v, new_net_id) || (exists|j: int|
                0 <= j < v.slots.len() && j != i && (#[trigger] v.slots[j]).net_id == new_net_id)
                || (exists|k: int|
                0 <= k < v.seeds.len() && (#[trigger] v.seeds[k]).key == new_net_id);
            if new_net_id == 0 || had {
                v2 == v && r == Err::<(), _>(SetStateError::NetIdInUse)
            } else {
                let slot = v2.slots[i];
                &&& r is Ok
                &&& v2 == (RouterView { slots: v2.slots, claims: v2.claims, ..v })
                &&& v2.slots.len() == v.slots.len()
                &&& forall|j: int|
                    0 <= j < v.slots.len() && j != i ==> #[trigger] v2.slots[j] == v.slots[j]
                &&& slot.ident == ident && slot.net_id == new_net_id && slot.closer
                    == v.slots[i].closer
                &&& slot.port.sink == v.slots[i].port.sink && slot.port.other_node_id
                    == v.slots[i].port.other_node_id
                &&& slot.port.own_node_id == 1
                &&& slot.port.state == (InterfaceState::Active { net_id: new_net_id, node_id: 1 })
                &&& v2.claims == (if v.slots[i].net_id == new_net_id {
                    v.claims
                } else {
                    v.claims.filter(elsewhere(v.slots[i].net_id))
                })
            }
        }),
{
    lemma_found(v, ident, i, n);
    lemma_dropped(v.claims, v.slots[i].net_id);
    assert forall|j: int| 0 <= j < v.slots.len() implies ((#[trigger] v.slots[j]).ident != ident
        <==> j != i) by {
        if j < i {
            assert(v.slots[j].ident != v.slots[i].ident);
        } else if i < j {
            assert(v.slots[i].ident != v.slots[j].ident);
        }
    }
}

/// An interface that does not exist is not renumbered.
pub proof fn unknown_interfaces_are_not_renumbered<I: Interface>(
    v: RouterView<I>,
    ident: u8,
    new_net_id: u16,
)
    requires
        forall|i: int| !#[trigger] is_at(v, ident, i),
    ensures
        model::reassigned(v, ident, new_net_id).0 == v,
        model::reassigned(v, ident, new_net_id).1 is Err,
        new_net_id != 0 && !on_upstream(v, new_net_id) && (forall|j: int|
            0 <= j < v.slots.len() ==> (#[trigger] v.slots[j]).net_id != new_net_id) && (
        forall|k: int| 0 <= k < v.seeds.len() ==> (#[trigger] v.seeds[k]).key != new_net_id)
            ==> model::reassigned(v, ident, new_net_id).1 == Err::<(), _>(
            SetStateError::InterfaceNotFound,
        ),
{
    lemma_not_found(v, ident);
}

/// The networks of a router are those of its active interfaces, in order.
pub proof fn networks_are_those_of_active_interfaces<I: Interface>(slots: Seq<Slot<I>>, k: nat)
    requires
        k <= slots.len(),
    ensures
        model::active_nets(slots, k) == slots.take(k as int).filter(
            |x: Slot<I>| x.port.state is Active,
        ).map_values(|x: Slot<I>| x.port.state->Active_net_id),
    decreases k,
{
    reveal(Seq::filter);
    let active = |x: Slot<I>| x.port.state is Active;
    let net = |x: Slot<I>| x.port.state->Active_net_id;
    let taken = slots.take(k as int);
    if k > 0 {
        networks_are_those_of_active_interfaces(slots, (k - 1) as nat);
        let before = slots.take(k - 1);
        assert(taken.drop_last() =~= before);
        assert(taken.last() == slots[k - 1]);
        let f = before.filter(active);
        if slots[k - 1].port.state is Active {
            assert(f.push(slots[k - 1]).map_values(net) =~= f.map_values(net).push(
                net(slots[k - 1]),
            ));
        }
    }
    assert(model::active_nets(slots, k) =~= taken.filter(active).map_values(net));
}

/// The workers of an interface wait on the last closer that it was given. Nothing else
/// changes, and an interface that does not exist keeps none.
pub proof fn interfaces_keep_their_closer<
    I: Interface,
    const N: usize,
    const S: usize,
    const C: usize,
>(v: RouterView<I>, ident: u8, closer: Closer, n: nat, s: nat, c: nat)
    requires
        model::router_wf(v, n, s, c),
    ensures
        ({
            let v2 = RouterState::<I, N, S, C>::with_closer(v, ident, closer);
            &&& v2.seeds == v.seeds
            &&& v2.claims == v.claims
            &&& v2.claimed_at == v.claimed_at
            &&& v2.slots.len() == v.slots.len()
            &&& forall|i: int|
                0 <= i < v.slots.len() ==> #[trigger] v2.slots[i] == (if v.slots[i].ident == ident
                    && ident != 255 {
                    Slot { closer: Some(closer), ..v.slots[i] }
                } else {
                    v.slots[i]
                })
            &&& v2.upstream == (match v.upstream {
                Some(up) => if ident == 255 {
                    Some(UpstreamPort { closer: Some(closer), ..up })
                } else {
                    Some(up)
                },
                None => None,
            })
        }),
{
    let p = |slot: Slot<I>| slot.ident == ident;
    lease_table::first_where_none(v.slots, p);
}

/// It is the workers of the interface itself that are told to stop when it goes.
pub proof fn closers_are_found<I: Interface>(
    v: RouterView<I>,
    ident: u8,
    i: int,
    n: nat,
    s: nat,
    c: nat,
)
    requires
        model::router_wf(v, n, s, c),
    ensures
        is_at(v, ident, i) ==> model::closer_of(v, ident) == v.slots[i].closer,
        !has_ident(v, ident) ==> model::closer_of(v, ident) is None,
{
    let p = |slot: Slot<I>| slot.ident == ident;
    lease_table::first_where_none(v.slots, p);
    if let Some(k) = model::slot_of_ident(v.slots, ident) {
        assert(is_at(v, ident, k));
    }
}

/// A router starts without interfaces, leases and claims. The upstream of a bridge starts
/// down, and the bridge is the edge node of that link.
pub proof fn routers_start_empty<I: Interface>(sink: I::Sink)
    ensures
        router::unconnected::<I>().slots.len() == 0,
        router::unconnected::<I>().seeds.len() == 0,
        router::unconnected::<I>().claims.len() == 0,
        router::unconnected::<I>().upstream is None,
        router::unconnected::<I>().claimed_at == 0,
        router::quiet_upstream::<I>(sink).port.sink == sink,
        router::quiet_upstream::<I>(sink).port.state == InterfaceState::Down,
        router::quiet_upstream::<I>(sink).port.own_node_id == 2,
        router::quiet_upstream::<I>(sink).port.other_node_id == 1,
        router::quiet_upstream::<I>(sink).closer is None,
{
}

} // verus!
