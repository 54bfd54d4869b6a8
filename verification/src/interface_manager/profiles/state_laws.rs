//! What frame processing does to the states of interfaces.

use vstd::prelude::*;
use crate::address::Address;
use crate::clock::TokenSource;
use crate::interface_manager;
use crate::interface_manager::edge_port::CENTRAL_NODE_ID;
use crate::interface_manager::lease_table;
use crate::interface_manager::leases::Nanos;
use crate::interface_manager::profiles::direct_edge;
use crate::interface_manager::profiles::direct_edge::{DirectEdge, EdgeFrameProcessor};
use crate::interface_manager::profiles::router::Router;
use crate::interface_manager::profiles::router_frames;
use crate::interface_manager::profiles::router_frames::RouterFrameProcessor;
use crate::interface_manager::profiles::router_model as model;
use crate::interface_manager::profiles::router_model::{Route, RouterView, Slot};
use crate::interface_manager::{
    Interface, InterfaceSendError, InterfaceState, Payload, Profile, ProfileStep, SetStateError,
};
use crate::net_stack;
use crate::net_stack::{NetStack, NetStackSendError};
use crate::wire_frames;
use crate::{Header, ProtocolError};

verus! {

/// What one step of a profile does to the state of an interface: reading tells
/// it, only setting changes it, and setting fails only for an interface that
/// does not exist or for a reserved node_id.
pub open spec fn state_moved<P: Profile>(
    state_of: spec_fn(P, P::InterfaceIdent) -> Option<InterfaceState>,
    before: P,
    after: P,
    step: ProfileStep<P::InterfaceIdent>,
    ident: P::InterfaceIdent,
) -> bool {
    match step {
        ProfileStep::StateRead { ident: of, r } => {
            &&& of == ident ==> r == state_of(before, ident)
            &&& state_of(after, ident) == state_of(before, ident)
        },
        ProfileStep::StateSet { ident: of, state, r } => {
            &&& state_of(after, ident) == (if of == ident && r is Ok {
                Some(state)
            } else {
                state_of(before, ident)
            })
            &&& of == ident && r is Err ==> state_of(before, ident) is None || reserved_node(state)
        },
        _ => state_of(after, ident) == state_of(before, ident),
    }
}

/// A state in which no interface can be.
pub open spec fn reserved_node(state: InterfaceState) -> bool {
    match state {
        InterfaceState::ActiveLocal { node_id } => node_id == 0 || node_id == 255,
        InterfaceState::Active { net_id, node_id } => node_id == 0 || node_id == 255,
        _ => false,
    }
}

/// Whether `state_of` tells the states of a profile's interfaces.
pub open spec fn tells_states<P: Profile>(
    state_of: spec_fn(P, P::InterfaceIdent) -> Option<InterfaceState>,
) -> bool {
    forall|
        before: P,
        after: P,
        step: ProfileStep<P::InterfaceIdent>,
        ident: P::InterfaceIdent,
    |
        net_stack::profile_step(before, after, step) ==> #[trigger] state_moved(
            state_of,
            before,
            after,
            step,
            ident,
        )
}

// ---------------------------------------------------------------------------
// The profiles
// ---------------------------------------------------------------------------
/// The state of the one interface of an edge device: that of its port.
pub open spec fn edge_states<I: Interface>() -> spec_fn(DirectEdge<I>, ()) -> Option<
    InterfaceState,
> {
    |edge: DirectEdge<I>, ident: ()| Some(edge.port.state)
}

/// The states of a router's interfaces: those of their ports.
pub open spec fn router_states<
    I: Interface,
    R: TokenSource,
    const N: usize,
    const S: usize,
    const C: usize,
>() -> spec_fn(Router<I, R, N, S, C>, u8) -> Option<InterfaceState> {
    |router: Router<I, R, N, S, C>, ident: u8| model::state_of(router@, ident)
}

/// The state of the one interface of an edge device is that of its port.
pub proof fn edge_tells_states<I: Interface>()
    ensures
        tells_states::<DirectEdge<I>>(edge_states()),
{
}

/// Slots and an upstream whose idents and states are the same.
spec fn same_states<I: Interface>(v: RouterView<I>, later: RouterView<I>) -> bool {
    &&& later.slots.len() == v.slots.len()
    &&& forall|i: int|
        0 <= i < v.slots.len() ==> (#[trigger] later.slots[i]).ident == v.slots[i].ident
            && later.slots[i].port.state == v.slots[i].port.state
    &&& match v.upstream {
        Some(up) => later.upstream matches Some(up2) && up2.port.state == up.port.state,
        None => later.upstream is None,
    }
}

proof fn lemma_same_states<I: Interface>(v: RouterView<I>, later: RouterView<I>, ident: u8)
    requires
        same_states(v, later),
    ensures
        model::state_of(later, ident) == model::state_of(v, ident),
{
    let p = |s: Slot<I>| s.ident == ident;
    lease_table::first_where_none(v.slots, p);
    lease_table::first_where_none(later.slots, p);
    if let Some(i) = lease_table::first_where(v.slots, p) {
        assert forall|j: int| 0 <= j < i implies !p(#[trigger] later.slots[j]) by {
            assert(!p(v.slots[j]));
        }
        assert(p(later.slots[i]));
        lease_table::first_where_is(later.slots, p, i);
    } else {
        assert forall|j: int| 0 <= j < later.slots.len() implies !p(#[trigger] later.slots[j]) by {
            assert(!p(v.slots[j]));
        }
    }
}

/// Sending a frame leaves the states of a router's interfaces as they are.
proof fn lemma_sent_keeps_states<I: Interface>(
    before: RouterView<I>,
    after: RouterView<I>,
    hdr: Header,
    what: Payload,
    source: Option<u8>,
    now: Nanos,
    r: Result<(), InterfaceSendError>,
)
    requires
        model::sent(before, after, hdr, what, source, now, r),
    ensures
        same_states(before, after),
{
    if let Ok(h) = hdr.decremented() {
        if h.dst.port_id == 255 && !(what is Error) {
            if after != before {
                let legs = choose|legs: Seq<Option<Result<(), InterfaceSendError>>>|
                    {
                        &&& #[trigger] model::slot_legs(
                            before.slots,
                            after.slots,
                            h,
                            what,
                            source,
                            legs,
                            before.slots.len(),
                        )
                        &&& model::upstream_leg(
                            before,
                            after.upstream,
                            h,
                            what,
                            source,
                            legs.last(),
                        )
                    };
                assert forall|i: int| 0 <= i < before.slots.len() implies (
                #[trigger] after.slots[i]).ident == before.slots[i].ident
                    && after.slots[i].port.state == before.slots[i].port.state by {
                    let leg = legs[i];
                }
            }
        } else {
            let (v1, way) = model::found(before, h, source, now);
            if let Ok(Route::Slot(pos)) = way {
                lease_table::first_where_none(v1.slots, |s: Slot<I>| s.net_id == h.dst.network_id);
            }
        }
    }
}

/// The state of a router's interface is that of its port.
pub proof fn router_tells_states<
    I: Interface,
    R: TokenSource,
    const N: usize,
    const S: usize,
    const C: usize,
>()
    ensures
        tells_states::<Router<I, R, N, S, C>>(router_states()),
{
    let state_of = router_states::<I, R, N, S, C>();
    assert forall|
        before: Router<I, R, N, S, C>,
        after: Router<I, R, N, S, C>,
        step: ProfileStep<u8>,
        ident: u8,
    |
        net_stack::profile_step(before, after, step) implies #[trigger] state_moved(
        state_of,
        before,
        after,
        step,
        ident,
    ) by {
        match step {
            ProfileStep::Sent { hdr, what, source, r } => {
                let now = choose|now: Nanos|
                    before.clock.shows(now) && #[trigger] model::sent(
                        before@,
                        after@,
                        hdr,
                        what,
                        source,
                        now,
                        r,
                    );
                lemma_sent_keeps_states(before@, after@, hdr, what, source, now, r);
                lemma_same_states(before@, after@, ident);
            },
            ProfileStep::StateSet { ident: of, state, r } => {
                lemma_state_set(before@, of, state, ident);
            },
            _ => {
                lemma_same_states(before@, after@, ident);
            },
        }
    }
}

/// Setting a state sets it for one interface, and for no other.
proof fn lemma_state_set<I: Interface>(
    v: RouterView<I>,
    of: u8,
    state: InterfaceState,
    ident: u8,
)
    ensures
        ({
            let (later, r) = model::state_set(v, of, state);
            &&& model::state_of(later, ident) == (if of == ident && r is Ok {
                Some(state)
            } else {
                model::state_of(v, ident)
            })
            &&& of == ident && r is Err ==> model::state_of(v, ident) is None || reserved_node(
                state,
            )
        }),
{
    let later = model::state_set(v, of, state).0;
    let p = |s: Slot<I>| s.ident == ident;
    let q = |s: Slot<I>| s.ident == of;
    lease_table::first_where_none(v.slots, p);
    lease_table::first_where_none(v.slots, q);
    lease_table::first_where_none(later.slots, p);
    if let Some(i) = lease_table::first_where(v.slots, p) {
        assert forall|j: int| 0 <= j < i implies !p(#[trigger] later.slots[j]) by {
            assert(!p(v.slots[j]));
        }
        assert(p(later.slots[i]));
        lease_table::first_where_is(later.slots, p, i);
    } else {
        assert forall|j: int| 0 <= j < later.slots.len() implies !p(#[trigger] later.slots[j]) by {
            assert(!p(v.slots[j]));
        }
    }
}

// ---------------------------------------------------------------------------
// Passing frames on
// ---------------------------------------------------------------------------
/// Passing a message to the stack leaves the states of the interfaces as they
/// are.
proof fn lemma_message_keeps_states<P: Profile>(
    state_of: spec_fn(P, P::InterfaceIdent) -> Option<InterfaceState>,
    before: NetStack<P>,
    after: NetStack<P>,
    hdr: Header,
    what: Payload,
    source: Option<P::InterfaceIdent>,
    r: Result<(), NetStackSendError>,
    ident: P::InterfaceIdent,
)
    requires
        tells_states(state_of),
        net_stack::message_sent(before, after, hdr, what, source, r),
    ensures
        state_of(after.profile, ident) == state_of(before.profile, ident),
{
    if after.profile != before.profile {
        let pr = choose|pr: Result<(), InterfaceSendError>| #[trigger]
            net_stack::profile_step(
                before.profile,
                after.profile,
                ProfileStep::Sent { hdr, what, source, r: pr },
            );
        assert(state_moved(
            state_of,
            before.profile,
            after.profile,
            ProfileStep::Sent { hdr, what, source, r: pr },
            ident,
        ));
    }
}

/// Passing an error to the stack leaves the states of the interfaces as they
/// are.
proof fn lemma_error_keeps_states<P: Profile>(
    state_of: spec_fn(P, P::InterfaceIdent) -> Option<InterfaceState>,
    before: NetStack<P>,
    after: NetStack<P>,
    hdr: Header,
    err: ProtocolError,
    source: Option<P::InterfaceIdent>,
    r: Result<(), NetStackSendError>,
    ident: P::InterfaceIdent,
)
    requires
        tells_states(state_of),
        net_stack::error_sent(before, after, hdr, err, source, r),
    ensures
        state_of(after.profile, ident) == state_of(before.profile, ident),
{
    if after.profile != before.profile {
        let pr = choose|pr: Result<(), InterfaceSendError>| #[trigger]
            net_stack::profile_step(
                before.profile,
                after.profile,
                ProfileStep::Sent { hdr, what: Payload::Error(err), source, r: pr },
            );
        assert(state_moved(
            state_of,
            before.profile,
            after.profile,
            ProfileStep::Sent { hdr, what: Payload::Error(err), source, r: pr },
            ident,
        ));
    }
}

/// Passing a received frame on leaves the states of the interfaces as they are.
pub proof fn passing_on_keeps_states<P: Profile>(
    state_of: spec_fn(P, P::InterfaceIdent) -> Option<InterfaceState>,
    before: NetStack<P>,
    after: NetStack<P>,
    hdr: Header,
    content: Result<Seq<u8>, ProtocolError>,
    from: P::InterfaceIdent,
    r: Result<(), NetStackSendError>,
    ident: P::InterfaceIdent,
)
    requires
        tells_states(state_of),
        interface_manager::passed_on(before, after, hdr, content, from, r),
    ensures
        state_of(after.profile, ident) == state_of(before.profile, ident),
{
    match content {
        Ok(body) => {
            lemma_message_keeps_states(
                state_of,
                before,
                after,
                hdr,
                Payload::Raw(body),
                Some(from),
                r,
                ident,
            );
        },
        Err(err) => {
            lemma_error_keeps_states(state_of, before, after, hdr, err, Some(from), r, ident);
        },
    }
}

// ---------------------------------------------------------------------------
// Edge devices
// ---------------------------------------------------------------------------
/// The profile, asked about `net_id` when a frame came in, said that it does not
/// route it somewhere else.
pub open spec fn not_transit<P: Profile>(before: P, ident: P::InterfaceIdent, net_id: u16) -> bool {
    exists|read: P, asked: P, state: Option<InterfaceState>|
        {
            &&& #[trigger] net_stack::profile_step(
                before,
                read,
                ProfileStep::StateRead { ident, r: state },
            )
            &&& #[trigger] net_stack::profile_step(
                read,
                asked,
                ProfileStep::TransitNet { net_id, routed: false },
            )
        }
}

/// Where an edge processor has a net_id from: it knew it before, or the frame
/// is addressed to this node on that net, which is not routed somewhere else.
pub open spec fn net_learnt<P: Profile>(
    p: EdgeFrameProcessor,
    before: P,
    ident: P::InterfaceIdent,
    dst: Address,
    net_id: u16,
) -> bool {
    ||| p.net_id == Some(net_id)
    ||| net_id != 0 && dst.network_id == net_id && dst.node_id == p.own_node && not_transit(
        before,
        ident,
        net_id,
    )
}

/// Discovery says that the state changed exactly when it did, and to what.
proof fn lemma_discovery_reports<P: Profile>(
    state_of: spec_fn(P, P::InterfaceIdent) -> Option<InterfaceState>,
    p: EdgeFrameProcessor,
    p2: EdgeFrameProcessor,
    before: P,
    after: P,
    ident: P::InterfaceIdent,
    dst: Address,
    changed: bool,
    dropped: bool,
)
    requires
        tells_states(state_of),
        direct_edge::discovery_done(p, p2, before, after, ident, dst, changed, dropped),
    ensures
        changed == (state_of(after, ident) != state_of(before, ident)),
        changed ==> (p2.net_id matches Some(net_id) && state_of(after, ident) == Some(
            InterfaceState::Active { net_id, node_id: p.own_node },
        ) && net_learnt(p, before, ident, dst, net_id)),
{
    if !p.activated {
        let (read, state) = choose|read: P, state: Option<InterfaceState>|
            {
                &&& #[trigger] net_stack::profile_step(
                    before,
                    read,
                    ProfileStep::StateRead { ident, r: state },
                )
                &&& match state {
                    None => p2 == p && after == read && !changed && dropped,
                    Some(state) => exists|asked: P, transit: bool|
                        {
                            &&& #[trigger] direct_edge::transit_answered(
                                read,
                                asked,
                                direct_edge::asks_transit(p, dst, state),
                                dst.network_id,
                                transit,
                            )
                            &&& direct_edge::activation(
                                p,
                                p2,
                                asked,
                                after,
                                ident,
                                direct_edge::discovered(p, dst, state, transit).0,
                                direct_edge::discovered(p, dst, state, transit).1,
                                changed,
                                dropped,
                            )
                        },
                }
            };
        assert(state_moved(
            state_of,
            before,
            read,
            ProfileStep::StateRead { ident, r: state },
            ident,
        ));
        if let Some(state) = state {
            let (asked, transit) = choose|asked: P, transit: bool|
                {
                    &&& #[trigger] direct_edge::transit_answered(
                        read,
                        asked,
                        direct_edge::asks_transit(p, dst, state),
                        dst.network_id,
                        transit,
                    )
                    &&& direct_edge::activation(
                        p,
                        p2,
                        asked,
                        after,
                        ident,
                        direct_edge::discovered(p, dst, state, transit).0,
                        direct_edge::discovered(p, dst, state, transit).1,
                        changed,
                        dropped,
                    )
                };
            if direct_edge::asks_transit(p, dst, state) {
                assert(state_moved(
                    state_of,
                    read,
                    asked,
                    ProfileStep::TransitNet { net_id: dst.network_id, routed: transit },
                    ident,
                ));
            }
            if let Some(net_id) = direct_edge::discovered(p, dst, state, transit).0 {
                let set = InterfaceState::Active { net_id, node_id: p.own_node };
                let r = choose|r: Result<(), SetStateError>|
                    {
                        &&& #[trigger] net_stack::profile_step(
                            asked,
                            after,
                            ProfileStep::StateSet { ident, state: set, r },
                        )
                        &&& changed == (r is Ok)
                    };
                assert(state_moved(
                    state_of,
                    asked,
                    after,
                    ProfileStep::StateSet { ident, state: set, r },
                    ident,
                ));
            }
        }
    }
}

/// Processing a frame on an edge device says that the state of the interface
/// changed exactly when it did. The state then is active, as this node, on a net
/// that the processor knew before or that the frame is addressed to. A frame
/// that cannot be decoded changes nothing and goes nowhere.
pub proof fn edge_reports_state_changes<P: Profile>(
    state_of: spec_fn(P, P::InterfaceIdent) -> Option<InterfaceState>,
    p: EdgeFrameProcessor,
    p2: EdgeFrameProcessor,
    before: NetStack<P>,
    after: NetStack<P>,
    data: Seq<u8>,
    ident: P::InterfaceIdent,
    changed: bool,
)
    requires
        tells_states(state_of),
        direct_edge::edge_processed(p, p2, before, after, data, ident, changed),
    ensures
        changed == (state_of(after.profile, ident) != state_of(before.profile, ident)),
        match wire_frames::decode(data) {
            None => !changed && after == before && p2 == p,
            Some((hdr, _, _)) => changed ==> (p2.net_id matches Some(net_id) && state_of(
                after.profile,
                ident,
            ) == Some(InterfaceState::Active { net_id, node_id: p.own_node }) && net_learnt(
                p,
                before.profile,
                ident,
                hdr.dst,
                net_id,
            )),
        },
{
    if let Some((hdr, content, _)) = wire_frames::decode(data) {
        let (mid, dropped) = choose|mid: NetStack<P>, dropped: bool|
            {
                &&& #[trigger] direct_edge::discovery_done(
                    p,
                    p2,
                    before.profile,
                    mid.profile,
                    ident,
                    hdr.dst,
                    changed,
                    dropped,
                )
                &&& if dropped {
                    after == mid
                } else {
                    match direct_edge::edge_accepted(p2, hdr) {
                        None => after == mid,
                        Some(h) => exists|r: Result<(), NetStackSendError>| #[trigger]
                            interface_manager::passed_on(mid, after, h, content, ident, r),
                    }
                }
            };
        lemma_discovery_reports(
            state_of,
            p,
            p2,
            before.profile,
            mid.profile,
            ident,
            hdr.dst,
            changed,
            dropped,
        );
        if let Some(h) = direct_edge::edge_accepted(p2, hdr) {
            if !dropped {
                let r = choose|r: Result<(), NetStackSendError>| #[trigger]
                    interface_manager::passed_on(mid, after, h, content, ident, r);
                passing_on_keeps_states(state_of, mid, after, h, content, ident, r, ident);
            }
        }
    }
}

/// On an edge device, processing a frame says that the state of the interface
/// changed exactly when it did, and the state then is active, as this node, on a
/// net that the processor knew before or that the frame is addressed to.
pub proof fn direct_edge_reports_state_changes<I: Interface>(
    p: EdgeFrameProcessor,
    p2: EdgeFrameProcessor,
    before: NetStack<DirectEdge<I>>,
    after: NetStack<DirectEdge<I>>,
    data: Seq<u8>,
    changed: bool,
)
    requires
        direct_edge::edge_processed(p, p2, before, after, data, (), changed),
    ensures
        changed == (after.profile.port.state != before.profile.port.state),
        match wire_frames::decode(data) {
            None => !changed && after == before && p2 == p,
            Some((hdr, _, _)) => changed ==> (p2.net_id matches Some(net_id) && {
                &&& after.profile.port.state == (InterfaceState::Active {
                    net_id,
                    node_id: p.own_node,
                })
                &&& p.net_id == Some(net_id) || (net_id != 0 && hdr.dst.network_id == net_id
                    && hdr.dst.node_id == p.own_node)
            }),
        },
{
    edge_tells_states::<I>();
    edge_reports_state_changes(edge_states::<I>(), p, p2, before, after, data, (), changed);
}

/// On an interface of a router, such as the upstream of a bridge, processing a
/// frame with the processor of an edge device says that the state of the
/// interface changed exactly when it did. The state then is active, as this node,
/// on a net that the processor knew before, or that the frame is addressed to and
/// the router does not route to.
pub proof fn upstream_reports_state_changes<
    I: Interface,
    R: TokenSource,
    const N: usize,
    const S: usize,
    const C: usize,
>(
    p: EdgeFrameProcessor,
    p2: EdgeFrameProcessor,
    before: NetStack<Router<I, R, N, S, C>>,
    after: NetStack<Router<I, R, N, S, C>>,
    data: Seq<u8>,
    ident: u8,
    changed: bool,
)
    requires
        direct_edge::edge_processed(p, p2, before, after, data, ident, changed),
    ensures
        changed == (model::state_of(after.profile@, ident) != model::state_of(
            before.profile@,
            ident,
        )),
        match wire_frames::decode(data) {
            None => !changed && after == before && p2 == p,
            Some((hdr, _, _)) => changed ==> (p2.net_id matches Some(net_id) && {
                &&& model::state_of(after.profile@, ident) == Some(
                    InterfaceState::Active { net_id, node_id: p.own_node },
                )
                &&& p.net_id == Some(net_id) || {
                    &&& net_id != 0
                    &&& hdr.dst.network_id == net_id
                    &&& hdr.dst.node_id == p.own_node
                    &&& exists|now: Nanos|
                        before.profile.clock.shows(now) && !(#[trigger] model::transit(
                            before.profile@,
                            net_id,
                            now,
                        )).1
                }
            }),
        },
{
    router_tells_states::<I, R, N, S, C>();
    edge_reports_state_changes(
        router_states::<I, R, N, S, C>(),
        p,
        p2,
        before,
        after,
        data,
        ident,
        changed,
    );
}

// ---------------------------------------------------------------------------
// Routers
// ---------------------------------------------------------------------------
/// Passing a frame on and answering its sender leaves the states of the
/// interfaces as they are.
proof fn lemma_frame_keeps_states<P: Profile>(
    state_of: spec_fn(P, P::InterfaceIdent) -> Option<InterfaceState>,
    net_id: u16,
    before: NetStack<P>,
    after: NetStack<P>,
    data: Seq<u8>,
    ident: P::InterfaceIdent,
)
    requires
        tells_states(state_of),
        router_frames::frame_processed(net_id, before, after, data, ident),
    ensures
        state_of(after.profile, ident) == state_of(before.profile, ident),
{
    if let Some((hdr, content, _)) = wire_frames::decode(data) {
        if let Some(h) = router_frames::with_segment_source(net_id, hdr) {
            let to = router_frames::with_segment_destination(net_id, h);
            let (mid, may_send) = choose|mid: NetStack<P>, may_send: bool|
                {
                    &&& #[trigger] router_frames::claim_answered(
                        before.profile,
                        mid.profile,
                        net_id,
                        h,
                        may_send,
                    )
                    &&& if may_send {
                        router_frames::passed_on_and_answered(mid, after, to, content, ident)
                    } else {
                        after == mid
                    }
                };
            if router_frames::needs_claim(net_id, h) {
                assert(state_moved(
                    state_of,
                    before.profile,
                    mid.profile,
                    ProfileStep::NodeClaimed { net_id, node_id: h.src.node_id, may_send },
                    ident,
                ));
            }
            if may_send {
                let (sent, r) = choose|sent: NetStack<P>, r: Result<(), NetStackSendError>|
                    {
                        &&& #[trigger] interface_manager::passed_on(
                            mid,
                            sent,
                            to,
                            content,
                            ident,
                            r,
                        )
                        &&& router_frames::answered(sent, after, to, ident, r)
                    };
                passing_on_keeps_states(state_of, mid, sent, to, content, ident, r, ident);
                lemma_answer_keeps_states(state_of, sent, after, to, ident, r);
            }
        }
    }
}

proof fn lemma_answer_keeps_states<P: Profile>(
    state_of: spec_fn(P, P::InterfaceIdent) -> Option<InterfaceState>,
    before: NetStack<P>,
    after: NetStack<P>,
    hdr: Header,
    ident: P::InterfaceIdent,
    r: Result<(), NetStackSendError>,
)
    requires
        tells_states(state_of),
        router_frames::answered(before, after, hdr, ident, r),
    ensures
        state_of(after.profile, ident) == state_of(before.profile, ident),
{
    if let Err(NetStackSendError::InterfaceSend(InterfaceSendError::PacketTooBig { mtu })) = r {
        if let Some(reply) = router_frames::too_big_reply(hdr) {
            let err = ProtocolError::IsePacketTooBig { mtu };
            let sent = choose|sent: Result<(), NetStackSendError>| #[trigger]
                net_stack::error_sent(before, after, reply, err, Some(ident), sent);
            lemma_error_keeps_states(
                state_of,
                before,
                after,
                reply,
                err,
                Some(ident),
                sent,
                ident,
            );
        }
    }
}

/// The first frame on an inactive interface of a router activates it, with the
/// net_id of the processor and as the central node, and says so. From then on,
/// until the processor is reset, no frame changes the state or says that it did,
/// even if the interface has become inactive again.
pub proof fn router_activates_once<P: Profile>(
    state_of: spec_fn(P, P::InterfaceIdent) -> Option<InterfaceState>,
    p: RouterFrameProcessor,
    p2: RouterFrameProcessor,
    before: NetStack<P>,
    after: NetStack<P>,
    data: Seq<u8>,
    ident: P::InterfaceIdent,
    changed: bool,
)
    requires
        tells_states(state_of),
        router_frames::router_processed(p, p2, before, after, data, ident, changed),
    ensures
        changed == (!p.activated && state_of(before.profile, ident) == Some(
            InterfaceState::Inactive,
        )),
        p2.activated == (p.activated || changed),
        state_of(after.profile, ident) == (if changed {
            Some(InterfaceState::Active { net_id: p.net_id, node_id: CENTRAL_NODE_ID })
        } else {
            state_of(before.profile, ident)
        }),
        changed == (state_of(after.profile, ident) != state_of(before.profile, ident)),
        p2.net_id == (match state_of(before.profile, ident) {
            Some(InterfaceState::Active { net_id, node_id }) => net_id,
            _ => p.net_id,
        }),
{
    let (p1, read, done) = choose|
        p1: RouterFrameProcessor,
        read: NetStack<P>,
        done: NetStack<P>,
    |
        {
            &&& #[trigger] router_frames::synced(p, p1, before.profile, read.profile, ident)
            &&& #[trigger] router_frames::frame_processed(p1.net_id, read, done, data, ident)
            &&& router_frames::first_activation(
                p1,
                p2,
                done.profile,
                after.profile,
                ident,
                changed,
            )
        };
    let state = choose|state: Option<InterfaceState>|
        {
            &&& #[trigger] net_stack::profile_step(
                before.profile,
                read.profile,
                ProfileStep::StateRead { ident, r: state },
            )
            &&& p1 == (match state {
                Some(InterfaceState::Active { net_id, node_id }) => RouterFrameProcessor {
                    net_id,
                    ..p
                },
                _ => p,
            })
        };
    assert(state_moved(
        state_of,
        before.profile,
        read.profile,
        ProfileStep::StateRead { ident, r: state },
        ident,
    ));
    lemma_frame_keeps_states(state_of, p1.net_id, read, done, data, ident);
    lemma_activation(state_of, p1, p2, done.profile, after.profile, ident, changed);
}

proof fn lemma_activation<P: Profile>(
    state_of: spec_fn(P, P::InterfaceIdent) -> Option<InterfaceState>,
    p: RouterFrameProcessor,
    p2: RouterFrameProcessor,
    before: P,
    after: P,
    ident: P::InterfaceIdent,
    changed: bool,
)
    requires
        tells_states(state_of),
        router_frames::first_activation(p, p2, before, after, ident, changed),
    ensures
        changed == (!p.activated && state_of(before, ident) == Some(InterfaceState::Inactive)),
        p2 == (RouterFrameProcessor { activated: p.activated || changed, ..p }),
        state_of(after, ident) == (if changed {
            Some(InterfaceState::Active { net_id: p.net_id, node_id: CENTRAL_NODE_ID })
        } else {
            state_of(before, ident)
        }),
{
    let set = InterfaceState::Active { net_id: p.net_id, node_id: CENTRAL_NODE_ID };
    if !p.activated {
        let (read, state) = choose|read: P, state: Option<InterfaceState>|
            {
                &&& #[trigger] net_stack::profile_step(
                    before,
                    read,
                    ProfileStep::StateRead { ident, r: state },
                )
                &&& changed == (state == Some(InterfaceState::Inactive))
                &&& if changed {
                    exists|r: Result<(), SetStateError>| #[trigger]
                        net_stack::profile_step(
                            read,
                            after,
                            ProfileStep::StateSet { ident, state: set, r },
                        )
                } else {
                    after == read
                }
            };
        assert(state_moved(
            state_of,
            before,
            read,
            ProfileStep::StateRead { ident, r: state },
            ident,
        ));
        if changed {
            let r = choose|r: Result<(), SetStateError>| #[trigger]
                net_stack::profile_step(
                    read,
                    after,
                    ProfileStep::StateSet { ident, state: set, r },
                );
            assert(state_moved(
                state_of,
                read,
                after,
                ProfileStep::StateSet { ident, state: set, r },
                ident,
            ));
        }
    }
}

/// On a router, the first frame on an inactive interface activates it, with the
/// net_id of the processor and as the central node, and says so. From then on,
/// until the processor is reset, no frame changes the state or says that it did,
/// even if the interface has become inactive again.
pub proof fn router_interface_is_activated_once<
    I: Interface,
    R: TokenSource,
    const N: usize,
    const S: usize,
    const C: usize,
>(
    p: RouterFrameProcessor,
    p2: RouterFrameProcessor,
    before: NetStack<Router<I, R, N, S, C>>,
    after: NetStack<Router<I, R, N, S, C>>,
    data: Seq<u8>,
    ident: u8,
    changed: bool,
)
    requires
        router_frames::router_processed(p, p2, before, after, data, ident, changed),
    ensures
        changed == (!p.activated && model::state_of(before.profile@, ident) == Some(
            InterfaceState::Inactive,
        )),
        p2.activated == (p.activated || changed),
        model::state_of(after.profile@, ident) == (if changed {
            Some(InterfaceState::Active { net_id: p.net_id, node_id: CENTRAL_NODE_ID })
        } else {
            model::state_of(before.profile@, ident)
        }),
{
    router_tells_states::<I, R, N, S, C>();
    router_activates_once(
        router_states::<I, R, N, S, C>(),
        p,
        p2,
        before,
        after,
        data,
        ident,
        changed,
    );
}

} // verus!
