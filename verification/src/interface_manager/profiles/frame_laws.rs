//! What becomes of the frames that come in over an interface.

use vstd::prelude::*;
use crate::address::Address;
use crate::clock::TokenSource;
use crate::interface_manager;
use crate::interface_manager::edge_port::EdgePort;
use crate::interface_manager::leases::Nanos;
use crate::interface_manager::profiles::direct_edge;
use crate::interface_manager::profiles::direct_edge::{DirectEdge, EdgeFrameProcessor};
use crate::interface_manager::profiles::router::Router;
use crate::interface_manager::profiles::router_frames;
use crate::interface_manager::profiles::router_frames::RouterFrameProcessor;
use crate::interface_manager::profiles::router_model as model;
use crate::interface_manager::profiles::state_laws;
use crate::interface_manager::{
    FrameProcessor, Interface, InterfaceSendError, InterfaceState, Payload, Profile, ProfileStep,
    SetStateError,
};
use crate::net_stack;
use crate::net_stack::{NetStack, NetStackSendError};
use crate::wire_frames;
use crate::{FrameKind, Header, ProtocolError};

verus! {

// ---------------------------------------------------------------------------
// Routers
// ---------------------------------------------------------------------------
/// A router's segment takes the frames of every device on it, whatever node_id
/// the device has: only a frame without a source net is ever ignored, and of
/// those only the ones that come from nobody or from the router's own node_id.
/// A frame is taken as it is, but for a source net of zero, which becomes the net
/// of the segment.
pub proof fn segments_take_the_frames_of_their_devices(net_id: u16, hdr: Header)
    ensures
        hdr.src.network_id != 0 ==> router_frames::with_segment_source(net_id, hdr) == Some(hdr),
        hdr.src.network_id == 0 && 2 <= hdr.src.node_id ==> router_frames::with_segment_source(
            net_id,
            hdr,
        ) == Some(Header { src: Address { network_id: net_id, ..hdr.src }, ..hdr }),
        hdr.src.network_id == 0 && hdr.src.node_id < 2 ==> router_frames::with_segment_source(
            net_id,
            hdr,
        ) is None,
{
}

/// A destination without a net is on the segment; every other destination, and
/// all else in the header, stays as it is.
pub proof fn destinations_without_a_net_are_on_the_segment(net_id: u16, hdr: Header)
    ensures
        ({
            let to = router_frames::with_segment_destination(net_id, hdr);
            &&& to == (Header { dst: to.dst, ..hdr })
            &&& to.dst.node_id == hdr.dst.node_id
            &&& to.dst.port_id == hdr.dst.port_id
            &&& hdr.dst.network_id == 0 ==> to.dst.network_id == net_id
            &&& hdr.dst.network_id != 0 ==> to.dst.network_id == hdr.dst.network_id
        }),
{
}

/// The sender of a frame that is too big for an interface on the way is told the
/// size that fits, by an error with all its hops left that goes back to where the
/// frame came from. Nothing else is ever answered, and nobody can be told on an
/// "any" or "all" port.
pub proof fn senders_are_told_what_fits<P: Profile>(
    before: NetStack<P>,
    after: NetStack<P>,
    hdr: Header,
    ident: P::InterfaceIdent,
    r: Result<(), NetStackSendError>,
)
    requires
        router_frames::answered(before, after, hdr, ident, r),
    ensures
        match r {
            Err(NetStackSendError::InterfaceSend(InterfaceSendError::PacketTooBig { mtu })) =>
            if 1 <= hdr.src.port_id <= 254 {
                exists|sent: Result<(), NetStackSendError>| #[trigger]
                    net_stack::error_sent(
                        before,
                        after,
                        Header {
                            src: hdr.dst,
                            dst: hdr.src,
                            any_all: None,
                            kind: FrameKind(0),
                            class: hdr.class,
                            ttl: 15,
                        },
                        ProtocolError::IsePacketTooBig { mtu },
                        Some(ident),
                        sent,
                    )
            } else {
                after == before
            },
            _ => after == before,
        },
{
}

/// `hdr`, with the net of a segment where it names none.
pub open spec fn completed(hdr: Header, net_id: u16) -> Header {
    Header {
        src: Address {
            network_id: if hdr.src.network_id == 0 {
                net_id
            } else {
                hdr.src.network_id
            },
            ..hdr.src
        },
        dst: Address {
            network_id: if hdr.dst.network_id == 0 {
                net_id
            } else {
                hdr.dst.network_id
            },
            ..hdr.dst
        },
        ..hdr
    }
}

/// A frame was sent on under `hdr`, as having come in over `ident`, and its
/// sender answered.
pub open spec fn sent_on<P: Profile>(
    before: NetStack<P>,
    after: NetStack<P>,
    hdr: Header,
    content: Result<Seq<u8>, ProtocolError>,
    ident: P::InterfaceIdent,
) -> bool {
    match content {
        Ok(body) => exists|mid: NetStack<P>, r: Result<(), NetStackSendError>|
            {
                &&& #[trigger] net_stack::message_sent(
                    before,
                    mid,
                    hdr,
                    Payload::Raw(body),
                    Some(ident),
                    r,
                )
                &&& router_frames::answered(mid, after, hdr, ident, r)
            },
        Err(err) => exists|mid: NetStack<P>, r: Result<(), NetStackSendError>|
            {
                &&& #[trigger] net_stack::error_sent(before, mid, hdr, err, Some(ident), r)
                &&& router_frames::answered(mid, after, hdr, ident, r)
            },
    }
}

/// What was passed on and answered was sent on.
proof fn lemma_sent_on<P: Profile>(
    before: NetStack<P>,
    after: NetStack<P>,
    hdr: Header,
    content: Result<Seq<u8>, ProtocolError>,
    ident: P::InterfaceIdent,
)
    requires
        router_frames::passed_on_and_answered(before, after, hdr, content, ident),
    ensures
        sent_on(before, after, hdr, content, ident),
{
    let (mid, r) = choose|mid: NetStack<P>, r: Result<(), NetStackSendError>|
        {
            &&& #[trigger] interface_manager::passed_on(before, mid, hdr, content, ident, r)
            &&& router_frames::answered(mid, after, hdr, ident, r)
        };
    match content {
        Ok(body) => {
            assert(net_stack::message_sent(before, mid, hdr, Payload::Raw(body), Some(ident), r));
        },
        Err(err) => {
            assert(net_stack::error_sent(before, mid, hdr, err, Some(ident), r));
        },
    }
}

/// A frame from another segment, and a frame to the "any" port, is sent on
/// whatever is claimed: the profile is not even asked.
pub proof fn transit_and_claims_are_sent_on<P: Profile>(
    net_id: u16,
    before: NetStack<P>,
    after: NetStack<P>,
    data: Seq<u8>,
    ident: P::InterfaceIdent,
    hdr: Header,
    content: Result<Seq<u8>, ProtocolError>,
    used: nat,
)
    requires
        router_frames::frame_processed(net_id, before, after, data, ident),
        wire_frames::decode(data) == Some((hdr, content, used)),
        hdr.src.network_id != 0 || 2 <= hdr.src.node_id,
        hdr.dst.port_id == 0 || (hdr.src.network_id != 0 && hdr.src.network_id != net_id),
    ensures
        sent_on(before, after, completed(hdr, net_id), content, ident),
{
    let h = router_frames::with_segment_source(net_id, hdr)->0;
    let to = router_frames::with_segment_destination(net_id, h);
    let (mid, may_send) = choose|mid: NetStack<P>, may_send: bool|
        {
            &&& mid.sockets == before.sockets
            &&& #[trigger] router_frames::claim_answered(
                before.profile,
                mid.profile,
                net_id,
                h,
                may_send,
            )
            &&& if may_send {
                router_frames::passed_on_and_answered(mid, after, to, content, ident)
            } else {
                after == mid
            }
        };
    assert(mid == before);
    assert(to == completed(hdr, net_id));
    lemma_sent_on(mid, after, to, content, ident);
}

/// `may_send` is what the profile says of the node, and the frame was sent on
/// exactly if the node may send.
pub open spec fn sent_on_if_claimed<P: Profile>(
    before: NetStack<P>,
    mid: NetStack<P>,
    after: NetStack<P>,
    net_id: u16,
    hdr: Header,
    content: Result<Seq<u8>, ProtocolError>,
    ident: P::InterfaceIdent,
    may_send: bool,
) -> bool {
    &&& mid.sockets == before.sockets
    &&& net_stack::profile_step(
        before.profile,
        mid.profile,
        ProfileStep::NodeClaimed { net_id, node_id: hdr.src.node_id, may_send },
    )
    &&& may_send ==> sent_on(mid, after, completed(hdr, net_id), content, ident)
    &&& !may_send ==> after == mid
}

/// Every other frame of a device on the segment is sent on exactly if the device
/// has claimed its node_id there.
pub proof fn claimed_devices_are_heard<P: Profile>(
    net_id: u16,
    before: NetStack<P>,
    after: NetStack<P>,
    data: Seq<u8>,
    ident: P::InterfaceIdent,
    hdr: Header,
    content: Result<Seq<u8>, ProtocolError>,
    used: nat,
)
    requires
        router_frames::frame_processed(net_id, before, after, data, ident),
        wire_frames::decode(data) == Some((hdr, content, used)),
        hdr.src.network_id != 0 || 2 <= hdr.src.node_id,
        hdr.dst.port_id != 0,
        hdr.src.network_id == 0 || hdr.src.network_id == net_id,
    ensures
        exists|mid: NetStack<P>, may_send: bool| #[trigger]
            sent_on_if_claimed(before, mid, after, net_id, hdr, content, ident, may_send),
{
    let h = router_frames::with_segment_source(net_id, hdr)->0;
    let to = router_frames::with_segment_destination(net_id, h);
    let (mid, may_send) = choose|mid: NetStack<P>, may_send: bool|
        {
            &&& mid.sockets == before.sockets
            &&& #[trigger] router_frames::claim_answered(
                before.profile,
                mid.profile,
                net_id,
                h,
                may_send,
            )
            &&& if may_send {
                router_frames::passed_on_and_answered(mid, after, to, content, ident)
            } else {
                after == mid
            }
        };
    assert(to == completed(hdr, net_id));
    if may_send {
        lemma_sent_on(mid, after, to, content, ident);
    }
    assert(sent_on_if_claimed(before, mid, after, net_id, hdr, content, ident, may_send));
}

/// Bytes that are no frame, and frames from nobody, do nothing.
pub proof fn other_frames_do_nothing<P: Profile>(
    net_id: u16,
    before: NetStack<P>,
    after: NetStack<P>,
    data: Seq<u8>,
    ident: P::InterfaceIdent,
)
    requires
        router_frames::frame_processed(net_id, before, after, data, ident),
        wire_frames::decode(data) matches Some((hdr, _, _)) ==> hdr.src.network_id == 0
            && hdr.src.node_id < 2,
    ensures
        after == before,
{
}

/// The state of the interface was read, and the frame processed on the net that it
/// has, or on the one the processor knew if it has none.
pub open spec fn processed_on_current_net<P: Profile>(
    p: RouterFrameProcessor,
    p2: RouterFrameProcessor,
    before: NetStack<P>,
    read: NetStack<P>,
    done: NetStack<P>,
    after: NetStack<P>,
    data: Seq<u8>,
    ident: P::InterfaceIdent,
    state: Option<InterfaceState>,
) -> bool {
    let net = match state {
        Some(InterfaceState::Active { net_id, node_id }) => net_id,
        _ => p.net_id,
    };
    &&& net_stack::profile_step(
        before.profile,
        read.profile,
        ProfileStep::StateRead { ident, r: state },
    )
    &&& read.sockets == before.sockets
    &&& router_frames::frame_processed(net, read, done, data, ident)
    &&& after.sockets == done.sockets
    &&& p2.net_id == net
}

/// A frame is processed on the net that its interface has at the time, not on one
/// that it had before.
pub proof fn frames_are_processed_on_the_current_net<P: Profile>(
    p: RouterFrameProcessor,
    p2: RouterFrameProcessor,
    before: NetStack<P>,
    after: NetStack<P>,
    data: Seq<u8>,
    ident: P::InterfaceIdent,
    changed: bool,
)
    requires
        router_frames::router_processed(p, p2, before, after, data, ident, changed),
    ensures
        exists|read: NetStack<P>, done: NetStack<P>, state: Option<InterfaceState>| #[trigger]
            processed_on_current_net(p, p2, before, read, done, after, data, ident, state),
{
    let (p1, read, done) = choose|p1: RouterFrameProcessor, read: NetStack<P>, done: NetStack<P>|
        {
            &&& #[trigger] router_frames::synced(p, p1, before.profile, read.profile, ident)
            &&& read.sockets == before.sockets
            &&& #[trigger] router_frames::frame_processed(p1.net_id, read, done, data, ident)
            &&& router_frames::first_activation(
                p1,
                p2,
                done.profile,
                after.profile,
                ident,
                changed,
            )
            &&& after.sockets == done.sockets
        };
    let state = choose|state: Option<InterfaceState>|
        {
            &&& #[trigger] net_stack::profile_step(
                before.profile,
                read.profile,
                ProfileStep::StateRead { ident, r: state },
            )
            &&& p1 == (match state {
                Some(InterfaceState::Active { net_id, node_id }) => RouterFrameProcessor {
                    net_id,
                    ..p
                },
                _ => p,
            })
        };
    assert(processed_on_current_net(p, p2, before, read, done, after, data, ident, state));
}

/// After a reset a router's processor activates its interface anew, on the net it
/// had.
pub proof fn reset_routers_activate_anew<P: Profile>(p: RouterFrameProcessor)
    ensures
        ({
            let fresh = <RouterFrameProcessor as FrameProcessor<P>>::after_reset(p);
            fresh.net_id == p.net_id && !fresh.activated
        }),
{
}

/// A router answers what it is asked by its tables, at a time that its clock shows.
/// Asking whether a node may send changes nothing, and no step touches the clock or
/// the source of tokens.
pub proof fn routers_answer_by_their_tables<
    I: Interface,
    R: TokenSource,
    const N: usize,
    const S: usize,
    const C: usize,
>(before: Router<I, R, N, S, C>, after: Router<I, R, N, S, C>, step: ProfileStep<u8>)
    requires
        net_stack::profile_step(before, after, step),
    ensures
        after.wf(),
        after.rng == before.rng,
        after.clock == before.clock,
        match step {
            ProfileStep::Sent { hdr, what, source, r } => exists|now: Nanos|
                before.clock.shows(now) && #[trigger] model::sent(
                    before@,
                    after@,
                    hdr,
                    what,
                    source,
                    now,
                    r,
                ),
            ProfileStep::NodeClaimed { net_id, node_id, may_send } => after@ == before@
                && exists|now: Nanos|
                before.clock.shows(now) && may_send == #[trigger] model::node_claimed(
                    before@,
                    net_id,
                    node_id,
                    now,
                ),
            ProfileStep::TransitNet { net_id, routed } => exists|now: Nanos|
                before.clock.shows(now) && #[trigger] model::transit(before@, net_id, now) == (
                    after@,
                    routed,
                ),
            ProfileStep::StateRead { ident, r } => after@ == before@ && r == model::state_of(
                before@,
                ident,
            ),
            ProfileStep::StateSet { ident, state, r } => model::state_set(before@, ident, state)
                == (after@, r),
        },
{
    match step {
        ProfileStep::TransitNet { net_id, routed } => {
            let now = choose|now: Nanos|
                before.clock.shows(now) && (after@, routed) == #[trigger] model::transit(
                    before@,
                    net_id,
                    now,
                );
            assert(model::transit(before@, net_id, now) == (after@, routed));
        },
        _ => {},
    }
}

// ---------------------------------------------------------------------------
// Edge devices
// ---------------------------------------------------------------------------
/// An edge device sends out what originates on it, with one hop counted, and
/// nothing else: what came in over its one interface would only go back. It knows
/// the two nodes of its link, and routes to no other net.
pub proof fn edges_send_what_is_their_own<I: Interface>(
    before: DirectEdge<I>,
    after: DirectEdge<I>,
    step: ProfileStep<()>,
)
    requires
        net_stack::profile_step(before, after, step),
    ensures
        after.closer == before.closer,
        match step {
            ProfileStep::Sent { hdr, what, source, r } => {
                &&& source is Some || what is Raw ==> r == Err::<(), _>(
                    InterfaceSendError::RoutingLoop,
                ) && after == before
                &&& source is None && !(what is Raw) && hdr.ttl == 0 ==> r == Err::<(), _>(
                    InterfaceSendError::TtlExpired,
                ) && after == before
                &&& source is None && !(what is Raw) && hdr.ttl != 0 ==> EdgePort::sent(
                    before.port,
                    after.port,
                    Header { ttl: (hdr.ttl - 1) as u8, ..hdr },
                    what,
                    r,
                )
            },
            ProfileStep::StateRead { ident, r } => after == before && r == Some(
                before.port.state,
            ),
            ProfileStep::StateSet { ident, state, r } => match before.port.with_state(state) {
                Ok(port) => r is Ok && after.port == port,
                Err(e) => r == Err::<(), _>(e) && after == before,
            },
            ProfileStep::NodeClaimed { net_id, node_id, may_send } => after == before && (may_send
                <==> node_id == 1 || node_id == 2),
            ProfileStep::TransitNet { net_id, routed } => after == before && !routed,
        },
{
    if let ProfileStep::Sent { hdr, what, source, r } = step {
        if source is None && !(what is Raw) && hdr.ttl != 0 {
            let h = Header { ttl: (hdr.ttl - 1) as u8, ..hdr };
            assert(hdr.decremented() == Ok::<Header, InterfaceSendError>(h));
            assert(EdgePort::sent(before.port, after.port, h, what, r));
        }
    }
}

/// An interface that is active on a net is not asked again: an edge adopts that
/// net, unless it is only trying out one that it remembers. One that is active
/// without a net is left alone.
pub proof fn active_nets_are_adopted(
    p: EdgeFrameProcessor,
    dst: Address,
    net_id: u16,
    node_id: u8,
    transit: bool,
)
    ensures
        net_id != 0 && !p.rediscovering ==> direct_edge::discovered(
            p,
            dst,
            InterfaceState::Active { net_id, node_id },
            transit,
        ) == (
            None::<u16>,
            EdgeFrameProcessor {
                net_id: Some(net_id),
                own_node: p.own_node,
                activated: true,
                rediscovering: false,
            },
        ),
        direct_edge::discovered(p, dst, InterfaceState::ActiveLocal { node_id }, transit) == (
            None::<u16>,
            EdgeFrameProcessor { activated: true, ..p },
        ),
{
}

/// Whether an interface still has to find its net: it is down or inactive, active
/// on no net, or active on one that it only remembers.
pub open spec fn looking(p: EdgeFrameProcessor, state: InterfaceState) -> bool {
    match state {
        InterfaceState::Down => true,
        InterfaceState::Inactive => true,
        InterfaceState::ActiveLocal { node_id } => false,
        InterfaceState::Active { net_id, node_id } => net_id == 0 || p.rediscovering,
    }
}

/// An edge that is looking for its net takes it from the first frame that is for
/// its own node_id on a net that is not routed elsewhere, and stops looking. Any
/// other frame has it use the net it remembers, if there is one, and go on
/// looking. It is activated exactly if it is not on that net already.
pub proof fn addressed_frames_tell_the_net(
    p: EdgeFrameProcessor,
    dst: Address,
    state: InterfaceState,
    transit: bool,
)
    requires
        looking(p, state),
    ensures
        ({
            let (to_set, p2) = direct_edge::discovered(p, dst, state, transit);
            let on = |net: u16| InterfaceState::Active { net_id: net, node_id: p.own_node };
            if dst.network_id != 0 && dst.node_id == p.own_node && !transit {
                &&& p2.net_id == Some(dst.network_id)
                &&& p2.own_node == p.own_node
                &&& p2.activated
                &&& !p2.rediscovering
                &&& state == on(dst.network_id) ==> to_set is None
                &&& state != on(dst.network_id) ==> to_set == Some(dst.network_id)
            } else {
                &&& p2 == p
                &&& p.net_id is None ==> to_set is None
                &&& p.net_id matches Some(net) ==> (state == on(net) ==> to_set is None) && (state
                    != on(net) ==> to_set == Some(net))
            }
        }),
{
}

/// Only a frame for its own node_id on some net, that comes while it is looking for
/// its net, has an edge ask where that net is routed.
pub proof fn edges_ask_about_addressed_frames(
    p: EdgeFrameProcessor,
    dst: Address,
    state: InterfaceState,
)
    ensures
        direct_edge::asks_transit(p, dst, state) <==> looking(p, state) && dst.network_id != 0
            && dst.node_id == p.own_node,
{
}

/// An edge that knows its net takes every frame, but for one without a source net
/// that comes from nobody or from the edge's own node_id. A frame is taken as it
/// is, but for a source net of zero, which becomes the known one. An edge that
/// knows no net takes every frame as it is.
pub proof fn edges_take_the_frames_of_others(p: EdgeFrameProcessor, hdr: Header)
    ensures
        ({
            let r = direct_edge::edge_accepted(p, hdr);
            &&& p.net_id is None || hdr.src.network_id != 0 ==> r == Some(hdr)
            &&& p.net_id matches Some(net) ==> hdr.src.network_id == 0 ==> {
                &&& hdr.src.node_id == 0 || hdr.src.node_id == p.own_node ==> r is None
                &&& hdr.src.node_id != 0 && hdr.src.node_id != p.own_node ==> r == Some(
                    Header { src: Address { network_id: net, ..hdr.src }, ..hdr },
                )
            }
        }),
{
}

/// After a reset an edge looks for its net again. It remembers the net it had, and
/// only tries it out.
pub proof fn reset_edges_look_again<P: Profile>(p: EdgeFrameProcessor)
    ensures
        ({
            let fresh = <EdgeFrameProcessor as FrameProcessor<P>>::after_reset(p);
            &&& fresh.net_id == p.net_id
            &&& fresh.own_node == p.own_node
            &&& !fresh.activated
            &&& fresh.rediscovering <==> p.net_id is Some
        }),
{
}

/// A frame was sent on by an edge as it took it, or ignored if it did not.
pub open spec fn sent_on_by_edge<P: Profile>(
    before: NetStack<P>,
    after: NetStack<P>,
    p: EdgeFrameProcessor,
    hdr: Header,
    content: Result<Seq<u8>, ProtocolError>,
    ident: P::InterfaceIdent,
) -> bool {
    match (direct_edge::edge_accepted(p, hdr), content) {
        (None, _) => after == before,
        (Some(h), Ok(body)) => exists|r: Result<(), NetStackSendError>| #[trigger]
            net_stack::message_sent(before, after, h, Payload::Raw(body), Some(ident), r),
        (Some(h), Err(err)) => exists|r: Result<(), NetStackSendError>| #[trigger]
            net_stack::error_sent(before, after, h, err, Some(ident), r),
    }
}

/// An edge that has stopped looking for its net sends every frame on that it takes,
/// and learns nothing. Bytes that are no frame do nothing.
pub proof fn settled_edges_send_frames_on<P: Profile>(
    p: EdgeFrameProcessor,
    p2: EdgeFrameProcessor,
    before: NetStack<P>,
    after: NetStack<P>,
    data: Seq<u8>,
    ident: P::InterfaceIdent,
    changed: bool,
)
    requires
        direct_edge::edge_processed(p, p2, before, after, data, ident, changed),
        p.activated || wire_frames::decode(data) is None,
    ensures
        p2 == p,
        !changed,
        match wire_frames::decode(data) {
            None => after == before,
            Some((hdr, content, _)) => sent_on_by_edge(before, after, p, hdr, content, ident),
        },
{
    if let Some((hdr, content, _)) = wire_frames::decode(data) {
        let (mid, dropped) = choose|mid: NetStack<P>, dropped: bool|
            {
                &&& mid.sockets == before.sockets
                &&& #[trigger] direct_edge::discovery_done(
                    p,
                    p2,
                    before.profile,
                    mid.profile,
                    ident,
                    hdr.dst,
                    changed,
                    dropped,
                )
                &&& if dropped {
                    after == mid
                } else {
                    match direct_edge::edge_accepted(p2, hdr) {
                        None => after == mid,
                        Some(h) => exists|r: Result<(), NetStackSendError>| #[trigger]
                            interface_manager::passed_on(mid, after, h, content, ident, r),
                    }
                }
            };
        assert(mid == before);
        lemma_edge_sent_on(mid, after, p, hdr, content, ident);
    }
}

/// What an edge passed on was sent on.
proof fn lemma_edge_sent_on<P: Profile>(
    before: NetStack<P>,
    after: NetStack<P>,
    p: EdgeFrameProcessor,
    hdr: Header,
    content: Result<Seq<u8>, ProtocolError>,
    ident: P::InterfaceIdent,
)
    requires
        match direct_edge::edge_accepted(p, hdr) {
            None => after == before,
            Some(h) => exists|r: Result<(), NetStackSendError>| #[trigger]
                interface_manager::passed_on(before, after, h, content, ident, r),
        },
    ensures
        sent_on_by_edge(before, after, p, hdr, content, ident),
{
    if let Some(h) = direct_edge::edge_accepted(p, hdr) {
        let r = choose|r: Result<(), NetStackSendError>| #[trigger]
            interface_manager::passed_on(before, after, h, content, ident, r);
        match content {
            Ok(body) => {
                assert(net_stack::message_sent(
                    before,
                    after,
                    h,
                    Payload::Raw(body),
                    Some(ident),
                    r,
                ));
            },
            Err(err) => {
                assert(net_stack::error_sent(before, after, h, err, Some(ident), r));
            },
        }
    }
}

/// Setting a state either succeeds, and the edge has learnt and reports the change,
/// or fails, and the edge is as it was and drops the frame.
pub proof fn failed_activations_teach_nothing<P: Profile>(
    p: EdgeFrameProcessor,
    p2: EdgeFrameProcessor,
    before: P,
    after: P,
    ident: P::InterfaceIdent,
    to_set: Option<u16>,
    learnt: EdgeFrameProcessor,
    changed: bool,
    dropped: bool,
)
    requires
        direct_edge::activation(p, p2, before, after, ident, to_set, learnt, changed, dropped),
    ensures
        dropped ==> p2 == p && !changed && to_set is Some,
        !dropped ==> p2 == learnt,
        changed <==> to_set is Some && !dropped,
        to_set is None ==> after == before,
        to_set matches Some(net) ==> exists|r: Result<(), SetStateError>|
            (r is Ok <==> changed) && #[trigger] net_stack::profile_step(
                before,
                after,
                ProfileStep::StateSet {
                    ident,
                    state: InterfaceState::Active { net_id: net, node_id: p.own_node },
                    r,
                },
            ),
{
}

/// An edge device that is looking for its net finds it in any frame that is for its
/// node_id on some net: from then on it is active there, and says so if it was not
/// before.
pub proof fn edge_devices_find_their_net<I: Interface>(
    p: EdgeFrameProcessor,
    p2: EdgeFrameProcessor,
    before: NetStack<DirectEdge<I>>,
    after: NetStack<DirectEdge<I>>,
    data: Seq<u8>,
    changed: bool,
    hdr: Header,
    content: Result<Seq<u8>, ProtocolError>,
    used: nat,
)
    requires
        direct_edge::edge_processed(p, p2, before, after, data, (), changed),
        wire_frames::decode(data) == Some((hdr, content, used)),
        !p.activated,
        looking(p, before.profile.port.state),
        1 <= p.own_node <= 254,
        hdr.dst.network_id != 0,
        hdr.dst.node_id == p.own_node,
    ensures
        p2 == (EdgeFrameProcessor {
            net_id: Some(hdr.dst.network_id),
            own_node: p.own_node,
            activated: true,
            rediscovering: false,
        }),
        changed <==> before.profile.port.state != (InterfaceState::Active {
            net_id: hdr.dst.network_id,
            node_id: p.own_node,
        }),
        after.profile.port.state == (InterfaceState::Active {
            net_id: hdr.dst.network_id,
            node_id: p.own_node,
        }),
        after.profile.port.sink == before.profile.port.sink,
        exists|mid: NetStack<DirectEdge<I>>|
            mid.sockets == before.sockets && #[trigger] sent_on_by_edge(
                mid,
                after,
                p2,
                hdr,
                content,
                (),
            ),
{
    let (mid, dropped) = choose|mid: NetStack<DirectEdge<I>>, dropped: bool|
        {
            &&& mid.sockets == before.sockets
            &&& #[trigger] direct_edge::discovery_done(
                p,
                p2,
                before.profile,
                mid.profile,
                (),
                hdr.dst,
                changed,
                dropped,
            )
            &&& if dropped {
                after == mid
            } else {
                match direct_edge::edge_accepted(p2, hdr) {
                    None => after == mid,
                    Some(h) => exists|r: Result<(), NetStackSendError>| #[trigger]
                        interface_manager::passed_on(mid, after, h, content, (), r),
                }
            }
        };
    let (read, state) = choose|read: DirectEdge<I>, state: Option<InterfaceState>|
        {
            &&& #[trigger] net_stack::profile_step(
                before.profile,
                read,
                ProfileStep::StateRead { ident: (), r: state },
            )
            &&& match state {
                None => p2 == p && mid.profile == read && !changed && dropped,
                Some(state) => exists|asked: DirectEdge<I>, transit: bool|
                    {
                        &&& #[trigger] direct_edge::transit_answered(
                            read,
                            asked,
                            direct_edge::asks_transit(p, hdr.dst, state),
                            hdr.dst.network_id,
                            transit,
                        )
                        &&& direct_edge::activation(
                            p,
                            p2,
                            asked,
                            mid.profile,
                            (),
                            direct_edge::discovered(p, hdr.dst, state, transit).0,
                            direct_edge::discovered(p, hdr.dst, state, transit).1,
                            changed,
                            dropped,
                        )
                    },
            }
        };
    let state = state->0;
    let (asked, transit) = choose|asked: DirectEdge<I>, transit: bool|
        {
            &&& #[trigger] direct_edge::transit_answered(
                read,
                asked,
                direct_edge::asks_transit(p, hdr.dst, state),
                hdr.dst.network_id,
                transit,
            )
            &&& direct_edge::activation(
                p,
                p2,
                asked,
                mid.profile,
                (),
                direct_edge::discovered(p, hdr.dst, state, transit).0,
                direct_edge::discovered(p, hdr.dst, state, transit).1,
                changed,
                dropped,
            )
        };
    assert(state == before.profile.port.state);
    assert(!transit && asked == before.profile);
    addressed_frames_tell_the_net(p, hdr.dst, state, transit);
    assert(!dropped);
    lemma_edge_sent_on(mid, after, p2, hdr, content, ());
    assert(after.profile == mid.profile);
}

/// The same holds on the interface of any profile, such as the upstream of a bridge,
/// if the profile does not say that it routes to that net.
pub proof fn interfaces_find_their_net<P: Profile>(
    state_of: spec_fn(P, P::InterfaceIdent) -> Option<InterfaceState>,
    p: EdgeFrameProcessor,
    p2: EdgeFrameProcessor,
    before: NetStack<P>,
    after: NetStack<P>,
    data: Seq<u8>,
    ident: P::InterfaceIdent,
    changed: bool,
    hdr: Header,
    content: Result<Seq<u8>, ProtocolError>,
    used: nat,
    state: InterfaceState,
)
    requires
        state_laws::tells_states(state_of),
        direct_edge::edge_processed(p, p2, before, after, data, ident, changed),
        wire_frames::decode(data) == Some((hdr, content, used)),
        !p.activated,
        state_of(before.profile, ident) == Some(state),
        looking(p, state),
        1 <= p.own_node <= 254,
        hdr.dst.network_id != 0,
        hdr.dst.node_id == p.own_node,
        forall|read: P, asked: P|
            #![trigger net_stack::profile_step(
                read,
                asked,
                ProfileStep::TransitNet { net_id: hdr.dst.network_id, routed: true },
            )]
            net_stack::profile_step(
                before.profile,
                read,
                ProfileStep::StateRead { ident, r: Some(state) },
            ) ==> !net_stack::profile_step(
                read,
                asked,
                ProfileStep::TransitNet { net_id: hdr.dst.network_id, routed: true },
            ),
    ensures
        p2 == (EdgeFrameProcessor {
            net_id: Some(hdr.dst.network_id),
            own_node: p.own_node,
            activated: true,
            rediscovering: false,
        }),
        changed <==> state != (InterfaceState::Active {
            net_id: hdr.dst.network_id,
            node_id: p.own_node,
        }),
        state_of(after.profile, ident) == Some(
            InterfaceState::Active { net_id: hdr.dst.network_id, node_id: p.own_node },
        ),
{
    let (mid, dropped) = choose|mid: NetStack<P>, dropped: bool|
        {
            &&& mid.sockets == before.sockets
            &&& #[trigger] direct_edge::discovery_done(
                p,
                p2,
                before.profile,
                mid.profile,
                ident,
                hdr.dst,
                changed,
                dropped,
            )
            &&& if dropped {
                after == mid
            } else {
                match direct_edge::edge_accepted(p2, hdr) {
                    None => after == mid,
                    Some(h) => exists|r: Result<(), NetStackSendError>| #[trigger]
                        interface_manager::passed_on(mid, after, h, content, ident, r),
                }
            }
        };
    lemma_discovery(
        state_of,
        p,
        p2,
        before.profile,
        mid.profile,
        ident,
        hdr.dst,
        changed,
        dropped,
        state,
    );
    if let Some(h) = direct_edge::edge_accepted(p2, hdr) {
        let r = choose|r: Result<(), NetStackSendError>| #[trigger]
            interface_manager::passed_on(mid, after, h, content, ident, r);
        state_laws::passing_on_keeps_states(state_of, mid, after, h, content, ident, r, ident);
    }
}

/// Discovery, on an interface that looks for its net, with a frame for its node_id.
proof fn lemma_discovery<P: Profile>(
    state_of: spec_fn(P, P::InterfaceIdent) -> Option<InterfaceState>,
    p: EdgeFrameProcessor,
    p2: EdgeFrameProcessor,
    before: P,
    after: P,
    ident: P::InterfaceIdent,
    dst: Address,
    changed: bool,
    dropped: bool,
    state: InterfaceState,
)
    requires
        state_laws::tells_states(state_of),
        direct_edge::discovery_done(p, p2, before, after, ident, dst, changed, dropped),
        !p.activated,
        state_of(before, ident) == Some(state),
        looking(p, state),
        1 <= p.own_node <= 254,
        dst.network_id != 0,
        dst.node_id == p.own_node,
        forall|read: P, asked: P|
            #![trigger net_stack::profile_step(
                read,
                asked,
                ProfileStep::TransitNet { net_id: dst.network_id, routed: true },
            )]
            net_stack::profile_step(
                before,
                read,
                ProfileStep::StateRead { ident, r: Some(state) },
            ) ==> !net_stack::profile_step(
                read,
                asked,
                ProfileStep::TransitNet { net_id: dst.network_id, routed: true },
            ),
    ensures
        !dropped,
        p2 == (EdgeFrameProcessor {
            net_id: Some(dst.network_id),
            own_node: p.own_node,
            activated: true,
            rediscovering: false,
        }),
        changed <==> state != (InterfaceState::Active {
            net_id: dst.network_id,
            node_id: p.own_node,
        }),
        state_of(after, ident) == Some(
            InterfaceState::Active { net_id: dst.network_id, node_id: p.own_node },
        ),
{
    let (read, told) = choose|read: P, told: Option<InterfaceState>|
        {
            &&& #[trigger] net_stack::profile_step(
                before,
                read,
                ProfileStep::StateRead { ident, r: told },
            )
            &&& match told {
                None => p2 == p && after == read && !changed && dropped,
                Some(state) => exists|asked: P, transit: bool|
                    {
                        &&& #[trigger] direct_edge::transit_answered(
                            read,
                            asked,
                            direct_edge::asks_transit(p, dst, state),
                            dst.network_id,
                            transit,
                        )
                        &&& direct_edge::activation(
                            p,
                            p2,
                            asked,
                            after,
                            ident,
                            direct_edge::discovered(p, dst, state, transit).0,
                            direct_edge::discovered(p, dst, state, transit).1,
                            changed,
                            dropped,
                        )
                    },
            }
        };
    let step = ProfileStep::<P::InterfaceIdent>::StateRead { ident, r: told };
    assert(state_laws::state_moved(state_of, before, read, step, ident));
    assert(told == Some(state));
    let (asked, transit) = choose|asked: P, transit: bool|
        {
            &&& #[trigger] direct_edge::transit_answered(
                read,
                asked,
                direct_edge::asks_transit(p, dst, state),
                dst.network_id,
                transit,
            )
            &&& direct_edge::activation(
                p,
                p2,
                asked,
                after,
                ident,
                direct_edge::discovered(p, dst, state, transit).0,
                direct_edge::discovered(p, dst, state, transit).1,
                changed,
                dropped,
            )
        };
    edges_ask_about_addressed_frames(p, dst, state);
    let ask = ProfileStep::<P::InterfaceIdent>::TransitNet {
        net_id: dst.network_id,
        routed: transit,
    };
    assert(net_stack::profile_step(read, asked, ask));
    assert(state_laws::state_moved(state_of, read, asked, ask, ident));
    assert(!transit);
    addressed_frames_tell_the_net(p, dst, state, transit);
    let on = InterfaceState::Active { net_id: dst.network_id, node_id: p.own_node };
    if state != on {
        let r = choose|r: Result<(), SetStateError>|
            (r is Ok <==> changed) && (r is Err <==> dropped) && #[trigger] net_stack::profile_step(
                asked,
                after,
                ProfileStep::StateSet { ident, state: on, r },
            );
        let set = ProfileStep::<P::InterfaceIdent>::StateSet { ident, state: on, r };
        assert(net_stack::profile_step(asked, after, set));
        assert(state_laws::state_moved(state_of, asked, after, set, ident));
    }
}

/// A frame on an interface that the profile does not know teaches an edge that is
/// looking for its net nothing, and is dropped.
pub proof fn unknown_interfaces_drop_frames<P: Profile>(
    state_of: spec_fn(P, P::InterfaceIdent) -> Option<InterfaceState>,
    p: EdgeFrameProcessor,
    p2: EdgeFrameProcessor,
    before: NetStack<P>,
    after: NetStack<P>,
    data: Seq<u8>,
    ident: P::InterfaceIdent,
    changed: bool,
)
    requires
        state_laws::tells_states(state_of),
        direct_edge::edge_processed(p, p2, before, after, data, ident, changed),
        wire_frames::decode(data) is Some,
        !p.activated,
        state_of(before.profile, ident) is None,
    ensures
        p2 == p,
        !changed,
        after.sockets == before.sockets,
        net_stack::profile_step(
            before.profile,
            after.profile,
            (ProfileStep::StateRead { ident, r: None }),
        ),
{
    assert forall|read: P, told: Option<InterfaceState>| #[trigger]
        net_stack::profile_step(
            before.profile,
            read,
            ProfileStep::StateRead { ident, r: told },
        ) implies told is None by {
        assert(state_laws::state_moved(
            state_of,
            before.profile,
            read,
            ProfileStep::StateRead { ident, r: told },
            ident,
        ));
    }
}

/// Whoever drives an interface without knowing its role gets the processing of that role.
pub proof fn processors_process_frames<P: Profile>(
    router: (RouterFrameProcessor, RouterFrameProcessor),
    edge: (EdgeFrameProcessor, EdgeFrameProcessor),
    before: NetStack<P>,
    after: NetStack<P>,
    data: Seq<u8>,
    ident: P::InterfaceIdent,
    changed: bool,
)
    ensures
        <RouterFrameProcessor as FrameProcessor<P>>::processed(
            router.0,
            router.1,
            before,
            after,
            data,
            ident,
            changed,
        ) <==> router_frames::router_processed(
            router.0,
            router.1,
            before,
            after,
            data,
            ident,
            changed,
        ),
        <EdgeFrameProcessor as FrameProcessor<P>>::processed(
            edge.0,
            edge.1,
            before,
            after,
            data,
            ident,
            changed,
        ) <==> direct_edge::edge_processed(
            edge.0,
            edge.1,
            before,
            after,
            data,
            ident,
            changed,
        ),
{
}

} // verus!
