//! "Edge" device profile
//!
//! Edge devices are the second simplest device profile, and are intended for
//! devices that are on the "edge" of a network, e.g. they have a single upstream
//! connection to a bridge or seed router.
//!
//! They initially start not knowing their network ID, and if a packet is sent to
//! them, they assume the destination net ID is their net ID. They will also
//! blindly send any outgoing packets, rather than trying to determine whether
//! that packet is actually routable to a node on the network.

use vstd::prelude::*;
use crate::address::Address;
use crate::clock::Closer;
use crate::interface_manager;
use crate::interface_manager::edge_port::EdgePort;
use crate::interface_manager::{
    FrameProcessor, Ident, Interface, InterfaceSendError, InterfaceState, Profile, ProfileStep,
    SetStateError,
};
use crate::net_stack;
use crate::net_stack::{NetStack, NetStackSendError};
use crate::wire_frames;
use crate::{Header, ProtocolError};

pub use crate::interface_manager::edge_port::{CENTRAL_NODE_ID, EDGE_NODE_ID};

verus! {

/// Why a net_id could not be set.
#[derive(Clone, Copy, Debug, PartialEq, Eq, Structural)]
pub enum SetNetIdError {
    CantSetZero,
    NoActiveSink,
}

/// Edge device profile backed by a single [`EdgePort`].
pub struct DirectEdge<I: Interface> {
    pub port: EdgePort<I>,
    /// Closer for signaling workers to stop, closed when the interface is torn
    /// down or gets another one.
    pub closer: Option<Closer>,
}

impl<I: Interface> DirectEdge<I> {
    /// An edge device: the other side is the router.
    pub fn new_target(sink: I::Sink) -> (r: Self)
        ensures
            r.port == (EdgePort::<I> {
                sink,
                state: InterfaceState::Down,
                own_node_id: EDGE_NODE_ID,
                other_node_id: CENTRAL_NODE_ID,
            }),
            r.closer is None,
    {
        DirectEdge { port: EdgePort::new_target(sink), closer: None }
    }

    /// The router's side of a single link.
    pub fn new_controller(sink: I::Sink, state: InterfaceState) -> (r: Self)
        ensures
            r.port == (EdgePort::<I> {
                sink,
                state,
                own_node_id: CENTRAL_NODE_ID,
                other_node_id: EDGE_NODE_ID,
            }),
            r.closer is None,
    {
        DirectEdge { port: EdgePort::new_controller(sink, state), closer: None }
    }

    /// Tear down the interface: stop any running workers and transition to
    /// `Down`.
    ///
    /// Call this before re-opening a transport to ensure the old workers release
    /// the transport resource (e.g., serial port).
    pub fn teardown(&mut self)
        ensures
            final(self).port == (EdgePort { state: InterfaceState::Down, ..old(self).port }),
            final(self).closer is None,
            old(self).closer matches Some(c) ==> c.told_to_stop(),
    {
        if let Some(closer) = self.closer.take() {
            closer.close();
        }
        let _ = self.port.set_state(InterfaceState::Down);
    }

    /// Store a closer so that workers are signaled when the interface is torn
    /// down or when a new stream is registered. Workers that wait on the one
    /// before are stopped.
    pub fn set_closer(&mut self, closer: Closer)
        ensures
            final(self).port == old(self).port,
            final(self).closer == Some(closer),
            old(self).closer matches Some(c) ==> c.told_to_stop(),
    {
        if let Some(previous) = self.closer.take() {
            previous.close();
        }
        self.closer = Some(closer);
    }
}

impl<I: Interface> Profile for DirectEdge<I> {
    type InterfaceIdent = ();

    open spec fn wf(&self) -> bool {
        true
    }

    /// There is one interface, and nothing is routed: what came in over it is
    /// not sent out over it again.
    open spec fn step(before: Self, after: Self, step: ProfileStep<()>) -> bool {
        match step {
            ProfileStep::Sent { hdr, what, source, r } => if what is Raw || source is Some {
                r == Err::<(), _>(InterfaceSendError::RoutingLoop) && after == before
            } else {
                match hdr.decremented() {
                    Err(e) => r == Err::<(), _>(e) && after == before,
                    Ok(h) => EdgePort::sent(before.port, after.port, h, what, r) && after.closer
                        == before.closer,
                }
            },
            ProfileStep::StateRead { ident, r } => after == before && r == Some(
                before.port.state,
            ),
            ProfileStep::StateSet { ident, state, r } => match before.port.with_state(state) {
                Ok(port) => r == Ok::<(), SetStateError>(()) && after == (DirectEdge {
                    port,
                    ..before
                }),
                Err(e) => r == Err::<(), _>(e) && after == before,
            },
            ProfileStep::NodeClaimed { net_id, node_id, may_send } => after == before && may_send
                == (node_id == CENTRAL_NODE_ID || node_id == EDGE_NODE_ID),
            ProfileStep::TransitNet { net_id, routed } => after == before && !routed,
        }
    }

    fn send(&mut self, hdr: &Header, data: &[u8]) -> (r: Result<(), InterfaceSendError>) {
        let mut hdr = *hdr;
        if let Err(e) = hdr.decrement_ttl() {
            return Err(e);
        }
        self.port.send(&hdr, data)
    }

    fn send_err(&mut self, hdr: &Header, err: ProtocolError, source: Option<()>) -> (r: Result<
        (),
        InterfaceSendError,
    >) {
        if source.is_some() {
            return Err(InterfaceSendError::RoutingLoop);
        }
        let mut hdr = *hdr;
        if let Err(e) = hdr.decrement_ttl() {
            return Err(e);
        }
        self.port.send_err(&hdr, err)
    }

    /// A raw message must have come from this very interface.
    fn send_raw(&mut self, hdr: &Header, data: &[u8], source: ()) -> (r: Result<
        (),
        InterfaceSendError,
    >) {
        Err(InterfaceSendError::RoutingLoop)
    }

    fn interface_state(&mut self, ident: ()) -> (r: Option<InterfaceState>) {
        Some(self.port.state())
    }

    fn set_interface_state(&mut self, ident: (), state: InterfaceState) -> (r: Result<
        (),
        SetStateError,
    >) {
        self.port.set_state(state)
    }

    fn is_node_claimed(&mut self, net_id: u16, node_id: u8) -> (r: bool) {
        interface_manager::point_to_point_role(node_id)
    }

    fn is_transit_net(&mut self, net_id: u16) -> (r: bool) {
        false
    }
}

/// Frame processor for an edge device, and for the upstream of a bridge.
///
/// Discovers `net_id` from incoming frames and transitions the interface to
/// [`InterfaceState::Active`]. Discovery only runs while the *window* is open
/// (after construction or a reset, including while a sticky ID is provisionally
/// Active) and only from a frame that is plausibly addressed to this device:
/// `dst.node_id` matches our role's node_id AND the profile does not already
/// route `dst.network_id` somewhere else ([`Profile::is_transit_net`]).
///
/// The guard exists for the bridge-upstream use of this processor: transit
/// frames pass through an upstream with the dst nets of *other* segments, and a
/// blind first-frame latch after a liveness reset could adopt a downstream
/// segment's net_id as the upstream's own. A discovered net is therefore also
/// kept across a reset as a sticky hint, so the first frame after a liveness
/// timeout, transit or not, reactivates the interface with the known net, while a
/// frame that passes the guard may still update it (e.g. the root renumbered the
/// segment after a reboot).
#[derive(Clone, Copy, Debug, PartialEq, Eq, Structural)]
pub struct EdgeFrameProcessor {
    pub net_id: Option<u16>,
    /// Our node_id on this link: [`EDGE_NODE_ID`] in target mode,
    /// [`CENTRAL_NODE_ID`] in controller mode. Used both to filter which frames
    /// may donate a net_id and as the node to (re)activate with.
    pub own_node: u8,
    /// Closed (`true`) once an Active interface has been observed or produced;
    /// while closed, frames are processed with zero profile queries.
    pub activated: bool,
    /// `true` after a liveness reset with a sticky net_id. Transit traffic may
    /// reactivate that ID, but the window stays open until an addressed frame
    /// confirms or replaces it.
    pub rediscovering: bool,
}

/// Whether a frame is addressed to this node on a real network, so that it could
/// tell us our net_id.
pub open spec fn can_donate(p: EdgeFrameProcessor, dst: Address) -> bool {
    dst.network_id != 0 && dst.node_id == p.own_node
}

/// Whether the state of the interface is not confirmed yet: down, inactive,
/// link-local, or a sticky ID that was provisionally reactivated.
pub open spec fn unconfirmed(p: EdgeFrameProcessor, state: InterfaceState) -> bool {
    match state {
        InterfaceState::Active { net_id, node_id } => net_id == 0 || p.rediscovering,
        InterfaceState::Inactive | InterfaceState::Down => true,
        InterfaceState::ActiveLocal { node_id } => false,
    }
}

/// What a frame to `dst` teaches a processor with an open window, given the
/// state of its interface and whether the profile routes the destination net
/// somewhere else: the net to activate the interface with, if that has to be
/// done, and the processor afterwards.
pub open spec fn discovered(
    p: EdgeFrameProcessor,
    dst: Address,
    state: InterfaceState,
    transit: bool,
) -> (Option<u16>, EdgeFrameProcessor) {
    if !unconfirmed(p, state) {
        match state {
            InterfaceState::Active { net_id, node_id } => (
                None,
                EdgeFrameProcessor { net_id: Some(net_id), activated: true, ..p },
            ),
            _ => (None, EdgeFrameProcessor { activated: true, ..p }),
        }
    } else {
        let donates = can_donate(p, dst) && !transit;
        let new_net = if donates {
            Some(dst.network_id)
        } else {
            p.net_id
        };
        match new_net {
            None => (None, p),
            Some(net) => {
                let already = state == InterfaceState::Active { net_id: net, node_id: p.own_node };
                (
                    if already {
                        None
                    } else {
                        Some(net)
                    },
                    EdgeFrameProcessor {
                        net_id: Some(net),
                        activated: p.activated || donates,
                        rediscovering: p.rediscovering && !donates,
                        ..p
                    },
                )
            },
        }
    }
}

/// Whether the profile has to be asked for transit: only plausible donors pay
/// that cost.
pub open spec fn asks_transit(p: EdgeFrameProcessor, dst: Address, state: InterfaceState) -> bool {
    unconfirmed(p, state) && can_donate(p, dst)
}

/// The header of a received frame as it is passed on, if it is: with a net_id
/// known, a source net of zero becomes that net, so that it isn't later
/// understood as a local packet. A frame that claims to come from nobody, or
/// from us, is dropped.
pub open spec fn edge_accepted(p: EdgeFrameProcessor, hdr: Header) -> Option<Header> {
    match p.net_id {
        Some(net) => if hdr.src.network_id != 0 {
            Some(hdr)
        } else if hdr.src.node_id == 0 || hdr.src.node_id == p.own_node {
            None
        } else {
            Some(Header { src: Address { network_id: net, ..hdr.src }, ..hdr })
        },
        None => Some(hdr),
    }
}

impl EdgeFrameProcessor {
    /// Create a new processor with no discovered net_id (target mode).
    pub fn new() -> (r: Self)
        ensures
            r == (EdgeFrameProcessor {
                net_id: None,
                own_node: EDGE_NODE_ID,
                activated: false,
                rediscovering: false,
            }),
    {
        EdgeFrameProcessor {
            net_id: None,
            own_node: EDGE_NODE_ID,
            activated: false,
            rediscovering: false,
        }
    }

    /// Create a new processor with a pre-set net_id (controller mode).
    pub fn new_controller(net_id: u16) -> (r: Self)
        ensures
            r == (EdgeFrameProcessor {
                net_id: Some(net_id),
                own_node: CENTRAL_NODE_ID,
                activated: false,
                rediscovering: false,
            }),
    {
        EdgeFrameProcessor {
            net_id: Some(net_id),
            own_node: CENTRAL_NODE_ID,
            activated: false,
            rediscovering: false,
        }
    }

    /// What a frame teaches the processor, see [`discovered`].
    pub fn discover(&self, dst: Address, state: InterfaceState, transit: bool) -> (r: (
        Option<u16>,
        EdgeFrameProcessor,
    ))
        ensures
            r == discovered(*self, dst, state, transit),
    {
        match state {
            // Already Active with a real net (pre-activated by registration code
            // or reassigned by a seed router): adopt it and close a boot-time
            // window.
            InterfaceState::Active { net_id, .. } if net_id != 0 && !self.rediscovering => {
                let mut next = *self;
                next.net_id = Some(net_id);
                next.activated = true;
                (None, next)
            },
            InterfaceState::Active { .. } | InterfaceState::Inactive | InterfaceState::Down => {
                let donates = dst.network_id != 0 && dst.node_id == self.own_node && !transit;
                let new_net: Option<u16> = if donates {
                    Some(dst.network_id)
                } else {
                    self.net_id
                };
                match new_net {
                    // No net known and no donor: keep the window open and process
                    // this frame with link-local addressing.
                    None => (None, *self),
                    Some(net) => {
                        let already = match state {
                            InterfaceState::Active { net_id, node_id } => net_id == net && node_id
                                == self.own_node,
                            _ => false,
                        };
                        let mut next = *self;
                        next.net_id = Some(net);
                        if donates {
                            next.activated = true;
                            next.rediscovering = false;
                        }
                        let to_set: Option<u16> = if already {
                            None
                        } else {
                            Some(net)
                        };
                        (to_set, next)
                    },
                }
            },
            // Bus-style local-only state is managed by the claim protocol.
            InterfaceState::ActiveLocal { .. } => {
                let mut next = *self;
                next.activated = true;
                (None, next)
            },
        }
    }

    /// Whether the profile has to be asked for transit, see [`asks_transit`].
    pub fn needs_transit(&self, dst: Address, state: InterfaceState) -> (r: bool)
        ensures
            r == asks_transit(*self, dst, state),
    {
        let open = match state {
            InterfaceState::Active { net_id, .. } => net_id == 0 || self.rediscovering,
            InterfaceState::Inactive | InterfaceState::Down => true,
            InterfaceState::ActiveLocal { .. } => false,
        };
        open && dst.network_id != 0 && dst.node_id == self.own_node
    }

    /// The header of a received frame as it is passed on, see
    /// [`edge_accepted`].
    pub fn accept(&self, hdr: &Header) -> (r: Option<Header>)
        ensures
            r == edge_accepted(*self, *hdr),
    {
        let mut hdr = *hdr;
        if let Some(net) = self.net_id {
            if hdr.src.network_id == 0 {
                if hdr.src.node_id == 0 || hdr.src.node_id == self.own_node {
                    return None;
                }
                hdr.src.network_id = net;
            }
        }
        Some(hdr)
    }
}

impl Default for EdgeFrameProcessor {
    fn default() -> (r: Self)
        ensures
            r == (EdgeFrameProcessor {
                net_id: None,
                own_node: EDGE_NODE_ID,
                activated: false,
                rediscovering: false,
            }),
    {
        EdgeFrameProcessor::new()
    }
}

/// The answer of the profile to the question of transit, if it was asked.
pub open spec fn transit_answered<P: Profile>(
    before: P,
    after: P,
    asked: bool,
    net_id: u16,
    transit: bool,
) -> bool {
    if asked {
        net_stack::profile_step(
            before,
            after,
            ProfileStep::TransitNet { net_id, routed: transit },
        )
    } else {
        after == before && !transit
    }
}

/// The interface was activated if that had to be done. If it could not be, the
/// processor learns nothing and the frame is dropped.
pub open spec fn activation<P: Profile>(
    p: EdgeFrameProcessor,
    p2: EdgeFrameProcessor,
    before: P,
    after: P,
    ident: P::InterfaceIdent,
    to_set: Option<u16>,
    learnt: EdgeFrameProcessor,
    changed: bool,
    dropped: bool,
) -> bool {
    match to_set {
        None => p2 == learnt && after == before && !changed && !dropped,
        Some(net) => exists|r: Result<(), SetStateError>|
            {
                &&& #[trigger] net_stack::profile_step(
                    before,
                    after,
                    ProfileStep::StateSet {
                        ident,
                        state: InterfaceState::Active { net_id: net, node_id: p.own_node },
                        r,
                    },
                )
                &&& changed == (r is Ok)
                &&& dropped == (r is Err)
                &&& p2 == (if r is Ok {
                    learnt
                } else {
                    p
                })
            },
    }
}

/// Discovery for one frame: a closed window asks the profile nothing. A frame on
/// an interface that the profile does not know is dropped.
pub open spec fn discovery_done<P: Profile>(
    p: EdgeFrameProcessor,
    p2: EdgeFrameProcessor,
    before: P,
    after: P,
    ident: P::InterfaceIdent,
    dst: Address,
    changed: bool,
    dropped: bool,
) -> bool {
    if p.activated {
        p2 == p && after == before && !changed && !dropped
    } else {
        exists|read: P, state: Option<InterfaceState>|
            {
                &&& #[trigger] net_stack::profile_step(
                    before,
                    read,
                    ProfileStep::StateRead { ident, r: state },
                )
                &&& match state {
                    None => p2 == p && after == read && !changed && dropped,
                    Some(state) => exists|asked: P, transit: bool|
                        {
                            &&& #[trigger] transit_answered(
                                read,
                                asked,
                                asks_transit(p, dst, state),
                                dst.network_id,
                                transit,
                            )
                            &&& activation(
                                p,
                                p2,
                                asked,
                                after,
                                ident,
                                discovered(p, dst, state, transit).0,
                                discovered(p, dst, state, transit).1,
                                changed,
                                dropped,
                            )
                        },
                }
            }
    }
}

/// What processing one frame does.
pub open spec fn edge_processed<P: Profile>(
    p: EdgeFrameProcessor,
    p2: EdgeFrameProcessor,
    before: NetStack<P>,
    after: NetStack<P>,
    data: Seq<u8>,
    ident: P::InterfaceIdent,
    changed: bool,
) -> bool {
    match wire_frames::decode(data) {
        None => p2 == p && after == before && !changed,
        Some((hdr, content, _)) => exists|mid: NetStack<P>, dropped: bool|
            {
                &&& mid.sockets == before.sockets
                &&& #[trigger] discovery_done(
                    p,
                    p2,
                    before.profile,
                    mid.profile,
                    ident,
                    hdr.dst,
                    changed,
                    dropped,
                )
                &&& if dropped {
                    after == mid
                } else {
                    match edge_accepted(p2, hdr) {
                        None => after == mid,
                        Some(h) => exists|r: Result<(), NetStackSendError>| #[trigger]
                            interface_manager::passed_on(mid, after, h, content, ident, r),
                    }
                }
            },
    }
}

/// Discovery for one frame, see [`discovery_done`]: whether the state of the
/// interface changed, and whether the frame is to be dropped.
fn run_discovery<P: Profile>(
    state: &mut EdgeFrameProcessor,
    profile: &mut P,
    ident: P::InterfaceIdent,
    dst: Address,
) -> (r: (bool, bool))
    requires
        old(profile).wf(),
    ensures
        final(profile).wf(),
        discovery_done(
            *old(state),
            *final(state),
            *old(profile),
            *final(profile),
            ident,
            dst,
            r.0,
            r.1,
        ),
{
    let ghost p = *state;
    let ghost before = *profile;
    if state.activated {
        return (false, false);
    }
    let read = profile.interface_state(ident.again());
    let ghost after_read = *profile;
    assert(net_stack::profile_step(
        before,
        after_read,
        ProfileStep::StateRead { ident, r: read },
    ));
    let if_state = match read {
        Some(if_state) => if_state,
        None => {
            return (false, true);
        },
    };
    let mut transit: bool = false;
    if state.needs_transit(dst, if_state) {
        transit = profile.is_transit_net(dst.network_id);
    }
    let ghost asked = *profile;
    assert(transit_answered(
        after_read,
        asked,
        asks_transit(p, dst, if_state),
        dst.network_id,
        transit,
    ));
    let (to_set, learnt) = state.discover(dst, if_state, transit);
    match to_set {
        None => {
            *state = learnt;
            assert(activation(
                p,
                *state,
                asked,
                *profile,
                ident,
                to_set,
                learnt,
                false,
                false,
            ));
            (false, false)
        },
        Some(net) => {
            let own_node: u8 = state.own_node;
            let set = profile.set_interface_state(
                ident,
                InterfaceState::Active { net_id: net, node_id: own_node },
            );
            assert(net_stack::profile_step(
                asked,
                *profile,
                ProfileStep::StateSet {
                    ident,
                    state: InterfaceState::Active { net_id: net, node_id: own_node },
                    r: set,
                },
            ));
            match set {
                Ok(()) => {
                    *state = learnt;
                    assert(activation(
                        p,
                        *state,
                        asked,
                        *profile,
                        ident,
                        to_set,
                        learnt,
                        true,
                        false,
                    ));
                    (true, false)
                },
                Err(_) => {
                    assert(activation(
                        p,
                        *state,
                        asked,
                        *profile,
                        ident,
                        to_set,
                        learnt,
                        false,
                        true,
                    ));
                    (false, true)
                },
            }
        },
    }
}

/// Process one received frame for an edge device.
///
/// Returns `true` if the interface state changed (activation or a net_id
/// update): callers use this to notify state watchers.
pub fn process_frame<P: Profile>(
    state: &mut EdgeFrameProcessor,
    data: &[u8],
    stack: &mut NetStack<P>,
    ident: P::InterfaceIdent,
) -> (changed: bool)
    requires
        old(stack).wf(),
    ensures
        final(stack).wf(),
        edge_processed(
            *old(state),
            *final(state),
            *old(stack),
            *final(stack),
            data@,
            ident,
            changed,
        ),
{
    let ghost p = *state;
    let ghost before = *stack;
    let frame = match wire_frames::de_frame(data) {
        Some(frame) => frame,
        None => {
            return false;
        },
    };
    let (changed, dropped) = run_discovery(state, &mut stack.profile, ident.again(), frame.hdr.dst);
    let ghost mid = *stack;
    assert(discovery_done(
        p,
        *state,
        before.profile,
        mid.profile,
        ident,
        frame.hdr.dst,
        changed,
        dropped,
    ));
    if dropped {
        return changed;
    }
    let hdr = match state.accept(&frame.hdr) {
        Some(hdr) => hdr,
        None => {
            return changed;
        },
    };
    let r = match frame.body {
        Ok(body) => stack.send_raw(&hdr, body, ident),
        Err(err) => stack.send_err(&hdr, err, Some(ident)),
    };
    assert(interface_manager::passed_on(mid, *stack, hdr, frame.content(), ident, r));
    changed
}

impl<P: Profile> FrameProcessor<P> for EdgeFrameProcessor {
    open spec fn processed(
        before: Self,
        after: Self,
        stack_before: NetStack<P>,
        stack_after: NetStack<P>,
        data: Seq<u8>,
        ident: P::InterfaceIdent,
        changed: bool,
    ) -> bool {
        edge_processed(before, after, stack_before, stack_after, data, ident, changed)
    }

    /// The net_id is kept as a sticky hint.
    open spec fn after_reset(self) -> Self {
        EdgeFrameProcessor { activated: false, rediscovering: self.net_id is Some, ..self }
    }

    fn process_frame(&mut self, data: &[u8], stack: &mut NetStack<P>, ident: P::InterfaceIdent) -> (changed:
        bool) {
        process_frame(self, data, stack, ident)
    }

    fn reset(&mut self) {
        // Keep net_id as a sticky hint: after a liveness timeout the next frame
        // reactivates the interface with the known net even if it is transit, and
        // only a frame passing the discovery guard may replace the net with a
        // different one.
        self.activated = false;
        self.rediscovering = self.net_id.is_some();
    }
}

/// The net of another segment is never adopted: a frame that is passing through
/// leaves the processor with the net it had, or with the one its interface
/// already had.
pub proof fn transit_is_never_adopted(
    p: EdgeFrameProcessor,
    dst: Address,
    state: InterfaceState,
)
    ensures
        ({
            let (to_set, p2) = discovered(p, dst, state, true);
            &&& p2.net_id == p.net_id || p2.net_id == state.net()
            &&& to_set matches Some(net) ==> p.net_id == Some(net)
        }),
{
}

/// Nor is the net of a frame that is for another node.
pub proof fn only_own_frames_donate(
    p: EdgeFrameProcessor,
    dst: Address,
    state: InterfaceState,
    transit: bool,
)
    requires
        dst.node_id != p.own_node || dst.network_id == 0,
    ensures
        ({
            let (to_set, p2) = discovered(p, dst, state, transit);
            &&& p2.net_id == p.net_id || p2.net_id == state.net()
            &&& to_set matches Some(net) ==> p.net_id == Some(net)
        }),
{
}

/// A known net survives a reset: the next frame, whoever it is for, reactivates
/// an inactive interface, with the known net unless the frame is for this node
/// and its net is not routed elsewhere.
pub proof fn sticky_net_reactivates(p: EdgeFrameProcessor, net: u16, dst: Address, transit: bool)
    requires
        p.net_id == Some(net),
    ensures
        ({
            let reset = EdgeFrameProcessor { activated: false, rediscovering: true, ..p };
            let (to_set, p2) = discovered(reset, dst, InterfaceState::Inactive, transit);
            &&& to_set is Some
            &&& p2.net_id == to_set
            &&& !(can_donate(p, dst) && !transit) ==> to_set == Some(net) && !p2.activated
                && p2.rediscovering
            &&& can_donate(p, dst) && !transit ==> to_set == Some(dst.network_id) && p2.activated
                && !p2.rediscovering
        }),
{
}

/// A frame that passes the guard closes the window with its own net.
pub proof fn donor_closes_window(p: EdgeFrameProcessor, dst: Address, state: InterfaceState)
    requires
        can_donate(p, dst),
        unconfirmed(p, state),
    ensures
        discovered(p, dst, state, false).1 == (EdgeFrameProcessor {
            net_id: Some(dst.network_id),
            activated: true,
            rediscovering: false,
            ..p
        }),
{
}

} // verus!
