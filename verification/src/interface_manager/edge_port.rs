//! Edge Port
//!
//! An [`EdgePort`] is a single point-to-point interface state machine. It
//! manages the sink, interface state, and address rewriting for one side of a
//! point-to-point link.
//!
//! [`EdgePort`] does NOT call [`Header::decrement_ttl`]: that is the
//! responsibility of the calling profile, which may need to decrement TTL once
//! for the entire routing decision rather than per-port.

use vstd::prelude::*;
use crate::address::Address;
use crate::interface_manager::{
    Interface, InterfaceSendError, InterfaceSink, InterfaceState, Payload, SetStateError,
};
use crate::wire_frames;
use crate::wire_frames::MAX_HDR_ENCODED_SIZE;
use crate::{Header, ProtocolError};

verus! {

/// Node ID for the central (controller/router) side of a point-to-point link.
pub const CENTRAL_NODE_ID: u8 = 1;

/// Node ID for the edge (target/downstream) side of a point-to-point link.
pub const EDGE_NODE_ID: u8 = 2;

/// A single point-to-point interface port.
///
/// Manages the outgoing sink, interface state, and header rewriting (source
/// address, broadcast destination assignment).
pub struct EdgePort<I: Interface> {
    pub sink: I::Sink,
    pub state: InterfaceState,
    pub own_node_id: u8,
    pub other_node_id: u8,
}

/// The header with its source address completed: no frame leaves with
/// `network_id = 0`.
///
/// - Locally originated frames `(0, 0, port)` get both network and node.
/// - Forwarded frames of unknown origin `(0, N, port)` get the network, and
///   keep their node.
pub open spec fn with_source(hdr: Header, net_id: u16, own_node_id: u8) -> Header {
    if hdr.src.network_id == 0 {
        Header {
            src: Address {
                network_id: net_id,
                node_id: if hdr.src.node_id == 0 {
                    own_node_id
                } else {
                    hdr.src.node_id
                },
                port_id: hdr.src.port_id,
            },
            ..hdr
        }
    } else {
        hdr
    }
}

/// The header with a broadcast destination set to the remote node.
pub open spec fn with_destination(hdr: Header, net_id: u16, other_node_id: u8) -> Header {
    if hdr.dst.port_id == 255 {
        Header {
            dst: Address {
                network_id: net_id,
                node_id: other_node_id,
                port_id: hdr.dst.port_id,
            },
            ..hdr
        }
    } else {
        hdr
    }
}

/// The header that a port puts on the wire for `hdr`, or why it sends nothing.
pub open spec fn outgoing(
    state: InterfaceState,
    own_node_id: u8,
    other_node_id: u8,
    hdr: Header,
) -> Result<Header, InterfaceSendError> {
    match state {
        InterfaceState::Active { net_id, node_id } => if hdr.dst.network_id == net_id
            && hdr.dst.node_id == own_node_id {
            Err(InterfaceSendError::DestinationLocal)
        } else if wire_frames::any_all_port(hdr.dst.port_id) && hdr.any_all is None {
            Err(InterfaceSendError::AnyPortMissingKey)
        } else {
            Ok(with_destination(with_source(hdr, net_id, own_node_id), net_id, other_node_id))
        },
        _ => Err(InterfaceSendError::NoRouteToDest),
    }
}

impl<I: Interface> EdgePort<I> {
    /// Create a new port in the "target" (edge) role.
    ///
    /// The local side uses [`EDGE_NODE_ID`], the remote side is
    /// [`CENTRAL_NODE_ID`]. State starts as [`InterfaceState::Down`].
    pub fn new_target(sink: I::Sink) -> (r: Self)
        ensures
            r == (EdgePort::<I> {
                sink,
                state: InterfaceState::Down,
                own_node_id: EDGE_NODE_ID,
                other_node_id: CENTRAL_NODE_ID,
            }),
    {
        EdgePort {
            sink,
            state: InterfaceState::Down,
            own_node_id: EDGE_NODE_ID,
            other_node_id: CENTRAL_NODE_ID,
        }
    }

    /// Create a new port in the "controller" (central/router) role.
    ///
    /// The local side uses [`CENTRAL_NODE_ID`], the remote side is
    /// [`EDGE_NODE_ID`].
    pub fn new_controller(sink: I::Sink, state: InterfaceState) -> (r: Self)
        ensures
            r == (EdgePort::<I> {
                sink,
                state,
                own_node_id: CENTRAL_NODE_ID,
                other_node_id: EDGE_NODE_ID,
            }),
    {
        EdgePort { sink, state, own_node_id: CENTRAL_NODE_ID, other_node_id: EDGE_NODE_ID }
    }

    /// Returns the current [`InterfaceState`] of this port.
    pub fn state(&self) -> (r: InterfaceState)
        ensures
            r == self.state,
    {
        self.state
    }

    /// Returns the net_id if the interface is [`InterfaceState::Active`],
    /// or `None` otherwise.
    pub fn net_id(&self) -> (r: Option<u16>)
        ensures
            r == self.state.net(),
    {
        match self.state {
            InterfaceState::Active { net_id, .. } => Some(net_id),
            _ => None,
        }
    }

    /// The port in a new state, or why it cannot have it.
    ///
    /// A node_id of 0 or 255 is reserved and rejected. The port's own node_id
    /// follows the state.
    pub open spec fn with_state(self, state: InterfaceState) -> Result<Self, SetStateError> {
        let node = match state {
            InterfaceState::ActiveLocal { node_id } => Some(node_id),
            InterfaceState::Active { net_id, node_id } => Some(node_id),
            _ => None,
        };
        match node {
            None => Ok(EdgePort { state, ..self }),
            Some(node_id) => if node_id == 0 || node_id == 255 {
                Err(SetStateError::InvalidNodeId)
            } else {
                Ok(EdgePort { state, own_node_id: node_id, ..self })
            },
        }
    }

    /// Update the [`InterfaceState`] of this port.
    ///
    /// Rejects `node_id = 0` and `node_id = 255` (reserved). For bus-style
    /// devices the node_id may differ from the original role (e.g. a target
    /// starting as [`EDGE_NODE_ID`] then switching to a claimed node_id like
    /// 47). The port's own node_id is updated to match, so that source address
    /// rewriting uses the correct value.
    pub fn set_state(&mut self, state: InterfaceState) -> (r: Result<(), SetStateError>)
        ensures
            match old(self).with_state(state) {
                Ok(port) => r == Ok::<(), SetStateError>(()) && *final(self) == port,
                Err(e) => r == Err::<(), _>(e) && *final(self) == *old(self),
            },
    {
        match state {
            InterfaceState::Down | InterfaceState::Inactive => {
                self.state = state;
            },
            InterfaceState::ActiveLocal { node_id } => {
                if node_id == 0 || node_id == 255 {
                    return Err(SetStateError::InvalidNodeId);
                }
                self.own_node_id = node_id;
                self.state = state;
            },
            InterfaceState::Active { node_id, .. } => {
                if node_id == 0 || node_id == 255 {
                    return Err(SetStateError::InvalidNodeId);
                }
                self.own_node_id = node_id;
                self.state = state;
            },
        }
        Ok(())
    }

    /// Prepare to send a message through this port.
    ///
    /// Performs state checks, source address rewriting and broadcast
    /// destination rewriting, and returns the finalized header. The caller is
    /// responsible for decrementing TTL before calling this method.
    pub fn common_send(&self, hdr: &Header) -> (r: Result<Header, InterfaceSendError>)
        ensures
            r == outgoing(self.state, self.own_node_id, self.other_node_id, *hdr),
    {
        let net_id: u16 = match self.state {
            InterfaceState::Active { net_id, .. } => net_id,
            _ => {
                return Err(InterfaceSendError::NoRouteToDest);
            },
        };

        // If the packet is destined for us, signal back to the caller
        if hdr.dst.network_id == net_id && hdr.dst.node_id == self.own_node_id {
            return Err(InterfaceSendError::DestinationLocal);
        }
        let mut out = *hdr;
        if out.src.network_id == 0 {
            out.src.network_id = net_id;
            if out.src.node_id == 0 {
                out.src.node_id = self.own_node_id;
            }
        }
        if out.dst.port_id == 255 {
            out.dst.network_id = net_id;
            out.dst.node_id = self.other_node_id;
        }
        // Reject a wildcard/broadcast destination with no key.

        if (out.dst.port_id == 0 || out.dst.port_id == 255) && out.any_all.is_none() {
            return Err(InterfaceSendError::AnyPortMissingKey);
        }
        Ok(out)
    }

    /// What sending does to a port.
    ///
    /// - A message that is passed on and could exceed the sink's MTU is
    ///   refused.
    /// - Where the port has a header to put on the wire, exactly that header
    ///   and the payload are handed to the sink; a sink that does not take them
    ///   is full. Nothing but the sink changes.
    /// - Where it has none, the port stays as it was.
    pub open spec fn sent(
        before: Self,
        after: Self,
        hdr: Header,
        what: Payload,
        r: Result<(), InterfaceSendError>,
    ) -> bool {
        let too_big = match what {
            Payload::Raw(data) => MAX_HDR_ENCODED_SIZE + data.len() > before.sink.spec_mtu(),
            _ => false,
        };
        if too_big {
            &&& r == Err::<(), _>(
                InterfaceSendError::PacketTooBig { mtu: before.sink.spec_mtu() },
            )
            &&& after == before
        } else {
            match outgoing(before.state, before.own_node_id, before.other_node_id, hdr) {
                Ok(out) => {
                    &&& I::Sink::sent(before.sink, after.sink, out, what, r is Ok)
                    &&& r is Err ==> r == Err::<(), _>(InterfaceSendError::InterfaceFull)
                    &&& after == EdgePort { sink: after.sink, ..before }
                },
                Err(e) => r == Err::<(), _>(e) && after == before,
            }
        }
    }

    /// Send a serialised message that originates here through this port.
    ///
    /// The caller must decrement TTL before calling.
    pub fn send(&mut self, hdr: &Header, data: &[u8]) -> (r: Result<(), InterfaceSendError>)
        ensures
            Self::sent(*old(self), *final(self), *hdr, Payload::Message(data@), r),
    {
        let header = match self.common_send(hdr) {
            Ok(header) => header,
            Err(e) => {
                return Err(e);
            },
        };
        match self.sink.send_ty(&header, data) {
            Ok(()) => Ok(()),
            Err(()) => Err(InterfaceSendError::InterfaceFull),
        }
    }

    /// Send a protocol error through this port.
    ///
    /// The caller must decrement TTL before calling.
    pub fn send_err(&mut self, hdr: &Header, err: ProtocolError) -> (r: Result<
        (),
        InterfaceSendError,
    >)
        ensures
            Self::sent(*old(self), *final(self), *hdr, Payload::Error(err), r),
    {
        let header = match self.common_send(hdr) {
            Ok(header) => header,
            Err(e) => {
                return Err(e);
            },
        };
        match self.sink.send_err(&header, err) {
            Ok(()) => Ok(()),
            Err(()) => Err(InterfaceSendError::InterfaceFull),
        }
    }

    /// Send a pre-serialized (raw) message through this port.
    ///
    /// The caller must decrement TTL before calling.
    pub fn send_raw(&mut self, hdr: &Header, data: &[u8]) -> (r: Result<(), InterfaceSendError>)
        ensures
            Self::sent(*old(self), *final(self), *hdr, Payload::Raw(data@), r),
    {
        // Check if the frame would exceed the outgoing interface's MTU
        let iface_mtu: u16 = self.sink.mtu();
        let room: usize = iface_mtu as usize;
        if room < MAX_HDR_ENCODED_SIZE || data.len() > room - MAX_HDR_ENCODED_SIZE {
            return Err(InterfaceSendError::PacketTooBig { mtu: iface_mtu });
        }
        let header = match self.common_send(hdr) {
            Ok(header) => header,
            Err(e) => {
                return Err(e);
            },
        };
        match self.sink.send_raw(&header, data) {
            Ok(()) => Ok(()),
            Err(()) => Err(InterfaceSendError::InterfaceFull),
        }
    }
}

/// No frame leaves a segment that has a net_id with a source network of 0, which
/// would mean "this node" to whoever receives it. Of a frame whose source is
/// known the source stays, and of one that is not a broadcast the destination.
pub proof fn frames_leave_with_a_source(
    state: InterfaceState,
    own_node_id: u8,
    other_node_id: u8,
    hdr: Header,
    sent: Header,
)
    requires
        outgoing(state, own_node_id, other_node_id, hdr) == Ok::<Header, InterfaceSendError>(sent),
        state.net() != Some(0u16),
    ensures
        sent.src.network_id != 0,
        hdr.src.network_id != 0 ==> sent.src == hdr.src,
        hdr.dst.port_id != 255 ==> sent.dst == hdr.dst,
        sent.any_all == hdr.any_all,
        sent.kind == hdr.kind,
        sent.class == hdr.class,
        sent.ttl == hdr.ttl,
{
}

/// A port sends whatever it is given, unless it is not active, the frame is for
/// this very node, or a frame to an "any" or "all" port lacks its key.
pub proof fn active_ports_send(
    state: InterfaceState,
    own_node_id: u8,
    other_node_id: u8,
    hdr: Header,
)
    ensures
        ({
            let r = outgoing(state, own_node_id, other_node_id, hdr);
            let here = state matches InterfaceState::Active { net_id, node_id } && hdr.dst.network_id
                == net_id && hdr.dst.node_id == own_node_id;
            let keyless = (hdr.dst.port_id == 0 || hdr.dst.port_id == 255) && hdr.any_all is None;
            &&& r is Ok <==> state is Active && !here && !keyless
            &&& !(state is Active) ==> r == Err::<Header, _>(InterfaceSendError::NoRouteToDest)
            &&& here ==> r == Err::<Header, _>(InterfaceSendError::DestinationLocal)
            &&& state is Active && !here && keyless ==> r == Err::<Header, _>(
                InterfaceSendError::AnyPortMissingKey,
            )
        }),
{
}

/// What a port puts on the wire is what it was given, but for two things. A source
/// that names no network gets the network of the link, and the node of the port if
/// it names no node either. A broadcast is addressed to the other end of the link.
pub proof fn ports_complete_addresses(
    state: InterfaceState,
    own_node_id: u8,
    other_node_id: u8,
    hdr: Header,
    out: Header,
)
    requires
        outgoing(state, own_node_id, other_node_id, hdr) == Ok::<Header, InterfaceSendError>(out),
    ensures
        out.kind == hdr.kind && out.class == hdr.class && out.ttl == hdr.ttl && out.any_all
            == hdr.any_all,
        out.src.port_id == hdr.src.port_id && out.dst.port_id == hdr.dst.port_id,
        hdr.src.network_id != 0 ==> out.src == hdr.src,
        hdr.src.network_id == 0 ==> state.net() == Some(out.src.network_id),
        hdr.src.network_id == 0 ==> out.src.node_id == (if hdr.src.node_id == 0 {
            own_node_id
        } else {
            hdr.src.node_id
        }),
        hdr.dst.port_id != 255 ==> out.dst == hdr.dst,
        hdr.dst.port_id == 255 ==> state.net() == Some(out.dst.network_id) && out.dst.node_id
            == other_node_id,
        state matches InterfaceState::Active { net_id, node_id } && state.net() == Some(net_id),
{
}

/// Sending over a port is handing the frame, with that header, to its sink and
/// reporting what the sink said; only the sink changes. What is passed on and might
/// not fit the sink with the largest header is refused instead.
pub proof fn ports_hand_frames_to_their_sink<I: Interface>(
    before: EdgePort<I>,
    after: EdgePort<I>,
    hdr: Header,
    what: Payload,
    r: Result<(), InterfaceSendError>,
)
    requires
        EdgePort::sent(before, after, hdr, what, r),
    ensures
        after.state == before.state,
        after.own_node_id == before.own_node_id,
        after.other_node_id == before.other_node_id,
        ({
            let out = outgoing(before.state, before.own_node_id, before.other_node_id, hdr);
            if what matches Payload::Raw(data) && 24 + data.len() > before.sink.spec_mtu() {
                &&& after == before
                &&& r == Err::<(), _>(
                    InterfaceSendError::PacketTooBig { mtu: before.sink.spec_mtu() },
                )
            } else if out is Ok {
                &&& I::Sink::sent(before.sink, after.sink, out->Ok_0, what, r is Ok)
                &&& r is Ok || r == Err::<(), _>(InterfaceSendError::InterfaceFull)
            } else {
                after == before && r == Err::<(), _>(out->Err_0)
            }
        }),
{
}

/// A port takes every state but one with a reserved node_id, and then answers to
/// the node_id of the state. Its sink and its peer stay.
pub proof fn ports_take_states<I: Interface>(port: EdgePort<I>, state: InterfaceState)
    ensures
        ({
            let node = match state {
                InterfaceState::Active { net_id, node_id } => Some(node_id),
                InterfaceState::ActiveLocal { node_id } => Some(node_id),
                _ => None,
            };
            &&& port.with_state(state) is Err <==> node == Some(0u8) || node == Some(255u8)
            &&& port.with_state(state) matches Err(e) ==> e == SetStateError::InvalidNodeId
            &&& port.with_state(state) matches Ok(p) ==> {
                &&& p.state == state
                &&& p.sink == port.sink
                &&& p.other_node_id == port.other_node_id
                &&& p.own_node_id == (match node {
                    Some(node_id) => node_id,
                    None => port.own_node_id,
                })
            }
        }),
{
}

} // verus!
