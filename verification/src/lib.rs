//! A small network stack for embedded and desktop systems.

use vstd::prelude::*;

pub mod address;
pub mod clock;
pub mod conformance;
pub mod delivery_laws;
pub mod interface_manager;
pub mod logging;
pub mod nash;
pub mod net_stack;
pub mod socket;
pub mod varint;
pub mod well_known;
pub mod wire_frames;
pub mod wire_laws;
pub mod wire_v0;

pub use address::Address;
pub use nash::NameHash;
pub use net_stack::{NetStack, NetStackSendError};

verus! {

/// What a frame is: an error report, a request, a response or a broadcast
/// message.
#[derive(Clone, Copy, Debug, PartialEq, Eq, Structural)]
pub struct FrameKind(pub u8);

impl FrameKind {
    /// The four kinds exactly fill the 2-bit wire field.
    pub const MAX_BITS: u8 = 3;

    /// A protocol error report (see [`ProtocolError`]); the body is the error.
    #[verifier::allow_in_spec]
    pub fn protocol_error() -> FrameKind
        returns
            FrameKind(0),
    {
        FrameKind(0)
    }

    /// A request to an endpoint.
    #[verifier::allow_in_spec]
    pub fn endpoint_req() -> FrameKind
        returns
            FrameKind(1),
    {
        FrameKind(1)
    }

    /// An endpoint's response.
    #[verifier::allow_in_spec]
    pub fn endpoint_resp() -> FrameKind
        returns
            FrameKind(2),
    {
        FrameKind(2)
    }

    /// A message on a topic.
    #[verifier::allow_in_spec]
    pub fn topic_msg() -> FrameKind
        returns
            FrameKind(3),
    {
        FrameKind(3)
    }

    /// Whether this is one of the four wire-representable kinds.
    pub open spec fn valid(self) -> bool {
        self.0 <= FrameKind::MAX_BITS
    }

    /// Whether this is one of the four wire-representable kinds.
    pub fn is_valid(self) -> (r: bool)
        ensures
            r == self.valid(),
    {
        self.0 <= FrameKind::MAX_BITS
    }
}

/// Identifies the type of an endpoint or topic.
#[derive(Clone, Copy, Debug, PartialEq)]
pub struct Key(pub [u8; 8]);

impl Key {
    /// Whether two keys are the same, byte for byte.
    pub fn same(&self, other: &Key) -> (r: bool)
        ensures
            r == (self.0@ == other.0@),
    {
        let mut i: usize = 0;
        while i < 8
            invariant
                i <= 8,
                forall|j: int| 0 <= j < i ==> self.0@[j] == other.0@[j],
            decreases 8 - i,
        {
            if self.0[i] != other.0[i] {
                return false;
            }
            i = i + 1;
        }
        assert(self.0@ =~= other.0@);
        true
    }
}

/// Why a frame could not be delivered, as reported to its sender.
#[derive(Clone, Copy, Debug, PartialEq, Eq, Structural)]
#[non_exhaustive]
pub enum ProtocolError {
    /// Not in use
    Reserved,
    /// Socket has no space for the message
    SseNoSpace,
    /// Deserialization failed at the socket
    SseDeserFailed,
    /// Type mismatch at the socket
    SseTypeMismatch,
    /// Internal socket error
    SseWhatTheHell,
    /// Refusing to send local destination remotely
    IseDestinationLocal,
    /// Profile does not know how to route to requested destination
    IseNoRouteToDest,
    /// Outgoing interface is full
    IseInterfaceFull,
    /// Internal interface manager error
    IseInternalError,
    /// Destination was an "any" port but key was missing
    IseAnyPortMissingKey,
    /// TTL expired
    IseTtlExpired,
    /// Routing loop detected
    IseRoutingLoop,
    /// Packet exceeds outgoing interface MTU
    IsePacketTooBig {
        /// The MTU of the bottleneck interface
        mtu: u16,
    },
    /// No route to destination
    NsseNoRoute,
    /// "Any" port missing key
    NsseAnyPortMissingKey,
    /// Wrong port kind
    NsseWrongPortKind,
    /// "Any" port not unique
    NsseAnyPortNotUnique,
    /// "All" port missing key
    NsseAllPortMissingKey,
    /// Would deadlock
    NsseWouldDeadlock,
}

/// What a frame to an "any" or "all" port carries besides its addresses: which
/// sockets it is for.
#[derive(Clone, Copy, Debug, PartialEq)]
pub struct AnyAllAppendix {
    pub key: Key,
    pub nash: Option<NameHash>,
}

/// The header of a frame.
#[derive(Clone, Copy, Debug, PartialEq)]
pub struct Header {
    pub src: Address,
    pub dst: Address,
    pub any_all: Option<AnyAllAppendix>,
    pub kind: FrameKind,
    /// Traffic class hint, see [`TrafficClass`]. Not a delivery guarantee.
    pub class: TrafficClass,
    /// Remaining hops; at most [`MAX_TTL`] (4 bits on the wire).
    pub ttl: u8,
}

/// Traffic class of a frame: a *hint* to interfaces about what to shed or
/// deprioritize under contention. It never changes delivery semantics: every
/// send is still at-most-once, a `Control` frame can still be dropped, and
/// interfaces are free to ignore it.
#[derive(Clone, Copy, Debug, PartialEq, Eq, Hash, Structural)]
pub enum TrafficClass {
    /// Small, latency-sensitive frames: setpoints, acks, bootstrap.
    Control,
    /// Everything without a stated preference.
    Normal,
    /// High-volume, low-value streams that should be shed first.
    Bulk,
    /// Diagnostics that must never compete with anything else (logs).
    Background,
}

impl Default for TrafficClass {
    fn default() -> (r: TrafficClass)
        ensures
            r == TrafficClass::Normal,
    {
        TrafficClass::Normal
    }
}

impl TrafficClass {
    /// The number of the class in the 2-bit wire field.
    pub open spec fn bits(self) -> u8 {
        match self {
            TrafficClass::Control => 0,
            TrafficClass::Normal => 1,
            TrafficClass::Bulk => 2,
            TrafficClass::Background => 3,
        }
    }

    /// The number of the class in the 2-bit wire field.
    pub fn to_bits(self) -> (r: u8)
        ensures
            r == self.bits(),
    {
        match self {
            TrafficClass::Control => 0,
            TrafficClass::Normal => 1,
            TrafficClass::Bulk => 2,
            TrafficClass::Background => 3,
        }
    }

    /// Decode from the 2-bit wire field (extra bits are ignored).
    pub fn from_bits(bits: u8) -> (r: TrafficClass)
        ensures
            r.bits() == bits % 4,
    {
        let low: u8 = bits % 4;
        if low == 0 {
            TrafficClass::Control
        } else if low == 1 {
            TrafficClass::Normal
        } else if low == 2 {
            TrafficClass::Bulk
        } else {
            TrafficClass::Background
        }
    }
}

/// The bits of a class determine it.
pub proof fn class_bits_injective(a: TrafficClass, b: TrafficClass)
    requires
        a.bits() == b.bits(),
    ensures
        a == b,
{
}

/// Version of the frame wire format (header layout, appendix, framing
/// contract). Peers on different wire versions cannot parse each other's
/// frames, so this is reported for diagnostics, not negotiated per frame.
///
/// - 0: a 16-bit sequence number, separate `kind` and `ttl` bytes, protocol
///   errors have kind 255, TTL up to 255 (see [`wire_v0`]).
/// - 1: no sequence number; `kind`, `class` and `ttl` packed into one byte;
///   protocol errors have kind 0; TTL up to 15; traffic class added.
pub const WIRE_VERSION: u8 = 1;

/// Largest hop count the 4-bit wire field can carry; headers with a larger
/// `ttl` are clamped to this on encode.
pub const MAX_TTL: u8 = 15;

/// The hop count that new frames start with.
pub const DEFAULT_TTL: u8 = 15;

} // verus!
