//! CAN FD Interface Implementation
//!
//! This implementation uses CAN FD frames with an optimized header layout that
//! puts hardware-filterable fields in the CAN extended ID (29-bit), reducing
//! payload overhead.
//!
//! ## CAN Extended ID Layout (29 bits)
//!
//! ```text
//!  Priority | dst_node | dst_port | frame_kind | reserved
//!  (3 bits) | (8 bits) | (8 bits) |  (3 bits)  | (7 bits)
//!    28-26  |  25-18   |  17-10   |    9-7     |   6-0
//! ```
//!
//! This layout enables CAN hardware filtering on destination node, destination
//! port and frame kind, and gives priority in arbitration (lower ID = higher
//! priority).
//!
//! ## Payload Layout
//!
//! The remaining header fields are encoded in the CAN FD payload as
//! variable-length numbers:
//!
//! ```text
//!  dst.net_id   | src address  | seq_no       | ttl     | body
//!  (1-3 bytes)  | (1-5 bytes)  | (1-3 bytes)  | (1 byte)| (N bytes)
//! ```
//!
//! For broadcast/any-port messages (port 0 or 255), the appendix stands before
//! the body.

use vstd::prelude::*;
use crate::address::Address;
use crate::interface_manager::{Interface, InterfaceSink, Payload};
use crate::varint;
use crate::wire_frames;
use crate::wire_v0;
use crate::wire_v0::{FrameKind, HeaderSeq};
use crate::{AnyAllAppendix, Header, ProtocolError};

verus! {

/// Maximum CAN FD payload size
pub const CAN_FD_MAX_PAYLOAD: usize = 64;

/// Maximum header size in CAN FD payload (excluding what's in the ID), with a
/// byte to spare
pub const MAX_CAN_PAYLOAD_HDR_SIZE: usize = 26;

/// Minimum usable payload after header (for very small messages)
pub const MIN_CAN_PAYLOAD_BODY: usize = 38;

/// Priority level for CAN arbitration (lower = higher priority)
#[derive(Clone, Copy, Debug, PartialEq, Eq, Structural)]
pub enum CanPriority {
    /// Highest priority (0) - for critical/real-time messages
    Critical,
    /// High priority (1)
    High,
    /// Normal priority (2) - default
    Normal,
    /// Low priority (3)
    Low,
    /// Bulk priority (4) - for large transfers
    Bulk,
    /// Background priority (5)
    Background,
    /// Lowest priority (6)
    Lowest,
    /// Reserved (7)
    Reserved,
}

impl Default for CanPriority {
    fn default() -> (r: CanPriority)
        ensures
            r == CanPriority::Normal,
    {
        CanPriority::Normal
    }
}

impl CanPriority {
    /// The number of the priority.
    pub open spec fn bits(self) -> u8 {
        match self {
            CanPriority::Critical => 0,
            CanPriority::High => 1,
            CanPriority::Normal => 2,
            CanPriority::Low => 3,
            CanPriority::Bulk => 4,
            CanPriority::Background => 5,
            CanPriority::Lowest => 6,
            CanPriority::Reserved => 7,
        }
    }

    /// Convert from raw 3-bit value (extra bits are ignored)
    pub fn from_bits(bits: u8) -> (r: CanPriority)
        ensures
            r.bits() == bits % 8,
    {
        let low: u8 = bits % 8;
        if low == 0 {
            CanPriority::Critical
        } else if low == 1 {
            CanPriority::High
        } else if low == 2 {
            CanPriority::Normal
        } else if low == 3 {
            CanPriority::Low
        } else if low == 4 {
            CanPriority::Bulk
        } else if low == 5 {
            CanPriority::Background
        } else if low == 6 {
            CanPriority::Lowest
        } else {
            CanPriority::Reserved
        }
    }

    /// Convert to raw 3-bit value
    pub fn to_bits(self) -> (r: u8)
        ensures
            r == self.bits(),
    {
        match self {
            CanPriority::Critical => 0,
            CanPriority::High => 1,
            CanPriority::Normal => 2,
            CanPriority::Low => 3,
            CanPriority::Bulk => 4,
            CanPriority::Background => 5,
            CanPriority::Lowest => 6,
            CanPriority::Reserved => 7,
        }
    }
}

/// Where the priority stands in the ID.
pub const PRIORITY_UNIT: u32 = 67108864;

/// Where the destination node stands in the ID.
pub const DST_NODE_UNIT: u32 = 262144;

/// Where the destination port stands in the ID.
pub const DST_PORT_UNIT: u32 = 1024;

/// Where the frame kind stands in the ID.
pub const KIND_UNIT: u32 = 128;

/// The bits of the destination node.
pub const DST_NODE_MASK: u32 = 0x3FC0000;

/// The bits of the destination port.
pub const DST_PORT_MASK: u32 = 0x3FC00;

/// The bits of the frame kind.
pub const KIND_MASK: u32 = 0x380;

/// The three bits that stand for a kind. A kind without any of its own is
/// reserved.
pub open spec fn kind_bits(kind: FrameKind) -> u8 {
    if kind.0 == 1 || kind.0 == 2 || kind.0 == 3 {
        kind.0
    } else if kind.0 == 255 {
        7
    } else {
        0
    }
}

/// The kind that three bits stand for.
pub open spec fn kind_of_bits(bits: u8) -> FrameKind {
    if bits == 1 || bits == 2 || bits == 3 {
        FrameKind(bits)
    } else if bits == 7 {
        FrameKind::protocol_error()
    } else {
        FrameKind::reserved()
    }
}

/// Whether a kind has bits of its own.
pub open spec fn kind_encodable(kind: FrameKind) -> bool {
    kind.0 <= 3 || kind.0 == 255
}

/// Encoded CAN extended ID containing routing-critical header fields
///
/// Layout (29 bits):
/// - Bits 28-26: Priority (3 bits)
/// - Bits 25-18: Destination node ID (8 bits)
/// - Bits 17-10: Destination port ID (8 bits)
/// - Bits 9-7: Frame kind (3 bits)
/// - Bits 6-0: Reserved (7 bits, set to 0)
#[derive(Clone, Copy, Debug, PartialEq, Eq, Structural)]
pub struct CanFrameId {
    id: u32,
}

impl CanFrameId {
    /// The lowest bit of the frame kind in the ID.
    pub const KIND_SHIFT: u32 = 7;

    /// Maximum valid extended CAN ID (29 bits)
    pub const MAX_EXTENDED_ID: u32 = 0x1FFF_FFFF;

    /// The ID as a number.
    pub closed spec fn raw(self) -> u32 {
        self.id
    }

    /// The destination node.
    pub open spec fn node(self) -> u8 {
        (self.raw() / DST_NODE_UNIT % 256) as u8
    }

    /// The destination port.
    pub open spec fn port(self) -> u8 {
        (self.raw() / DST_PORT_UNIT % 256) as u8
    }

    /// The frame kind.
    pub open spec fn kind(self) -> FrameKind {
        kind_of_bits((self.raw() / KIND_UNIT % 8) as u8)
    }

    /// The bits of the priority.
    pub open spec fn priority_bits(self) -> u8 {
        (self.raw() / PRIORITY_UNIT % 8) as u8
    }

    /// Create a new CAN frame ID from header fields
    pub fn new(priority: CanPriority, dst_node_id: u8, dst_port_id: u8, kind: FrameKind) -> (r:
        CanFrameId)
        ensures
            r.raw() == can_id(priority, dst_node_id, dst_port_id, kind),
            r.raw() <= CanFrameId::MAX_EXTENDED_ID,
    {
        let kind_bits: u8 = CanFrameId::frame_kind_to_bits(kind);
        let r = CanFrameId {
            id: (priority.to_bits() as u32) * PRIORITY_UNIT + (dst_node_id as u32) * DST_NODE_UNIT
                + (dst_port_id as u32) * DST_PORT_UNIT + (kind_bits as u32) * KIND_UNIT,
        };
        proof {
            can_id_round_trip(r, priority, dst_node_id, dst_port_id, kind);
        }
        r
    }

    /// Create from a header with default priority
    pub fn from_header(hdr: &HeaderSeq) -> (r: CanFrameId)
        ensures
            r.raw() == can_id(CanPriority::Normal, hdr.dst.node_id, hdr.dst.port_id, hdr.kind),
    {
        CanFrameId::from_header_with_priority(hdr, CanPriority::Normal)
    }

    /// Create from a header with specified priority
    pub fn from_header_with_priority(hdr: &HeaderSeq, priority: CanPriority) -> (r: CanFrameId)
        ensures
            r.raw() == can_id(priority, hdr.dst.node_id, hdr.dst.port_id, hdr.kind),
    {
        CanFrameId::new(priority, hdr.dst.node_id, hdr.dst.port_id, hdr.kind)
    }

    /// Parse from raw 29-bit CAN extended ID (higher bits are ignored)
    pub fn from_raw(id: u32) -> (r: CanFrameId)
        ensures
            r.raw() == id & CanFrameId::MAX_EXTENDED_ID,
            r.raw() == id % 0x2000_0000,
            r.raw() <= CanFrameId::MAX_EXTENDED_ID,
    {
        assert(id & 0x1FFF_FFFF == id % 0x2000_0000) by (bit_vector);
        CanFrameId { id: id % 0x2000_0000 }
    }

    /// Get the raw 29-bit CAN extended ID value
    pub fn to_raw(self) -> (r: u32)
        ensures
            r == self.raw(),
    {
        self.id
    }

    /// Extract priority
    pub fn priority(self) -> (r: CanPriority)
        ensures
            r.bits() == self.priority_bits(),
    {
        CanPriority::from_bits((self.id / PRIORITY_UNIT % 8) as u8)
    }

    /// Extract destination node ID
    pub fn dst_node_id(self) -> (r: u8)
        ensures
            r == self.node(),
    {
        (self.id / DST_NODE_UNIT % 256) as u8
    }

    /// Extract destination port ID
    pub fn dst_port_id(self) -> (r: u8)
        ensures
            r == self.port(),
    {
        (self.id / DST_PORT_UNIT % 256) as u8
    }

    /// Extract frame kind
    pub fn frame_kind(self) -> (r: FrameKind)
        ensures
            r == self.kind(),
    {
        CanFrameId::bits_to_frame_kind((self.id / KIND_UNIT % 8) as u8)
    }

    /// Convert a kind to its 3-bit representation
    fn frame_kind_to_bits(kind: FrameKind) -> (r: u8)
        ensures
            r == kind_bits(kind),
    {
        match kind.0 {
            0 => 0,
            1 => 1,
            2 => 2,
            3 => 3,
            255 => 7,
            _ => 0,
        }
    }

    /// Convert a 3-bit representation back to a kind
    fn bits_to_frame_kind(bits: u8) -> (r: FrameKind)
        ensures
            r == kind_of_bits(bits),
    {
        match bits {
            1 => FrameKind::endpoint_req(),
            2 => FrameKind::endpoint_resp(),
            3 => FrameKind::topic_msg(),
            7 => FrameKind::protocol_error(),
            _ => FrameKind::reserved(),
        }
    }

    /// Create a filter mask for matching destination node ID only
    pub fn filter_mask_node_only() -> (r: u32)
        ensures
            r == DST_NODE_MASK,
    {
        DST_NODE_MASK
    }

    /// Create a filter mask for matching destination node and port
    pub fn filter_mask_node_port() -> (r: u32)
        ensures
            r == DST_NODE_MASK | DST_PORT_MASK,
    {
        DST_NODE_MASK | DST_PORT_MASK
    }

    /// Create a filter mask for matching destination node, port, and kind
    pub fn filter_mask_full() -> (r: u32)
        ensures
            r == DST_NODE_MASK | DST_PORT_MASK | KIND_MASK,
    {
        DST_NODE_MASK | DST_PORT_MASK | KIND_MASK
    }
}

/// The ID of a frame.
pub open spec fn can_id(priority: CanPriority, node: u8, port: u8, kind: FrameKind) -> int {
    priority.bits() * PRIORITY_UNIT + node * DST_NODE_UNIT + port * DST_PORT_UNIT + kind_bits(kind)
        * KIND_UNIT
}

/// The digits of a number that was put together from them.
proof fn lemma_digits(p: int, n: int, o: int, k: int, raw: int)
    requires
        0 <= p < 8,
        0 <= n < 256,
        0 <= o < 256,
        0 <= k < 8,
        raw == p * 67108864 + n * 262144 + o * 1024 + k * 128,
    ensures
        raw / 67108864 % 8 == p,
        raw / 262144 % 256 == n,
        raw / 1024 % 256 == o,
        raw / 128 % 8 == k,
        0 <= raw <= 0x1FFF_FFFF,
{
    let c = p * 256 + n;
    let b = c * 256 + o;
    let a = b * 8 + k;
    assert(raw == a * 128);
    assert(raw / 128 == a);
    assert(a % 8 == k);
    assert(raw / 1024 == b);
    assert(b % 256 == o);
    assert(raw / 262144 == c);
    assert(c % 256 == n);
    assert(raw / 67108864 == p);
}

/// An ID is nothing but its number.
pub proof fn raw_determines_id(a: CanFrameId, b: CanFrameId)
    requires
        a.raw() == b.raw(),
    ensures
        a == b,
{
}

/// An ID of 29 bits, as every ID is that was made or parsed, is what its number
/// is parsed to.
pub proof fn raw_round_trip(id: CanFrameId, parsed: CanFrameId)
    requires
        id.raw() <= CanFrameId::MAX_EXTENDED_ID,
        parsed.raw() == id.raw() % 0x2000_0000,
    ensures
        parsed == id,
{
}

/// Every field that was put into an ID is found in it again, and the ID fits in
/// 29 bits.
pub proof fn can_id_round_trip(
    id: CanFrameId,
    priority: CanPriority,
    node: u8,
    port: u8,
    kind: FrameKind,
)
    requires
        id.raw() == can_id(priority, node, port, kind),
    ensures
        id.raw() <= CanFrameId::MAX_EXTENDED_ID,
        id.priority_bits() == priority.bits(),
        id.node() == node,
        id.port() == port,
        kind_encodable(kind) ==> id.kind() == kind,
        !kind_encodable(kind) ==> id.kind() == FrameKind::reserved(),
{
    lemma_digits(
        priority.bits() as int,
        node as int,
        port as int,
        kind_bits(kind) as int,
        id.raw() as int,
    );
}

/// In arbitration the lower ID wins: a frame of a higher priority always wins
/// over one of a lower priority.
pub proof fn priority_decides_arbitration(
    a: CanPriority,
    b: CanPriority,
    node_a: u8,
    node_b: u8,
    port_a: u8,
    port_b: u8,
    kind_a: FrameKind,
    kind_b: FrameKind,
)
    requires
        a.bits() < b.bits(),
    ensures
        can_id(a, node_a, port_a, kind_a) < can_id(b, node_b, port_b, kind_b),
{
}

/// What the bits under each mask say, in one bit-vector step.
proof fn lemma_masks(id: u32)
    ensures
        id & DST_NODE_MASK == id / DST_NODE_UNIT % 256 * DST_NODE_UNIT,
        id & (DST_NODE_MASK | DST_PORT_MASK) == id / DST_NODE_UNIT % 256 * DST_NODE_UNIT + id
            / DST_PORT_UNIT % 256 * DST_PORT_UNIT,
        id & (DST_NODE_MASK | DST_PORT_MASK | KIND_MASK) == id / DST_NODE_UNIT % 256 * DST_NODE_UNIT
            + id / DST_PORT_UNIT % 256 * DST_PORT_UNIT + id / KIND_UNIT % 8 * KIND_UNIT,
{
    assert(id & 0x3FC0000u32 == id / 262144 % 256 * 262144) by (bit_vector);
    assert(id & (0x3FC0000u32 | 0x3FC00u32) == id / 262144 % 256 * 262144 + id / 1024 % 256 * 1024)
        by (bit_vector);
    assert(id & (0x3FC0000u32 | 0x3FC00u32 | 0x380u32) == id / 262144 % 256 * 262144 + id / 1024 % 256 * 1024
        + id / 128 % 8 * 128) by (bit_vector);
}

/// The filter masks match exactly on what they are named after.
pub proof fn filter_masks_match(a: CanFrameId, b: CanFrameId)
    ensures
        a.raw() & DST_NODE_MASK == b.raw() & DST_NODE_MASK <==> a.node() == b.node(),
        a.raw() & (DST_NODE_MASK | DST_PORT_MASK) == b.raw() & (DST_NODE_MASK | DST_PORT_MASK)
            <==> a.node() == b.node() && a.port() == b.port(),
        a.raw() & (DST_NODE_MASK | DST_PORT_MASK | KIND_MASK) == b.raw() & (DST_NODE_MASK
            | DST_PORT_MASK | KIND_MASK) <==> a.node() == b.node() && a.port() == b.port()
            && a.raw() / KIND_UNIT % 8 == b.raw() / KIND_UNIT % 8,
{
    lemma_masks(a.raw());
    lemma_masks(b.raw());
}

// ---------------------------------------------------------------------------
// Payload header
// ---------------------------------------------------------------------------
/// Header fields that go in the CAN FD payload
#[derive(Clone, Copy, Debug, PartialEq, Eq, Structural)]
pub struct CanPayloadHeader {
    /// Destination network ID (for routing to other networks)
    pub dst_network_id: u16,
    /// Full source address (network, node and port in one number)
    pub src: u32,
    /// Sequence number for request/response correlation
    pub seq_no: u16,
    /// Time-to-live, decremented at each hop
    pub ttl: u8,
}

impl CanPayloadHeader {
    /// The fields of a header that go in the payload.
    pub open spec fn of(hdr: HeaderSeq) -> CanPayloadHeader {
        CanPayloadHeader {
            dst_network_id: hdr.dst.network_id,
            src: hdr.src.word() as u32,
            seq_no: hdr.seq_no,
            ttl: hdr.ttl,
        }
    }

    /// Create from a header
    pub fn from_header(hdr: &HeaderSeq) -> (r: CanPayloadHeader)
        ensures
            r == CanPayloadHeader::of(*hdr),
    {
        CanPayloadHeader {
            dst_network_id: hdr.dst.network_id,
            src: hdr.src.as_u32(),
            seq_no: hdr.seq_no,
            ttl: hdr.ttl,
        }
    }

    /// Reconstruct source Address
    pub fn src_address(&self) -> (r: Address)
        ensures
            r.word() == self.src,
    {
        Address::from_word(self.src)
    }

    /// The byte form.
    pub open spec fn bytes(self) -> Seq<u8> {
        varint::varint(self.dst_network_id as nat) + varint::varint(self.src as nat)
            + varint::varint(self.seq_no as nat) + seq![self.ttl]
    }
}

/// Error when encoding a CAN frame
#[derive(Clone, Copy, Debug, PartialEq, Eq, Structural)]
pub enum CanEncodeError {
    /// Message too large for CAN FD payload
    PayloadTooLarge,
    /// Serialization failed
    SerializationError,
}

/// Error when decoding a CAN frame
#[derive(Clone, Copy, Debug, PartialEq, Eq, Structural)]
pub enum CanDecodeError {
    /// Payload too short
    PayloadTooShort,
    /// Deserialization failed
    DeserializationError,
    /// Invalid frame kind in CAN ID
    InvalidFrameKind,
}

/// A decoded CAN FD frame
#[derive(Clone, Copy, Debug)]
pub struct CanFrame<'a> {
    /// Reconstructed header
    pub header: HeaderSeq,
    /// Message body (or error)
    pub body: Result<&'a [u8], ProtocolError>,
}

impl<'a> CanFrame<'a> {
    /// The message body (or error).
    pub open spec fn content(self) -> Result<Seq<u8>, ProtocolError> {
        match self.body {
            Ok(body) => Ok(body@),
            Err(err) => Err(err),
        }
    }
}

// ---------------------------------------------------------------------------
// Encoding
// ---------------------------------------------------------------------------
/// The payload before the body: the payload header, and the appendix if there is
/// one.
pub open spec fn payload_front(hdr: HeaderSeq) -> Seq<u8> {
    match hdr.any_all {
        Some(apdx) => CanPayloadHeader::of(hdr).bytes() + wire_frames::appendix_bytes(apdx),
        None => CanPayloadHeader::of(hdr).bytes(),
    }
}

/// The payload of a message.
pub open spec fn message_payload(hdr: HeaderSeq, body: Seq<u8>) -> Seq<u8> {
    payload_front(hdr) + body
}

/// The payload of an error, which has no appendix.
pub open spec fn error_payload(hdr: HeaderSeq, err: ProtocolError) -> Seq<u8> {
    CanPayloadHeader::of(hdr).bytes() + wire_frames::error_bytes(err)
}

/// What encoding the payload `bytes` into a buffer does, where frames of up to
/// `limit` bytes are accepted.
///
/// - A buffer that is too short ends in an error, and at most a leading part has
///   been written.
/// - Otherwise the payload stands at the front of the buffer, and a payload over
///   the limit is an error all the same.
pub open spec fn encoded(
    old_buf: Seq<u8>,
    new_buf: Seq<u8>,
    bytes: Seq<u8>,
    limit: nat,
    id: int,
    r: Result<(CanFrameId, usize), CanEncodeError>,
) -> bool {
    if old_buf.len() < bytes.len() {
        &&& r == Err::<(CanFrameId, usize), _>(CanEncodeError::SerializationError)
        &&& varint::cut_short(old_buf, new_buf, bytes)
    } else {
        &&& new_buf == varint::written(old_buf, 0, bytes)
        &&& if bytes.len() > limit {
            r == Err::<(CanFrameId, usize), _>(CanEncodeError::PayloadTooLarge)
        } else {
            r matches Ok((can_id, n)) && can_id.raw() == id && n == bytes.len()
        }
    }
}

/// Writes the payload header to the front of `buf`.
fn encode_payload_header(buf: &mut [u8], hdr: &CanPayloadHeader, Ghost(more): Ghost<Seq<u8>>) -> (r:
    Option<usize>)
    ensures
        match r {
            Some(n) => n == hdr.bytes().len() && n <= old(buf)@.len() && final(buf)@
                == varint::written(old(buf)@, 0, hdr.bytes()),
            None => varint::cut_short(old(buf)@, final(buf)@, hdr.bytes() + more),
        },
{
    let ghost b0 = buf@;
    let ghost empty = Seq::<u8>::empty();
    let ghost net = varint::varint(hdr.dst_network_id as nat);
    let ghost src = varint::varint(hdr.src as nat);
    let ghost seq = varint::varint(hdr.seq_no as nat);
    let ghost ttl = seq![hdr.ttl];
    assert(b0 =~= varint::written(b0, 0, empty));

    let r1 = varint::put_u16_at(hdr.dst_network_id, buf, 0);
    let ghost b1 = buf@;
    proof {
        assert(empty + net =~= net);
        assert(net + (src + seq + ttl + more) =~= hdr.bytes() + more);
        varint::write_step(b0, b0, b1, empty, net, src + seq + ttl + more, r1);
    }
    let pos: usize = match r1 {
        Ok(end) => end,
        Err(_) => {
            return None;
        },
    };
    let r2 = varint::put_u32_at(hdr.src, buf, pos);
    let ghost b2 = buf@;
    proof {
        assert(net + src + (seq + ttl + more) =~= hdr.bytes() + more);
        varint::write_step(b0, b1, b2, net, src, seq + ttl + more, r2);
    }
    let pos: usize = match r2 {
        Ok(end) => end,
        Err(_) => {
            return None;
        },
    };
    let r3 = varint::put_u16_at(hdr.seq_no, buf, pos);
    let ghost b3 = buf@;
    proof {
        assert(net + src + seq + (ttl + more) =~= hdr.bytes() + more);
        varint::write_step(b0, b2, b3, net + src, seq, ttl + more, r3);
    }
    let pos: usize = match r3 {
        Ok(end) => end,
        Err(_) => {
            return None;
        },
    };
    let r4 = varint::put_u8_at(hdr.ttl, buf, pos);
    proof {
        varint::write_step(b0, b3, buf@, net + src + seq, ttl, more, r4);
    }
    match r4 {
        Ok(end) => Some(end),
        Err(_) => None,
    }
}

/// Writes the payload header, the appendix if there is one, and `tail`.
fn encode_payload(
    buf: &mut [u8],
    hdr: &HeaderSeq,
    any_all: Option<AnyAllAppendix>,
    tail: &[u8],
) -> (r: Option<usize>)
    ensures
        ({
            let front = match any_all {
                Some(apdx) => CanPayloadHeader::of(*hdr).bytes() + wire_frames::appendix_bytes(
                    apdx,
                ),
                None => CanPayloadHeader::of(*hdr).bytes(),
            };
            match r {
                Some(n) => n == (front + tail@).len() && n <= old(buf)@.len() && final(buf)@
                    == varint::written(old(buf)@, 0, front + tail@),
                None => varint::cut_short(old(buf)@, final(buf)@, front + tail@),
            }
        }),
{
    let ghost b0 = buf@;
    let payload_hdr = CanPayloadHeader::from_header(hdr);
    let ghost common = payload_hdr.bytes();
    let ghost apdx_bytes = match any_all {
        Some(apdx) => wire_frames::appendix_bytes(apdx),
        None => Seq::<u8>::empty(),
    };
    assert(common + (apdx_bytes + tail@) =~= common + apdx_bytes + tail@);
    assert(any_all is None ==> common + apdx_bytes =~= common);
    let mut pos: usize = match encode_payload_header(
        buf,
        &payload_hdr,
        Ghost(apdx_bytes + tail@),
    ) {
        Some(end) => end,
        None => {
            return None;
        },
    };
    let ghost b1 = buf@;
    if let Some(app) = any_all {
        let ghost key = app.key.0@;
        let ghost number = varint::varint(crate::nash::name_hash_number(app.nash) as nat);
        let r2 = varint::put_bytes_at(app.key.0.as_slice(), buf, pos);
        let ghost b2 = buf@;
        proof {
            assert(common + key + (number + tail@) =~= common + apdx_bytes + tail@);
            varint::write_step(b0, b1, b2, common, key, number + tail@, r2);
        }
        pos =
        match r2 {
            Ok(end) => end,
            Err(_) => {
                return None;
            },
        };
        let val: u32 = match &app.nash {
            Some(n) => n.to_u32(),
            None => 0,
        };
        let r3 = varint::put_u32_at(val, buf, pos);
        proof {
            assert(common + key + number =~= common + apdx_bytes);
            varint::write_step(b0, b2, buf@, common + key, number, tail@, r3);
        }
        pos =
        match r3 {
            Ok(end) => end,
            Err(_) => {
                return None;
            },
        };
    }
    let ghost b3 = buf@;
    let r4 = varint::put_bytes_at(tail, buf, pos);
    proof {
        let empty = Seq::<u8>::empty();
        varint::write_step(b0, b3, buf@, common + apdx_bytes, tail@, empty, r4);
        assert(common + apdx_bytes + tail@ + empty =~= common + apdx_bytes + tail@);
    }
    match r4 {
        Ok(end) => Some(end),
        Err(_) => None,
    }
}

/// Encode a message, whose body has been serialised, into CAN ID + payload
///
/// Returns the CAN extended ID and how much of the buffer is used. A buffer that
/// could not hold the largest header is refused.
pub fn encode_frame(hdr: &HeaderSeq, body: &[u8], priority: CanPriority, buf: &mut [u8]) -> (r:
    Result<(CanFrameId, usize), CanEncodeError>)
    ensures
        if old(buf)@.len() < MAX_CAN_PAYLOAD_HDR_SIZE {
            &&& r == Err::<(CanFrameId, usize), _>(CanEncodeError::PayloadTooLarge)
            &&& final(buf)@ == old(buf)@
        } else {
            encoded(
                old(buf)@,
                final(buf)@,
                message_payload(*hdr, body@),
                CAN_FD_MAX_PAYLOAD as nat,
                can_id(priority, hdr.dst.node_id, hdr.dst.port_id, hdr.kind),
                r,
            )
        },
{
    if buf.len() < MAX_CAN_PAYLOAD_HDR_SIZE {
        return Err(CanEncodeError::PayloadTooLarge);
    }
    encode_frame_raw(hdr, body, priority, buf)
}

/// Encode a raw (pre-serialized) message into CAN ID + payload
///
/// The size of the header depends on the addresses and on the appendix, so
/// nothing is refused before it is encoded.
pub fn encode_frame_raw(hdr: &HeaderSeq, body: &[u8], priority: CanPriority, buf: &mut [u8]) -> (r:
    Result<(CanFrameId, usize), CanEncodeError>)
    ensures
        encoded(
            old(buf)@,
            final(buf)@,
            message_payload(*hdr, body@),
            CAN_FD_MAX_PAYLOAD as nat,
            can_id(priority, hdr.dst.node_id, hdr.dst.port_id, hdr.kind),
            r,
        ),
{
    let can_id = CanFrameId::from_header_with_priority(hdr, priority);
    match encode_payload(buf, hdr, hdr.any_all, body) {
        None => Err(CanEncodeError::SerializationError),
        Some(used) => {
            if used > CAN_FD_MAX_PAYLOAD {
                Err(CanEncodeError::PayloadTooLarge)
            } else {
                Ok((can_id, used))
            }
        },
    }
}

/// Encode a protocol error into CAN ID + payload
///
/// A buffer that could not hold the largest header and an error is refused.
pub fn encode_frame_err(
    hdr: &HeaderSeq,
    err: ProtocolError,
    priority: CanPriority,
    buf: &mut [u8],
) -> (r: Result<(CanFrameId, usize), CanEncodeError>)
    ensures
        if old(buf)@.len() < MAX_CAN_PAYLOAD_HDR_SIZE + 2 {
            &&& r == Err::<(CanFrameId, usize), _>(CanEncodeError::PayloadTooLarge)
            &&& final(buf)@ == old(buf)@
        } else {
            encoded(
                old(buf)@,
                final(buf)@,
                error_payload(*hdr, err),
                error_payload(*hdr, err).len(),
                can_id(priority, hdr.dst.node_id, hdr.dst.port_id, hdr.kind),
                r,
            )
        },
{
    if buf.len() < MAX_CAN_PAYLOAD_HDR_SIZE + 2 {
        return Err(CanEncodeError::PayloadTooLarge);
    }
    let can_id = CanFrameId::from_header_with_priority(hdr, priority);
    let tail = wire_frames::error_to_bytes(err);
    match encode_payload(buf, hdr, None, tail.as_slice()) {
        None => Err(CanEncodeError::SerializationError),
        Some(used) => Ok((can_id, used)),
    }
}

// ---------------------------------------------------------------------------
// Decoding
// ---------------------------------------------------------------------------
/// Reads a payload header from the front of `s`: the header and how many bytes
/// it takes.
pub open spec fn take_payload_header(s: Seq<u8>) -> Option<(CanPayloadHeader, nat)> {
    match varint::take_varint_u16(s) {
        None => None,
        Some((net, a)) => match varint::take_varint_u32(s.skip(a as int)) {
            None => None,
            Some((src, b)) => match varint::take_varint_u16(s.skip((a + b) as int)) {
                None => None,
                Some((seq, c)) => if s.len() <= a + b + c {
                    None
                } else {
                    Some(
                        (
                            CanPayloadHeader {
                                dst_network_id: net as u16,
                                src: src as u32,
                                seq_no: seq as u16,
                                ttl: s[(a + b + c) as int],
                            },
                            a + b + c + 1,
                        ),
                    )
                },
            },
        },
    }
}

/// The header that an ID and a payload header stand for.
pub open spec fn header_of(
    id: CanFrameId,
    hdr: CanPayloadHeader,
    any_all: Option<AnyAllAppendix>,
) -> HeaderSeq {
    HeaderSeq {
        src: wire_frames::address_of(hdr.src as nat),
        dst: Address {
            network_id: hdr.dst_network_id,
            node_id: id.node(),
            port_id: id.port(),
        },
        any_all,
        seq_no: hdr.seq_no,
        kind: id.kind(),
        ttl: hdr.ttl,
    }
}

/// What an ID and a payload stand for.
pub open spec fn decode(id: CanFrameId, payload: Seq<u8>) -> Result<
    (HeaderSeq, Result<Seq<u8>, ProtocolError>),
    CanDecodeError,
> {
    match take_payload_header(payload) {
        None => Err(CanDecodeError::DeserializationError),
        Some((hdr, used)) => {
            let rest = payload.skip(used as int);
            if id.kind() == FrameKind::protocol_error() {
                match wire_frames::take_error(rest) {
                    Some((err, _)) => Ok((header_of(id, hdr, None), Err(err))),
                    None => Err(CanDecodeError::DeserializationError),
                }
            } else if wire_frames::any_all_port(id.port()) {
                if rest.len() < 9 {
                    Err(CanDecodeError::PayloadTooShort)
                } else {
                    match wire_frames::take_appendix(rest) {
                        Some((apdx, more)) => Ok(
                            (header_of(id, hdr, Some(apdx)), Ok(rest.skip(more as int))),
                        ),
                        None => Err(CanDecodeError::DeserializationError),
                    }
                }
            } else {
                Ok((header_of(id, hdr, None), Ok(rest)))
            }
        },
    }
}

/// Reads a payload header and hands back the bytes behind it.
fn take_header(data: &[u8]) -> (r: Option<(CanPayloadHeader, &[u8])>)
    ensures
        match r {
            Some((hdr, rest)) => exists|used: nat|
                #![trigger data@.skip(used as int)]
                take_payload_header(data@) == Some((hdr, used)) && used <= data@.len() && rest@
                    == data@.skip(used as int),
            None => take_payload_header(data@) is None,
        },
{
    proof {
        varint::take_varint_used(data@, 3, 3);
    }
    let (dst_network_id, rest1) = match varint::take_u16(data) {
        Ok(v) => v,
        Err(_) => {
            return None;
        },
    };
    let ghost a = choose|used: nat|
        #![trigger data@.skip(used as int)]
        varint::take_varint_u16(data@) == Some((dst_network_id as nat, used)) && rest1@
            == data@.skip(used as int);
    proof {
        varint::take_varint_used(rest1@, 5, 15);
    }
    let (src, rest2) = match varint::take_u32(rest1) {
        Ok(v) => v,
        Err(_) => {
            return None;
        },
    };
    let ghost b = choose|used: nat|
        #![trigger rest1@.skip(used as int)]
        varint::take_varint_u32(rest1@) == Some((src as nat, used)) && rest2@ == rest1@.skip(
            used as int,
        );
    proof {
        varint::take_varint_used(rest2@, 3, 3);
        assert(rest2@ =~= data@.skip((a + b) as int));
    }
    let (seq_no, rest3) = match varint::take_u16(rest2) {
        Ok(v) => v,
        Err(_) => {
            return None;
        },
    };
    let ghost c = choose|used: nat|
        #![trigger rest2@.skip(used as int)]
        varint::take_varint_u16(rest2@) == Some((seq_no as nat, used)) && rest3@ == rest2@.skip(
            used as int,
        );
    let (ttl, rest4) = match varint::take_u8(rest3) {
        Ok(v) => v,
        Err(_) => {
            return None;
        },
    };
    proof {
        assert(rest3@ =~= data@.skip((a + b + c) as int));
        assert(rest4@ =~= data@.skip((a + b + c + 1) as int));
    }
    Some((CanPayloadHeader { dst_network_id, src, seq_no, ttl }, rest4))
}

/// Decode a CAN FD frame into a message
pub fn decode_frame<'a>(can_id: CanFrameId, payload: &'a [u8]) -> (r: Result<
    CanFrame<'a>,
    CanDecodeError,
>)
    ensures
        match (r, decode(can_id, payload@)) {
            (Ok(f), Ok((hdr, content))) => f.header == hdr && f.content() == content,
            (Err(e), Err(e2)) => e == e2,
            _ => false,
        },
{
    let (payload_hdr, remain) = match take_header(payload) {
        Some(v) => v,
        None => {
            return Err(CanDecodeError::DeserializationError);
        },
    };
    let kind = can_id.frame_kind();
    let is_err = kind == FrameKind::protocol_error();
    let port: u8 = can_id.dst_port_id();
    let src = payload_hdr.src_address();
    proof {
        wire_frames::address_round_trip(src);
    }
    // Reconstruct destination address from CAN ID + payload
    let dst = Address {
        network_id: payload_hdr.dst_network_id,
        node_id: can_id.dst_node_id(),
        port_id: port,
    };
    let mut any_all: Option<AnyAllAppendix> = None;
    let body = if is_err {
        match wire_frames::take_protocol_error(remain) {
            Some((err, _)) => Err(err),
            None => {
                return Err(CanDecodeError::DeserializationError);
            },
        }
    } else if port == 0 || port == 255 {
        if remain.len() < 9 {
            return Err(CanDecodeError::PayloadTooShort);
        }
        match wire_frames::take_any_all(remain) {
            Some((apdx, rest)) => {
                any_all = Some(apdx);
                Ok(rest)
            },
            None => {
                return Err(CanDecodeError::DeserializationError);
            },
        }
    } else {
        Ok(remain)
    };
    Ok(
        CanFrame {
            header: HeaderSeq {
                src,
                dst,
                any_all,
                seq_no: payload_hdr.seq_no,
                kind,
                ttl: payload_hdr.ttl,
            },
            body,
        },
    )
}

/// A payload header is read back from what was written, whatever follows.
pub proof fn payload_header_round_trip(hdr: CanPayloadHeader, rest: Seq<u8>)
    ensures
        take_payload_header(hdr.bytes() + rest) == Some((hdr, hdr.bytes().len())),
        (hdr.bytes() + rest).skip(hdr.bytes().len() as int) == rest,
{
    let net = varint::varint(hdr.dst_network_id as nat);
    let src = varint::varint(hdr.src as nat);
    let seq = varint::varint(hdr.seq_no as nat);
    let ttl = seq![hdr.ttl];
    let s = hdr.bytes() + rest;
    assert(s =~= net + (src + (seq + (ttl + rest))));
    assert(s.skip(hdr.bytes().len() as int) =~= rest);
    varint::varint_u16_round_trip(hdr.dst_network_id, src + (seq + (ttl + rest)));
    varint::varint_u32_round_trip(hdr.src, seq + (ttl + rest));
    varint::varint_u16_round_trip(hdr.seq_no, ttl + rest);
    assert(s.skip((net.len() + src.len()) as int) =~= seq + (ttl + rest));
    assert(s[(net.len() + src.len() + seq.len()) as int] == hdr.ttl);
}

/// The header that is read back is the one that was written.
proof fn lemma_header_back(id: CanFrameId, hdr: HeaderSeq, priority: CanPriority)
    requires
        id.raw() == can_id(priority, hdr.dst.node_id, hdr.dst.port_id, hdr.kind),
        kind_encodable(hdr.kind),
    ensures
        header_of(id, CanPayloadHeader::of(hdr), hdr.any_all) == hdr,
        id.kind() == hdr.kind,
        id.port() == hdr.dst.port_id,
{
    can_id_round_trip(id, priority, hdr.dst.node_id, hdr.dst.port_id, hdr.kind);
    wire_frames::address_round_trip(hdr.src);
}

/// A message that was encoded is decoded to its header and its body. The header
/// has an appendix exactly if it goes to an "any" or "all" port.
pub proof fn message_round_trip(
    id: CanFrameId,
    hdr: HeaderSeq,
    body: Seq<u8>,
    priority: CanPriority,
)
    requires
        id.raw() == can_id(priority, hdr.dst.node_id, hdr.dst.port_id, hdr.kind),
        kind_encodable(hdr.kind),
        hdr.kind != FrameKind::protocol_error(),
        hdr.any_all is Some <==> wire_frames::any_all_port(hdr.dst.port_id),
        hdr.any_all matches Some(apdx) ==> (apdx.nash matches Some(n) ==> n.wf()),
    ensures
        decode(id, message_payload(hdr, body)) == Ok::<_, CanDecodeError>(
            (hdr, Ok::<Seq<u8>, ProtocolError>(body)),
        ),
{
    let common = CanPayloadHeader::of(hdr);
    lemma_header_back(id, hdr, priority);
    match hdr.any_all {
        None => {
            payload_header_round_trip(common, body);
        },
        Some(apdx) => {
            let ab = wire_frames::appendix_bytes(apdx);
            payload_header_round_trip(common, ab + body);
            wire_frames::appendix_round_trip(apdx, body);
            varint::varint_len_bounds(crate::nash::name_hash_number(apdx.nash), 0);
            assert(message_payload(hdr, body) =~= common.bytes() + (ab + body));
            assert((ab + body).skip(ab.len() as int) =~= body);
        },
    }
}

/// An error that was encoded is decoded to its header, without an appendix, and
/// the error.
pub proof fn error_round_trip(
    id: CanFrameId,
    hdr: HeaderSeq,
    err: ProtocolError,
    priority: CanPriority,
)
    requires
        id.raw() == can_id(priority, hdr.dst.node_id, hdr.dst.port_id, hdr.kind),
        hdr.kind == FrameKind::protocol_error(),
    ensures
        decode(id, error_payload(hdr, err)) == Ok::<_, CanDecodeError>(
            ((HeaderSeq { any_all: None, ..hdr }), Err::<Seq<u8>, ProtocolError>(err)),
        ),
{
    let plain = HeaderSeq { any_all: None, ..hdr };
    lemma_header_back(id, plain, priority);
    payload_header_round_trip(CanPayloadHeader::of(hdr), wire_frames::error_bytes(err));
    wire_frames::error_round_trip(err, Seq::empty());
    assert(wire_frames::error_bytes(err) + Seq::<u8>::empty() =~= wire_frames::error_bytes(err));
}

/// The front of a payload never takes more than [`MAX_CAN_PAYLOAD_HDR_SIZE`]
/// bytes, so a body of [`MIN_CAN_PAYLOAD_BODY`] bytes always fits.
pub proof fn payload_front_len(hdr: HeaderSeq)
    ensures
        payload_front(hdr).len() <= MAX_CAN_PAYLOAD_HDR_SIZE,
        payload_front(hdr).len() + MIN_CAN_PAYLOAD_BODY <= CAN_FD_MAX_PAYLOAD,
        CanPayloadHeader::of(hdr).bytes().len() <= 12,
{
    let p = CanPayloadHeader::of(hdr);
    varint::varint_len_bounds(p.src, p.dst_network_id);
    varint::varint_len_bounds(0, p.seq_no);
    if let Some(apdx) = hdr.any_all {
        varint::varint_len_bounds(crate::nash::name_hash_number(apdx.nash), 0);
    }
}

// ---------------------------------------------------------------------------
// Interface
// ---------------------------------------------------------------------------
/// A CAN FD interface implementation
///
/// This interface encodes messages with routing-critical fields in the CAN
/// extended ID for hardware filtering, and remaining fields in the payload.
pub struct CanFdInterface;

impl Interface for CanFdInterface {
    type Sink = CanFdSink<DummyTransmit>;
}

/// Configuration for the CAN FD interface
#[derive(Clone, Copy, Debug)]
pub struct CanFdConfig {
    /// Default priority for outgoing messages
    pub default_priority: CanPriority,
    /// This CAN segment's network ID (for address rewriting on bridges)
    pub local_network_id: Option<u16>,
}

impl Default for CanFdConfig {
    fn default() -> (r: CanFdConfig)
        ensures
            r == (CanFdConfig { default_priority: CanPriority::Normal, local_network_id: None }),
    {
        CanFdConfig { default_priority: CanPriority::Normal, local_network_id: None }
    }
}

/// Trait for sending CAN FD frames
///
/// Implement this trait to integrate with your CAN driver. Whether a frame is
/// transmitted is for the driver to say.
pub trait CanFdTransmit: Sized {
    /// Error type for transmission failures
    type Error;

    /// Whether a transmitter that was `before` may be `after` once it was given
    /// a frame.
    spec fn transmitted(before: Self, after: Self, id: u32, data: Seq<u8>, ok: bool) -> bool;

    /// Transmit a CAN FD frame
    ///
    /// # Arguments
    /// * `id` - The 29-bit extended CAN ID
    /// * `data` - The payload data (up to 64 bytes)
    fn transmit(&mut self, id: u32, data: &[u8]) -> (r: Result<(), Self::Error>)
        requires
            id <= CanFrameId::MAX_EXTENDED_ID,
            data@.len() <= CAN_FD_MAX_PAYLOAD,
        ensures
            Self::transmitted(*old(self), *final(self), id, data@, r is Ok),
    ;
}

/// Dummy transmitter for type signatures: it transmits nothing
pub struct DummyTransmit;

impl CanFdTransmit for DummyTransmit {
    type Error = ();

    open spec fn transmitted(before: Self, after: Self, id: u32, data: Seq<u8>, ok: bool) -> bool {
        !ok && after == before
    }

    fn transmit(&mut self, id: u32, data: &[u8]) -> (r: Result<(), ()>) {
        Err(())
    }
}

/// Interface sink for CAN FD
///
/// Wraps a CAN transmitter and encodes messages into CAN FD frames.
pub struct CanFdSink<T: CanFdTransmit> {
    pub tx: T,
    pub config: CanFdConfig,
    pub buf: [u8; 64],
}

/// What a sink puts on the wire for a header and a payload, if anything: the ID
/// and the bytes. A kind that does not go with the payload is refused, and so is
/// what does not fit in a frame.
pub open spec fn on_can(priority: CanPriority, hdr: HeaderSeq, what: Payload) -> Option<
    (int, Seq<u8>),
> {
    let id = can_id(priority, hdr.dst.node_id, hdr.dst.port_id, hdr.kind);
    let is_err = hdr.kind == FrameKind::protocol_error();
    let bytes = match what {
        Payload::Message(body) => message_payload(hdr, body),
        Payload::Raw(body) => message_payload(hdr, body),
        Payload::Error(err) => error_payload(hdr, err),
    };
    if is_err != (what is Error) || bytes.len() > CAN_FD_MAX_PAYLOAD {
        None
    } else {
        Some((id, bytes))
    }
}

impl<T: CanFdTransmit> CanFdSink<T> {
    /// Create a new CAN FD sink with the given transmitter and config
    pub fn new(tx: T, config: CanFdConfig) -> (r: Self)
        ensures
            r.tx == tx,
            r.config == config,
    {
        CanFdSink { tx, config, buf: [0u8; 64] }
    }

    /// Get mutable access to the underlying transmitter
    pub fn transmitter_mut(&mut self) -> (r: &mut T)
        ensures
            *r == old(self).tx,
            *final(self) == (CanFdSink { tx: *final(r), ..*old(self) }),
    {
        &mut self.tx
    }

    /// What handing a frame to the sink does: it goes to the transmitter as it
    /// has to be on the wire, or the transmitter is left alone.
    pub open spec fn handed_over(
        before: Self,
        after: Self,
        hdr: HeaderSeq,
        what: Payload,
        taken: bool,
    ) -> bool {
        &&& after.config == before.config
        &&& match on_can(before.config.default_priority, hdr, what) {
            None => !taken && after.tx == before.tx,
            Some((id, bytes)) => 0 <= id <= u32::MAX && T::transmitted(
                before.tx,
                after.tx,
                id as u32,
                bytes,
                taken,
            ),
        }
    }

    /// Transmits what stands at the front of the buffer.
    fn transmit_front(&mut self, can_id: CanFrameId, len: usize) -> (r: Result<(), ()>)
        requires
            len <= CAN_FD_MAX_PAYLOAD,
            can_id.raw() <= CanFrameId::MAX_EXTENDED_ID,
        ensures
            final(self).config == old(self).config,
            T::transmitted(
                old(self).tx,
                final(self).tx,
                can_id.raw(),
                old(self).buf@.take(len as int),
                r is Ok,
            ),
    {
        let data = vstd::slice::slice_subrange(self.buf.as_slice(), 0, len);
        assert(data@ =~= self.buf@.take(len as int));
        match self.tx.transmit(can_id.to_raw(), data) {
            Ok(()) => Ok(()),
            Err(_) => Err(()),
        }
    }

    /// Sends a message under a header of wire version 0.
    pub fn send_message(&mut self, hdr: &HeaderSeq, body: &[u8]) -> (r: Result<(), ()>)
        ensures
            Self::handed_over(*old(self), *final(self), *hdr, Payload::Message(body@), r is Ok),
            Self::handed_over(*old(self), *final(self), *hdr, Payload::Raw(body@), r is Ok),
    {
        if hdr.kind == FrameKind::protocol_error() {
            return Err(());
        }
        let priority = self.config.default_priority;
        let ghost bytes = message_payload(*hdr, body@);
        let mut buf = self.buf;
        let ghost before = buf@;
        match encode_frame_raw(hdr, body, priority, &mut buf) {
            Err(_) => Err(()),
            Ok((can_id, len)) => {
                self.buf = buf;
                proof {
                    can_id_round_trip(
                        can_id,
                        priority,
                        hdr.dst.node_id,
                        hdr.dst.port_id,
                        hdr.kind,
                    );
                    assert(self.buf@.take(len as int) =~= bytes);
                }
                self.transmit_front(can_id, len)
            },
        }
    }

    /// Sends a protocol error under a header of wire version 0.
    pub fn send_error(&mut self, hdr: &HeaderSeq, err: ProtocolError) -> (r: Result<(), ()>)
        ensures
            Self::handed_over(*old(self), *final(self), *hdr, Payload::Error(err), r is Ok),
    {
        if hdr.kind != FrameKind::protocol_error() {
            return Err(());
        }
        let priority = self.config.default_priority;
        let ghost bytes = error_payload(*hdr, err);
        proof {
            payload_front_len(*hdr);
            wire_frames::error_bytes_len(err);
        }
        let mut buf = self.buf;
        match encode_frame_err(hdr, err, priority, &mut buf) {
            Err(_) => Err(()),
            Ok((can_id, len)) => {
                self.buf = buf;
                proof {
                    can_id_round_trip(
                        can_id,
                        priority,
                        hdr.dst.node_id,
                        hdr.dst.port_id,
                        hdr.kind,
                    );
                    assert(self.buf@.take(len as int) =~= bytes);
                }
                self.transmit_front(can_id, len)
            },
        }
    }
}

impl<T: CanFdTransmit> InterfaceSink for CanFdSink<T> {
    /// Frames go out under their header of wire version 0.
    open spec fn sent(before: Self, after: Self, hdr: Header, what: Payload, taken: bool) -> bool {
        Self::handed_over(before, after, wire_v0::header_v0(hdr), what, taken)
    }

    open spec fn spec_mtu(&self) -> u16 {
        64
    }

    /// One CAN FD frame is all there is.
    fn mtu(&self) -> (r: u16) {
        64
    }

    fn send_ty(&mut self, hdr: &Header, body: &[u8]) -> (r: Result<(), ()>) {
        self.send_message(&HeaderSeq::from_header(hdr), body)
    }

    fn send_raw(&mut self, hdr: &Header, body: &[u8]) -> (r: Result<(), ()>) {
        self.send_message(&HeaderSeq::from_header(hdr), body)
    }

    fn send_err(&mut self, hdr: &Header, err: ProtocolError) -> (r: Result<(), ()>) {
        self.send_error(&HeaderSeq::from_header(hdr), err)
    }
}

} // verus!
