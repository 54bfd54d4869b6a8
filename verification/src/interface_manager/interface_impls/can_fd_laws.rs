//! How frames look on a CAN FD bus.

use vstd::prelude::*;
use crate::interface_manager::interface_impls::can_fd;
use crate::interface_manager::interface_impls::can_fd::{
    CanDecodeError, CanEncodeError, CanFdSink, CanFdTransmit, CanFrameId, CanPriority,
};
use crate::interface_manager::{InterfaceSink, Payload};
use crate::varint;
use crate::wire_frames;
use crate::wire_laws;
use crate::wire_v0;
use crate::wire_v0::HeaderSeq;
use crate::{Header, ProtocolError};

verus! {

/// What the 29 bits of an ID are: three of priority, of which zero is the most
/// urgent, eight of the node and eight of the port that the frame is for, three of its
/// kind, and seven that are zero.
pub proof fn ids_say_where_frames_go(
    priority: CanPriority,
    node: u8,
    port: u8,
    kind: wire_v0::FrameKind,
)
    ensures
        ({
            let id = can_fd::can_id(priority, node, port, kind);
            &&& 0 <= id < 536870912
            &&& id / 67108864 == (match priority {
                CanPriority::Critical => 0int,
                CanPriority::High => 1,
                CanPriority::Normal => 2,
                CanPriority::Low => 3,
                CanPriority::Bulk => 4,
                CanPriority::Background => 5,
                CanPriority::Lowest => 6,
                CanPriority::Reserved => 7,
            })
            &&& id / 262144 % 256 == node
            &&& id / 1024 % 256 == port
            &&& id / 128 % 8 == (if 1 <= kind.0 <= 3 {
                kind.0 as int
            } else if kind.0 == 255 {
                7
            } else {
                0
            })
            &&& id % 128 == 0
        }),
{
    let bits = can_fd::kind_bits(kind) as int;
    let id = can_fd::can_id(priority, node, port, kind);
    let c = priority.bits() * 256 + node;
    let b = c * 256 + port;
    let a = b * 8 + bits;
    assert(id == a * 128);
    assert(id / 128 == a && id % 128 == 0);
    assert(id / 1024 == b);
    assert(id / 262144 == c);
    assert(id / 67108864 == priority.bits());
}

/// The same bits are read from any ID, whatever its other bits are.
pub proof fn ids_are_read(id: CanFrameId)
    ensures
        id.node() == id.raw() / 262144 % 256,
        id.port() == id.raw() / 1024 % 256,
        id.priority_bits() == id.raw() / 67108864 % 8,
        ({
            let bits = id.raw() / 128 % 8;
            id.kind().0 == (if 1 <= bits <= 3 {
                bits as int
            } else if bits == 7 {
                255
            } else {
                0
            })
        }),
{
}

/// A payload is the net that the frame is for, its source, its sequence number, the
/// hops that are left, the key and the name where there are any, and the body.
pub proof fn payloads_say_the_rest(hdr: HeaderSeq, body: Seq<u8>, err: ProtocolError)
    ensures
        ({
            let front = varint::varint(hdr.dst.network_id as nat) + varint::varint(
                wire_laws::as_number(hdr.src) as nat,
            ) + varint::varint(hdr.seq_no as nat) + seq![hdr.ttl];
            &&& hdr.any_all is None ==> can_fd::message_payload(hdr, body) == front + body
            &&& hdr.any_all matches Some(apdx) ==> can_fd::message_payload(hdr, body) == front
                + apdx.key.0@ + varint::varint(
                match apdx.nash {
                    Some(n) => n.value() as nat,
                    None => 0,
                },
            ) + body
            &&& can_fd::error_payload(hdr, err) == front + wire_frames::error_bytes(err)
        }),
{
    let front = varint::varint(hdr.dst.network_id as nat) + varint::varint(
        wire_laws::as_number(hdr.src) as nat,
    ) + varint::varint(hdr.seq_no as nat) + seq![hdr.ttl];
    assert(can_fd::CanPayloadHeader::of(hdr).bytes() == front);
    if let Some(apdx) = hdr.any_all {
        let name = varint::varint(
            match apdx.nash {
                Some(n) => n.value() as nat,
                None => 0,
            },
        );
        assert(can_fd::message_payload(hdr, body) =~= front + apdx.key.0@ + name + body);
    }
}

/// A sink puts every message and every error on the wire that fits in 64 bytes, under
/// the ID of its destination, and nothing that is neither.
pub proof fn sinks_send_what_fits(
    priority: CanPriority,
    hdr: HeaderSeq,
    body: Seq<u8>,
    err: ProtocolError,
)
    ensures
        ({
            let id = can_fd::can_id(priority, hdr.dst.node_id, hdr.dst.port_id, hdr.kind);
            let message = can_fd::message_payload(hdr, body);
            let error = can_fd::error_payload(hdr, err);
            if hdr.kind.0 == 255 {
                &&& can_fd::on_can(priority, hdr, Payload::Message(body)) is None
                &&& can_fd::on_can(priority, hdr, Payload::Raw(body)) is None
                &&& error.len() <= 64 ==> can_fd::on_can(priority, hdr, Payload::Error(err)) == Some(
                    (id, error),
                )
            } else {
                &&& can_fd::on_can(priority, hdr, Payload::Error(err)) is None
                &&& message.len() <= 64 ==> can_fd::on_can(priority, hdr, Payload::Message(body))
                    == Some((id, message)) && can_fd::on_can(priority, hdr, Payload::Raw(body))
                    == Some((id, message))
                &&& message.len() > 64 ==> can_fd::on_can(priority, hdr, Payload::Message(body))
                    is None && can_fd::on_can(priority, hdr, Payload::Raw(body)) is None
            }
        }),
{
    assert(hdr.kind == wire_v0::FrameKind(255) <==> hdr.kind.0 == 255);
}

/// What a sink puts on the wire goes to its transmitter, whose answer is that of the
/// sink; for anything else the transmitter is left alone and the sink refuses.
pub proof fn transmitters_answer_for_sinks<T: CanFdTransmit>(
    before: CanFdSink<T>,
    after: CanFdSink<T>,
    hdr: Header,
    what: Payload,
    taken: bool,
)
    requires
        <CanFdSink<T> as InterfaceSink>::sent(before, after, hdr, what, taken),
    ensures
        after.config == before.config,
        after.spec_mtu() == 64,
        match can_fd::on_can(before.config.default_priority, wire_v0::header_v0(hdr), what) {
            None => !taken && after.tx == before.tx,
            Some((id, bytes)) => T::transmitted(before.tx, after.tx, id as u32, bytes, taken),
        },
{
}

/// Encoding succeeds exactly if the payload fits in the buffer and in a frame. A
/// buffer that is too short is a failure of its own.
pub proof fn encoding_needs_only_room(
    old_buf: Seq<u8>,
    new_buf: Seq<u8>,
    bytes: Seq<u8>,
    limit: nat,
    id: int,
    r: Result<(CanFrameId, usize), CanEncodeError>,
)
    requires
        can_fd::encoded(old_buf, new_buf, bytes, limit, id, r),
    ensures
        new_buf.len() == old_buf.len(),
        r is Ok <==> bytes.len() <= old_buf.len() && bytes.len() <= limit,
        r == Err::<(CanFrameId, usize), _>(CanEncodeError::SerializationError) <==> bytes.len()
            > old_buf.len(),
        r matches Ok((can_id, n)) ==> can_id.raw() == id && n == bytes.len() && new_buf.take(
            n as int,
        ) == bytes && new_buf.skip(n as int) == old_buf.skip(n as int),
{
    if bytes.len() <= old_buf.len() {
        assert(new_buf.take(bytes.len() as int) =~= bytes);
        assert(new_buf.skip(bytes.len() as int) =~= old_buf.skip(bytes.len() as int));
    }
}

/// A payload is read as it is laid out, whatever it holds. Without three numbers and a
/// byte it cannot be read.
pub proof fn payloads_are_read(id: CanFrameId, s: Seq<u8>)
    ensures
        match varint::take_varint_u16(s) {
            None => can_fd::decode(id, s) is Err,
            Some((net, a)) => match varint::take_varint_u32(s.skip(a as int)) {
                None => can_fd::decode(id, s) is Err,
                Some((src, b)) => match varint::take_varint_u16(s.skip((a + b) as int)) {
                    None => can_fd::decode(id, s) is Err,
                    Some((seq_no, c)) => {
                        let rest = s.skip((a + b + c + 1) as int);
                        &&& s.len() <= a + b + c ==> can_fd::decode(id, s) is Err
                        &&& can_fd::decode(id, s) matches Ok((hdr, _)) ==> {
                            &&& hdr.dst.network_id == net
                            &&& hdr.dst.node_id == id.node()
                            &&& hdr.dst.port_id == id.port()
                            &&& wire_laws::as_number(hdr.src) == src
                            &&& hdr.seq_no == seq_no
                            &&& hdr.ttl == s[(a + b + c) as int]
                            &&& hdr.kind == id.kind()
                        }
                        &&& s.len() > a + b + c && id.kind().0 != 255 && id.port() != 0 && id.port()
                            != 255 ==> (can_fd::decode(id, s) matches Ok((hdr, content))
                            && hdr.any_all is None && content == Ok::<Seq<u8>, ProtocolError>(rest))
                        &&& s.len() > a + b + c && id.kind().0 == 255 ==> match wire_frames::take_error(
                            rest,
                        ) {
                            None => can_fd::decode(id, s) is Err,
                            Some((err, _)) => can_fd::decode(id, s) matches Ok((hdr, content))
                                && hdr.any_all is None && content == Err::<Seq<u8>, ProtocolError>(
                                err,
                            ),
                        }
                        &&& s.len() > a + b + c && id.kind().0 != 255 && (id.port() == 0
                            || id.port() == 255) ==> if rest.len() < 9 {
                            can_fd::decode(id, s) matches Err(e) && e
                                == CanDecodeError::PayloadTooShort
                        } else {
                            match wire_frames::take_appendix(rest) {
                                None => can_fd::decode(id, s) is Err,
                                Some((apdx, d)) => can_fd::decode(id, s) matches Ok((hdr, content))
                                    && hdr.any_all == Some(apdx) && content == Ok::<
                                    Seq<u8>,
                                    ProtocolError,
                                >(rest.skip(d as int)),
                            }
                        }
                    },
                },
            },
        },
        can_fd::decode(id, s) matches Err(e) ==> e == CanDecodeError::DeserializationError || e
            == CanDecodeError::PayloadTooShort,
{
    assert(id.kind() == wire_v0::FrameKind(255) <==> id.kind().0 == 255);
    if let Some((net, a)) = varint::take_varint_u16(s) {
        lemma_fits_16(s);
        if let Some((src, b)) = varint::take_varint_u32(s.skip(a as int)) {
            lemma_fits_32(s.skip(a as int));
            lemma_fits_16(s.skip((a + b) as int));
        }
    }
}

/// A 16-bit number fits in 16 bits.
proof fn lemma_fits_16(s: Seq<u8>)
    ensures
        varint::take_varint_u16(s) matches Some((n, used)) ==> n <= u16::MAX,
{
    reveal_with_fuel(varint::take_varint, 4);
}

/// A 32-bit number fits in 32 bits.
proof fn lemma_fits_32(s: Seq<u8>)
    ensures
        varint::take_varint_u32(s) matches Some((n, used)) ==> n <= u32::MAX,
{
    reveal_with_fuel(varint::take_varint, 6);
}

/// A frame holds 64 bytes. What stands before the body never takes more than 26 of them, so
/// that a body of 38 bytes always fits; and there are 2^29 IDs.
pub proof fn bodies_of_38_bytes_always_fit(hdr: HeaderSeq, body: Seq<u8>)
    ensures
        body.len() <= 38 ==> can_fd::message_payload(hdr, body).len() <= 64,
        can_fd::MAX_CAN_PAYLOAD_HDR_SIZE == 26,
        can_fd::MIN_CAN_PAYLOAD_BODY == 38,
        can_fd::CAN_FD_MAX_PAYLOAD == 64,
        CanFrameId::MAX_EXTENDED_ID == 536870911,
        CanFrameId::KIND_SHIFT == 7,
{
    can_fd::payload_front_len(hdr);
}

} // verus!
