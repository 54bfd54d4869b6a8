//! How frames look on the wire.

use vstd::prelude::*;
use crate::address::Address;
use crate::interface_manager::InterfaceSendError;
use crate::net_stack::NetStackSendError;
use crate::socket::SocketSendError;
use crate::varint;
use crate::wire_frames;
use crate::wire_frames::{CommonHeader, EncodeFrameError, PartialDecode, PartialDecodeTail};
use crate::wire_v0;
use crate::{FrameKind, Header, ProtocolError, TrafficClass};

verus! {

/// A number below 128 is its own byte. Of any other number the lowest seven bits
/// come first, marked as not being the last.
pub proof fn numbers_come_lowest_bits_first(n: nat)
    ensures
        n < 128 ==> varint::varint(n) == seq![n as u8],
        n >= 128 ==> varint::varint(n).len() > 1 && varint::varint(n)[0] == 128 + n % 128
            && varint::varint(n).skip(1) == varint::varint(n / 128),
{
    if n >= 128 {
        assert(varint::varint(n).skip(1) =~= varint::varint(n / 128));
        assert(varint::varint(n / 128).len() >= 1);
    }
}

/// The address as one number: 16 bits of network, 8 bits of node, 8 bits of port.
pub open spec fn as_number(a: Address) -> int {
    a.network_id * 65536 + a.node_id * 256 + a.port_id
}

/// Every frame begins with the source and the destination, in this order, and one
/// byte that holds the kind in its top two bits, the class in the next two, and the
/// hops that are left in the lower four.
pub proof fn frames_begin_with_their_addresses(hdr: Header, more: Seq<u8>) -> (at: int)
    requires
        hdr.kind.0 < 4,
    ensures
        ({
            let s = CommonHeader::of(hdr).bytes() + more;
            let src = varint::varint(as_number(hdr.src) as nat);
            let dst = varint::varint(as_number(hdr.dst) as nat);
            &&& at == src.len() + dst.len()
            &&& s.len() == at + 1 + more.len()
            &&& s.take(src.len() as int) == src
            &&& s.subrange(src.len() as int, at) == dst
            &&& s[at] / 64 == hdr.kind.0
            &&& s[at] / 16 % 4 == (match hdr.class {
                TrafficClass::Control => 0int,
                TrafficClass::Normal => 1,
                TrafficClass::Bulk => 2,
                TrafficClass::Background => 3,
            })
            &&& s[at] % 16 == (if hdr.ttl <= 15 {
                hdr.ttl as int
            } else {
                15
            })
            &&& s.skip(at + 1) == more
        }),
{
    let s = CommonHeader::of(hdr).bytes() + more;
    let src = varint::varint(as_number(hdr.src) as nat);
    let dst = varint::varint(as_number(hdr.dst) as nat);
    let at = (src.len() + dst.len()) as int;
    let byte = wire_frames::meta_byte(hdr.kind, hdr.class, hdr.ttl);
    assert(s =~= src + (dst + (seq![byte] + more)));
    assert(s.take(src.len() as int) =~= src);
    assert(s.subrange(src.len() as int, at) =~= dst);
    assert(s[at] == byte);
    assert(s.skip(at + 1) =~= more);
    at
}

/// A frame to an "any" or "all" port goes on with the eight bytes of the key and the
/// number of the name, zero for none; no other frame does. The body ends the frame.
pub proof fn bodies_follow_headers(hdr: Header, body: Seq<u8>)
    ensures
        ({
            let front = CommonHeader::of(hdr).bytes();
            let frame = wire_frames::frame_ty_bytes(hdr, body);
            &&& wire_frames::hdr_bytes(hdr) + body == frame
            &&& frame.take(front.len() as int) == front
            &&& match hdr.any_all {
                None => frame.skip(front.len() as int) == body,
                Some(apdx) => {
                    let rest = frame.skip(front.len() as int);
                    let name = varint::varint(
                        match apdx.nash {
                            Some(n) => n.value() as nat,
                            None => 0,
                        },
                    );
                    &&& rest.take(8) == apdx.key.0@
                    &&& rest.subrange(8, (8 + name.len()) as int) == name
                    &&& rest.skip((8 + name.len()) as int) == body
                },
            }
        }),
{
    let front = CommonHeader::of(hdr).bytes();
    let frame = wire_frames::frame_ty_bytes(hdr, body);
    assert(frame.take(front.len() as int) =~= front);
    match hdr.any_all {
        None => {
            assert(frame.skip(front.len() as int) =~= body);
        },
        Some(apdx) => {
            let rest = frame.skip(front.len() as int);
            let name = varint::varint(
                match apdx.nash {
                    Some(n) => n.value() as nat,
                    None => 0,
                },
            );
            assert(apdx.key.0@.len() == 8);
            assert(rest =~= apdx.key.0@ + (name + body));
            assert(rest.take(8) =~= apdx.key.0@);
            assert(rest.subrange(8, (8 + name.len()) as int) =~= name);
            assert(rest.skip((8 + name.len()) as int) =~= body);
        },
    }
}

/// An error frame is its header, without an appendix, and the error.
pub proof fn errors_follow_headers(hdr: Header, err: ProtocolError)
    ensures
        wire_frames::frame_err_bytes(hdr, err) == CommonHeader::of(hdr).bytes()
            + wire_frames::error_bytes(err),
        wire_frames::frame_err_bytes(hdr, err) == wire_frames::hdr_bytes(
            Header { any_all: None, ..hdr },
        ) + wire_frames::error_bytes(err),
{
    let plain = Header { any_all: None, ..hdr };
    assert(CommonHeader::of(plain) == CommonHeader::of(hdr));
}

/// What each reason for not delivering a frame is on the wire: one byte, and for a
/// frame that was too big the size that fits behind it.
pub proof fn reasons_have_numbers(mtu: u16)
    ensures
        wire_frames::error_bytes(ProtocolError::Reserved) == seq![0u8],
        wire_frames::error_bytes(SocketSendError::NoSpace.error()) == seq![1u8],
        wire_frames::error_bytes(SocketSendError::DeserFailed.error()) == seq![2u8],
        wire_frames::error_bytes(SocketSendError::TypeMismatch.error()) == seq![3u8],
        wire_frames::error_bytes(SocketSendError::WhatTheHell.error()) == seq![4u8],
        wire_frames::error_bytes(InterfaceSendError::DestinationLocal.error()) == seq![5u8],
        wire_frames::error_bytes(InterfaceSendError::NoRouteToDest.error()) == seq![6u8],
        wire_frames::error_bytes(InterfaceSendError::InterfaceFull.error()) == seq![7u8],
        wire_frames::error_bytes(InterfaceSendError::InternalError.error()) == seq![8u8],
        wire_frames::error_bytes(InterfaceSendError::AnyPortMissingKey.error()) == seq![9u8],
        wire_frames::error_bytes(InterfaceSendError::TtlExpired.error()) == seq![10u8],
        wire_frames::error_bytes(InterfaceSendError::RoutingLoop.error()) == seq![11u8],
        wire_frames::error_bytes(InterfaceSendError::PacketTooBig { mtu }.error()) == seq![12u8]
            + varint::varint(mtu as nat),
        wire_frames::error_bytes(NetStackSendError::NoRoute.error()) == seq![13u8],
        wire_frames::error_bytes(NetStackSendError::AnyPortMissingKey.error()) == seq![14u8],
        wire_frames::error_bytes(NetStackSendError::WrongPortKind.error()) == seq![15u8],
        wire_frames::error_bytes(NetStackSendError::AnyPortNotUnique.error()) == seq![16u8],
        wire_frames::error_bytes(NetStackSendError::AllPortMissingKey.error()) == seq![17u8],
        wire_frames::error_bytes(NetStackSendError::WouldDeadlock.error()) == seq![18u8],
{
}

/// A stack reports what a socket or an interface said as they report it themselves.
pub proof fn stacks_pass_reasons_on(s: SocketSendError, i: InterfaceSendError)
    ensures
        NetStackSendError::SocketSend(s).error() == s.error(),
        NetStackSendError::InterfaceSend(i).error() == i.error(),
{
}

/// Encoding succeeds exactly if the buffer is long enough. The bytes then stand at
/// its front, and what is behind them is as it was. A buffer that is too short still
/// has its length, and only its front may have changed.
pub proof fn encoding_needs_only_room(
    old_buf: Seq<u8>,
    new_buf: Seq<u8>,
    bytes: Seq<u8>,
    r: Result<usize, EncodeFrameError>,
)
    requires
        wire_frames::encoded(old_buf, new_buf, bytes, r),
    ensures
        r is Ok <==> bytes.len() <= old_buf.len(),
        new_buf.len() == old_buf.len(),
        r matches Ok(n) ==> {
            &&& n == bytes.len()
            &&& new_buf.take(n as int) == bytes
            &&& new_buf.skip(n as int) == old_buf.skip(n as int)
        },
        r is Err ==> exists|k: int|
            0 <= k <= old_buf.len() && #[trigger] new_buf.take(k) == bytes.take(k) && new_buf.skip(k)
                == old_buf.skip(k),
{
    match r {
        Ok(n) => {
            assert(new_buf.take(n as int) =~= bytes);
            assert(new_buf.skip(n as int) =~= old_buf.skip(n as int));
        },
        Err(_) => {
            let k = choose|k: int|
                0 <= k <= old_buf.len() && new_buf == varint::written(
                    old_buf,
                    0,
                    #[trigger] bytes.take(k),
                );
            assert(new_buf.take(k) =~= bytes.take(k));
            assert(new_buf.skip(k) =~= old_buf.skip(k));
        },
    }
}

/// What is left of the bytes behind two numbers and the byte that follows them.
pub open spec fn behind(s: Seq<u8>, a: nat, b: nat) -> Seq<u8> {
    s.skip((a + b + 1) as int)
}

/// Bytes that do not begin with two numbers of 32 bits and one byte more are no
/// frame.
pub proof fn short_bytes_are_no_frame(s: Seq<u8>)
    ensures
        match varint::take_varint_u32(s) {
            None => wire_frames::decode(s) is None,
            Some((src, a)) => match varint::take_varint_u32(s.skip(a as int)) {
                None => wire_frames::decode(s) is None,
                Some((dst, b)) => s.len() <= a + b ==> wire_frames::decode(s) is None,
            },
        },
{
}

/// The bytes of a message for one port are read as the layout says, whatever they
/// hold: all that follows the fixed part is the body, even if it is empty.
pub proof fn messages_are_read(s: Seq<u8>, src: nat, a: nat, dst: nat, b: nat)
    requires
        varint::take_varint_u32(s) == Some((src, a)),
        varint::take_varint_u32(s.skip(a as int)) == Some((dst, b)),
        a + b < s.len(),
        s[(a + b) as int] >= 64,
        dst % 256 != 0,
        dst % 256 != 255,
    ensures
        wire_frames::decode(s) matches Some((hdr, content, used)) && {
            &&& as_number(hdr.src) == src
            &&& as_number(hdr.dst) == dst
            &&& hdr.kind.0 == s[(a + b) as int] / 64
            &&& hdr.class.bits() == s[(a + b) as int] / 16 % 4
            &&& hdr.ttl == s[(a + b) as int] % 16
            &&& hdr.any_all is None
            &&& content == Ok::<Seq<u8>, ProtocolError>(behind(s, a, b))
            &&& used == a + b + 1
        },
{
    varint::take_varint_used(s, 5, 15);
    varint::take_varint_used(s.skip(a as int), 5, 15);
    lemma_number_fits(s);
    lemma_number_fits(s.skip(a as int));
}

/// A 32-bit number fits in 32 bits.
proof fn lemma_number_fits(s: Seq<u8>)
    ensures
        varint::take_varint_u32(s) matches Some((n, used)) ==> n <= u32::MAX,
{
    reveal_with_fuel(varint::take_varint, 6);
}

/// The bytes of a message to an "any" or "all" port go on with a key and the number of
/// a name; without them they are no frame.
pub proof fn keyed_messages_are_read(s: Seq<u8>, src: nat, a: nat, dst: nat, b: nat)
    requires
        varint::take_varint_u32(s) == Some((src, a)),
        varint::take_varint_u32(s.skip(a as int)) == Some((dst, b)),
        a + b < s.len(),
        s[(a + b) as int] >= 64,
        dst % 256 == 0 || dst % 256 == 255,
    ensures
        ({
            let rest = behind(s, a, b);
            if rest.len() < 8 {
                wire_frames::decode(s) is None
            } else {
                match varint::take_varint_u32(rest.skip(8)) {
                    None => wire_frames::decode(s) is None,
                    Some((name, c)) => wire_frames::decode(s) matches Some((hdr, content, used)) && {
                        &&& as_number(hdr.src) == src
                        &&& as_number(hdr.dst) == dst
                        &&& hdr.kind.0 == s[(a + b) as int] / 64
                        &&& hdr.class.bits() == s[(a + b) as int] / 16 % 4
                        &&& hdr.ttl == s[(a + b) as int] % 16
                        &&& hdr.any_all matches Some(apdx) && {
                            &&& apdx.key.0@ == rest.take(8)
                            &&& name == 0 ==> apdx.nash is None
                            &&& name != 0 ==> (apdx.nash matches Some(n) && n.value() == name)
                        }
                        &&& content == Ok::<Seq<u8>, ProtocolError>(rest.skip((8 + c) as int))
                        &&& used == a + b + 9 + c
                    },
                }
            }
        }),
{
    let rest = behind(s, a, b);
    varint::take_varint_used(s, 5, 15);
    varint::take_varint_used(s.skip(a as int), 5, 15);
    lemma_number_fits(s);
    lemma_number_fits(s.skip(a as int));
    if rest.len() >= 8 {
        varint::take_varint_used(rest.skip(8), 5, 15);
        lemma_number_fits(rest.skip(8));
        assert(wire_frames::key_of(rest).0@ =~= rest.take(8));
        if let Some((name, c)) = varint::take_varint_u32(rest.skip(8)) {
            crate::nash::name_hash_round_trip(None, name as u32);
            assert(rest.skip((8 + c) as int) =~= s.skip((a + b + 1 + (8 + c)) as int));
        }
    }
}

/// The bytes of an error frame end with the error; with more behind it, or with an
/// "any" or "all" port, they are no frame.
pub proof fn errors_are_read(s: Seq<u8>, src: nat, a: nat, dst: nat, b: nat)
    requires
        varint::take_varint_u32(s) == Some((src, a)),
        varint::take_varint_u32(s.skip(a as int)) == Some((dst, b)),
        a + b < s.len(),
        s[(a + b) as int] < 64,
    ensures
        dst % 256 == 0 || dst % 256 == 255 ==> wire_frames::decode(s) is None,
        dst % 256 != 0 && dst % 256 != 255 ==> match wire_frames::take_error(behind(s, a, b)) {
            None => wire_frames::decode(s) is None,
            Some((err, c)) => if a + b + 1 + c == s.len() {
                wire_frames::decode(s) matches Some((hdr, content, used)) && {
                    &&& as_number(hdr.src) == src
                    &&& as_number(hdr.dst) == dst
                    &&& hdr.kind.0 == 0
                    &&& hdr.class.bits() == s[(a + b) as int] / 16 % 4
                    &&& hdr.ttl == s[(a + b) as int] % 16
                    &&& hdr.any_all is None
                    &&& content == Err::<Seq<u8>, ProtocolError>(err)
                    &&& used == a + b + 1
                }
            } else {
                wire_frames::decode(s) is None
            },
        },
{
    varint::take_varint_used(s, 5, 15);
    varint::take_varint_used(s.skip(a as int), 5, 15);
    lemma_number_fits(s);
    lemma_number_fits(s.skip(a as int));
    assert(s[(a + b) as int] / 64 == 0);
}

/// Which numbers are errors: those up to 18, of which 12 is followed by a size.
pub proof fn known_numbers_are_errors(s: Seq<u8>)
    ensures
        match varint::take_varint_u32(s) {
            None => wire_frames::take_error(s) is None,
            Some((n, a)) => {
                &&& n > 18 ==> wire_frames::take_error(s) is None
                &&& n <= 18 && n != 12 ==> (wire_frames::take_error(s) matches Some((err, used))
                    && used == a && wire_frames::error_bytes(err) == seq![n as u8])
                &&& n == 12 ==> match varint::take_varint_u16(s.skip(a as int)) {
                    None => wire_frames::take_error(s) is None,
                    Some((mtu, b)) => wire_frames::take_error(s) == Some(
                        (ProtocolError::IsePacketTooBig { mtu: mtu as u16 }, a + b),
                    ),
                }
            },
        },
{
}

/// A header comes out at the far end as it was sent, but that it says 15 hops where it
/// had more.
pub proof fn hops_are_clamped(hdr: Header)
    ensures
        ({
            let far = wire_frames::on_wire(hdr);
            &&& far == (Header { ttl: far.ttl, ..hdr })
            &&& hdr.ttl <= 15 ==> far.ttl == hdr.ttl
            &&& hdr.ttl > 15 ==> far.ttl == 15
        }),
{
}

/// In the older version a header has no class and the sequence number zero; all else
/// is as it is, but that an error has kind 255.
pub proof fn old_headers_have_no_class(hdr: Header)
    ensures
        ({
            let old_hdr = wire_v0::header_v0(hdr);
            &&& old_hdr.src == hdr.src
            &&& old_hdr.dst == hdr.dst
            &&& old_hdr.any_all == hdr.any_all
            &&& old_hdr.ttl == hdr.ttl
            &&& old_hdr.seq_no == 0
            &&& hdr.kind.0 == 0 ==> old_hdr.kind.0 == 255
            &&& hdr.kind.0 != 0 ==> old_hdr.kind.0 == hdr.kind.0
        }),
{
    assert(hdr.kind == FrameKind(0) <==> hdr.kind.0 == 0);
}

/// The kinds of frames, now and in the older version, and which of them can be sent.
pub proof fn kinds_have_numbers(kind: FrameKind)
    ensures
        FrameKind::protocol_error().0 == 0,
        FrameKind::endpoint_req().0 == 1,
        FrameKind::endpoint_resp().0 == 2,
        FrameKind::topic_msg().0 == 3,
        kind.valid() <==> kind.0 <= 3,
        wire_v0::FrameKind::protocol_error().0 == 255,
        wire_v0::FrameKind::endpoint_req().0 == 1,
        wire_v0::FrameKind::endpoint_resp().0 == 2,
        wire_v0::FrameKind::topic_msg().0 == 3,
{
}

/// A frame can be taken apart exactly if it can be read. The bytes of its header are kept as
/// they came, and all that follows them is the body.
pub proof fn frames_are_taken_apart(s: Seq<u8>, p: Option<PartialDecode>)
    requires
        wire_frames::partially_decoded(s, p),
    ensures
        p is Some <==> wire_frames::decode(s) is Some,
        p matches Some(parts) ==> {
            let (hdr, content, used) = wire_frames::decode(s)->0;
            &&& parts.hdr.src == hdr.src
            &&& parts.hdr.dst == hdr.dst
            &&& parts.hdr.kind == hdr.kind
            &&& parts.hdr.class == hdr.class
            &&& parts.hdr.ttl == hdr.ttl
            &&& parts.hdr_raw@ == s.take(used as int)
            &&& match parts.tail {
                PartialDecodeTail::Specific(body) => hdr.any_all is None && content == Ok::<
                    Seq<u8>,
                    ProtocolError,
                >(body@) && parts.hdr_raw@ + body@ == s,
                PartialDecodeTail::AnyAll { apdx, body } => hdr.any_all == Some(apdx) && content
                    == Ok::<Seq<u8>, ProtocolError>(body@) && parts.hdr_raw@ + body@ == s,
                PartialDecodeTail::Error(err) => hdr.any_all is None && content == Err::<
                    Seq<u8>,
                    ProtocolError,
                >(err),
            }
        },
{
    if let Some(parts) = p {
        let (hdr, content, used) = wire_frames::decode(s)->0;
        if let Ok(body) = content {
            assert(body == s.skip(used as int));
            assert(parts.hdr_raw@ + body =~= s);
        }
    }
}

} // verus!
