//! The byte form of frames.

use vstd::prelude::*;
use crate::address::Address;
use crate::nash::NameHash;
use crate::varint;
use crate::{AnyAllAppendix, FrameKind, Header, Key, ProtocolError, TrafficClass};
use crate::MAX_TTL;

verus! {

/// The fixed part of every frame header, as decoded.
#[derive(Clone, Copy, Debug, PartialEq, Eq, Structural)]
pub struct CommonHeader {
    pub src: Address,
    pub dst: Address,
    pub kind: FrameKind,
    pub class: TrafficClass,
    pub ttl: u8,
}

/// The hop count that reaches the wire.
pub open spec fn clamp_ttl(ttl: u8) -> u8 {
    if ttl > MAX_TTL {
        MAX_TTL
    } else {
        ttl
    }
}

/// The byte that `kind`, `class` and `ttl` share.
///
/// ```text
///  bit 7 6 | 5 4   | 3 2 1 0
///      kind| class | ttl
/// ```
pub open spec fn meta_byte(kind: FrameKind, class: TrafficClass, ttl: u8) -> u8 {
    ((kind.0 % 4) * 64 + class.bits() * 16 + clamp_ttl(ttl)) as u8
}

/// Pack `kind`, `class` and `ttl` into the wire byte. `ttl` is clamped to
/// [`MAX_TTL`]; of `kind` only the low two bits are kept.
pub fn pack_meta(kind: FrameKind, class: TrafficClass, ttl: u8) -> (r: u8)
    ensures
        r == meta_byte(kind, class, ttl),
{
    let ttl: u8 = if ttl > MAX_TTL {
        MAX_TTL
    } else {
        ttl
    };
    (kind.0 % (FrameKind::MAX_BITS + 1)) * 64 + class.to_bits() * 16 + ttl
}

/// What a wire byte stands for.
pub open spec fn meta_parts(meta: u8, kind: FrameKind, class: TrafficClass, ttl: u8) -> bool {
    &&& kind.0 == meta / 64
    &&& class.bits() == meta / 16 % 4
    &&& ttl == meta % 16
}

/// Unpack the wire byte. Every bit pattern is a valid header (all four kinds
/// and classes exist), so this cannot fail.
pub fn unpack_meta(meta: u8) -> (r: (FrameKind, TrafficClass, u8))
    ensures
        meta_parts(meta, r.0, r.1, r.2),
{
    (FrameKind(meta / 64), TrafficClass::from_bits(meta / 16), meta % 16)
}

/// Unpacking a packed byte gives back its parts, with the hop count clamped.
pub proof fn meta_pack_unpack(
    kind: FrameKind,
    class: TrafficClass,
    ttl: u8,
    kind2: FrameKind,
    class2: TrafficClass,
    ttl2: u8,
)
    requires
        kind.valid(),
        meta_parts(meta_byte(kind, class, ttl), kind2, class2, ttl2),
    ensures
        kind2 == kind,
        class2 == class,
        ttl2 == clamp_ttl(ttl),
{
    crate::class_bits_injective(class, class2);
}

/// Every byte is a valid header: its parts are in range, and packing them
/// gives the byte back.
pub proof fn meta_unpack_pack(meta: u8, kind: FrameKind, class: TrafficClass, ttl: u8)
    requires
        meta_parts(meta, kind, class, ttl),
    ensures
        kind.valid(),
        ttl <= MAX_TTL,
        meta_byte(kind, class, ttl) == meta,
{
}

/// The class with the given number.
pub open spec fn class_of(bits: u8) -> TrafficClass {
    if bits == 0 {
        TrafficClass::Control
    } else if bits == 1 {
        TrafficClass::Normal
    } else if bits == 2 {
        TrafficClass::Bulk
    } else {
        TrafficClass::Background
    }
}

/// The address with the given 32-bit form.
pub open spec fn address_of(word: nat) -> Address {
    Address {
        network_id: (word / 65536) as u16,
        node_id: (word / 256 % 256) as u8,
        port_id: (word % 256) as u8,
    }
}

impl CommonHeader {
    /// The fixed part of a header.
    pub open spec fn of(hdr: Header) -> CommonHeader {
        CommonHeader { src: hdr.src, dst: hdr.dst, kind: hdr.kind, class: hdr.class, ttl: hdr.ttl }
    }

    /// The fixed part of a header.
    pub fn from_header(hdr: &Header) -> (r: CommonHeader)
        ensures
            r == CommonHeader::of(*hdr),
    {
        CommonHeader { src: hdr.src, dst: hdr.dst, kind: hdr.kind, class: hdr.class, ttl: hdr.ttl }
    }

    /// The byte form: both addresses as variable-length numbers, then the
    /// shared byte.
    pub open spec fn bytes(self) -> Seq<u8> {
        varint::varint(self.src.word()) + varint::varint(self.dst.word()) + seq![
            meta_byte(self.kind, self.class, self.ttl),
        ]
    }
}

/// Whether a port is the "any" or the "all" port.
pub open spec fn any_all_port(port_id: u8) -> bool {
    port_id == 0 || port_id == 255
}

/// The byte form of an appendix: the key, then the number of the name.
pub open spec fn appendix_bytes(apdx: AnyAllAppendix) -> Seq<u8> {
    apdx.key.0@ + varint::varint(crate::nash::name_hash_number(apdx.nash) as nat)
}

/// The byte form of a header: the fixed part, then the appendix if there is
/// one.
pub open spec fn hdr_bytes(hdr: Header) -> Seq<u8> {
    match hdr.any_all {
        Some(apdx) => CommonHeader::of(hdr).bytes() + appendix_bytes(apdx),
        None => CommonHeader::of(hdr).bytes(),
    }
}

/// The number of an error on the wire.
pub open spec fn error_number(err: ProtocolError) -> u32 {
    match err {
        ProtocolError::Reserved => 0,
        ProtocolError::SseNoSpace => 1,
        ProtocolError::SseDeserFailed => 2,
        ProtocolError::SseTypeMismatch => 3,
        ProtocolError::SseWhatTheHell => 4,
        ProtocolError::IseDestinationLocal => 5,
        ProtocolError::IseNoRouteToDest => 6,
        ProtocolError::IseInterfaceFull => 7,
        ProtocolError::IseInternalError => 8,
        ProtocolError::IseAnyPortMissingKey => 9,
        ProtocolError::IseTtlExpired => 10,
        ProtocolError::IseRoutingLoop => 11,
        ProtocolError::IsePacketTooBig { mtu } => 12,
        ProtocolError::NsseNoRoute => 13,
        ProtocolError::NsseAnyPortMissingKey => 14,
        ProtocolError::NsseWrongPortKind => 15,
        ProtocolError::NsseAnyPortNotUnique => 16,
        ProtocolError::NsseAllPortMissingKey => 17,
        ProtocolError::NsseWouldDeadlock => 18,
    }
}

/// The byte form of an error: its number, and the MTU where it has one.
pub open spec fn error_bytes(err: ProtocolError) -> Seq<u8> {
    match err {
        ProtocolError::IsePacketTooBig { mtu } => varint::varint(12) + varint::varint(mtu as nat),
        _ => varint::varint(error_number(err) as nat),
    }
}

/// The byte form of a message frame.
pub open spec fn frame_ty_bytes(hdr: Header, body: Seq<u8>) -> Seq<u8> {
    hdr_bytes(hdr) + body
}

/// The byte form of an error frame, which has no appendix.
pub open spec fn frame_err_bytes(hdr: Header, err: ProtocolError) -> Seq<u8> {
    CommonHeader::of(hdr).bytes() + error_bytes(err)
}

/// The largest encoded size of a header, usable for creating a max-sized buffer
///
/// ```text
/// src: Address,            u32, varint: 5 bytes
/// dst: Address,            u32, varint: 5 bytes
/// meta (kind|class|ttl),   u8, !varint: 1 byte
/// key: Key,                [u8; 8]:     8 bytes
/// nash: Option<NameHash>,  u32, varint: 5 bytes
/// ==================================== 24 bytes
/// ```
pub const MAX_HDR_ENCODED_SIZE: usize = 24;

/// No header takes more than [`MAX_HDR_ENCODED_SIZE`] bytes, and none fewer
/// than three.
pub proof fn hdr_bytes_len(hdr: Header)
    ensures
        3 <= CommonHeader::of(hdr).bytes().len() <= 11,
        3 <= hdr_bytes(hdr).len() <= MAX_HDR_ENCODED_SIZE,
{
    varint::varint_len_bounds(hdr.src.word() as u32, 0);
    varint::varint_len_bounds(hdr.dst.word() as u32, 0);
    if let Some(apdx) = hdr.any_all {
        varint::varint_len_bounds(crate::nash::name_hash_number(apdx.nash), 0);
    }
}

/// Why a frame could not be encoded.
#[derive(Debug, PartialEq)]
pub enum EncodeFrameError {
    SerializationError(postcard::Error),
}

impl From<postcard::Error> for EncodeFrameError {
    fn from(value: postcard::Error) -> (r: EncodeFrameError) {
        EncodeFrameError::SerializationError(value)
    }
}

impl vstd::std_specs::convert::FromSpecImpl<postcard::Error> for EncodeFrameError {
    open spec fn obeys_from_spec() -> bool {
        true
    }

    open spec fn from_spec(value: postcard::Error) -> EncodeFrameError {
        EncodeFrameError::SerializationError(value)
    }
}

/// What encoding `bytes` into a buffer does. Where they fit, they stand at the
/// front and the result is their number. Where they do not, the result is an
/// error, and at most a leading part of them has been written.
pub open spec fn encoded(
    old_buf: Seq<u8>,
    new_buf: Seq<u8>,
    bytes: Seq<u8>,
    r: Result<usize, EncodeFrameError>,
) -> bool {
    match r {
        Ok(n) => n == bytes.len() && n <= old_buf.len() && new_buf == varint::written(
            old_buf,
            0,
            bytes,
        ),
        Err(_) => varint::cut_short(old_buf, new_buf, bytes),
    }
}

/// Writes the fixed part of a header to the front of `buf`.
fn encode_common(buf: &mut [u8], hdr: &CommonHeader, Ghost(more): Ghost<Seq<u8>>) -> (r: Result<
    usize,
    EncodeFrameError,
>)
    ensures
        r matches Ok(n) ==> encoded(old(buf)@, final(buf)@, hdr.bytes(), r),
        r is Err ==> encoded(old(buf)@, final(buf)@, hdr.bytes() + more, r),
{
    let ghost b0 = buf@;
    let ghost empty = Seq::<u8>::empty();
    let ghost src = varint::varint(hdr.src.word());
    let ghost dst = varint::varint(hdr.dst.word());
    let ghost meta = seq![meta_byte(hdr.kind, hdr.class, hdr.ttl)];
    assert(b0 =~= varint::written(b0, 0, empty));

    let r1 = varint::put_u32_at(hdr.src.as_u32(), buf, 0);
    let ghost b1 = buf@;
    proof {
        assert(empty + src =~= src);
        assert(src + (dst + meta + more) =~= hdr.bytes() + more);
        varint::write_step(b0, b0, b1, empty, src, dst + meta + more, r1);
    }
    let pos: usize = match r1 {
        Ok(end) => end,
        Err(e) => {
            return Err(EncodeFrameError::from(e));
        },
    };

    let r2 = varint::put_u32_at(hdr.dst.as_u32(), buf, pos);
    let ghost b2 = buf@;
    proof {
        assert(src + dst + (meta + more) =~= hdr.bytes() + more);
        varint::write_step(b0, b1, b2, src, dst, meta + more, r2);
    }
    let pos: usize = match r2 {
        Ok(end) => end,
        Err(e) => {
            return Err(EncodeFrameError::from(e));
        },
    };

    let r3 = varint::put_u8_at(pack_meta(hdr.kind, hdr.class, hdr.ttl), buf, pos);
    proof {
        varint::write_step(b0, b2, buf@, src + dst, meta, more, r3);
    }
    match r3 {
        Ok(end) => Ok(end),
        Err(e) => Err(EncodeFrameError::from(e)),
    }
}

/// Writes a header, with its appendix, to the front of `buf`.
fn encode_hdr_before(buf: &mut [u8], hdr: &Header, Ghost(more): Ghost<Seq<u8>>) -> (r: Result<
    usize,
    EncodeFrameError,
>)
    ensures
        r is Ok ==> encoded(old(buf)@, final(buf)@, hdr_bytes(*hdr), r),
        r is Err ==> encoded(old(buf)@, final(buf)@, hdr_bytes(*hdr) + more, r),
{
    let chdr = CommonHeader::from_header(hdr);
    let ghost b0 = buf@;
    let ghost common = chdr.bytes();

    let app = match hdr.any_all {
        None => {
            return encode_common(buf, &chdr, Ghost(more));
        },
        Some(app) => app,
    };

    let ghost key = app.key.0@;
    let ghost number = varint::varint(crate::nash::name_hash_number(app.nash) as nat);
    proof {
        assert(common + (key + number + more) =~= hdr_bytes(*hdr) + more);
        assert(common + key + (number + more) =~= hdr_bytes(*hdr) + more);
        assert(common + key + number + more =~= hdr_bytes(*hdr) + more);
        assert(common + key + number =~= hdr_bytes(*hdr));
    }
    let pos: usize = match encode_common(buf, &chdr, Ghost(key + number + more)) {
        Ok(end) => end,
        Err(e) => {
            return Err(e);
        },
    };
    let ghost b1 = buf@;

    let r2 = varint::put_bytes_at(app.key.0.as_slice(), buf, pos);
    let ghost b2 = buf@;
    proof {
        varint::write_step(b0, b1, b2, common, key, number + more, r2);
    }
    let pos: usize = match r2 {
        Ok(end) => end,
        Err(e) => {
            return Err(EncodeFrameError::from(e));
        },
    };

    let val: u32 = match &app.nash {
        Some(n) => n.to_u32(),
        None => 0,
    };
    let r3 = varint::put_u32_at(val, buf, pos);
    proof {
        varint::write_step(b0, b2, buf@, common + key, number, more, r3);
    }
    match r3 {
        Ok(end) => Ok(end),
        Err(e) => Err(EncodeFrameError::from(e)),
    }
}

/// Encodes a frame header to the front of `buf`; the result is its length.
pub fn encode_frame_hdr(buf: &mut [u8], hdr: &Header) -> (r: Result<usize, EncodeFrameError>)
    ensures
        encoded(old(buf)@, final(buf)@, hdr_bytes(*hdr), r),
{
    let r = encode_hdr_before(buf, hdr, Ghost(Seq::empty()));
    assert(hdr_bytes(*hdr) + Seq::<u8>::empty() =~= hdr_bytes(*hdr));
    r
}

/// Encodes a message frame, whose body has been serialised already, to the
/// front of `buf`; the result is the frame's length.
///
/// The kind must not be that of an error. Whether the destination is an
/// "any" or "all" port is not checked against the appendix.
pub fn encode_frame_ty(buf: &mut [u8], hdr: &Header, body: &[u8]) -> (r: Result<
    usize,
    EncodeFrameError,
>)
    ensures
        encoded(old(buf)@, final(buf)@, frame_ty_bytes(*hdr, body@), r),
{
    let ghost b0 = buf@;
    let pos: usize = match encode_hdr_before(buf, hdr, Ghost(body@)) {
        Ok(end) => end,
        Err(e) => {
            return Err(e);
        },
    };
    let ghost b1 = buf@;
    let r2 = varint::put_bytes_at(body, buf, pos);
    proof {
        varint::write_step(b0, b1, buf@, hdr_bytes(*hdr), body@, Seq::empty(), r2);
        assert(hdr_bytes(*hdr) + body@ + Seq::<u8>::empty() =~= frame_ty_bytes(*hdr, body@));
    }
    match r2 {
        Ok(end) => Ok(end),
        Err(e) => Err(EncodeFrameError::from(e)),
    }
}

/// The number of an error on the wire.
fn error_to_number(err: ProtocolError) -> (r: u32)
    ensures
        r == error_number(err),
{
    match err {
        ProtocolError::Reserved => 0,
        ProtocolError::SseNoSpace => 1,
        ProtocolError::SseDeserFailed => 2,
        ProtocolError::SseTypeMismatch => 3,
        ProtocolError::SseWhatTheHell => 4,
        ProtocolError::IseDestinationLocal => 5,
        ProtocolError::IseNoRouteToDest => 6,
        ProtocolError::IseInterfaceFull => 7,
        ProtocolError::IseInternalError => 8,
        ProtocolError::IseAnyPortMissingKey => 9,
        ProtocolError::IseTtlExpired => 10,
        ProtocolError::IseRoutingLoop => 11,
        ProtocolError::IsePacketTooBig { .. } => 12,
        ProtocolError::NsseNoRoute => 13,
        ProtocolError::NsseAnyPortMissingKey => 14,
        ProtocolError::NsseWrongPortKind => 15,
        ProtocolError::NsseAnyPortNotUnique => 16,
        ProtocolError::NsseAllPortMissingKey => 17,
        ProtocolError::NsseWouldDeadlock => 18,
    }
}

/// An error takes at most four bytes: its number is below 128, and an MTU takes
/// three.
pub proof fn error_bytes_len(err: ProtocolError)
    ensures
        1 <= error_bytes(err).len() <= 4,
{
    if let ProtocolError::IsePacketTooBig { mtu } = err {
        varint::varint_len_bounds(0, mtu);
    }
}

/// The byte form of an error.
pub fn error_to_bytes(err: ProtocolError) -> (r: Vec<u8>)
    ensures
        r@ == error_bytes(err),
{
    let mut buf: Vec<u8> = vec![0; 4];
    let ghost b0 = buf@;
    let ghost number = varint::varint(error_number(err) as nat);
    proof {
        error_bytes_len(err);
    }
    let end: usize = match varint::put_u32_at(error_to_number(err), buf.as_mut_slice(), 0) {
        Ok(end) => end,
        Err(_) => 0,
    };
    let end: usize = match err {
        ProtocolError::IsePacketTooBig { mtu } => match varint::put_u16_at(
            mtu,
            buf.as_mut_slice(),
            end,
        ) {
            Ok(end) => end,
            Err(_) => 0,
        },
        _ => end,
    };
    buf.truncate(end);
    assert(buf@ =~= error_bytes(err));
    buf
}

/// Encodes an error frame to the front of `buf`; the result is its length. An
/// appendix in the header is left out.
pub fn encode_frame_err(buf: &mut [u8], hdr: &Header, err: ProtocolError) -> (r: Result<
    usize,
    EncodeFrameError,
>)
    ensures
        encoded(old(buf)@, final(buf)@, frame_err_bytes(*hdr, err), r),
{
    let chdr = CommonHeader::from_header(hdr);
    let ghost b0 = buf@;
    let ghost common = chdr.bytes();
    let pos: usize = match encode_common(buf, &chdr, Ghost(error_bytes(err))) {
        Ok(end) => end,
        Err(e) => {
            return Err(e);
        },
    };
    let ghost b1 = buf@;
    let r2 = varint::put_u32_at(error_to_number(err), buf, pos);
    let ghost b2 = buf@;
    let ghost number = varint::varint(error_number(err) as nat);
    let ghost more = match err {
        ProtocolError::IsePacketTooBig { mtu } => varint::varint(mtu as nat),
        _ => Seq::<u8>::empty(),
    };
    proof {
        assert(number + more =~= error_bytes(err));
        assert(common + number + more =~= frame_err_bytes(*hdr, err));
        varint::write_step(b0, b1, b2, common, number, more, r2);
    }
    let pos: usize = match r2 {
        Ok(end) => end,
        Err(e) => {
            return Err(EncodeFrameError::from(e));
        },
    };
    match err {
        ProtocolError::IsePacketTooBig { mtu } => {
            let r3 = varint::put_u16_at(mtu, buf, pos);
            proof {
                varint::write_step(b0, b2, buf@, common + number, more, Seq::empty(), r3);
                assert(common + number + more + Seq::<u8>::empty() =~= frame_err_bytes(*hdr, err));
            }
            match r3 {
                Ok(end) => Ok(end),
                Err(e) => Err(EncodeFrameError::from(e)),
            }
        },
        _ => {
            assert(common + number =~= frame_err_bytes(*hdr, err));
            Ok(pos)
        },
    }
}

/// The error with the given number, if there is one that is its number alone.
pub open spec fn plain_error(n: nat) -> Option<ProtocolError> {
    if n == 0 {
        Some(ProtocolError::Reserved)
    } else if n == 1 {
        Some(ProtocolError::SseNoSpace)
    } else if n == 2 {
        Some(ProtocolError::SseDeserFailed)
    } else if n == 3 {
        Some(ProtocolError::SseTypeMismatch)
    } else if n == 4 {
        Some(ProtocolError::SseWhatTheHell)
    } else if n == 5 {
        Some(ProtocolError::IseDestinationLocal)
    } else if n == 6 {
        Some(ProtocolError::IseNoRouteToDest)
    } else if n == 7 {
        Some(ProtocolError::IseInterfaceFull)
    } else if n == 8 {
        Some(ProtocolError::IseInternalError)
    } else if n == 9 {
        Some(ProtocolError::IseAnyPortMissingKey)
    } else if n == 10 {
        Some(ProtocolError::IseTtlExpired)
    } else if n == 11 {
        Some(ProtocolError::IseRoutingLoop)
    } else if n == 13 {
        Some(ProtocolError::NsseNoRoute)
    } else if n == 14 {
        Some(ProtocolError::NsseAnyPortMissingKey)
    } else if n == 15 {
        Some(ProtocolError::NsseWrongPortKind)
    } else if n == 16 {
        Some(ProtocolError::NsseAnyPortNotUnique)
    } else if n == 17 {
        Some(ProtocolError::NsseAllPortMissingKey)
    } else if n == 18 {
        Some(ProtocolError::NsseWouldDeadlock)
    } else {
        None
    }
}

/// The error with the given number, if there is one that is its number alone.
fn number_to_plain_error(n: u32) -> (r: Option<ProtocolError>)
    ensures
        r == plain_error(n as nat),
{
    if n == 0 {
        Some(ProtocolError::Reserved)
    } else if n == 1 {
        Some(ProtocolError::SseNoSpace)
    } else if n == 2 {
        Some(ProtocolError::SseDeserFailed)
    } else if n == 3 {
        Some(ProtocolError::SseTypeMismatch)
    } else if n == 4 {
        Some(ProtocolError::SseWhatTheHell)
    } else if n == 5 {
        Some(ProtocolError::IseDestinationLocal)
    } else if n == 6 {
        Some(ProtocolError::IseNoRouteToDest)
    } else if n == 7 {
        Some(ProtocolError::IseInterfaceFull)
    } else if n == 8 {
        Some(ProtocolError::IseInternalError)
    } else if n == 9 {
        Some(ProtocolError::IseAnyPortMissingKey)
    } else if n == 10 {
        Some(ProtocolError::IseTtlExpired)
    } else if n == 11 {
        Some(ProtocolError::IseRoutingLoop)
    } else if n == 13 {
        Some(ProtocolError::NsseNoRoute)
    } else if n == 14 {
        Some(ProtocolError::NsseAnyPortMissingKey)
    } else if n == 15 {
        Some(ProtocolError::NsseWrongPortKind)
    } else if n == 16 {
        Some(ProtocolError::NsseAnyPortNotUnique)
    } else if n == 17 {
        Some(ProtocolError::NsseAllPortMissingKey)
    } else if n == 18 {
        Some(ProtocolError::NsseWouldDeadlock)
    } else {
        None
    }
}

/// Reads an error from the front of `s`: the error and how many bytes it
/// takes.
pub open spec fn take_error(s: Seq<u8>) -> Option<(ProtocolError, nat)> {
    match varint::take_varint_u32(s) {
        None => None,
        Some((n, used)) => if n == 12 {
            match varint::take_varint_u16(s.skip(used as int)) {
                None => None,
                Some((mtu, more)) => Some(
                    (ProtocolError::IsePacketTooBig { mtu: mtu as u16 }, used + more),
                ),
            }
        } else {
            match plain_error(n) {
                None => None,
                Some(err) => Some((err, used)),
            }
        },
    }
}

/// Reads the fixed part of a header from the front of `s`: the header and how
/// many bytes it takes.
pub open spec fn take_common(s: Seq<u8>) -> Option<(CommonHeader, nat)> {
    match varint::take_varint_u32(s) {
        None => None,
        Some((src, used)) => match varint::take_varint_u32(s.skip(used as int)) {
            None => None,
            Some((dst, more)) => if s.len() <= used + more {
                None
            } else {
                let meta = s[(used + more) as int];
                Some(
                    (
                        CommonHeader {
                            src: address_of(src),
                            dst: address_of(dst),
                            kind: FrameKind(meta / 64),
                            class: class_of(meta / 16 % 4),
                            ttl: meta % 16,
                        },
                        used + more + 1,
                    ),
                )
            },
        },
    }
}

/// The key that stands in the first eight bytes of `s`.
pub open spec fn key_of(s: Seq<u8>) -> Key {
    Key([s[0], s[1], s[2], s[3], s[4], s[5], s[6], s[7]])
}

/// Reads an appendix from the front of `s`: the appendix and how many bytes it
/// takes.
pub open spec fn take_appendix(s: Seq<u8>) -> Option<(AnyAllAppendix, nat)> {
    if s.len() < 8 {
        None
    } else {
        match varint::take_varint_u32(s.skip(8)) {
            None => None,
            Some((number, used)) => Some(
                (
                    AnyAllAppendix {
                        key: key_of(s),
                        nash: crate::nash::name_hash_of(number as u32),
                    },
                    8 + used,
                ),
            ),
        }
    }
}

/// The header with the given fixed part and appendix.
pub open spec fn header_of(common: CommonHeader, any_all: Option<AnyAllAppendix>) -> Header {
    Header {
        src: common.src,
        dst: common.dst,
        any_all,
        kind: common.kind,
        class: common.class,
        ttl: common.ttl,
    }
}

/// What a string of bytes stands for as a frame: its header, its body or the
/// error that it reports, and how many of the bytes are the header.
///
/// - An error frame to an "any" or "all" port is rejected.
/// - An error frame is rejected where bytes are left over behind the error.
/// - A message frame to an "any" or "all" port has an appendix.
/// - Every other message frame has none.
pub open spec fn decode(s: Seq<u8>) -> Option<(Header, Result<Seq<u8>, ProtocolError>, nat)> {
    match take_common(s) {
        None => None,
        Some((common, used)) => if common.kind == FrameKind::protocol_error() {
            if any_all_port(common.dst.port_id) {
                None
            } else {
                match take_error(s.skip(used as int)) {
                    None => None,
                    Some((err, more)) => if used + more == s.len() {
                        Some((header_of(common, None), Err(err), used))
                    } else {
                        None
                    },
                }
            }
        } else if any_all_port(common.dst.port_id) {
            match take_appendix(s.skip(used as int)) {
                None => None,
                Some((apdx, more)) => Some(
                    (
                        header_of(common, Some(apdx)),
                        Ok(s.skip((used + more) as int)),
                        used + more,
                    ),
                ),
            }
        } else {
            Some((header_of(common, None), Ok(s.skip(used as int)), used))
        },
    }
}

/// What follows the fixed part of the header.
#[derive(Clone, Copy, Debug)]
pub enum PartialDecodeTail<'a> {
    Specific(&'a [u8]),
    AnyAll { apdx: AnyAllAppendix, body: &'a [u8] },
    Error(ProtocolError),
}

/// A decoded frame that still knows the bytes of its header.
#[derive(Clone, Copy, Debug)]
pub struct PartialDecode<'a> {
    pub hdr: CommonHeader,
    pub tail: PartialDecodeTail<'a>,
    /// The full serialized header, inclusive of the appendix if present.
    pub hdr_raw: &'a [u8],
}

impl<'a> PartialDecode<'a> {
    /// The appendix, if the frame has one.
    pub open spec fn appendix(self) -> Option<AnyAllAppendix> {
        match self.tail {
            PartialDecodeTail::AnyAll { apdx, body } => Some(apdx),
            _ => None,
        }
    }

    /// The body, or the error that the frame reports.
    pub open spec fn body(self) -> Result<Seq<u8>, ProtocolError> {
        match self.tail {
            PartialDecodeTail::Specific(body) => Ok(body@),
            PartialDecodeTail::AnyAll { apdx, body } => Ok(body@),
            PartialDecodeTail::Error(err) => Err(err),
        }
    }
}

/// Reads the fixed part of a header and hands back the bytes behind it.
fn take_common_header(data: &[u8]) -> (r: Option<(CommonHeader, &[u8])>)
    ensures
        match r {
            Some((common, rest)) => exists|used: nat|
                #![trigger data@.skip(used as int)]
                take_common(data@) == Some((common, used)) && used <= data@.len() && rest@
                    == data@.skip(used as int),
            None => take_common(data@) is None,
        },
{
    proof {
        varint::take_varint_used(data@, 5, 15);
    }
    let (src, rest1) = match varint::take_u32(data) {
        Ok(v) => v,
        Err(_) => {
            return None;
        },
    };
    let ghost used1 = choose|used: nat|
        #![trigger data@.skip(used as int)]
        varint::take_varint_u32(data@) == Some((src as nat, used)) && rest1@ == data@.skip(
            used as int,
        );
    proof {
        varint::take_varint_used(rest1@, 5, 15);
    }
    let (dst, rest2) = match varint::take_u32(rest1) {
        Ok(v) => v,
        Err(_) => {
            return None;
        },
    };
    let ghost used2 = choose|used: nat|
        #![trigger rest1@.skip(used as int)]
        varint::take_varint_u32(rest1@) == Some((dst as nat, used)) && rest2@ == rest1@.skip(
            used as int,
        );
    let (meta, rest3) = match varint::take_u8(rest2) {
        Ok(v) => v,
        Err(_) => {
            return None;
        },
    };
    let (kind, class, ttl) = unpack_meta(meta);
    let src = Address::from_word(src);
    let dst = Address::from_word(dst);
    proof {
        assert(rest2@ =~= data@.skip((used1 + used2) as int));
        assert(rest3@ =~= data@.skip((used1 + used2 + 1) as int));
        crate::class_bits_injective(class, class_of(meta / 16 % 4));
        address_round_trip(src);
        address_round_trip(dst);
    }
    Some((CommonHeader { src, dst, kind, class, ttl }, rest3))
}

/// Reads an error and hands back the bytes behind it.
pub fn take_protocol_error(data: &[u8]) -> (r: Option<(ProtocolError, &[u8])>)
    ensures
        match r {
            Some((err, rest)) => exists|used: nat|
                #![trigger data@.skip(used as int)]
                take_error(data@) == Some((err, used)) && used <= data@.len() && rest@
                    == data@.skip(used as int),
            None => take_error(data@) is None,
        },
{
    proof {
        varint::take_varint_used(data@, 5, 15);
    }
    let (n, rest1) = match varint::take_u32(data) {
        Ok(v) => v,
        Err(_) => {
            return None;
        },
    };
    if n == 12 {
        proof {
            varint::take_varint_used(rest1@, 3, 3);
        }
        let (mtu, rest2) = match varint::take_u16(rest1) {
            Ok(v) => v,
            Err(_) => {
                return None;
            },
        };
        proof {
            let used1 = choose|used: nat|
                #![trigger data@.skip(used as int)]
                varint::take_varint_u32(data@) == Some((n as nat, used)) && rest1@ == data@.skip(
                    used as int,
                );
            let used2 = choose|used: nat|
                #![trigger rest1@.skip(used as int)]
                varint::take_varint_u16(rest1@) == Some((mtu as nat, used)) && rest2@
                    == rest1@.skip(used as int);
            assert(rest2@ =~= data@.skip((used1 + used2) as int));
        }
        Some((ProtocolError::IsePacketTooBig { mtu }, rest2))
    } else {
        match number_to_plain_error(n) {
            Some(err) => Some((err, rest1)),
            None => None,
        }
    }
}

/// Reads an appendix and hands back the bytes behind it.
pub fn take_any_all(data: &[u8]) -> (r: Option<(AnyAllAppendix, &[u8])>)
    ensures
        match r {
            Some((apdx, rest)) => exists|used: nat|
                #![trigger data@.skip(used as int)]
                take_appendix(data@) == Some((apdx, used)) && used <= data@.len() && rest@
                    == data@.skip(used as int),
            None => take_appendix(data@) is None,
        },
{
    let (key, rest1) = match varint::take_key(data) {
        Ok(v) => v,
        Err(_) => {
            return None;
        },
    };
    proof {
        varint::take_varint_used(rest1@, 5, 15);
        assert(Key(key) == key_of(data@)) by {
            assert(key =~= key_of(data@).0);
        }
    }
    let (nash, rest2) = match varint::take_u32(rest1) {
        Ok(v) => v,
        Err(_) => {
            return None;
        },
    };
    proof {
        let used = choose|used: nat|
            #![trigger rest1@.skip(used as int)]
            varint::take_varint_u32(rest1@) == Some((nash as nat, used)) && rest2@ == rest1@.skip(
                used as int,
            );
        assert(rest2@ =~= data@.skip((8 + used) as int));
    }
    Some((AnyAllAppendix { key: Key(key), nash: NameHash::from_u32(nash) }, rest2))
}

/// Whether `p` is what the bytes `s` stand for.
pub open spec fn partially_decoded(s: Seq<u8>, p: Option<PartialDecode>) -> bool {
    match (p, decode(s)) {
        (None, None) => true,
        (Some(p), Some((hdr, body, hdr_len))) => {
            &&& p.hdr == CommonHeader::of(hdr)
            &&& p.appendix() == hdr.any_all
            &&& p.body() == body
            &&& p.hdr_raw@ == s.take(hdr_len as int)
            &&& hdr_len <= s.len()
        },
        _ => false,
    }
}

/// Decodes a frame, keeping the bytes of its header at hand.
pub fn decode_frame_partial(data: &[u8]) -> (r: Option<PartialDecode<'_>>)
    ensures
        partially_decoded(data@, r),
{
    let (common, remain) = match take_common_header(data) {
        Some(v) => v,
        None => {
            return None;
        },
    };
    let ghost used = choose|used: nat|
        #![trigger data@.skip(used as int)]
        take_common(data@) == Some((common, used)) && used <= data@.len() && remain@
            == data@.skip(used as int);
    let is_err = common.kind == FrameKind::protocol_error();
    let any_all = common.dst.port_id == 0 || common.dst.port_id == 255;
    if is_err {
        if any_all {
            // Nobody in particular can be told of an error.
            return None;
        }
        let hdr_raw_len: usize = data.len() - remain.len();
        let hdr_raw = vstd::slice::slice_subrange(data, 0, hdr_raw_len);
        let (err, rest) = match take_protocol_error(remain) {
            Some(v) => v,
            None => {
                return None;
            },
        };
        if !rest.is_empty() {
            return None;
        }
        assert(hdr_raw@ =~= data@.take(used as int));
        Some(PartialDecode { hdr: common, tail: PartialDecodeTail::Error(err), hdr_raw })
    } else if any_all {
        let (apdx, rest) = match take_any_all(remain) {
            Some(v) => v,
            None => {
                return None;
            },
        };
        let ghost more = choose|more: nat|
            #![trigger remain@.skip(more as int)]
            take_appendix(remain@) == Some((apdx, more)) && more <= remain@.len() && rest@
                == remain@.skip(more as int);
        assert(rest@ =~= data@.skip((used + more) as int));
        let hdr_raw_len: usize = data.len() - rest.len();
        let hdr_raw = vstd::slice::slice_subrange(data, 0, hdr_raw_len);
        assert(hdr_raw@ =~= data@.take((used + more) as int));
        Some(
            PartialDecode {
                hdr: common,
                tail: PartialDecodeTail::AnyAll { apdx, body: rest },
                hdr_raw,
            },
        )
    } else {
        let hdr_raw_len: usize = data.len() - remain.len();
        let hdr_raw = vstd::slice::slice_subrange(data, 0, hdr_raw_len);
        assert(hdr_raw@ =~= data@.take(used as int));
        Some(PartialDecode { hdr: common, tail: PartialDecodeTail::Specific(remain), hdr_raw })
    }
}

/// A decoded frame, borrowing its body.
#[derive(Clone, Copy, Debug)]
pub struct BorrowedFrame<'a> {
    pub hdr: Header,
    pub body: Result<&'a [u8], ProtocolError>,
}

impl<'a> BorrowedFrame<'a> {
    /// The body, or the error that the frame reports.
    pub open spec fn content(self) -> Result<Seq<u8>, ProtocolError> {
        match self.body {
            Ok(body) => Ok(body@),
            Err(err) => Err(err),
        }
    }
}

/// Decodes a frame.
pub fn de_frame(remain: &[u8]) -> (r: Option<BorrowedFrame<'_>>)
    ensures
        match (r, decode(remain@)) {
            (None, None) => true,
            (Some(f), Some((hdr, body, _))) => f.hdr == hdr && f.content() == body,
            _ => false,
        },
{
    let res = match decode_frame_partial(remain) {
        Some(res) => res,
        None => {
            return None;
        },
    };
    let (any_all, body) = match res.tail {
        PartialDecodeTail::Specific(body) => (None, Ok(body)),
        PartialDecodeTail::AnyAll { apdx, body } => (Some(apdx), Ok(body)),
        PartialDecodeTail::Error(err) => (None, Err(err)),
    };
    let CommonHeader { src, dst, kind, class, ttl } = res.hdr;
    Some(BorrowedFrame { hdr: Header { src, dst, any_all, kind, class, ttl }, body })
}

/// The header as it comes out at the far end: the hop count is clamped.
pub open spec fn on_wire(hdr: Header) -> Header {
    Header { ttl: clamp_ttl(hdr.ttl), ..hdr }
}

/// Whether the names in a header can be told from "no name".
pub open spec fn hdr_wf(hdr: Header) -> bool {
    hdr.any_all matches Some(apdx) ==> (apdx.nash matches Some(n) ==> n.wf())
}

/// An address is determined by its 32-bit form.
pub proof fn address_round_trip(a: Address)
    ensures
        address_of(a.word()) == a,
{
    crate::address::word_injective(a, address_of(a.word()));
}

/// The parts of a packed byte.
proof fn lemma_meta_parts(kind: FrameKind, class: TrafficClass, ttl: u8)
    requires
        kind.valid(),
    ensures
        meta_byte(kind, class, ttl) / 64 == kind.0,
        class_of(meta_byte(kind, class, ttl) / 16 % 4) == class,
        meta_byte(kind, class, ttl) % 16 == clamp_ttl(ttl),
{
}

/// The fixed part of a header is read back from what was written, whatever
/// follows.
pub proof fn common_round_trip(hdr: CommonHeader, rest: Seq<u8>)
    requires
        hdr.kind.valid(),
    ensures
        take_common(hdr.bytes() + rest) == Some(
            (CommonHeader { ttl: clamp_ttl(hdr.ttl), ..hdr }, hdr.bytes().len()),
        ),
        (hdr.bytes() + rest).skip(hdr.bytes().len() as int) == rest,
{
    let src_word = hdr.src.word();
    let dst_word = hdr.dst.word();
    let src = varint::varint(src_word);
    let dst = varint::varint(dst_word);
    let m = meta_byte(hdr.kind, hdr.class, hdr.ttl);
    let meta = seq![m];
    let s = hdr.bytes() + rest;
    address_round_trip(hdr.src);
    address_round_trip(hdr.dst);
    lemma_meta_parts(hdr.kind, hdr.class, hdr.ttl);
    assert(src_word <= u32::MAX && dst_word <= u32::MAX);
    assert(s =~= src + (dst + (meta + rest)));
    assert(s.skip(hdr.bytes().len() as int) =~= rest);
    varint::varint_u32_round_trip(src_word as u32, dst + (meta + rest));
    varint::varint_u32_round_trip(dst_word as u32, meta + rest);
    assert(s[(src.len() + dst.len()) as int] == m);
}

/// An error is read back from what was written, whatever follows.
pub proof fn error_round_trip(err: ProtocolError, rest: Seq<u8>)
    ensures
        take_error(error_bytes(err) + rest) == Some((err, error_bytes(err).len())),
{
    match err {
        ProtocolError::IsePacketTooBig { mtu } => {
            let a = varint::varint(12);
            let b = varint::varint(mtu as nat);
            varint::varint_u32_round_trip(12, b + rest);
            varint::varint_u16_round_trip(mtu, rest);
            assert(error_bytes(err) + rest =~= a + (b + rest));
        },
        _ => {
            varint::varint_u32_round_trip(error_number(err), rest);
        },
    }
}

/// An appendix is read back from what was written, whatever follows.
pub proof fn appendix_round_trip(apdx: AnyAllAppendix, rest: Seq<u8>)
    requires
        apdx.nash matches Some(n) ==> n.wf(),
    ensures
        take_appendix(appendix_bytes(apdx) + rest) == Some((apdx, appendix_bytes(apdx).len())),
{
    let key = apdx.key.0@;
    let number = crate::nash::name_hash_number(apdx.nash);
    let v = varint::varint(number as nat);
    let s = appendix_bytes(apdx) + rest;
    varint::varint_u32_round_trip(number, rest);
    crate::nash::name_hash_round_trip(apdx.nash, number);
    assert(s.skip(8) =~= v + rest);
    assert(key_of(s) == apdx.key) by {
        assert(key_of(s).0 =~= apdx.key.0);
    }
}

/// A message frame that was encoded is decoded to its header and its body.
///
/// The header has an appendix exactly if it goes to an "any" or "all" port;
/// the hop count comes out clamped.
pub proof fn message_round_trip(hdr: Header, body: Seq<u8>)
    requires
        hdr_wf(hdr),
        hdr.kind.valid(),
        hdr.kind != FrameKind::protocol_error(),
        hdr.any_all is Some <==> any_all_port(hdr.dst.port_id),
    ensures
        decode(frame_ty_bytes(hdr, body)) == Some(
            (on_wire(hdr), Ok::<Seq<u8>, ProtocolError>(body), hdr_bytes(hdr).len()),
        ),
{
    let common = CommonHeader::of(hdr);
    let s = frame_ty_bytes(hdr, body);
    match hdr.any_all {
        None => {
            common_round_trip(common, body);
        },
        Some(apdx) => {
            common_round_trip(common, appendix_bytes(apdx) + body);
            appendix_round_trip(apdx, body);
            assert(s =~= common.bytes() + (appendix_bytes(apdx) + body));
            assert(s.skip(hdr_bytes(hdr).len() as int) =~= body);
        },
    }
}

/// An error frame that was encoded is decoded to its header, without an
/// appendix, and the error.
pub proof fn error_frame_round_trip(hdr: Header, err: ProtocolError)
    requires
        hdr.kind == FrameKind::protocol_error(),
        !any_all_port(hdr.dst.port_id),
    ensures
        decode(frame_err_bytes(hdr, err)) == Some(
            (
                (Header { any_all: None, ..on_wire(hdr) }),
                Err::<Seq<u8>, ProtocolError>(err),
                CommonHeader::of(hdr).bytes().len(),
            ),
        ),
{
    let common = CommonHeader::of(hdr);
    common_round_trip(common, error_bytes(err));
    error_round_trip(err, Seq::empty());
    assert(error_bytes(err) + Seq::<u8>::empty() =~= error_bytes(err));
}

/// Nobody in particular can be told of an error: an error frame to an "any"
/// or "all" port is never decoded.
pub proof fn error_frame_to_any_all_rejected(hdr: Header, rest: Seq<u8>)
    requires
        hdr.kind == FrameKind::protocol_error(),
        any_all_port(hdr.dst.port_id),
    ensures
        decode(CommonHeader::of(hdr).bytes() + rest) is None,
{
    common_round_trip(CommonHeader::of(hdr), rest);
}

/// Whatever is decoded is well formed, and of a message the header and the
/// body are all of it.
pub proof fn decoded_wf(s: Seq<u8>)
    ensures
        decode(s) matches Some((hdr, body, hdr_len)) ==> {
            &&& hdr.kind.valid()
            &&& hdr.ttl <= MAX_TTL
            &&& hdr_wf(hdr)
            &&& hdr_len <= s.len()
            &&& body is Err <==> hdr.kind == FrameKind::protocol_error()
            &&& hdr.any_all is Some <==> (any_all_port(hdr.dst.port_id))
            &&& body matches Ok(b) ==> s == s.take(hdr_len as int) + b
        },
{
    varint::take_varint_used(s, 5, 15);
    if let Some((hdr, body, hdr_len)) = decode(s) {
        let (_, a) = varint::take_varint_u32(s)->0;
        varint::take_varint_used(s.skip(a as int), 5, 15);
        let (common, used) = take_common(s)->0;
        if hdr.any_all is Some {
            let t = s.skip(used as int).skip(8);
            varint::take_varint_used(t, 5, 15);
            let (number, _) = varint::take_varint_u32(t)->0;
            crate::nash::name_hash_round_trip(None, number as u32);
        }
        if let Ok(b) = body {
            assert(s =~= s.take(hdr_len as int) + b);
        }
    }
}

} // verus!
