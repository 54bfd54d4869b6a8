//! Plain numbers in postcard's byte format.
//!
//! The encoder and decoder of single values are postcard's own. This module
//! states what they do and proves that reading gives back what was written.

use vstd::prelude::*;

verus! {

/// The error type of postcard.
#[verifier::external_type_specification]
#[verifier::external_body]
pub struct ExPostcardError(postcard::Error);

/// The variable-length form of a number: seven bits to a byte, least
/// significant first, with the top bit set on every byte but the last.
pub open spec fn varint(n: nat) -> Seq<u8>
    decreases n,
{
    if n < 128 {
        seq![n as u8]
    } else {
        seq![(n % 128 + 128) as u8] + varint(n / 128)
    }
}

/// Reads one number in variable-length form from the front of `s`: the number
/// and how many bytes it takes. At most `limit` bytes are read, and a `limit`th
/// byte may not exceed `bound`.
pub open spec fn take_varint(s: Seq<u8>, limit: nat, bound: u8) -> Option<(nat, nat)>
    decreases limit,
{
    if limit == 0 || s.len() == 0 {
        None
    } else if s[0] < 128 {
        if limit == 1 && s[0] > bound {
            None
        } else {
            Some((s[0] as nat, 1nat))
        }
    } else {
        match take_varint(s.skip(1), (limit - 1) as nat, bound) {
            Some((high, used)) => Some(((s[0] - 128 + 128 * high) as nat, used + 1)),
            None => None,
        }
    }
}

/// Reads a 32-bit number.
pub open spec fn take_varint_u32(s: Seq<u8>) -> Option<(nat, nat)> {
    take_varint(s, 5, 15)
}

/// Reads a 16-bit number.
pub open spec fn take_varint_u16(s: Seq<u8>) -> Option<(nat, nat)> {
    take_varint(s, 3, 3)
}

/// `buf` with `bytes` written over it from position `pos` on.
pub open spec fn written(buf: Seq<u8>, pos: nat, bytes: Seq<u8>) -> Seq<u8> {
    buf.take(pos as int) + bytes + buf.skip((pos + bytes.len()) as int)
}

/// What writing `bytes` to the front of a buffer does: all of them are written
/// where they fit, and nothing is where they do not.
pub open spec fn put(old_buf: Seq<u8>, new_buf: Seq<u8>, bytes: Seq<u8>, r: Result<usize, postcard::Error>) -> bool {
    match r {
        Ok(n) => n == bytes.len() && n <= old_buf.len() && new_buf == written(old_buf, 0, bytes),
        Err(_) => old_buf.len() < bytes.len() && new_buf == old_buf,
    }
}

/// `postcard::to_slice` on a `u32`: writes its variable-length form to the
/// front of `buf` and says how many bytes that took. A value that does not fit
/// leaves `buf` as it was.
#[verifier::external_body]
pub(crate) fn put_u32(value: u32, buf: &mut [u8]) -> (r: Result<usize, postcard::Error>)
    ensures
        put(old(buf)@, final(buf)@, varint(value as nat), r),
{
    postcard::to_slice(&value, buf).map(|used| used.len())
}

/// `postcard::to_slice` on a `u16`, as [`put_u32`].
#[verifier::external_body]
pub(crate) fn put_u16(value: u16, buf: &mut [u8]) -> (r: Result<usize, postcard::Error>)
    ensures
        put(old(buf)@, final(buf)@, varint(value as nat), r),
{
    postcard::to_slice(&value, buf).map(|used| used.len())
}

/// `postcard::to_slice` on a `u8`: writes the one byte, if there is room.
#[verifier::external_body]
pub(crate) fn put_u8(value: u8, buf: &mut [u8]) -> (r: Result<usize, postcard::Error>)
    ensures
        put(old(buf)@, final(buf)@, seq![value], r),
{
    postcard::to_slice(&value, buf).map(|used| used.len())
}

/// `Flavor::try_extend` of postcard's slice output: writes the bytes as they
/// are, all of them or none.
#[verifier::external_body]
pub(crate) fn put_bytes(bytes: &[u8], buf: &mut [u8]) -> (r: Result<usize, postcard::Error>)
    ensures
        put(old(buf)@, final(buf)@, bytes@, r),
{
    let mut out = postcard::ser_flavors::Slice::new(buf);
    postcard::ser_flavors::Flavor::try_extend(&mut out, bytes).map(|_| bytes.len())
}

/// `postcard::take_from_bytes::<u32>`: reads one variable-length number and
/// hands back the bytes behind it.
#[verifier::external_body]
pub(crate) fn take_u32(data: &[u8]) -> (r: Result<(u32, &[u8]), postcard::Error>)
    ensures
        match r {
            Ok((value, rest)) => exists|used: nat|
                #![trigger data@.skip(used as int)]
                take_varint_u32(data@) == Some((value as nat, used)) && rest@ == data@.skip(
                    used as int,
                ),
            Err(_) => take_varint_u32(data@) is None,
        },
{
    postcard::take_from_bytes::<u32>(data)
}

/// `postcard::take_from_bytes::<u16>`, as [`take_u32`].
#[verifier::external_body]
pub(crate) fn take_u16(data: &[u8]) -> (r: Result<(u16, &[u8]), postcard::Error>)
    ensures
        match r {
            Ok((value, rest)) => exists|used: nat|
                #![trigger data@.skip(used as int)]
                take_varint_u16(data@) == Some((value as nat, used)) && rest@ == data@.skip(
                    used as int,
                ),
            Err(_) => take_varint_u16(data@) is None,
        },
{
    postcard::take_from_bytes::<u16>(data)
}

/// `postcard::take_from_bytes::<u8>`: reads one byte and hands back the rest.
#[verifier::external_body]
pub(crate) fn take_u8(data: &[u8]) -> (r: Result<(u8, &[u8]), postcard::Error>)
    ensures
        match r {
            Ok((value, rest)) => data@.len() >= 1 && value == data@[0] && rest@ == data@.skip(1),
            Err(_) => data@.len() == 0,
        },
{
    postcard::take_from_bytes::<u8>(data)
}

/// `postcard::take_from_bytes::<[u8; 8]>`: reads eight bytes as they are and
/// hands back the rest.
#[verifier::external_body]
pub(crate) fn take_key(data: &[u8]) -> (r: Result<([u8; 8], &[u8]), postcard::Error>)
    ensures
        match r {
            Ok((value, rest)) => data@.len() >= 8 && value@ == data@.take(8) && rest@
                == data@.skip(8),
            Err(_) => data@.len() < 8,
        },
{
    postcard::take_from_bytes::<[u8; 8]>(data)
}

/// What writing `bytes` at position `pos` of a buffer does: all of them are
/// written where they fit, and nothing is where they do not. The result is the
/// position behind them.
pub open spec fn put_at(
    old_buf: Seq<u8>,
    new_buf: Seq<u8>,
    pos: nat,
    bytes: Seq<u8>,
    r: Result<usize, postcard::Error>,
) -> bool {
    match r {
        Ok(end) => end == pos + bytes.len() && end <= old_buf.len() && new_buf == written(
            old_buf,
            pos,
            bytes,
        ),
        Err(_) => old_buf.len() < pos + bytes.len() && new_buf == old_buf,
    }
}

/// Writes a 32-bit number at position `pos`.
pub fn put_u32_at(value: u32, buf: &mut [u8], pos: usize) -> (r: Result<usize, postcard::Error>)
    requires
        pos <= old(buf)@.len(),
    ensures
        put_at(old(buf)@, final(buf)@, pos as nat, varint(value as nat), r),
{
    let ghost before = buf@;
    assert(before.len() == buf.len());
    let (_, tail) = buf.split_at_mut(pos);
    let r = put_u32(value, tail);
    proof {
        lemma_written_tail(before, pos as nat, varint(value as nat));
    }
    match r {
        Ok(n) => Ok(pos + n),
        Err(e) => Err(e),
    }
}

/// Writes a 16-bit number at position `pos`.
pub fn put_u16_at(value: u16, buf: &mut [u8], pos: usize) -> (r: Result<usize, postcard::Error>)
    requires
        pos <= old(buf)@.len(),
    ensures
        put_at(old(buf)@, final(buf)@, pos as nat, varint(value as nat), r),
{
    let ghost before = buf@;
    assert(before.len() == buf.len());
    let (_, tail) = buf.split_at_mut(pos);
    let r = put_u16(value, tail);
    proof {
        lemma_written_tail(before, pos as nat, varint(value as nat));
    }
    match r {
        Ok(n) => Ok(pos + n),
        Err(e) => Err(e),
    }
}

/// Writes one byte at position `pos`.
pub fn put_u8_at(value: u8, buf: &mut [u8], pos: usize) -> (r: Result<usize, postcard::Error>)
    requires
        pos <= old(buf)@.len(),
    ensures
        put_at(old(buf)@, final(buf)@, pos as nat, seq![value], r),
{
    let ghost before = buf@;
    assert(before.len() == buf.len());
    let (_, tail) = buf.split_at_mut(pos);
    let r = put_u8(value, tail);
    proof {
        lemma_written_tail(before, pos as nat, seq![value]);
    }
    match r {
        Ok(n) => Ok(pos + n),
        Err(e) => Err(e),
    }
}

/// Writes `bytes` as they are at position `pos`.
pub fn put_bytes_at(bytes: &[u8], buf: &mut [u8], pos: usize) -> (r: Result<usize, postcard::Error>)
    requires
        pos <= old(buf)@.len(),
    ensures
        put_at(old(buf)@, final(buf)@, pos as nat, bytes@, r),
{
    let ghost before = buf@;
    assert(before.len() == buf.len());
    let (_, tail) = buf.split_at_mut(pos);
    let r = put_bytes(bytes, tail);
    proof {
        lemma_written_tail(before, pos as nat, bytes@);
    }
    match r {
        Ok(n) => Ok(pos + n),
        Err(e) => Err(e),
    }
}

/// Writing to the front of the part behind `pos` is writing at `pos`.
proof fn lemma_written_tail(buf: Seq<u8>, pos: nat, bytes: Seq<u8>)
    requires
        pos <= buf.len(),
    ensures
        buf.take(pos as int) + buf.skip(pos as int) == buf,
        pos + bytes.len() <= buf.len() ==> buf.take(pos as int) + written(
            buf.skip(pos as int),
            0,
            bytes,
        ) == written(buf, pos, bytes),
{
    assert(buf.take(pos as int) + buf.skip(pos as int) =~= buf);
    if pos + bytes.len() <= buf.len() {
        assert(buf.take(pos as int) + written(buf.skip(pos as int), 0, bytes) =~= written(
            buf,
            pos,
            bytes,
        ));
    }
}

/// Writing `a` and then `b` behind it is writing both together.
pub proof fn written_twice(buf: Seq<u8>, a: Seq<u8>, b: Seq<u8>)
    requires
        a.len() + b.len() <= buf.len(),
    ensures
        written(written(buf, 0, a), a.len(), b) == written(buf, 0, a + b),
        written(buf, 0, a).len() == buf.len(),
{
    assert(written(written(buf, 0, a), a.len(), b) =~= written(buf, 0, a + b));
}

/// A buffer that was too short for `bytes`, and into which at most a leading
/// part of them has been written.
pub open spec fn cut_short(old_buf: Seq<u8>, new_buf: Seq<u8>, bytes: Seq<u8>) -> bool {
    &&& old_buf.len() < bytes.len()
    &&& exists|k: int|
        0 <= k <= old_buf.len() && new_buf == written(old_buf, 0, #[trigger] bytes.take(k))
}

/// One step of writing: `done` is at the front of the buffer already, `next` was
/// to be written behind it, and `more` would follow.
pub proof fn write_step(
    first: Seq<u8>,
    mid: Seq<u8>,
    after: Seq<u8>,
    done: Seq<u8>,
    next: Seq<u8>,
    more: Seq<u8>,
    r: Result<usize, postcard::Error>,
)
    requires
        done.len() <= first.len(),
        mid == written(first, 0, done),
        put_at(mid, after, done.len(), next, r),
    ensures
        r matches Ok(end) ==> end == (done + next).len() && end <= first.len() && after == written(
            first,
            0,
            done + next,
        ),
        r is Err ==> cut_short(first, after, done + next + more),
{
    assert(mid.len() == first.len());
    match r {
        Ok(end) => {
            written_twice(first, done, next);
        },
        Err(e) => {
            assert((done + next + more).take(done.len() as int) =~= done);
        },
    }
}

/// How many numbers the form with at most `limit` bytes and a last byte of at
/// most `bound` can hold.
pub open spec fn varint_capacity(limit: nat, bound: u8) -> nat
    decreases limit,
{
    if limit == 0 {
        0
    } else if limit == 1 {
        (bound + 1) as nat
    } else {
        128 * varint_capacity((limit - 1) as nat, bound)
    }
}

/// Reading a number that was written gives it back, with the bytes it took,
/// whatever follows.
pub proof fn varint_round_trip(n: nat, rest: Seq<u8>, limit: nat, bound: u8)
    requires
        n < varint_capacity(limit, bound),
        bound < 128,
    ensures
        take_varint(varint(n) + rest, limit, bound) == Some((n, varint(n).len())),
        (varint(n) + rest).skip(varint(n).len() as int) == rest,
    decreases limit,
{
    let s = varint(n) + rest;
    assert(s.skip(varint(n).len() as int) =~= rest);
    if n >= 128 {
        varint_round_trip(n / 128, rest, (limit - 1) as nat, bound);
        assert(s.skip(1) =~= varint(n / 128) + rest);
    }
}

/// A 32-bit number that was written is read back.
pub proof fn varint_u32_round_trip(n: u32, rest: Seq<u8>)
    ensures
        take_varint_u32(varint(n as nat) + rest) == Some((n as nat, varint(n as nat).len())),
        (varint(n as nat) + rest).skip(varint(n as nat).len() as int) == rest,
{
    reveal_with_fuel(varint_capacity, 5);
    varint_round_trip(n as nat, rest, 5, 15);
}

/// A 16-bit number that was written is read back.
pub proof fn varint_u16_round_trip(n: u16, rest: Seq<u8>)
    ensures
        take_varint_u16(varint(n as nat) + rest) == Some((n as nat, varint(n as nat).len())),
        (varint(n as nat) + rest).skip(varint(n as nat).len() as int) == rest,
{
    reveal_with_fuel(varint_capacity, 3);
    varint_round_trip(n as nat, rest, 3, 3);
}

/// A number below the capacity takes at most `limit` bytes, and at least one.
pub proof fn varint_len(n: nat, limit: nat, bound: u8)
    requires
        n < varint_capacity(limit, bound),
        bound < 128,
    ensures
        1 <= varint(n).len() <= limit,
    decreases limit,
{
    if n >= 128 {
        varint_len(n / 128, (limit - 1) as nat, bound);
    }
}

/// A 32-bit number takes one to five bytes, a 16-bit number one to three.
pub proof fn varint_len_bounds(a: u32, b: u16)
    ensures
        1 <= varint(a as nat).len() <= 5,
        1 <= varint(b as nat).len() <= 3,
{
    reveal_with_fuel(varint_capacity, 5);
    varint_len(a as nat, 5, 15);
    varint_len(b as nat, 3, 3);
}

/// What is read takes at least one byte, and no more than there are.
pub proof fn take_varint_used(s: Seq<u8>, limit: nat, bound: u8)
    ensures
        take_varint(s, limit, bound) matches Some((_, used)) ==> 1 <= used <= s.len(),
    decreases limit,
{
    if limit > 0 && s.len() > 0 && s[0] >= 128 {
        take_varint_used(s.skip(1), (limit - 1) as nat, bound);
    }
}

} // verus!
