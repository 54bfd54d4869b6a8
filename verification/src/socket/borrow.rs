//! "Borrow" sockets
//!
//! Borrow sockets use a byte queue to store the serialized form of messages:
//! messages are serialized into the queue when inserting into the socket, and
//! deserialized when removed from the socket.

use vstd::prelude::*;
use crate::interface_manager::Payload;
use crate::nash::NameHash;
use crate::socket::frame_queue;
use crate::socket::frame_queue::{
    queue_capacity, queue_marks, queued, ByteQueue, Marks, FRAME_OVERHEAD,
};
use crate::socket::{Attributes, HeaderMessage, SocketHeader, SocketSendError};
use crate::varint;
use crate::wire_frames;
use crate::wire_frames::MAX_HDR_ENCODED_SIZE;
use crate::{Header, Key, ProtocolError};

verus! {

/// Wakes the task that waits for a socket.
#[verifier::external_type_specification]
#[verifier::external_body]
pub struct ExWaker(std::task::Waker);

/// `Waker::wake`: wakes the task. Nothing is returned.
pub assume_specification[ std::task::Waker::wake ](waker: std::task::Waker);

/// `Waker::will_wake`: whether two wakers wake the same task, as far as that
/// can be told. Nothing is promised of the answer.
pub assume_specification[ std::task::Waker::will_wake ](
    waker: &std::task::Waker,
    other: &std::task::Waker,
) -> bool;

/// `Waker::clone`: a waker for the same task. Nothing is promised of the value.
pub assume_specification[ <std::task::Waker as Clone>::clone ](
    waker: &std::task::Waker,
) -> std::task::Waker;

/// A waker was woken.
pub open spec fn woken(waker: std::task::Waker) -> bool {
    call_ensures(std::task::Waker::wake, (waker,), ())
}

/// The waker that was left before, if there was one, is told that another one
/// takes its place, unless both wake the same task.
pub open spec fn succeeded(previous: Option<std::task::Waker>, waker: &std::task::Waker) -> bool {
    previous matches Some(w) ==> exists|same: bool|
        #[trigger] call_ensures(std::task::Waker::will_wake, (&w, waker), same) && (same || woken(
            w,
        ))
}

/// A socket that keeps the frames that it receives in their byte form.
pub struct Socket {
    hdr: SocketHeader,
    /// The largest frame that originates here which the socket takes.
    mtu: u16,
    q: ByteQueue,
    waker: Option<std::task::Waker>,
    reading: bool,
}

/// A frame that was received.
///
/// It stays in the queue of its socket until it is given back with
/// [`Socket::release`]; until then the socket receives nothing else.
pub struct ResponseGrant {
    hdr: Header,
    inner: ResponseGrantInner,
}

enum ResponseGrantInner {
    Message { frame: Vec<u8>, offset: usize },
    Failure(ProtocolError),
}

/// What a received frame holds.
#[derive(Debug)]
pub enum Response<'a> {
    /// The serialized body of a message.
    Message(HeaderMessage<&'a [u8]>),
    /// A protocol error.
    Failure(HeaderMessage<ProtocolError>),
}

impl ResponseGrant {
    /// The header of the frame.
    pub closed spec fn header(self) -> Header {
        self.hdr
    }

    /// The header of the frame.
    pub fn hdr(&self) -> (r: Header)
        ensures
            r == self.header(),
    {
        self.hdr
    }

    /// The body of the message, or the error.
    pub closed spec fn content(self) -> Result<Seq<u8>, ProtocolError> {
        match self.inner {
            ResponseGrantInner::Message { frame, offset } => Ok(frame@.skip(offset as int)),
            ResponseGrantInner::Failure(err) => Err(err),
        }
    }

    /// Whether the frame is still in the queue of its socket.
    pub open spec fn holds_frame(self) -> bool {
        self.content() is Ok
    }

    #[verifier::type_invariant]
    spec fn offset_in_frame(self) -> bool {
        self.inner matches ResponseGrantInner::Message { frame, offset } ==> offset <= frame@.len()
    }

    /// The header and what the frame holds.
    pub fn try_access(&self) -> (r: Response<'_>)
        ensures
            match (r, self.content()) {
                (Response::Message(m), Ok(body)) => m.hdr == self.header() && m.t@ == body,
                (Response::Failure(m), Err(err)) => m.hdr == self.header() && m.t == err,
                _ => false,
            },
    {
        proof {
            use_type_invariant(self);
        }
        match &self.inner {
            ResponseGrantInner::Message { frame, offset } => {
                let body = vstd::slice::slice_subrange(frame.as_slice(), *offset, frame.len());
                assert(body@ =~= frame@.skip(*offset as int));
                Response::Message(HeaderMessage { hdr: self.hdr, t: body })
            },
            ResponseGrantInner::Failure(err) => Response::Failure(
                HeaderMessage { hdr: self.hdr, t: *err },
            ),
        }
    }
}

/// The bytes under which a frame is kept, and how much room is asked of the
/// queue for them: the MTU where the frame originates here or is an error, just
/// enough where it is passed on. `None` stands for a frame that does not fit.
pub open spec fn kept_frame(mtu: u16, hdr: Header, what: Payload) -> Option<(Seq<u8>, u16)> {
    match what {
        Payload::Message(body) => {
            let frame = wire_frames::frame_ty_bytes(hdr, body);
            if frame.len() <= mtu {
                Some((frame, mtu))
            } else {
                None
            }
        },
        Payload::Error(err) => {
            let frame = wire_frames::frame_err_bytes(hdr, err);
            if frame.len() <= mtu {
                Some((frame, mtu))
            } else {
                None
            }
        },
        Payload::Raw(body) => {
            let frame = wire_frames::frame_ty_bytes(hdr, body);
            if frame.len() <= u16::MAX {
                Some((frame, frame.len() as u16))
            } else {
                None
            }
        },
    }
}

impl Socket {
    /// What the stack knows of the socket.
    pub closed spec fn header(self) -> SocketHeader {
        self.hdr
    }

    /// The largest frame that originates here which the socket takes.
    pub closed spec fn spec_mtu(self) -> u16 {
        self.mtu
    }

    /// What the stack knows of the socket.
    pub fn hdr(&self) -> (r: SocketHeader)
        ensures
            r == self.header(),
    {
        self.hdr
    }

    /// Puts the socket on a port.
    pub(crate) fn set_port(&mut self, port: u8)
        ensures
            final(self).header() == (SocketHeader { port, ..old(self).header() }),
            final(self).spec_mtu() == old(self).spec_mtu(),
            final(self).capacity() == old(self).capacity(),
            final(self).frames() == old(self).frames(),
            final(self).marks() == old(self).marks(),
            final(self).is_reading() == old(self).is_reading(),
            final(self).stored() == old(self).stored(),
    {
        self.hdr.port = port;
    }

    /// The frames that wait in the socket, the oldest first.
    pub closed spec fn frames(self) -> Seq<Seq<u8>> {
        queued(self.q)
    }

    /// The number of bytes that the socket's queue was made with.
    pub closed spec fn capacity(self) -> nat {
        queue_capacity(self.q)
    }

    /// Where the socket's queue reads and writes.
    pub closed spec fn marks(self) -> Marks {
        queue_marks(self.q)
    }

    /// Whether a received frame has not been given back yet.
    pub closed spec fn is_reading(self) -> bool {
        self.reading
    }

    /// The waker of the task that is to be woken when a frame comes in.
    pub closed spec fn stored(self) -> Option<std::task::Waker> {
        self.waker
    }

    /// The frames lie between the marks of the queue, and a frame that is being
    /// read is one of them.
    pub open spec fn wf(self) -> bool {
        &&& frame_queue::queue_wf(self.frames(), self.marks(), self.capacity())
        &&& self.is_reading() ==> self.frames().len() > 0
    }

    /// Whether the queue has room for a piece of `size` bytes, see
    /// [`frame_queue::grant_start`].
    pub open spec fn has_room(self, size: u16) -> bool {
        frame_queue::grant_start(
            self.marks(),
            self.capacity(),
            (size + FRAME_OVERHEAD) as nat,
        ) is Some
    }

    /// The marks once a frame of `len` bytes was put into a piece of `size`
    /// bytes.
    pub open spec fn marks_after(self, size: u16, len: nat) -> Marks {
        frame_queue::committed(
            self.marks(),
            self.capacity(),
            frame_queue::grant_start(
                self.marks(),
                self.capacity(),
                (size + FRAME_OVERHEAD) as nat,
            )->0,
            len + FRAME_OVERHEAD as nat,
        )
    }

    /// The marks once a frame was refused. A frame that originates here, or an
    /// error, which turns out to be larger than the MTU, has had its piece of the
    /// queue granted by then.
    pub open spec fn marks_refused(self, hdr: Header, what: Payload) -> Marks {
        if kept_frame(self.spec_mtu(), hdr, what) is Some || what is Raw {
            self.marks()
        } else {
            frame_queue::given_up(
                self.marks(),
                self.capacity(),
                (self.spec_mtu() + FRAME_OVERHEAD) as nat,
            )
        }
    }

    /// A socket that is not attached yet, with a queue of `capacity` bytes.
    pub fn new(key: Key, attrs: Attributes, capacity: usize, mtu: u16, nash: Option<NameHash>) -> (r:
        Socket)
        requires
            capacity <= isize::MAX,
        ensures
            r.header() == (SocketHeader { port: 0, attrs, key, nash }),
            r.spec_mtu() == mtu,
            r.frames() == Seq::<Seq<u8>>::empty(),
            r.capacity() == capacity,
            r.marks() == (Marks { read: 0, write: 0, last: 0 }),
            !r.is_reading(),
            r.stored() is None,
            r.wf(),
    {
        Socket {
            hdr: SocketHeader { port: 0, attrs, key, nash },
            mtu,
            q: frame_queue::new_queue(capacity),
            waker: None,
            reading: false,
        }
    }

    /// Everything but the frames and the waker is as before.
    pub open spec fn same_socket(before: Socket, after: Socket) -> bool {
        &&& after.header() == before.header()
        &&& after.spec_mtu() == before.spec_mtu()
        &&& after.capacity() == before.capacity()
        &&& after.is_reading() == before.is_reading()
    }

    /// What offering a frame to a socket does. A frame that fits and for which the
    /// queue has room is kept behind the others in its byte form, and whoever
    /// waits for the socket is woken; of any other frame nothing is kept.
    pub open spec fn offered(before: Socket, after: Socket, hdr: Header, what: Payload, taken: bool)
        -> bool {
        &&& Socket::same_socket(before, after)
        &&& taken == (kept_frame(before.spec_mtu(), hdr, what) matches Some((_, size))
            && before.has_room(size))
        &&& if taken {
            let (frame, size) = kept_frame(before.spec_mtu(), hdr, what)->0;
            &&& after.frames() == before.frames().push(frame)
            &&& after.marks() == before.marks_after(size, frame.len())
            &&& after.stored() is None
            &&& before.stored() matches Some(w) ==> woken(w)
        } else {
            &&& after.frames() == before.frames()
            &&& after.marks() == before.marks_refused(hdr, what)
            &&& after.stored() == before.stored()
        }
    }

    /// Puts a frame into the queue and wakes whoever waits for it.
    fn keep(&mut self, size: u16, frame: &[u8]) -> (taken: bool)
        requires
            frame@.len() <= size,
        ensures
            Socket::same_socket(*old(self), *final(self)),
            taken == old(self).has_room(size),
            old(self).wf() ==> final(self).wf(),
            if taken {
                &&& final(self).frames() == old(self).frames().push(frame@)
                &&& final(self).marks() == old(self).marks_after(size, frame@.len())
                &&& final(self).stored() is None
                &&& old(self).stored() matches Some(w) ==> woken(w)
            } else {
                &&& final(self).frames() == old(self).frames()
                &&& final(self).marks() == old(self).marks()
                &&& final(self).stored() == old(self).stored()
            },
    {
        proof {
            if self.wf() && self.has_room(size) {
                frame_queue::push_keeps_wf(
                    self.frames(),
                    self.marks(),
                    self.capacity(),
                    (size + FRAME_OVERHEAD) as nat,
                    frame@,
                );
            }
        }
        let taken = frame_queue::push_frame(&mut self.q, size, frame);
        if taken {
            if let Some(waker) = self.waker.take() {
                waker.wake();
            }
        }
        taken
    }

    /// Has a piece of the queue granted for a frame that turns out not to fit, and
    /// gives it up.
    fn give_up(&mut self)
        ensures
            Socket::same_socket(*old(self), *final(self)),
            old(self).wf() ==> final(self).wf(),
            final(self).frames() == old(self).frames(),
            final(self).marks() == frame_queue::given_up(
                old(self).marks(),
                old(self).capacity(),
                (old(self).spec_mtu() + FRAME_OVERHEAD) as nat,
            ),
            final(self).stored() == old(self).stored(),
    {
        proof {
            if self.wf() {
                frame_queue::giving_up_keeps_wf(
                    self.frames(),
                    self.marks(),
                    self.capacity(),
                    (self.spec_mtu() + FRAME_OVERHEAD) as nat,
                );
            }
        }
        frame_queue::give_up_frame(&mut self.q, self.mtu);
    }

    /// Takes a protocol error. One for which there is no room is dropped.
    pub fn recv_err(&mut self, hdr: Header, err: ProtocolError) -> (taken: bool)
        ensures
            Socket::offered(*old(self), *final(self), hdr, Payload::Error(err), taken),
            old(self).wf() ==> final(self).wf(),
    {
        let mut buf: Vec<u8> = vec![0; self.mtu as usize];
        let ghost zeros = buf@;
        let used: usize = match wire_frames::encode_frame_err(buf.as_mut_slice(), &hdr, err) {
            Ok(used) => used,
            Err(_) => {
                self.give_up();
                return false;
            },
        };
        let frame = vstd::slice::slice_subrange(buf.as_slice(), 0, used);
        proof {
            lemma_encoded_front(zeros, wire_frames::frame_err_bytes(hdr, err));
        }
        self.keep(self.mtu, frame)
    }

    /// Takes a message that originates here, whose body has been serialized.
    pub fn recv_bor(&mut self, hdr: Header, body: &[u8]) -> (r: Result<(), SocketSendError>)
        ensures
            Socket::offered(*old(self), *final(self), hdr, Payload::Message(body@), r is Ok),
            old(self).wf() ==> final(self).wf(),
            r matches Err(e) ==> e == SocketSendError::NoSpace,
    {
        let mut buf: Vec<u8> = vec![0; self.mtu as usize];
        let ghost zeros = buf@;
        let used: usize = match wire_frames::encode_frame_ty(buf.as_mut_slice(), &hdr, body) {
            Ok(used) => used,
            Err(_) => {
                self.give_up();
                return Err(SocketSendError::NoSpace);
            },
        };
        let frame = vstd::slice::slice_subrange(buf.as_slice(), 0, used);
        proof {
            lemma_encoded_front(zeros, wire_frames::frame_ty_bytes(hdr, body@));
        }
        if self.keep(self.mtu, frame) {
            Ok(())
        } else {
            Err(SocketSendError::NoSpace)
        }
    }

    /// Takes a message that came in over an interface.
    pub fn recv_raw(&mut self, body: &[u8], hdr: Header) -> (r: Result<(), SocketSendError>)
        ensures
            Socket::offered(*old(self), *final(self), hdr, Payload::Raw(body@), r is Ok),
            old(self).wf() ==> final(self).wf(),
            r matches Err(e) ==> e == SocketSendError::NoSpace,
    {
        // Re-encode the header
        let mut buf: Vec<u8> = vec![0; MAX_HDR_ENCODED_SIZE];
        let ghost zeros = buf@;
        proof {
            wire_frames::hdr_bytes_len(hdr);
        }
        let used: usize = match wire_frames::encode_frame_hdr(buf.as_mut_slice(), &hdr) {
            Ok(used) => used,
            Err(_) => {
                // The buffer is as large as any header.
                return Err(SocketSendError::WhatTheHell);
            },
        };
        if body.len() > 65535 - used {
            return Err(SocketSendError::NoSpace);
        }
        let needed: u16 = (used + body.len()) as u16;
        buf.truncate(used);
        proof {
            lemma_encoded_front(zeros, wire_frames::hdr_bytes(hdr));
        }
        let mut rest: Vec<u8> = vstd::slice::slice_to_vec(body);
        buf.append(&mut rest);
        assert(buf@ =~= wire_frames::frame_ty_bytes(hdr, body@));
        if self.keep(needed, buf.as_slice()) {
            Ok(())
        } else {
            Err(SocketSendError::NoSpace)
        }
    }

    /// Receives the next frame, or leaves a waker to be woken when one comes in.
    ///
    /// - While a received message has not been given back there is nothing to
    ///   receive.
    /// - A message stays in the queue until it is given back; an error leaves it
    ///   at once.
    /// - A frame that cannot be decoded is never received, and nothing behind it.
    pub fn poll_recv(&mut self, waker: &std::task::Waker) -> (r: Option<ResponseGrant>)
        requires
            old(self).wf(),
        ensures
            final(self).wf(),
            final(self).header() == old(self).header(),
            final(self).spec_mtu() == old(self).spec_mtu(),
            final(self).capacity() == old(self).capacity(),
            match next_response(*old(self)) {
                None => {
                    &&& r is None
                    &&& final(self).frames() == old(self).frames()
                    &&& final(self).marks() == (if old(self).is_reading() {
                        old(self).marks()
                    } else {
                        frame_queue::looked(old(self).marks())
                    })
                    &&& final(self).is_reading() == old(self).is_reading()
                    &&& exists|c: std::task::Waker| #[trigger]
                        cloned(*waker, c) && final(self).stored() == Some(c)
                    &&& succeeded(old(self).stored(), waker)
                },
                Some((hdr, content)) => {
                    &&& r is Some
                    &&& (r->0).header() == hdr
                    &&& (r->0).content() == content
                    &&& if content is Ok {
                        &&& final(self).frames() == old(self).frames()
                        &&& final(self).marks() == frame_queue::looked(old(self).marks())
                    } else {
                        &&& final(self).frames() == old(self).frames().skip(1)
                        &&& final(self).marks() == frame_queue::released(
                            old(self).marks(),
                            old(self).frames()[0].len(),
                        )
                    }
                    &&& final(self).is_reading() == (content is Ok)
                    &&& final(self).stored() == old(self).stored()
                },
            },
    {
        if !self.reading {
            proof {
                frame_queue::look_keeps_wf(self.frames(), self.marks(), self.capacity());
            }
            if let Some(frame) = frame_queue::front_frame(&mut self.q) {
                proof {
                    wire_frames::decoded_wf(frame@);
                }
                if let Some(decoded) = wire_frames::decode_frame_partial(frame.as_slice()) {
                    let (any_all, failure) = match decoded.tail {
                        wire_frames::PartialDecodeTail::Specific(_) => (None, None),
                        wire_frames::PartialDecodeTail::AnyAll { apdx, .. } => (Some(apdx), None),
                        wire_frames::PartialDecodeTail::Error(err) => (None, Some(err)),
                    };
                    let hdr = Header {
                        src: decoded.hdr.src,
                        dst: decoded.hdr.dst,
                        any_all,
                        kind: decoded.hdr.kind,
                        class: decoded.hdr.class,
                        ttl: decoded.hdr.ttl,
                    };
                    let offset: usize = decoded.hdr_raw.len();
                    match failure {
                        None => {
                            self.reading = true;
                            proof {
                                let (_, body, hdr_len) = wire_frames::decode(frame@)->0;
                                assert(frame@.skip(hdr_len as int) =~= body->Ok_0);
                            }
                            return Some(
                                ResponseGrant {
                                    hdr,
                                    inner: ResponseGrantInner::Message { frame, offset },
                                },
                            );
                        },
                        Some(err) => {
                            proof {
                                frame_queue::release_keeps_wf(
                                    self.frames(),
                                    self.marks(),
                                    self.capacity(),
                                );
                            }
                            frame_queue::release_frame(&mut self.q);
                            return Some(
                                ResponseGrant { hdr, inner: ResponseGrantInner::Failure(err) },
                            );
                        },
                    }
                }
            }
        }
        if let Some(previous) = self.waker.take() {
            if !previous.will_wake(waker) {
                previous.wake();
            }
        }
        let next = waker.clone();
        assert(cloned(*waker, next));
        self.waker = Some(next);
        None
    }

    /// Gives back a received frame, which then leaves the queue.
    pub fn release(&mut self, grant: ResponseGrant)
        requires
            old(self).wf(),
        ensures
            final(self).wf(),
            final(self).header() == old(self).header(),
            final(self).spec_mtu() == old(self).spec_mtu(),
            final(self).capacity() == old(self).capacity(),
            final(self).stored() == old(self).stored(),
            if grant.holds_frame() && old(self).is_reading() {
                &&& final(self).frames() == old(self).frames().skip(1)
                &&& final(self).marks() == frame_queue::released(
                    old(self).marks(),
                    old(self).frames()[0].len(),
                )
                &&& !final(self).is_reading()
            } else {
                &&& final(self).frames() == old(self).frames()
                &&& final(self).marks() == old(self).marks()
                &&& final(self).is_reading() == old(self).is_reading()
            },
    {
        match grant.inner {
            ResponseGrantInner::Message { .. } => {
                if self.reading {
                    proof {
                        frame_queue::release_keeps_wf(
                            self.frames(),
                            self.marks(),
                            self.capacity(),
                        );
                    }
                    frame_queue::release_frame(&mut self.q);
                    self.reading = false;
                }
            },
            ResponseGrantInner::Failure(_) => {},
        }
    }
}

/// What a socket has to give: the header and the content of its oldest frame,
/// unless a message is being read already.
pub open spec fn next_response(s: Socket) -> Option<(Header, Result<Seq<u8>, ProtocolError>)> {
    if s.is_reading() || s.frames().len() == 0 {
        None
    } else {
        match wire_frames::decode(s.frames()[0]) {
            Some((hdr, content, _)) => Some((hdr, content)),
            None => None,
        }
    }
}

/// What was written to the front of a buffer is there.
proof fn lemma_encoded_front(buf: Seq<u8>, bytes: Seq<u8>)
    ensures
        bytes.len() <= buf.len() ==> varint::written(buf, 0, bytes).subrange(
            0,
            bytes.len() as int,
        ) == bytes,
{
    if bytes.len() <= buf.len() {
        assert(varint::written(buf, 0, bytes).subrange(0, bytes.len() as int) =~= bytes);
    }
}

/// Offering a frame keeps a socket well formed. A socket that nothing was put
/// into yet takes every frame that its queue can hold, and an empty one every
/// frame that it can hold twice.
pub proof fn offer_keeps_wf(before: Socket, after: Socket, hdr: Header, what: Payload, taken: bool)
    requires
        before.wf(),
        Socket::offered(before, after, hdr, what, taken),
    ensures
        after.wf(),
        kept_frame(before.spec_mtu(), hdr, what) matches Some((_, size)) ==> {
            &&& before.marks().read == 0 && before.marks().write == 0 && size + FRAME_OVERHEAD
                <= before.capacity() ==> taken
            &&& before.frames().len() == 0 && 2 * (size + FRAME_OVERHEAD) <= before.capacity()
                ==> taken
        },
{
    if kept_frame(before.spec_mtu(), hdr, what) is None {
        frame_queue::giving_up_keeps_wf(
            before.frames(),
            before.marks(),
            before.capacity(),
            (before.spec_mtu() + FRAME_OVERHEAD) as nat,
        );
    }
    if let Some((frame, size)) = kept_frame(before.spec_mtu(), hdr, what) {
        let needed = (size + FRAME_OVERHEAD) as nat;
        frame_queue::grants_owed(before.frames(), before.marks(), before.capacity(), needed);
        if taken {
            frame_queue::push_keeps_wf(
                before.frames(),
                before.marks(),
                before.capacity(),
                needed,
                frame,
            );
        }
    }
}

/// A message that a socket takes is received as it was sent, once the frames
/// before it are gone, whatever has come in behind it: with its header, whose hop
/// count is clamped, and its body.
pub proof fn message_comes_back(
    before: Socket,
    after: Socket,
    later: Socket,
    more: Seq<Seq<u8>>,
    hdr: Header,
    what: Payload,
    body: Seq<u8>,
)
    requires
        what == Payload::Message(body) || what == Payload::Raw(body),
        Socket::offered(before, after, hdr, what, true),
        later.frames() == after.frames().skip(before.frames().len() as int) + more,
        !later.is_reading(),
        wire_frames::hdr_wf(hdr),
        hdr.kind.valid(),
        hdr.kind != crate::FrameKind::protocol_error(),
        hdr.any_all is Some <==> wire_frames::any_all_port(hdr.dst.port_id),
    ensures
        next_response(later) == Some(
            (wire_frames::on_wire(hdr), Ok::<Seq<u8>, ProtocolError>(body)),
        ),
{
    wire_frames::message_round_trip(hdr, body);
}

/// A protocol error that a socket takes is received as it was sent, once the
/// frames before it are gone, whatever has come in behind it.
pub proof fn error_comes_back(
    before: Socket,
    after: Socket,
    later: Socket,
    more: Seq<Seq<u8>>,
    hdr: Header,
    err: ProtocolError,
)
    requires
        Socket::offered(before, after, hdr, Payload::Error(err), true),
        later.frames() == after.frames().skip(before.frames().len() as int) + more,
        !later.is_reading(),
        hdr.kind == crate::FrameKind::protocol_error(),
        !wire_frames::any_all_port(hdr.dst.port_id),
    ensures
        next_response(later) == Some(
            (
                (Header { any_all: None, ..wire_frames::on_wire(hdr) }),
                Err::<Seq<u8>, ProtocolError>(err),
            ),
        ),
{
    wire_frames::error_frame_round_trip(hdr, err);
}

} // verus!
