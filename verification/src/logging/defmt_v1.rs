//! A sink for raw defmt frames.
//!
//! defmt hands over a log message piece by piece: the logger is acquired, bytes
//! are written, and the logger is released. The sink collects the bytes into one
//! frame and passes it to the send function on release.

use vstd::prelude::*;

verus! {

/// Maximum size of a single defmt frame
///
/// This should be large enough for most log messages. defmt frames are
/// typically quite small (10-50 bytes for simple logs, up to a few hundred
/// for complex ones). If a frame exceeds this size, it will be truncated.
pub const MAX_FRAME_SIZE: usize = 512;

/// A frame after more bytes were written to it: what does not fit is cut off.
pub open spec fn appended(frame: Seq<u8>, bytes: Seq<u8>) -> Seq<u8> {
    let all = frame + bytes;
    if all.len() <= MAX_FRAME_SIZE {
        all
    } else {
        all.take(MAX_FRAME_SIZE as int)
    }
}

/// Frame buffer storage
pub struct FrameBuffer {
    /// The bytes of the current frame being constructed
    bytes: Vec<u8>,
    /// Whether the logger is currently acquired
    acquired: bool,
}

impl FrameBuffer {
    /// The current frame.
    pub closed spec fn frame_bytes(self) -> Seq<u8> {
        self.bytes@
    }

    /// Whether the logger is currently acquired.
    pub closed spec fn is_acquired(self) -> bool {
        self.acquired
    }

    /// A frame never exceeds its maximum size.
    pub open spec fn wf(self) -> bool {
        self.frame_bytes().len() <= MAX_FRAME_SIZE
    }

    /// An empty buffer of a logger that is free.
    pub fn new() -> (r: FrameBuffer)
        ensures
            r.wf(),
            r.frame_bytes() == Seq::<u8>::empty(),
            !r.is_acquired(),
    {
        FrameBuffer { bytes: Vec::new(), acquired: false }
    }

    /// Acquire the logger and reset the buffer for a new frame
    fn acquire(&mut self)
        requires
            !old(self).is_acquired(),
        ensures
            final(self).wf(),
            final(self).frame_bytes() == Seq::<u8>::empty(),
            final(self).is_acquired(),
    {
        self.acquired = true;
        self.bytes.clear();
    }

    /// Write bytes to the buffer
    ///
    /// What does not fit is silently cut off: defmt's write is not allowed to
    /// fail.
    fn write(&mut self, bytes: &[u8])
        requires
            old(self).wf(),
        ensures
            final(self).wf(),
            final(self).frame_bytes() == appended(old(self).frame_bytes(), bytes@),
            final(self).is_acquired() == old(self).is_acquired(),
    {
        let ghost before = self.bytes@;
        let remaining: usize = MAX_FRAME_SIZE - self.bytes.len();
        let to_copy: usize = if bytes.len() < remaining {
            bytes.len()
        } else {
            remaining
        };
        let part = vstd::slice::slice_subrange(bytes, 0, to_copy);
        self.bytes.extend_from_slice(part);
        assert(self.bytes@ =~= appended(before, bytes@));
    }

    /// Free the logger for the next frame
    fn free(&mut self)
        ensures
            final(self).frame_bytes() == old(self).frame_bytes(),
            !final(self).is_acquired(),
    {
        self.acquired = false;
    }
}

/// The send function that defmt will use for sending frames: the first one that
/// is set
pub struct StaticSendFn<F: Fn(&[u8])> {
    send_fn: Option<F>,
}

impl<F: Fn(&[u8])> StaticSendFn<F> {
    /// The function that was set.
    pub closed spec fn sender(self) -> Option<F> {
        self.send_fn
    }

    /// No function is set yet.
    pub fn new() -> (r: Self)
        ensures
            r.sender() is None,
    {
        StaticSendFn { send_fn: None }
    }

    /// Initialize with a send function
    ///
    /// This should be called once, before any defmt logging occurs.
    /// Subsequent calls are ignored.
    fn init(&mut self, send_fn: F)
        ensures
            final(self).sender() == (if old(self).sender() is None {
                Some(send_fn)
            } else {
                old(self).sender()
            }),
    {
        if self.send_fn.is_none() {
            self.send_fn = Some(send_fn);
        }
    }

    /// Whether a send function was set
    pub fn is_set(&self) -> (r: bool)
        ensures
            r == (self.sender() is Some),
    {
        self.send_fn.is_some()
    }

    /// Call the send function, if initialized
    fn send(&self, frame: &[u8])
        requires
            self.sender() matches Some(f) ==> call_requires(f, (frame,)),
        ensures
            self.sender() matches Some(f) ==> call_ensures(f, (frame,), ()),
    {
        if let Some(send_fn) = &self.send_fn {
            send_fn(frame);
        }
    }
}

/// Whether the library's own defmt messages are logged. Once they are disabled
/// they stay so: a sink that logged them would never come to an end.
#[derive(Clone, Copy, Debug, PartialEq, Eq, Structural)]
pub enum InternalLogging {
    Enabled,
    Disabled,
}

/// Whether a send function takes every frame with these bytes.
pub open spec fn takes<F: Fn(&[u8])>(send_fn: F, bytes: Seq<u8>) -> bool {
    forall|frame: &[u8]| frame@ == bytes ==> #[trigger] call_requires(send_fn, (frame,))
}

/// Whether a send function has been given a frame with these bytes.
pub open spec fn given<F: Fn(&[u8])>(send_fn: F, bytes: Seq<u8>) -> bool {
    exists|frame: &[u8]| frame@ == bytes && #[trigger] call_ensures(send_fn, (frame,), ())
}

/// DefmtSink is what a defmt logger delegates to
pub struct DefmtSink<F: Fn(&[u8])> {
    pub buffer: FrameBuffer,
    pub sender: StaticSendFn<F>,
    pub internal: InternalLogging,
}

impl<F: Fn(&[u8])> DefmtSink<F> {
    /// A sink that is free and has no send function.
    pub fn new() -> (r: Self)
        ensures
            r.wf(),
            r.buffer.frame_bytes() == Seq::<u8>::empty(),
            !r.buffer.is_acquired(),
            r.sender.sender() is None,
            r.internal == InternalLogging::Enabled,
    {
        DefmtSink {
            buffer: FrameBuffer::new(),
            sender: StaticSendFn::new(),
            internal: InternalLogging::Enabled,
        }
    }

    /// A frame never exceeds its maximum size.
    pub open spec fn wf(self) -> bool {
        self.buffer.wf()
    }

    /// Initialize the defmt sink with a send function
    ///
    /// This must be called before any defmt logging occurs. It's safe to
    /// call multiple times; subsequent calls are ignored.
    pub fn init_with_sender(&mut self, send_fn: F)
        ensures
            final(self).buffer == old(self).buffer,
            final(self).internal == old(self).internal,
            final(self).sender.sender() == (if old(self).sender.sender() is None {
                Some(send_fn)
            } else {
                old(self).sender.sender()
            }),
    {
        self.sender.init(send_fn);
    }

    /// Acquire the logger (called by defmt before logging)
    ///
    /// The logger must be free: logging is not re-entrant.
    pub fn acquire(&mut self)
        requires
            !old(self).buffer.is_acquired(),
        ensures
            final(self).wf(),
            final(self).buffer.is_acquired(),
            final(self).buffer.frame_bytes() == Seq::<u8>::empty(),
            final(self).sender == old(self).sender,
            final(self).internal == old(self).internal,
    {
        self.buffer.acquire();
    }

    /// Whether the logger is currently acquired
    pub fn is_acquired(&self) -> (r: bool)
        ensures
            r == self.buffer.is_acquired(),
    {
        self.buffer.acquired
    }

    /// Write bytes to the frame buffer (called by defmt during logging)
    ///
    /// The bytes received here are already encoded by defmt. We just need
    /// to buffer them for transmission when release() is called. Without the
    /// logger nothing is written.
    pub fn write(&mut self, bytes: &[u8])
        requires
            old(self).wf(),
        ensures
            final(self).wf(),
            final(self).buffer.is_acquired() == old(self).buffer.is_acquired(),
            final(self).buffer.frame_bytes() == (if old(self).buffer.is_acquired() {
                appended(old(self).buffer.frame_bytes(), bytes@)
            } else {
                old(self).buffer.frame_bytes()
            }),
            final(self).sender == old(self).sender,
            final(self).internal == old(self).internal,
    {
        if !self.buffer.acquired {
            return;
        }
        self.buffer.write(bytes);
    }

    /// Flush the logger (called by defmt during logging)
    ///
    /// Nothing is flushed here: the frame will be sent in release().
    pub fn flush(&mut self)
        ensures
            *final(self) == *old(self),
    {
    }

    /// Release the logger (called by defmt after logging)
    ///
    /// This sends the buffered frame using the registered send function and
    /// releases the logger for the next log message.
    pub fn release(&mut self)
        requires
            old(self).wf(),
            old(self).sender.sender() matches Some(f) ==> takes(
                f,
                old(self).buffer.frame_bytes(),
            ),
        ensures
            final(self).wf(),
            old(self).sender.sender() matches Some(f) ==> given(
                f,
                old(self).buffer.frame_bytes(),
            ),
            !final(self).buffer.is_acquired(),
            final(self).buffer.frame_bytes() == old(self).buffer.frame_bytes(),
            final(self).sender == old(self).sender,
            final(self).internal == old(self).internal,
    {
        let frame = self.buffer.bytes.as_slice();
        self.sender.send(frame);
        self.buffer.free();
    }

    /// Disable the library's internal defmt logging
    ///
    /// There is no way back.
    pub fn disable_internal_atomic(&mut self)
        ensures
            *final(self) == (DefmtSink { internal: InternalLogging::Disabled, ..*old(self) }),
    {
        self.internal = InternalLogging::Disabled;
    }

    /// Check if internal defmt logging is enabled
    pub fn is_enabled(&self) -> (r: bool)
        ensures
            r == (self.internal == InternalLogging::Enabled),
    {
        self.internal == InternalLogging::Enabled
    }
}

/// Writing in pieces is writing the whole: where the pieces are cut does not
/// matter, not even for a frame that is cut off.
pub proof fn pieces_make_the_whole(frame: Seq<u8>, first: Seq<u8>, second: Seq<u8>)
    requires
        frame.len() <= MAX_FRAME_SIZE,
    ensures
        appended(appended(frame, first), second) == appended(frame, first + second),
{
    assert(appended(appended(frame, first), second) =~= appended(frame, first + second));
}

/// A frame that is written to keeps all that it held, goes on with what was written,
/// and loses nothing as long as it fits in 512 bytes.
pub proof fn frames_grow_up_to_their_size(frame: Seq<u8>, bytes: Seq<u8>)
    requires
        frame.len() <= 512,
    ensures
        frame.is_prefix_of(appended(frame, bytes)),
        appended(frame, bytes).is_prefix_of(frame + bytes),
        frame.len() + bytes.len() <= 512 ==> appended(frame, bytes) == frame + bytes,
        frame.len() + bytes.len() > 512 ==> appended(frame, bytes).len() == 512,
{
}

} // verus!
