//! A bounded queue of frames.

use vstd::prelude::*;

verus! {

/// A queue of bytes.
#[verifier::external_type_specification]
#[verifier::external_body]
#[verifier::reject_recursive_types(S)]
#[verifier::reject_recursive_types(C)]
#[verifier::reject_recursive_types(N)]
pub struct ExBbqueue<S, C, N>(bbqueue::BBQueue<S, C, N>);

/// Storage on the heap.
#[verifier::external_type_specification]
#[verifier::external_body]
pub struct ExBoxedSlice(bbqueue::traits::storage::BoxedSlice);

/// Coordination by atomic operations.
#[verifier::external_type_specification]
#[verifier::external_body]
pub struct ExAtomicCoord(bbqueue::traits::coordination::cas::AtomicCoord);

/// No notification.
#[verifier::external_type_specification]
#[verifier::external_body]
pub struct ExPolling(bbqueue::traits::notifier::polling::Polling);

/// A queue of bytes with heap storage, to be polled.
pub type ByteQueue = bbqueue::BBQueue<
    bbqueue::traits::storage::BoxedSlice,
    bbqueue::traits::coordination::cas::AtomicCoord,
    bbqueue::traits::notifier::polling::Polling,
>;

/// The frames that a queue holds, the oldest first.
pub uninterp spec fn queued(q: ByteQueue) -> Seq<Seq<u8>>;

/// The number of bytes that a queue was made with.
pub uninterp spec fn queue_capacity(q: ByteQueue) -> nat;

/// Where a queue reads next, in bytes from the front of its storage.
pub uninterp spec fn queue_read(q: ByteQueue) -> nat;

/// Where a queue writes next.
pub uninterp spec fn queue_write(q: ByteQueue) -> nat;

/// Where the frames at the back of the storage end, once a queue writes at the
/// front again while it still reads at the back.
pub uninterp spec fn queue_last(q: ByteQueue) -> nat;

/// The bytes that the queue adds to each frame.
pub const FRAME_OVERHEAD: usize = 2;

/// Where a queue reads and writes. It writes behind what it has to read, or,
/// once there is no room at the back, in front of it.
pub struct Marks {
    pub read: nat,
    pub write: nat,
    pub last: nat,
}

/// Where a queue reads and writes.
pub open spec fn queue_marks(q: ByteQueue) -> Marks {
    Marks { read: queue_read(q), write: queue_write(q), last: queue_last(q) }
}

/// Where a piece of `needed` bytes is granted, if it is: a piece is never
/// divided, and what is written in front of what is read never reaches it.
pub open spec fn grant_start(m: Marks, capacity: nat, needed: nat) -> Option<nat> {
    if m.write < m.read {
        if m.write + needed < m.read {
            Some(m.write)
        } else {
            None
        }
    } else if m.write + needed <= capacity {
        Some(m.write)
    } else if needed < m.read {
        Some(0)
    } else {
        None
    }
}

/// The marks once `used` bytes at `start` were written.
pub open spec fn committed(m: Marks, capacity: nat, start: nat, used: nat) -> Marks {
    let write = start + used;
    Marks {
        read: m.read,
        write,
        last: if write < m.write && m.write != capacity {
            m.write
        } else if write > m.last {
            capacity
        } else {
            m.last
        },
    }
}

/// The marks once a piece of `needed` bytes was granted, if it was, and given
/// up again: a piece at the front moves the queue there.
pub open spec fn given_up(m: Marks, capacity: nat, needed: nat) -> Marks {
    match grant_start(m, capacity, needed) {
        Some(start) => committed(m, capacity, start, 0),
        None => m,
    }
}

/// The marks once the queue was looked into: where nothing is left at the back,
/// it reads at the front again.
pub open spec fn looked(m: Marks) -> Marks {
    if m.read == m.last && m.write < m.read {
        Marks { read: 0, ..m }
    } else {
        m
    }
}

/// The marks once a frame of `len` bytes was read and released.
pub open spec fn released(m: Marks, len: nat) -> Marks {
    Marks { read: looked(m).read + len + FRAME_OVERHEAD as nat, ..looked(m) }
}

/// `BBQueue::new_with_storage` on a new `BoxedSlice`: an empty queue with the
/// given number of bytes, all of whose marks are at the front. A vector cannot
/// be longer than `isize::MAX`.
#[verifier::external_body]
pub(crate) fn new_queue(capacity: usize) -> (q: ByteQueue)
    requires
        capacity <= isize::MAX,
    ensures
        queued(q) == Seq::<Seq<u8>>::empty(),
        queue_capacity(q) == capacity,
        queue_read(q) == 0,
        queue_write(q) == 0,
        queue_last(q) == 0,
{
    bbqueue::BBQueue::new_with_storage(bbqueue::traits::storage::BoxedSlice::new(capacity))
}

/// `FramedProducer::grant` of `size` bytes and, if it is given,
/// `FramedGrantW::commit` of the frame copied into it: either the frame is
/// queued behind the others, or nothing changes. A grant takes two bytes more
/// than its size, and a frame two bytes more than its length. It is given where
/// [`grant_start`] says, and committing it moves the marks as [`committed`]
/// says.
#[verifier::external_body]
pub(crate) fn push_frame(q: &mut ByteQueue, size: u16, frame: &[u8]) -> (taken: bool)
    requires
        frame@.len() <= size,
    ensures
        queue_capacity(*final(q)) == queue_capacity(*old(q)),
        match grant_start(
            queue_marks(*old(q)),
            queue_capacity(*old(q)),
            (size + FRAME_OVERHEAD) as nat,
        ) {
            Some(start) => {
                &&& taken
                &&& queued(*final(q)) == queued(*old(q)).push(frame@)
                &&& queue_marks(*final(q)) == committed(
                    queue_marks(*old(q)),
                    queue_capacity(*old(q)),
                    start,
                    frame@.len() + FRAME_OVERHEAD as nat,
                )
            },
            None => {
                &&& !taken
                &&& queued(*final(q)) == queued(*old(q))
                &&& queue_marks(*final(q)) == queue_marks(*old(q))
            },
        },
{
    match q.framed_producer().grant(size) {
        Ok(mut grant) => {
            grant[..frame.len()].copy_from_slice(frame);
            grant.commit(frame.len() as u16);
            true
        },
        Err(_) => false,
    }
}

/// `FramedProducer::grant` of `size` bytes and, if it is given,
/// `FramedGrantW::abort`: no frame is queued, and the marks move as [`given_up`]
/// says.
#[verifier::external_body]
pub(crate) fn give_up_frame(q: &mut ByteQueue, size: u16)
    ensures
        queued(*final(q)) == queued(*old(q)),
        queue_capacity(*final(q)) == queue_capacity(*old(q)),
        queue_marks(*final(q)) == given_up(
            queue_marks(*old(q)),
            queue_capacity(*old(q)),
            (size + FRAME_OVERHEAD) as nat,
        ),
{
    if let Ok(grant) = q.framed_producer().grant(size) {
        grant.abort();
    }
}

/// `FramedConsumer::read`: a copy of the oldest frame, which stays in the
/// queue, as the grant is dropped without being released. Nothing is read of an
/// empty queue. Looking moves the marks as [`looked`] says.
#[verifier::external_body]
pub(crate) fn front_frame(q: &mut ByteQueue) -> (r: Option<Vec<u8>>)
    ensures
        queued(*final(q)) == queued(*old(q)),
        queue_capacity(*final(q)) == queue_capacity(*old(q)),
        queue_marks(*final(q)) == looked(queue_marks(*old(q))),
        match r {
            Some(frame) => queued(*old(q)).len() > 0 && frame@ == queued(*old(q))[0],
            None => queued(*old(q)).len() == 0,
        },
{
    q.framed_consumer().read().ok().map(|grant| grant.to_vec())
}

/// `FramedConsumer::read` and `FramedGrantR::release`: the oldest frame leaves
/// the queue, and the marks move as [`released`] says.
#[verifier::external_body]
pub(crate) fn release_frame(q: &mut ByteQueue)
    requires
        queued(*old(q)).len() > 0,
    ensures
        queued(*final(q)) == queued(*old(q)).skip(1),
        queue_capacity(*final(q)) == queue_capacity(*old(q)),
        queue_marks(*final(q)) == released(queue_marks(*old(q)), queued(*old(q))[0].len()),
{
    if let Ok(grant) = q.framed_consumer().read() {
        grant.release();
    }
}

// ---------------------------------------------------------------------------
// What the marks say of the frames
// ---------------------------------------------------------------------------
/// The bytes that frames take in a queue.
pub open spec fn space(frames: Seq<Seq<u8>>) -> nat
    decreases frames.len(),
{
    if frames.len() == 0 {
        0
    } else {
        space(frames.drop_last()) + frames.last().len() + FRAME_OVERHEAD as nat
    }
}

/// The first `k` frames lie at the back, the others at the front.
pub open spec fn divided(frames: Seq<Seq<u8>>, m: Marks, k: int) -> bool {
    &&& 0 <= k <= frames.len()
    &&& m.read + space(frames.take(k)) == m.last
    &&& space(frames.skip(k)) == m.write
}

/// The frames of a queue lie between its marks, and the queue only begins at
/// the front again when there is more room than at the back.
pub open spec fn queue_wf(frames: Seq<Seq<u8>>, m: Marks, capacity: nat) -> bool {
    &&& m.last <= capacity
    &&& if m.write < m.read {
        m.read + m.last > capacity && exists|k: int| #[trigger] divided(frames, m, k)
    } else {
        m.write <= m.last && m.read + space(frames) == m.write
    }
}

proof fn lemma_space_first(frames: Seq<Seq<u8>>)
    requires
        frames.len() > 0,
    ensures
        space(frames) == frames[0].len() + FRAME_OVERHEAD as nat + space(frames.skip(1)),
    decreases frames.len(),
{
    let rest = frames.skip(1);
    if frames.len() > 1 {
        lemma_space_first(frames.drop_last());
        assert(frames.drop_last().skip(1) =~= rest.drop_last());
        assert(rest.last() == frames.last());
    } else {
        assert(frames.drop_last() =~= Seq::empty());
        assert(rest =~= Seq::empty());
    }
}

/// Putting a frame where it is granted keeps the frames between the marks.
pub proof fn push_keeps_wf(
    frames: Seq<Seq<u8>>,
    m: Marks,
    capacity: nat,
    needed: nat,
    frame: Seq<u8>,
)
    requires
        queue_wf(frames, m, capacity),
        frame.len() + FRAME_OVERHEAD <= needed,
        grant_start(m, capacity, needed) is Some,
    ensures
        queue_wf(
            frames.push(frame),
            committed(
                m,
                capacity,
                grant_start(m, capacity, needed)->0,
                frame.len() + FRAME_OVERHEAD as nat,
            ),
            capacity,
        ),
{
    let start = grant_start(m, capacity, needed)->0;
    let used = frame.len() + FRAME_OVERHEAD as nat;
    let m2 = committed(m, capacity, start, used);
    let more = frames.push(frame);
    assert(more.drop_last() =~= frames);
    if m.write < m.read {
        let k = choose|k: int| #[trigger] divided(frames, m, k);
        assert(more.take(k) =~= frames.take(k));
        assert(more.skip(k).drop_last() =~= frames.skip(k));
        assert(more.skip(k).last() == frame);
        assert(divided(more, m2, k));
    } else if m.write + needed > capacity {
        let k = frames.len() as int;
        assert(more.take(k) =~= frames);
        assert(more.skip(k).drop_last() =~= Seq::<Seq<u8>>::empty());
        assert(more.skip(k).last() == frame);
        assert(space(Seq::<Seq<u8>>::empty()) == 0);
        assert(divided(more, m2, k));
    }
}

/// Giving up a piece that was granted keeps the frames between the marks.
pub proof fn giving_up_keeps_wf(frames: Seq<Seq<u8>>, m: Marks, capacity: nat, needed: nat)
    requires
        queue_wf(frames, m, capacity),
    ensures
        queue_wf(frames, given_up(m, capacity, needed), capacity),
{
    let m2 = given_up(m, capacity, needed);
    if m.write < m.read {
        let k = choose|k: int| #[trigger] divided(frames, m, k);
        assert(divided(frames, m2, k));
    } else if grant_start(m, capacity, needed) is Some && m.write + needed > capacity {
        let k = frames.len() as int;
        assert(frames.take(k) =~= frames);
        assert(frames.skip(k) =~= Seq::empty());
        assert(divided(frames, m2, k));
    }
}

/// Looking into a queue keeps the frames between the marks.
pub proof fn look_keeps_wf(frames: Seq<Seq<u8>>, m: Marks, capacity: nat)
    requires
        queue_wf(frames, m, capacity),
    ensures
        queue_wf(frames, looked(m), capacity),
{
    if m.read == m.last && m.write < m.read {
        let k = choose|k: int| #[trigger] divided(frames, m, k);
        if k > 0 {
            lemma_space_first(frames.take(k));
        }
        assert(frames.skip(0) =~= frames);
    }
}

/// Releasing the oldest frame keeps the frames between the marks.
pub proof fn release_keeps_wf(frames: Seq<Seq<u8>>, m: Marks, capacity: nat)
    requires
        queue_wf(frames, m, capacity),
        frames.len() > 0,
    ensures
        queue_wf(frames.skip(1), released(m, frames[0].len()), capacity),
{
    look_keeps_wf(frames, m, capacity);
    let m1 = looked(m);
    let m2 = released(m, frames[0].len());
    let rest = frames.skip(1);
    lemma_space_first(frames);
    if m1.write < m1.read {
        let k = choose|k: int| #[trigger] divided(frames, m1, k);
        if k > 0 {
            lemma_space_first(frames.take(k));
            assert(frames.take(k).skip(1) =~= rest.take(k - 1));
            assert(frames.skip(k) =~= rest.skip(k - 1));
            assert(divided(rest, m2, k - 1));
        } else {
            assert(frames.take(0) =~= Seq::empty());
        }
    }
}

/// A queue that nothing was put into yet grants every piece that fits, and an
/// empty one every piece that fits twice. No queue grants what does not fit.
pub proof fn grants_owed(frames: Seq<Seq<u8>>, m: Marks, capacity: nat, needed: nat)
    requires
        queue_wf(frames, m, capacity),
    ensures
        m.read == 0 && m.write == 0 && needed <= capacity ==> grant_start(m, capacity, needed)
            is Some,
        frames.len() == 0 && 2 * needed <= capacity ==> grant_start(m, capacity, needed) is Some,
        grant_start(m, capacity, needed) is Some ==> needed <= capacity,
{
    if m.write < m.read {
        let k = choose|k: int| #[trigger] divided(frames, m, k);
        assert(divided(frames, m, k));
    }
}

} // verus!
