//! The funnel through which many producers write whole frames to one stream.
//!
//! A producer counts its frame and queues it. The producer that found the
//! count at zero is the drainer: it takes frames from the queue batch by
//! batch, writes each batch, and takes the batch's size off the count, until
//! the count is back at zero. All others return at once. The frame is
//! counted before it is queued, so the drainer never takes a frame that is
//! not in the count, and the count cannot come back to zero while a drainer
//! is at work.

use crate::vec_bufs::{batch_new, batch_push, batch_slice, held, VecBufs, MAX_VEC_BUF};
use arrayvec::ArrayVec;
use crossbeam::queue::SegQueue;
use std::sync::atomic::{AtomicUsize, Ordering};
use vstd::prelude::*;

verus! {

/// `crossbeam::queue::SegQueue`, an unbounded queue that many threads push
/// to and pop from at once. Nothing of its inside is known here.
#[verifier::external_type_specification]
#[verifier::external_body]
#[verifier::reject_recursive_types(T)]
pub struct ExSegQueue<T>(SegQueue<T>);

/// `SegQueue::new`. The queue is shared between threads, so nothing is
/// claimed of what it holds.
pub assume_specification<T>[ SegQueue::<T>::new ]() -> (queue: SegQueue<T>);

/// `SegQueue::push`. Nothing is claimed: other threads push and pop too.
pub assume_specification<T>[ SegQueue::<T>::push ](queue: &SegQueue<T>, value: T);

/// `SegQueue::pop`. Nothing is claimed of the result: whether the queue has
/// an element depends on the other threads.
pub assume_specification<T>[ SegQueue::<T>::pop ](queue: &SegQueue<T>) -> (value: Option<T>);

/// Whether the producer that counted its frame must drain the queue: it
/// must where the count stood at zero before.
pub open spec fn is_first(before: int) -> bool {
    before == 0
}

/// Whether the drainer is done after a batch of `cnt` frames: it is where
/// the count, which stood at `before`, is back at zero.
pub open spec fn is_drained(before: int, cnt: int) -> bool {
    before == cnt
}

/// Decides from the count before a producer's own frame whether that
/// producer drains the queue.
pub fn becomes_drainer(before: usize) -> (drainer: bool)
    ensures
        drainer == is_first(before as int),
{
    before == 0
}

/// Decides from the count before a batch of `cnt` frames was taken off it
/// whether the drainer is done.
pub fn drain_done(before: usize, cnt: usize) -> (done: bool)
    ensures
        done == is_drained(before as int, cnt as int),
{
    before == cnt
}

/// What a batch holds after the queue answered `popped`: the frame is added
/// behind the others, if there was one.
pub open spec fn batch_with(batch: Seq<Seq<u8>>, popped: Option<Vec<u8>>) -> Seq<Seq<u8>> {
    match popped {
        Some(data) => batch.push(data@),
        None => batch,
    }
}

/// Whether the drainer asks the queue for another frame after the queue
/// answered `popped`: it does until the queue is empty or the batch is full.
pub open spec fn wants_more(batch: Seq<Seq<u8>>, popped: Option<Vec<u8>>) -> bool {
    popped is Some && batch.len() + 1 < MAX_VEC_BUF
}

/// How many more frames a batch can take.
pub fn batch_room(batch: &ArrayVec<Vec<u8>, MAX_VEC_BUF>) -> (room: usize)
    ensures
        room == MAX_VEC_BUF - held(*batch).len(),
        held(*batch).len() <= MAX_VEC_BUF,
{
    MAX_VEC_BUF - batch_slice(batch).len()
}

/// Adds what the queue handed out to the batch and says whether the drainer
/// should ask for more.
pub fn take_frame(batch: &mut ArrayVec<Vec<u8>, MAX_VEC_BUF>, popped: Option<Vec<u8>>) -> (more:
    bool)
    requires
        held(*old(batch)).len() < MAX_VEC_BUF,
    ensures
        held(*final(batch)) == batch_with(held(*old(batch)), popped),
        more == wants_more(held(*old(batch)), popped),
        more ==> held(*final(batch)).len() < MAX_VEC_BUF,
        held(*final(batch)).len() <= MAX_VEC_BUF,
{
    match popped {
        Some(data) => {
            batch_push(batch, data);
            batch_room(batch) > 0
        },
        None => false,
    }
}

/// The queue of frames in front of one stream, and the count of those that
/// are queued and not yet written.
#[derive(Debug)]
pub struct QueuedWriter {
    data_count: AtomicUsize,
    data_queue: SegQueue<Vec<u8>>,
}

impl QueuedWriter {
    /// A writer with nothing queued.
    pub fn new() -> QueuedWriter {
        QueuedWriter { data_count: AtomicUsize::new(0), data_queue: SegQueue::new() }
    }

    /// Counts a frame and queues it. Never blocks. Says whether the caller
    /// has become the drainer, which is the case where the count stood at
    /// zero: the caller then has to write out batches until `complete` says
    /// the queue is drained.
    pub fn write(&self, data: Vec<u8>) -> (drainer: bool) {
        let before = self.data_count.fetch_add(1, Ordering::AcqRel);
        self.data_queue.push(data);
        becomes_drainer(before)
    }

    /// Takes the next frames off the queue, in queue order, until the queue
    /// is empty or the batch is full.
    pub fn next_batch(&self) -> (batch: VecBufs)
        ensures
            batch.frames().len() <= MAX_VEC_BUF,
            batch.block() == 0,
            batch.pos() == 0,
            batch.in_range(),
    {
        let mut total = batch_new();
        let mut more = true;
        while more
            invariant
                held(total).len() <= MAX_VEC_BUF,
                more ==> held(total).len() < MAX_VEC_BUF,
            decreases MAX_VEC_BUF - held(total).len() + if more { 1int } else { 0int },
        {
            let popped = self.data_queue.pop();
            more = take_frame(&mut total, popped);
        }
        VecBufs::new(total)
    }

    /// Takes a written batch of `cnt` frames off the count. Says whether the
    /// queue is drained; while it is not, the drainer takes the next batch.
    pub fn complete(&self, cnt: usize) -> (done: bool) {
        let before = self.data_count.fetch_sub(cnt, Ordering::AcqRel);
        drain_done(before, cnt)
    }
}

} // verus!
