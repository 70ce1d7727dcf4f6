//! The queued writer's protocol as a state machine over its atomic steps,
//! and what holds of every run of it over a stream that takes what it is
//! offered: one drainer at a time, and a wire that holds the queued frames
//! whole and in queue order.
//!
//! The steps are those of `QueuedWriter`: `write` counts the frame and then
//! queues it, `next_batch` takes frames from the queue, the drainer writes
//! the batch through its cursor, and `complete` takes the batch off the
//! count. Producers and the drainer take their steps in any order.

use crate::queued_writer::{is_drained, is_first};
use crate::vec_bufs::{concat, lemma_concat_add, lemma_concat_push, lemma_frame_whole};
use crate::vec_bufs::{lemma_order_kept, offset, MAX_VEC_BUF};
use vstd::prelude::*;

verus! {

/// One queued writer, seen from outside: what was queued, how far each part
/// of the protocol has come, and what is on the wire.
pub struct Funnel {
    /// Every frame that was queued, in queue order.
    pub pushed: Seq<Seq<u8>>,
    /// How many producers have counted their frame.
    pub counted: int,
    /// How many frames the drainer has taken from the queue.
    pub taken: int,
    /// How many frames are written, and taken off the count.
    pub written: int,
    /// How many bytes of the drainer's batch are written.
    pub sent: int,
    /// How many producers are draining.
    pub drainers: int,
    /// The bytes on the wire.
    pub wire: Seq<u8>,
}

/// One atomic step of the protocol.
pub enum Step {
    /// A producer adds one to the count, for the frame it is about to queue.
    Count,
    /// A producer that has counted its frame puts it in the queue.
    Push(Seq<u8>),
    /// A drainer takes the frame at the head of the queue into its batch.
    Take,
    /// The stream accepts so many more bytes of the drainer's batch.
    Write(int),
    /// A drainer that has written its batch takes the batch's size off the
    /// count.
    Flush,
}

impl Funnel {
    /// The writer before anything was queued.
    pub open spec fn start() -> Funnel {
        Funnel {
            pushed: Seq::empty(),
            counted: 0,
            taken: 0,
            written: 0,
            sent: 0,
            drainers: 0,
            wire: Seq::empty(),
        }
    }

    /// The pending count.
    pub open spec fn count(self) -> int {
        self.counted - self.written
    }

    /// The frames in the queue, head first.
    pub open spec fn queue(self) -> Seq<Seq<u8>> {
        self.pushed.skip(self.taken)
    }

    /// The frames in the drainer's batch.
    pub open spec fn batch(self) -> Seq<Seq<u8>> {
        self.pushed.subrange(self.written, self.taken)
    }

    /// Whether `step` can be taken. A producer may count at any time and
    /// queues what it has counted; a drainer takes what the queue holds,
    /// writes what its batch holds, and takes off the count what it has
    /// written.
    pub open spec fn allows(self, step: Step) -> bool {
        match step {
            Step::Count => true,
            Step::Push(_) => self.pushed.len() < self.counted,
            Step::Take => {
                &&& self.drainers >= 1
                &&& self.taken < self.pushed.len()
                &&& self.taken - self.written < MAX_VEC_BUF
            },
            Step::Write(n) => {
                &&& self.drainers >= 1
                &&& 0 <= n <= concat(self.batch()).len() - self.sent
            },
            Step::Flush => self.drainers >= 1 && self.sent == concat(self.batch()).len(),
        }
    }

    /// The writer after `step`.
    pub open spec fn after(self, step: Step) -> Funnel {
        match step {
            Step::Count => Funnel {
                counted: self.counted + 1,
                drainers: if is_first(self.count()) {
                    self.drainers + 1
                } else {
                    self.drainers
                },
                ..self
            },
            Step::Push(frame) => Funnel { pushed: self.pushed.push(frame), ..self },
            Step::Take => Funnel { taken: self.taken + 1, ..self },
            Step::Write(n) => Funnel {
                sent: self.sent + n,
                wire: self.wire + concat(self.batch()).subrange(self.sent, self.sent + n),
                ..self
            },
            Step::Flush => Funnel {
                written: self.taken,
                sent: 0,
                drainers: if is_drained(self.count(), self.taken - self.written) {
                    self.drainers - 1
                } else {
                    self.drainers
                },
                ..self
            },
        }
    }

    /// What holds of the writer after every run.
    pub open spec fn sound(self) -> bool {
        &&& 0 <= self.written <= self.taken <= self.pushed.len() <= self.counted
        &&& self.taken - self.written <= MAX_VEC_BUF
        &&& 0 <= self.sent <= concat(self.batch()).len()
        &&& 0 <= self.drainers <= 1
        &&& self.drainers == 1 <==> self.count() >= 1
        &&& self.drainers == 0 ==> self.taken == self.written && self.sent == 0
        &&& self.wire == concat(self.pushed.take(self.written)) + concat(self.batch()).take(
            self.sent,
        )
    }
}

/// The writer after the steps of `run`, taken in order from the start.
pub open spec fn outcome(run: Seq<Step>) -> Funnel
    decreases run.len(),
{
    if run.len() == 0 {
        Funnel::start()
    } else {
        outcome(run.drop_last()).after(run.last())
    }
}

/// Whether each step of `run` can be taken when its turn comes.
pub open spec fn possible(run: Seq<Step>) -> bool
    decreases run.len(),
{
    run.len() > 0 ==> possible(run.drop_last()) && outcome(run.drop_last()).allows(run.last())
}

/// A step that can be taken keeps the writer sound.
pub proof fn lemma_step_sound(s: Funnel, step: Step)
    requires
        s.sound(),
        s.allows(step),
    ensures
        s.after(step).sound(),
{
    let t = s.after(step);
    let done = s.pushed.take(s.written);
    match step {
        Step::Count => {},
        Step::Push(frame) => {
            assert(t.pushed.take(t.written) =~= done);
            assert(t.batch() =~= s.batch());
        },
        Step::Take => {
            assert(t.batch() =~= s.batch().push(s.pushed[s.taken]));
            lemma_concat_push(s.batch(), s.pushed[s.taken]);
            assert(concat(t.batch()).take(s.sent) =~= concat(s.batch()).take(s.sent));
        },
        Step::Write(n) => {
            assert(concat(s.batch()).take(s.sent + n) =~= concat(s.batch()).take(s.sent)
                + concat(s.batch()).subrange(s.sent, s.sent + n));
            assert(t.wire =~= concat(done) + concat(s.batch()).take(s.sent + n));
        },
        Step::Flush => {
            assert(s.pushed.take(s.taken) =~= done + s.batch());
            lemma_concat_add(done, s.batch());
            assert(concat(s.batch()).take(s.sent) =~= concat(s.batch()));
            assert(t.batch() =~= Seq::<Seq<u8>>::empty());
            assert(t.wire =~= concat(t.pushed.take(t.written)) + concat(t.batch()).take(0));
        },
    }
}

/// After every possible run the writer is sound.
pub proof fn lemma_run_sound(run: Seq<Step>)
    requires
        possible(run),
    ensures
        outcome(run).sound(),
    decreases run.len(),
{
    if run.len() == 0 {
        let s = Funnel::start();
        assert(s.pushed.take(0) =~= Seq::<Seq<u8>>::empty());
        assert(s.batch() =~= Seq::<Seq<u8>>::empty());
        assert(s.wire =~= concat(s.pushed.take(0)) + concat(s.batch()).take(0));
    } else {
        lemma_run_sound(run.drop_last());
        lemma_step_sound(outcome(run.drop_last()), run.last());
    }
}

/// At no time do two producers drain: the stream has one writer.
pub proof fn lemma_one_drainer(run: Seq<Step>)
    requires
        possible(run),
    ensures
        0 <= outcome(run).drainers <= 1,
{
    lemma_run_sound(run);
}

/// A producer that counts its frame while another drains is not made a
/// drainer: it queues its frame and returns.
pub proof fn lemma_others_return(run: Seq<Step>)
    requires
        possible(run),
        outcome(run).drainers == 1,
    ensures
        !is_first(outcome(run).count()),
        outcome(run).after(Step::Count).drainers == 1,
{
    lemma_run_sound(run);
}

/// At every instant the wire is a beginning of the queued frames laid one
/// after the other in queue order: no frame is split by bytes of another,
/// and none comes before one that was queued earlier.
pub proof fn lemma_wire_in_queue_order(run: Seq<Step>)
    requires
        possible(run),
    ensures
        outcome(run).wire.len() <= concat(outcome(run).pushed).len(),
        outcome(run).wire == concat(outcome(run).pushed).take(outcome(run).wire.len() as int),
{
    lemma_run_sound(run);
    let s = outcome(run);
    let done = s.pushed.take(s.written);
    let rest = s.pushed.skip(s.taken);
    assert(s.pushed =~= done + s.batch() + rest);
    lemma_concat_add(done + s.batch(), rest);
    lemma_concat_add(done, s.batch());
    assert(s.wire =~= concat(s.pushed).take(s.wire.len() as int));
}

/// When nobody drains, nothing waits: every frame that was counted is
/// queued and written, and the wire is those frames one after the other.
pub proof fn lemma_nothing_left(run: Seq<Step>)
    requires
        possible(run),
        outcome(run).drainers == 0,
    ensures
        outcome(run).written == outcome(run).counted,
        outcome(run).pushed.len() == outcome(run).counted,
        outcome(run).wire == concat(outcome(run).pushed),
{
    lemma_run_sound(run);
    let s = outcome(run);
    assert(s.pushed.take(s.written) =~= s.pushed);
    assert(s.batch() =~= Seq::<Seq<u8>>::empty());
    assert(s.wire =~= concat(s.pushed));
}

/// Frames are written whole: the `k`-th frame queued, once written, lies on
/// the wire in one piece, with no byte of another frame inside it.
pub proof fn lemma_wire_whole(run: Seq<Step>, k: int)
    requires
        possible(run),
        0 <= k < outcome(run).written,
    ensures
        ({
            let s = outcome(run);
            let done = s.pushed.take(s.written);
            &&& 0 <= offset(done, k, 0) <= offset(done, k + 1, 0) <= s.wire.len()
            &&& s.wire.subrange(offset(done, k, 0), offset(done, k + 1, 0)) == s.pushed[k]
        }),
{
    lemma_run_sound(run);
    let s = outcome(run);
    let done = s.pushed.take(s.written);
    lemma_frame_whole(done, k);
    assert(s.wire.subrange(offset(done, k, 0), offset(done, k + 1, 0)) =~= concat(
        done,
    ).subrange(offset(done, k, 0), offset(done, k + 1, 0)));
}

/// Frames keep their queue order on the wire: of two written frames, the
/// one queued first ends before the other starts.
pub proof fn lemma_wire_ordered(run: Seq<Step>, i: int, j: int)
    requires
        possible(run),
        0 <= i < j < outcome(run).written,
    ensures
        ({
            let s = outcome(run);
            let done = s.pushed.take(s.written);
            offset(done, i + 1, 0) <= offset(done, j, 0)
        }),
{
    lemma_run_sound(run);
    let s = outcome(run);
    lemma_order_kept(s.pushed.take(s.written), i, j);
}

/// What is written stays written: a further step only adds to the wire and
/// to what was queued.
pub proof fn lemma_wire_grows(s: Funnel, step: Step)
    requires
        s.sound(),
        s.allows(step),
    ensures
        s.after(step).wire.len() >= s.wire.len(),
        s.after(step).wire.take(s.wire.len() as int) == s.wire,
        s.after(step).pushed.take(s.pushed.len() as int) == s.pushed,
{
    let t = s.after(step);
    assert(t.wire.take(s.wire.len() as int) =~= s.wire);
    assert(t.pushed.take(s.pushed.len() as int) =~= s.pushed);
}

} // verus!
