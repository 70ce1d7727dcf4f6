//! A batch of whole frames and a cursor over their bytes, for writing the
//! batch to a stream in as few vectored writes as the stream allows.

use arrayvec::ArrayVec;
use vstd::prelude::*;
use vstd::slice::slice_subrange;

verus! {

/// The most frames that one batch holds.
pub const MAX_VEC_BUF: usize = 64;

/// `arrayvec::ArrayVec`, a vector with a fixed capacity that lives in
/// place. Nothing of its inside is known here; what it holds is named by
/// `held` and `held_slices`.
#[verifier::external_type_specification]
#[verifier::external_body]
#[verifier::reject_recursive_types(T)]
pub struct ExArrayVec<T, const CAP: usize>(ArrayVec<T, CAP>);

/// The buffers that a batch holds, first pushed first.
pub uninterp spec fn held(bufs: ArrayVec<Vec<u8>, MAX_VEC_BUF>) -> Seq<Seq<u8>>;

/// The slices that a list of slices holds, first pushed first.
pub uninterp spec fn held_slices(slices: ArrayVec<&[u8], MAX_VEC_BUF>) -> Seq<Seq<u8>>;

/// `ArrayVec::new`: a batch that holds nothing.
#[verifier::external_body]
pub(crate) fn batch_new() -> (bufs: ArrayVec<Vec<u8>, MAX_VEC_BUF>)
    ensures
        held(bufs) == Seq::<Seq<u8>>::empty(),
{
    ArrayVec::new()
}

/// `ArrayVec::push` below capacity: the buffer is added behind the others.
#[verifier::external_body]
pub(crate) fn batch_push(bufs: &mut ArrayVec<Vec<u8>, MAX_VEC_BUF>, data: Vec<u8>)
    requires
        held(*old(bufs)).len() < MAX_VEC_BUF,
    ensures
        held(*final(bufs)) == held(*old(bufs)).push(data@),
{
    bufs.push(data)
}

/// `ArrayVec::as_slice`: the buffers in order, never more than the capacity.
#[verifier::external_body]
pub(crate) fn batch_slice(bufs: &ArrayVec<Vec<u8>, MAX_VEC_BUF>) -> (all: &[Vec<u8>])
    ensures
        all@.len() == held(*bufs).len(),
        all@.len() <= MAX_VEC_BUF,
        forall|i: int| 0 <= i < all@.len() ==> (#[trigger] all@[i])@ == held(*bufs)[i],
{
    bufs.as_slice()
}

/// `ArrayVec::new`: a list of slices that holds nothing.
#[verifier::external_body]
fn slices_new<'a>() -> (slices: ArrayVec<&'a [u8], MAX_VEC_BUF>)
    ensures
        held_slices(slices) == Seq::<Seq<u8>>::empty(),
{
    ArrayVec::new()
}

/// `ArrayVec::push` below capacity: the slice is added behind the others.
#[verifier::external_body]
fn slices_push<'a>(slices: &mut ArrayVec<&'a [u8], MAX_VEC_BUF>, slice: &'a [u8])
    requires
        held_slices(*old(slices)).len() < MAX_VEC_BUF,
    ensures
        held_slices(*final(slices)) == held_slices(*old(slices)).push(slice@),
{
    slices.push(slice)
}

/// The bytes of `frames` one after the other.
pub open spec fn concat(frames: Seq<Seq<u8>>) -> Seq<u8>
    decreases frames.len(),
{
    if frames.len() == 0 {
        Seq::<u8>::empty()
    } else {
        concat(frames.drop_last()) + frames.last()
    }
}

/// How many bytes lie in front of byte `pos` of frame `block`.
pub open spec fn offset(frames: Seq<Seq<u8>>, block: int, pos: int) -> int {
    concat(frames.take(block)).len() + pos
}

/// One frame more adds that frame's bytes.
pub proof fn lemma_concat_push(frames: Seq<Seq<u8>>, next: Seq<u8>)
    ensures
        concat(frames.push(next)) == concat(frames) + next,
{
    assert(frames.push(next).drop_last() =~= frames);
}

/// The bytes of two runs of frames are the bytes of the first, then those of
/// the second.
pub proof fn lemma_concat_add(a: Seq<Seq<u8>>, b: Seq<Seq<u8>>)
    ensures
        concat(a + b) == concat(a) + concat(b),
    decreases b.len(),
{
    if b.len() == 0 {
        assert(a + b =~= a);
        assert(concat(a) + concat(b) =~= concat(a));
    } else {
        lemma_concat_add(a, b.drop_last());
        assert((a + b).drop_last() =~= a + b.drop_last());
        assert(concat(a + b) =~= concat(a) + concat(b));
    }
}

/// The frames in front of frame `block`, then frame `block`, are the frames
/// in front of frame `block + 1`.
pub proof fn lemma_offset_step(frames: Seq<Seq<u8>>, block: int)
    requires
        0 <= block < frames.len(),
    ensures
        offset(frames, block + 1, 0) == offset(frames, block, frames[block].len() as int),
        offset(frames, block + 1, 0) <= concat(frames).len(),
{
    assert(frames.take(block + 1).drop_last() =~= frames.take(block));
    assert(frames =~= frames.take(block + 1) + frames.skip(block + 1));
    lemma_concat_add(frames.take(block + 1), frames.skip(block + 1));
}

/// A batch of frames on its way to a stream. The cursor stands at byte
/// `pos` of frame `block`; everything in front of it has been written.
#[derive(Debug)]
pub struct VecBufs {
    block: usize,
    pos: usize,
    bufs: ArrayVec<Vec<u8>, MAX_VEC_BUF>,
}

impl VecBufs {
    #[verifier::type_invariant]
    spec fn well_formed(&self) -> bool {
        &&& self.block <= held(self.bufs).len()
        &&& self.block < held(self.bufs).len() ==> self.pos <= held(self.bufs)[
            self.block as int
        ].len()
        &&& self.block == held(self.bufs).len() ==> self.pos == 0
    }

    /// The frames of the batch, in the order in which they are written.
    pub closed spec fn frames(&self) -> Seq<Seq<u8>> {
        held(self.bufs)
    }

    /// The frame that the cursor stands in; the number of frames once all
    /// are written.
    pub closed spec fn block(&self) -> int {
        self.block as int
    }

    /// The cursor's place within its frame.
    pub closed spec fn pos(&self) -> int {
        self.pos as int
    }

    /// The cursor stands inside the batch, or right behind it.
    pub open spec fn in_range(&self) -> bool {
        &&& 0 <= self.block() <= self.frames().len()
        &&& 0 <= self.pos()
        &&& self.block() < self.frames().len() ==> self.pos() <= self.frames()[self.block()].len()
        &&& self.block() == self.frames().len() ==> self.pos() == 0
    }

    /// The cursor stands on a byte that is still to be written, or behind
    /// the last frame.
    pub open spec fn settled(&self) -> bool {
        self.block() == self.frames().len() || self.pos() < self.frames()[self.block()].len()
    }

    /// How many bytes of the batch have been written.
    pub open spec fn consumed(&self) -> int {
        offset(self.frames(), self.block(), self.pos())
    }

    /// The bytes of the batch that have been written.
    pub open spec fn written(&self) -> Seq<u8> {
        concat(self.frames()).take(self.consumed())
    }

    /// The bytes of the batch that are still to be written.
    pub open spec fn remaining(&self) -> Seq<u8> {
        concat(self.frames()).skip(self.consumed())
    }

    /// A batch of which nothing has been written.
    pub fn new(bufs: ArrayVec<Vec<u8>, MAX_VEC_BUF>) -> (batch: VecBufs)
        ensures
            batch.frames() == held(bufs),
            batch.block() == 0,
            batch.pos() == 0,
            batch.in_range(),
    {
        VecBufs { block: 0, pos: 0, bufs }
    }

    /// How many frames the batch holds.
    pub fn len(&self) -> (n: usize)
        ensures
            n == self.frames().len(),
            n <= MAX_VEC_BUF,
    {
        batch_slice(&self.bufs).len()
    }

    /// Whether every frame has been passed by the cursor.
    pub fn is_empty(&self) -> (done: bool)
        ensures
            self.in_range(),
            done <==> self.block() == self.frames().len(),
            done ==> self.remaining() == Seq::<u8>::empty() && self.written() == concat(
                self.frames(),
            ),
    {
        proof {
            use_type_invariant(self);
        }
        let all = batch_slice(&self.bufs);
        proof {
            if self.block == all.len() {
                assert(self.frames().take(self.block()) =~= self.frames());
                assert(self.remaining() =~= Seq::<u8>::empty());
                assert(self.written() =~= concat(self.frames()));
            }
        }
        self.block == all.len()
    }
}

impl VecBufs {
    /// Moves the cursor over the `n` bytes that the stream accepted. Frames
    /// that are written to their end are passed, empty ones too. Where `n`
    /// is more than what is left, the cursor stops behind the last frame.
    pub fn advance(&mut self, n: usize)
        ensures
            final(self).frames() == old(self).frames(),
            final(self).in_range(),
            final(self).settled(),
            final(self).consumed() == if n <= old(self).remaining().len() {
                old(self).consumed() + n
            } else {
                concat(old(self).frames()).len() as int
            },
            final(self).written() == old(self).written() + old(self).remaining().take(
                if n <= old(self).remaining().len() {
                    n as int
                } else {
                    old(self).remaining().len() as int
                },
            ),
            final(self).remaining() == old(self).remaining().skip(
                if n <= old(self).remaining().len() {
                    n as int
                } else {
                    old(self).remaining().len() as int
                },
            ),
    {
        proof {
            use_type_invariant(&*self);
        }
        let all = batch_slice(&self.bufs);
        let ghost frames = held(self.bufs);
        let ghost start = offset(frames, self.block as int, self.pos as int);
        let ghost total = concat(frames).len() as int;
        let mut left = n;
        let mut block = self.block;
        let mut pos = self.pos;
        proof {
            if block < all.len() {
                lemma_offset_step(frames, block as int);
            } else {
                assert(frames.take(block as int) =~= frames);
            }
        }
        while block < all.len()
            invariant_except_break
                offset(frames, block as int, pos as int) + left == start + n,
            invariant
                all@.len() == frames.len(),
                forall|i: int| 0 <= i < all@.len() ==> (#[trigger] all@[i])@ == frames[i],
                block <= all.len(),
                block < all.len() ==> pos <= frames[block as int].len(),
                block == all.len() ==> pos == 0,
                total == concat(frames).len(),
                start <= total,
                offset(frames, block as int, pos as int) <= total,
                block == all.len() ==> offset(frames, block as int, pos as int) == total,
            ensures
                block == all.len() || pos < frames[block as int].len(),
                block < all.len() ==> offset(frames, block as int, pos as int) == start + n,
                block == all.len() ==> total <= start + n,
            decreases all.len() - block,
        {
            let avail = all[block].len() - pos;
            proof {
                lemma_offset_step(frames, block as int);
            }
            if left >= avail {
                left = left - avail;
                block = block + 1;
                pos = 0;
                proof {
                    if block < all.len() {
                        lemma_offset_step(frames, block as int);
                    } else {
                        assert(frames.take(block as int) =~= frames);
                    }
                }
            } else {
                pos = pos + left;
                break ;
            }
        }
        proof {
            if block == all.len() {
                assert(frames.take(block as int) =~= frames);
            }
        }
        self.pos = 0;
        self.block = block;
        self.pos = pos;
        proof {
            let whole = concat(frames);
            let end = offset(frames, block as int, pos as int);
            assert(old(self).remaining().len() == total - start);
            assert(self.written() =~= old(self).written() + old(self).remaining().take(
                end - start,
            ));
            assert(self.remaining() =~= old(self).remaining().skip(end - start));
        }
    }
}

/// The slices that a vectored write is handed when the cursor stands at
/// byte `pos` of frame `block`: the rest of that frame, then every later
/// frame whole.
pub open spec fn slices_from(frames: Seq<Seq<u8>>, block: int, pos: int) -> Seq<Seq<u8>> {
    seq![frames[block].skip(pos)] + frames.skip(block + 1)
}

/// The slices handed to a vectored write hold, one after the other, exactly
/// the bytes behind the cursor.
pub proof fn lemma_slices_are_remaining(frames: Seq<Seq<u8>>, block: int, pos: int)
    requires
        0 <= block < frames.len(),
        0 <= pos <= frames[block].len(),
    ensures
        concat(slices_from(frames, block, pos)) == concat(frames).skip(
            offset(frames, block, pos),
        ),
{
    let head = frames.take(block);
    let tail = frames.skip(block + 1);
    let rest = frames[block].skip(pos);
    assert(frames =~= head.push(frames[block]) + tail);
    lemma_concat_add(head.push(frames[block]), tail);
    lemma_concat_push(head, frames[block]);
    lemma_concat_add(seq![rest], tail);
    lemma_concat_push(Seq::<Seq<u8>>::empty(), rest);
    assert(Seq::<Seq<u8>>::empty().push(rest) =~= seq![rest]);
    assert(concat(seq![rest]) =~= rest);
    assert(concat(slices_from(frames, block, pos)) =~= concat(frames).skip(
        offset(frames, block, pos),
    ));
}

/// Later frames start at later bytes.
pub proof fn lemma_offset_monotone(frames: Seq<Seq<u8>>, a: int, b: int)
    requires
        0 <= a <= b <= frames.len(),
    ensures
        offset(frames, a, 0) <= offset(frames, b, 0),
    decreases b - a,
{
    if a < b {
        lemma_offset_step(frames, a);
        lemma_offset_monotone(frames, a + 1, b);
    }
}

/// Each frame lies whole on the wire: the bytes from where frame `k` starts
/// to where the next one starts are the bytes of frame `k`, with no byte of
/// another frame among them.
pub proof fn lemma_frame_whole(frames: Seq<Seq<u8>>, k: int)
    requires
        0 <= k < frames.len(),
    ensures
        0 <= offset(frames, k, 0) <= offset(frames, k + 1, 0) <= concat(frames).len(),
        offset(frames, k + 1, 0) - offset(frames, k, 0) == frames[k].len(),
        concat(frames).subrange(offset(frames, k, 0), offset(frames, k + 1, 0)) == frames[k],
{
    let head = frames.take(k);
    let tail = frames.skip(k + 1);
    lemma_offset_step(frames, k);
    assert(frames =~= head.push(frames[k]) + tail);
    lemma_concat_add(head.push(frames[k]), tail);
    lemma_concat_push(head, frames[k]);
    assert(frames.take(k + 1) =~= head.push(frames[k]));
    assert(concat(frames).subrange(offset(frames, k, 0), offset(frames, k + 1, 0))
        =~= frames[k]);
}

/// Frames keep their order on the wire: a frame that stands earlier in the
/// batch ends before a later one starts.
pub proof fn lemma_order_kept(frames: Seq<Seq<u8>>, i: int, j: int)
    requires
        0 <= i < j < frames.len(),
    ensures
        offset(frames, i + 1, 0) <= offset(frames, j, 0),
{
    lemma_offset_monotone(frames, i + 1, j);
}

/// A settled cursor is fixed by the number of bytes in front of it: two
/// settled cursors over the same frames with the same bytes written stand at
/// the same place.
pub proof fn lemma_settled_unique(one: VecBufs, other: VecBufs)
    requires
        one.frames() == other.frames(),
        one.in_range(),
        other.in_range(),
        one.settled(),
        other.settled(),
        one.consumed() == other.consumed(),
    ensures
        one.block() == other.block(),
        one.pos() == other.pos(),
{
    let frames = one.frames();
    if one.block() < other.block() {
        lemma_offset_step(frames, one.block());
        lemma_offset_monotone(frames, one.block() + 1, other.block());
    } else if other.block() < one.block() {
        lemma_offset_step(frames, other.block());
        lemma_offset_monotone(frames, other.block() + 1, one.block());
    }
}

impl VecBufs {
    /// The slices for the next vectored write: what is left of the frame
    /// under the cursor, then each later frame. Together they are the bytes
    /// still to be written, in order.
    pub fn get_io_slice(&self) -> (slices: ArrayVec<&[u8], MAX_VEC_BUF>)
        requires
            self.block() < self.frames().len(),
        ensures
            held_slices(slices) == slices_from(self.frames(), self.block(), self.pos()),
            concat(held_slices(slices)) == self.remaining(),
    {
        proof {
            use_type_invariant(self);
            lemma_slices_are_remaining(held(self.bufs), self.block as int, self.pos as int);
        }
        let all = batch_slice(&self.bufs);
        let ghost frames = held(self.bufs);
        let mut ret = slices_new();
        let current = all[self.block].as_slice();
        let first = slice_subrange(current, self.pos, current.len());
        slices_push(&mut ret, first);
        let mut i = self.block + 1;
        assert(held_slices(ret) =~= seq![frames[self.block as int].skip(self.pos as int)]
            + frames.subrange(self.block + 1, i as int));
        while i < all.len()
            invariant
                self.block < i <= all.len(),
                all@.len() == frames.len(),
                all@.len() <= MAX_VEC_BUF,
                forall|k: int| 0 <= k < all@.len() ==> (#[trigger] all@[k])@ == frames[k],
                held_slices(ret) == seq![frames[self.block as int].skip(self.pos as int)]
                    + frames.subrange(self.block + 1, i as int),
            decreases all.len() - i,
        {
            slices_push(&mut ret, all[i].as_slice());
            i = i + 1;
            assert(held_slices(ret) =~= seq![frames[self.block as int].skip(self.pos as int)]
                + frames.subrange(self.block + 1, i as int));
        }
        assert(frames.subrange(self.block + 1, i as int) =~= frames.skip(self.block + 1));
        ret
    }
}

} // verus!
