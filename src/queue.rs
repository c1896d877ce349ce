//! The ordering core of the queued writer.
//!
//! Many producers hand whole byte vectors to one writable endpoint. Each
//! vector is accepted into a queue; the first producer that finds no writer
//! at work becomes the writer and drains the queue in batches, so every
//! vector reaches the wire whole and in the order it was accepted. Locking
//! and the vectored write itself belong to the caller.

use vstd::prelude::*;
use std::collections::VecDeque;

verus! {

/// The most vectors one batch holds.
pub const BATCH_MAX: usize = 64;

/// The vectors of `s`, concatenated in order.
pub open spec fn flatten(s: Seq<Seq<u8>>) -> Seq<u8>
    decreases s.len(),
{
    if s.len() == 0 {
        Seq::empty()
    } else {
        flatten(s.drop_last()) + s.last()
    }
}

/// The byte views of a sequence of vectors.
pub open spec fn views(s: Seq<Vec<u8>>) -> Seq<Seq<u8>> {
    Seq::new(s.len(), |i: int| s[i]@)
}

/// The queue state of one writer.
pub struct WriteQueue {
    pending: VecDeque<Vec<u8>>,
    writing: bool,
    accepted: Ghost<Seq<Seq<u8>>>,
    emitted: Ghost<Seq<Seq<u8>>>,
}

impl WriteQueue {
    /// Every vector accepted so far, in the order of acceptance.
    pub closed spec fn accepted(&self) -> Seq<Seq<u8>> {
        self.accepted@
    }

    /// Every vector handed out for writing so far, in order.
    pub closed spec fn emitted(&self) -> Seq<Seq<u8>> {
        self.emitted@
    }

    /// The vectors waiting for the writer.
    pub closed spec fn pending(&self) -> Seq<Seq<u8>> {
        views(self.pending@)
    }

    /// Whether a producer currently acts as the writer.
    pub closed spec fn is_writing(&self) -> bool {
        self.writing
    }

    /// What was emitted, followed by what waits, is what was accepted; with
    /// no writer at work nothing waits.
    pub closed spec fn wf(&self) -> bool {
        &&& self.emitted@ + views(self.pending@) == self.accepted@
        &&& !self.writing ==> self.pending@.len() == 0
    }

    /// An idle queue that has accepted nothing.
    pub fn new() -> (r: WriteQueue)
        ensures
            r.wf(),
            r.accepted() == Seq::<Seq<u8>>::empty(),
            r.emitted() == Seq::<Seq<u8>>::empty(),
            r.pending() == Seq::<Seq<u8>>::empty(),
            !r.is_writing(),
    {
        let r = WriteQueue {
            pending: VecDeque::new(),
            writing: false,
            accepted: Ghost(Seq::empty()),
            emitted: Ghost(Seq::empty()),
        };
        assert(r.emitted@ + views(r.pending@) =~= r.accepted@);
        assert(views(r.pending@) =~= Seq::<Seq<u8>>::empty());
        r
    }

    /// Accepts `data`. Returns true when the caller becomes the writer and
    /// must drain the queue; false when a writer is already at work and will
    /// emit it.
    pub fn push(&mut self, data: Vec<u8>) -> (r: bool)
        requires
            old(self).wf(),
        ensures
            final(self).wf(),
            final(self).accepted() == old(self).accepted().push(data@),
            final(self).emitted() == old(self).emitted(),
            final(self).pending() == old(self).pending().push(data@),
            final(self).is_writing(),
            r == !old(self).is_writing(),
    {
        let ghost d = data@;
        let ghost before = self.pending@;
        self.pending.push_back(data);
        self.accepted = Ghost(self.accepted@.push(d));
        assert(views(self.pending@) =~= views(before).push(d));
        assert(self.emitted@ + views(self.pending@) =~= self.accepted@);
        let first = !self.writing;
        self.writing = true;
        first
    }

    /// The writer takes the next batch: the oldest waiting vectors, at most
    /// `BATCH_MAX` of them, in order. They count as emitted from here on.
    pub fn take_batch(&mut self) -> (r: Vec<Vec<u8>>)
        requires
            old(self).wf(),
        ensures
            final(self).wf(),
            final(self).accepted() == old(self).accepted(),
            final(self).is_writing() == old(self).is_writing(),
            r@.len() == if old(self).pending().len() < BATCH_MAX {
                old(self).pending().len()
            } else {
                BATCH_MAX as nat
            },
            views(r@) == old(self).pending().take(r@.len() as int),
            final(self).pending() == old(self).pending().skip(r@.len() as int),
            final(self).emitted() == old(self).emitted() + views(r@),
    {
        let ghost start = views(self.pending@);
        let mut batch: Vec<Vec<u8>> = Vec::new();
        while batch.len() < BATCH_MAX && self.pending.len() > 0
            invariant
                batch@.len() <= BATCH_MAX,
                views(batch@) + views(self.pending@) == start,
                self.emitted@ + start == self.accepted@,
                self.accepted@ == old(self).accepted@,
                self.emitted@ == old(self).emitted@,
                self.writing == old(self).writing,
                !self.writing ==> start.len() == 0,
                start == views(old(self).pending@),
            decreases self.pending@.len(),
        {
            let ghost before_b = batch@;
            let ghost before_p = self.pending@;
            match self.pending.pop_front() {
                Some(v) => {
                    batch.push(v);
                    assert(views(batch@) =~= views(before_b).push(before_p[0]@));
                    assert(views(before_p) =~= seq![before_p[0]@] + views(self.pending@));
                    assert(views(batch@) + views(self.pending@) =~= views(before_b) + views(
                        before_p,
                    ));
                },
                None => {},
            }
        }
        proof {
            assert(start.take(batch@.len() as int) =~= views(batch@));
            assert(start.skip(batch@.len() as int) =~= views(self.pending@));
            self.emitted@ = self.emitted@ + views(batch@);
            assert(self.emitted@ + views(self.pending@) =~= self.accepted@);
        }
        batch
    }

    /// The writer is done with a batch. Returns true when more vectors wait
    /// and the writer must go on; otherwise the writer steps down.
    pub fn finish_batch(&mut self) -> (more: bool)
        requires
            old(self).wf(),
        ensures
            final(self).wf(),
            final(self).accepted() == old(self).accepted(),
            final(self).emitted() == old(self).emitted(),
            final(self).pending() == old(self).pending(),
            more == (old(self).pending().len() > 0),
            final(self).is_writing() == (old(self).is_writing() && more),
    {
        if self.pending.len() == 0 {
            self.writing = false;
            false
        } else {
            true
        }
    }
}

/// Total length of the vectors of `s`.
pub open spec fn total_len(s: Seq<Seq<u8>>) -> nat {
    flatten(s).len()
}

/// The flattened prefix of the first `i` vectors, and then the vector at `i`.
proof fn lemma_flatten_take_next(s: Seq<Seq<u8>>, i: int)
    requires
        0 <= i < s.len(),
    ensures
        flatten(s.take(i + 1)) == flatten(s.take(i)) + s[i],
{
    assert(s.take(i + 1).drop_last() =~= s.take(i));
}

/// How far a vectored write has got through a batch: every vector before
/// `vec` is written, and `off` bytes of vector `vec`.
pub struct BatchCursor {
    vec: usize,
    off: usize,
}

impl BatchCursor {
    /// The index of the vector being written.
    pub closed spec fn vec_index(&self) -> nat {
        self.vec as nat
    }

    /// The bytes of that vector already written.
    pub closed spec fn offset(&self) -> nat {
        self.off as nat
    }

    /// The cursor lies within `batch`, and short of the end it points into a
    /// vector that still has bytes to write.
    pub open spec fn wf(&self, batch: Seq<Seq<u8>>) -> bool {
        &&& self.vec_index() <= batch.len()
        &&& self.vec_index() < batch.len() ==> self.offset() < batch[self.vec_index() as int].len()
        &&& self.vec_index() == batch.len() ==> self.offset() == 0
    }

    /// The number of bytes of `batch` already written.
    pub open spec fn written(&self, batch: Seq<Seq<u8>>) -> nat {
        flatten(batch.take(self.vec_index() as int)).len() + self.offset()
    }

    /// Skips the empty vectors at the cursor.
    fn settle(&mut self, batch: &Vec<Vec<u8>>)
        requires
            old(self).vec_index() <= batch@.len(),
            old(self).vec_index() < batch@.len() ==> old(self).offset()
                <= batch@[old(self).vec_index() as int]@.len(),
            old(self).vec_index() == batch@.len() ==> old(self).offset() == 0,
        ensures
            final(self).wf(views(batch@)),
            final(self).written(views(batch@)) == old(self).written(views(batch@)),
    {
        let ghost b = views(batch@);
        while self.vec < batch.len() && self.off == batch[self.vec].len()
            invariant
                b == views(batch@),
                self.vec <= batch@.len(),
                self.vec < batch@.len() ==> self.off <= batch@[self.vec as int]@.len(),
                self.vec == batch@.len() ==> self.off == 0,
                self.written(b) == old(self).written(b),
            decreases batch@.len() - self.vec,
        {
            proof {
                lemma_flatten_take_next(b, self.vec as int);
            }
            self.vec = self.vec + 1;
            self.off = 0;
        }
    }

    /// A cursor at the start of `batch`.
    pub fn new(batch: &Vec<Vec<u8>>) -> (r: BatchCursor)
        ensures
            r.wf(views(batch@)),
            r.written(views(batch@)) == 0,
    {
        let mut r = BatchCursor { vec: 0, off: 0 };
        proof {
            assert(views(batch@).take(0) =~= Seq::<Seq<u8>>::empty());
        }
        r.settle(batch);
        r
    }

    /// Whether every byte of `batch` is written.
    pub fn is_done(&self, batch: &Vec<Vec<u8>>) -> (r: bool)
        requires
            self.wf(views(batch@)),
        ensures
            r == (self.vec_index() == batch@.len()),
    {
        self.vec == batch.len()
    }

    /// The index of the vector being written and the bytes of it already
    /// written; the write resumes there.
    pub fn position(&self) -> (r: (usize, usize))
        ensures
            r.0 == self.vec_index(),
            r.1 == self.offset(),
    {
        (self.vec, self.off)
    }

    /// Records that a write took `n` more bytes; a count past the end of the
    /// batch stops at the end.
    pub fn advance(&mut self, batch: &Vec<Vec<u8>>, n: usize)
        requires
            old(self).wf(views(batch@)),
        ensures
            final(self).wf(views(batch@)),
            final(self).written(views(batch@)) == if old(self).written(views(batch@)) + n
                <= total_len(views(batch@)) {
                old(self).written(views(batch@)) + n
            } else {
                total_len(views(batch@)) as int
            },
    {
        let ghost b = views(batch@);
        proof {
            lemma_written_bounded(*self, b);
        }
        let mut left = n;
        while left > 0 && self.vec < batch.len()
            invariant
                b == views(batch@),
                self.wf(b),
                self.written(b) <= total_len(b),
                self.written(b) + left == old(self).written(b) + n,
            decreases left,
        {
            let avail = batch[self.vec].len() - self.off;
            if left < avail {
                self.off = self.off + left;
                left = 0;
            } else {
                proof {
                    lemma_flatten_take_next(b, self.vec as int);
                }
                left = left - avail;
                self.vec = self.vec + 1;
                self.off = 0;
                self.settle(batch);
            }
            proof {
                lemma_written_bounded(*self, b);
            }
        }
        proof {
            if self.vec == batch.len() {
                assert(b.take(b.len() as int) =~= b);
            }
        }
    }
}

/// A cursor never counts more bytes than its batch holds.
proof fn lemma_written_bounded(c: BatchCursor, b: Seq<Seq<u8>>)
    requires
        c.wf(b),
    ensures
        c.written(b) <= total_len(b),
        c.vec_index() == b.len() ==> c.written(b) == total_len(b),
    decreases b.len() - c.vec_index(),
{
    if c.vec_index() == b.len() {
        assert(b.take(b.len() as int) =~= b);
    } else {
        let i = c.vec_index() as int;
        lemma_flatten_take_next(b, i);
        lemma_flatten_prefix_bounded(b, i + 1);
    }
}

/// The flattened prefix of a sequence is no longer than the whole.
proof fn lemma_flatten_prefix_bounded(s: Seq<Seq<u8>>, i: int)
    requires
        0 <= i <= s.len(),
    ensures
        flatten(s.take(i)).len() <= total_len(s),
    decreases s.len() - i,
{
    if i == s.len() {
        assert(s.take(i) =~= s);
    } else {
        lemma_flatten_take_next(s, i);
        lemma_flatten_prefix_bounded(s, i + 1);
    }
}

/// Nothing is lost or repeated: what was emitted, followed by what waits,
/// is exactly what was accepted; and when no writer is at work nothing
/// waits, so every accepted vector has been emitted.
pub proof fn lemma_queue_accounts(q: WriteQueue)
    requires
        q.wf(),
    ensures
        q.emitted() + q.pending() == q.accepted(),
        !q.is_writing() ==> q.pending().len() == 0 && q.emitted() == q.accepted(),
{
    if !q.is_writing() {
        assert(q.emitted() + q.pending() =~= q.emitted());
    }
}

/// Writes never interleave: the vectors handed to the wire are the accepted
/// ones, whole and in the order of acceptance, so the bytes on the wire are
/// the concatenation of a prefix of the accepted writes.
pub proof fn lemma_writes_not_interleaved(q: WriteQueue)
    requires
        q.wf(),
    ensures
        q.emitted() == q.accepted().take(q.emitted().len() as int),
        flatten(q.emitted()) == flatten(q.accepted().take(q.emitted().len() as int)),
{
    assert(q.accepted().take(q.emitted().len() as int) =~= q.emitted());
}

} // verus!
