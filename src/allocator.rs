//! The steady-state physical frame allocator: a stack of free 4 KiB frames.

use vstd::prelude::*;

verus! {

/// An error that occurs when memory cannot be allocated.
#[derive(Debug, Clone, Copy, PartialEq, Eq, Structural)]
pub struct OutOfMemory;

impl OutOfMemory {
    /// The message shown for this error.
    pub fn message(&self) -> (r: &'static str)
        ensures
            r@ == "out of memory"@,
    {
        "out of memory"
    }
}

/// A physical page allocator working at the granularity of one 4 KiB frame.
///
/// Free frames live in a fixed-capacity backing array used as a stack: the
/// most recently freed frame is the next one handed out.
pub struct Allocator {
    /// Backing storage; only the first `len` slots hold free frames.
    pages: Vec<u32>,
    /// The number of free frames.
    len: usize,
}

impl View for Allocator {
    type V = Seq<u32>;

    /// The free frames, oldest first; the last one is handed out next.
    closed spec fn view(&self) -> Seq<u32> {
        self.pages@.subrange(0, self.len as int)
    }
}

impl Allocator {
    /// The number of frames the backing storage can hold.
    pub closed spec fn capacity(&self) -> nat {
        self.pages@.len()
    }

    /// Internal consistency: the count of free frames fits the storage, the
    /// byte count of a full storage fits in a `usize`, and no frame is listed
    /// twice.
    pub closed spec fn wf(&self) -> bool {
        &&& self.len <= self.pages@.len()
        &&& self.pages@.len() * 4096 <= usize::MAX
        &&& self@.no_duplicates()
    }

    /// A consistent allocator lists no frame twice.
    pub proof fn lemma_no_duplicates(&self)
        requires
            self.wf(),
        ensures
            self@.no_duplicates(),
            self@.len() <= self.capacity(),
    {
    }

    /// Creates an empty allocator over the provided backing storage, sized to
    /// the number of frames that will ever be deposited.
    pub fn new(storage: Vec<u32>) -> (r: Self)
        requires
            storage@.len() * 4096 <= usize::MAX,
        ensures
            r.wf(),
            r@ == Seq::<u32>::empty(),
            r.capacity() == storage@.len(),
    {
        let r = Allocator { pages: storage, len: 0 };
        assert(r@ =~= Seq::<u32>::empty());
        assert(r.pages@.subrange(0, 0) =~= Seq::<u32>::empty());
        r
    }

    /// Deposits a free frame on top of the stack.
    ///
    /// The storage must not be full: it is sized to the exact number of
    /// frames. The frame must not be free already.
    pub fn deallocate(&mut self, page: u32)
        requires
            old(self).wf(),
            old(self)@.len() < old(self).capacity(),
            !old(self)@.contains(page),
        ensures
            final(self).wf(),
            final(self)@ == old(self)@.push(page),
            final(self).capacity() == old(self).capacity(),
    {
        let i = self.len;
        self.pages.set(i, page);
        self.len = i + 1;
        assert(self@ =~= old(self)@.push(page));
        proof {
            assert forall|a: int, b: int| 0 <= a < b < self@.len() implies self@[a] != self@[b] by {
                if b == self@.len() - 1 {
                    assert(old(self)@[a] == self@[a]);
                } else {
                    assert(old(self)@[a] == self@[a] && old(self)@[b] == self@[b]);
                }
            }
        }
    }

    /// Takes the most recently freed frame off the stack.
    pub fn allocate(&mut self) -> (r: Result<u32, OutOfMemory>)
        requires
            old(self).wf(),
        ensures
            final(self).wf(),
            final(self).capacity() == old(self).capacity(),
            old(self)@.len() == 0 ==> r == Err::<u32, OutOfMemory>(OutOfMemory) && final(self)@ == old(self)@,
            old(self)@.len() > 0 ==> r == Ok::<u32, OutOfMemory>(old(self)@.last())
                && final(self)@ == old(self)@.drop_last(),
    {
        if self.len == 0 {
            return Err(OutOfMemory);
        }
        self.len = self.len - 1;
        let page = self.pages[self.len];
        assert(self@ =~= old(self)@.drop_last());
        proof {
            assert forall|i: int, j: int| 0 <= i < j < self@.len() implies self@[i] != self@[j] by {
                assert(self@[i] == old(self)@[i] && self@[j] == old(self)@[j]);
            }
        }
        Ok(page)
    }

    /// The number of bytes held by the free frames.
    pub fn remaining_memory(&self) -> (r: usize)
        requires
            self.wf(),
        ensures
            r == self@.len() * 4096,
    {
        proof {
            vstd::arithmetic::mul::lemma_mul_inequality(self.len as int, self.pages@.len() as int, 4096);
        }
        self.len * 0x1000
    }
}

/// Stack discipline: after depositing `f1` then `f2`, the next allocation
/// returns `f2`, and the one after it `f1`.
pub proof fn lemma_last_freed_first_out(s0: Allocator, s1: Allocator, s2: Allocator, f1: u32, f2: u32)
    requires
        s1@ == s0@.push(f1),
        s2@ == s1@.push(f2),
    ensures
        s2@.len() > 0 && s2@.last() == f2,
        s2@.drop_last().len() > 0 && s2@.drop_last().last() == f1,
        s2@.drop_last().drop_last() == s0@,
{
    assert(s2@.drop_last() =~= s1@);
    assert(s1@.drop_last() =~= s0@);
}

/// A frame held once in the free list is no longer in it once an allocation
/// has returned it, so no later allocation returns it again unless it is
/// deposited anew.
pub proof fn lemma_allocated_frame_leaves(before: Allocator, after: Allocator, frame: u32)
    requires
        before@.len() > 0,
        before@.last() == frame,
        after@ == before@.drop_last(),
        before@.to_multiset().count(frame) == 1,
    ensures
        !after@.contains(frame),
{
    let s = before@;
    assert(s =~= s.drop_last().push(frame));
    vstd::seq_lib::lemma_multiset_commutative(s.drop_last(), seq![frame]);
    assert(s.drop_last() + seq![frame] =~= s);
    s.drop_last().to_multiset_ensures();
    seq![frame].to_multiset_ensures();
    assert(seq![frame].to_multiset().count(frame) >= 1) by {
        assert(seq![frame].contains(frame) ==> seq![frame].to_multiset().count(frame) > 0);
        assert(seq![frame][0] == frame);
    }
    assert(s.drop_last().to_multiset().count(frame) == 0);
}

} // verus!

verus! {

/// One call on a frame allocator: a deposit of a frame, or an allocation
/// with what it returned.
#[derive(Clone, Copy, Debug)]
pub enum FrameOp {
    Deposit(u32),
    Take(Result<u32, OutOfMemory>),
}

/// What the call `op` does to an allocator, going from `pre` to `post`: the
/// contracts of `deallocate` and `allocate`.
pub open spec fn frame_op_post(pre: Allocator, post: Allocator, op: FrameOp) -> bool {
    match op {
        FrameOp::Deposit(f) => post@ == pre@.push(f),
        FrameOp::Take(r) => {
            &&& pre@.len() == 0 ==> r == Err::<u32, OutOfMemory>(OutOfMemory) && post@ == pre@
            &&& pre@.len() > 0 ==> r == Ok::<u32, OutOfMemory>(pre@.last()) && post@ == pre@.drop_last()
        },
    }
}

/// How many of `ops` deposit `x`.
pub open spec fn deposits_of(ops: Seq<FrameOp>, x: u32) -> nat
    decreases ops.len(),
{
    if ops.len() == 0 {
        0
    } else {
        deposits_of(ops.drop_last(), x) + if ops.last() == FrameOp::Deposit(x) { 1nat } else { 0nat }
    }
}

/// How many of `ops` are allocations that returned `x`.
pub open spec fn takes_of(ops: Seq<FrameOp>, x: u32) -> nat
    decreases ops.len(),
{
    if ops.len() == 0 {
        0
    } else {
        takes_of(ops.drop_last(), x) + if ops.last() == FrameOp::Take(Ok(x)) { 1nat } else { 0nat }
    }
}

/// Over the lifetime of an allocator that starts empty, every frame has been
/// handed out as often as it was deposited, less the copies still free: a
/// frame deposited once is returned by at most one allocation.
pub proof fn lemma_taken_at_most_deposited(states: Seq<Allocator>, ops: Seq<FrameOp>, x: u32)
    requires
        states.len() == ops.len() + 1,
        states[0]@ == Seq::<u32>::empty(),
        forall|i: int| 0 <= i < ops.len() ==> #[trigger] frame_op_post(states[i], states[i + 1], ops[i]),
    ensures
        takes_of(ops, x) + states.last()@.to_multiset().count(x) == deposits_of(ops, x),
        deposits_of(ops, x) <= 1 ==> takes_of(ops, x) <= 1,
    decreases ops.len(),
{
    if ops.len() == 0 {
        assert(states.last()@ =~= Seq::<u32>::empty());
        states.last()@.to_multiset_ensures();
        assert(states.last()@.to_multiset() =~= vstd::multiset::Multiset::empty());
    } else {
        let n = ops.len() - 1;
        let ps = states.drop_last();
        let po = ops.drop_last();
        assert forall|i: int| 0 <= i < po.len() implies #[trigger] frame_op_post(ps[i], ps[i + 1], po[i]) by {
            assert(frame_op_post(states[i], states[i + 1], ops[i]));
        }
        lemma_taken_at_most_deposited(ps, po, x);
        assert(frame_op_post(states[n], states[n + 1], ops[n]));
        let pre = states[n]@;
        let post = states[n + 1]@;
        assert(ps.last() == states[n]);
        pre.to_multiset_ensures();
        post.to_multiset_ensures();
        match ops[n] {
            FrameOp::Deposit(f) => {
                assert(post.to_multiset() =~= pre.to_multiset().insert(f));
            },
            FrameOp::Take(r) => {
                if pre.len() > 0 {
                    assert(pre =~= pre.drop_last().push(pre.last()));
                    pre.drop_last().to_multiset_ensures();
                    assert(pre.to_multiset() =~= post.to_multiset().insert(pre.last()));
                }
            },
        }
    }
}

} // verus!
