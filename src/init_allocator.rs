//! The boot-time bump allocator: hands out raw physical memory downwards from
//! the top of a single region and never takes any of it back.

use vstd::prelude::*;
use crate::allocator::OutOfMemory;

verus! {

/// `x` rounded down to a multiple of `align`.
pub open spec fn align_down(x: int, align: int) -> int {
    x - x % align
}

/// The address that a request of `size` bytes aligned to `align` receives
/// from an allocator whose top is `top`, before the check against the base.
pub open spec fn candidate(top: int, size: int, align: int) -> int {
    align_down(top - size, align)
}

/// Allocates memory for the kernel before the frame allocator exists.
///
/// Memory it gives out is never reclaimed.
pub struct InitAllocator {
    /// The top of the free region; this is the address that moves.
    top: usize,
    /// The base of the free region; no allocation goes below it.
    base: usize,
}

impl InitAllocator {
    /// The current top of the free region.
    pub closed spec fn top_spec(&self) -> int {
        self.top as int
    }

    /// The base of the free region.
    pub closed spec fn base_spec(&self) -> int {
        self.base as int
    }

    /// The top never goes below the base.
    pub open spec fn wf(&self) -> bool {
        0 <= self.base_spec() <= self.top_spec() <= usize::MAX
    }

    /// Whether a request of `size` bytes aligned to `align` can be served.
    pub open spec fn can_allocate(&self, size: int, align: int) -> bool {
        size <= self.top_spec() && candidate(self.top_spec(), size, align) >= self.base_spec()
    }

    /// What a call `try_allocate_raw(size, align)` from `pre` to `post` with
    /// result `r` amounts to: when the request can be served, the top moves
    /// down to the returned address; otherwise nothing changes.
    pub open spec fn allocate_post(
        pre: Self,
        post: Self,
        size: int,
        align: int,
        r: Result<usize, OutOfMemory>,
    ) -> bool {
        &&& post.wf()
        &&& post.base_spec() == pre.base_spec()
        &&& (r is Ok <==> pre.can_allocate(size, align))
        &&& (r is Ok ==> r->Ok_0 == candidate(pre.top_spec(), size, align) && post.top_spec()
            == r->Ok_0)
        &&& (r is Err ==> post.top_spec() == pre.top_spec())
    }

    /// Takes ownership of the physical region `[base, top)`.
    pub fn new(base: usize, top: usize) -> (r: Self)
        requires
            base <= top,
        ensures
            r.wf(),
            r.base_spec() == base,
            r.top_spec() == top,
    {
        InitAllocator { top, base }
    }

    /// Attempts to allocate `size` bytes aligned to `align`:
    /// the top moves down by `size`, then down to a multiple of `align`, and
    /// the request fails with [`OutOfMemory`] if that falls below the base.
    pub fn try_allocate_raw(&mut self, size: usize, align: usize) -> (r: Result<usize, OutOfMemory>)
        requires
            old(self).wf(),
            align > 0,
        ensures
            Self::allocate_post(*old(self), *final(self), size as int, align as int, r),
            r is Ok ==> r->Ok_0 % align == 0,
    {
        if self.top < size {
            return Err(OutOfMemory);
        }
        let mut addr = self.top - size;
        proof {
            vstd::arithmetic::div_mod::lemma_mod_decreases(addr as nat, align as nat);
        }
        addr = addr - addr % align;
        if addr < self.base {
            return Err(OutOfMemory);
        }
        self.top = addr;
        proof {
            lemma_align_down_aligned((old(self).top - size) as int, align as int);
        }
        Ok(addr)
    }

    /// Allocates `size` bytes aligned to `align`; the request must be one that
    /// can be served.
    pub fn allocate_raw(&mut self, size: usize, align: usize) -> (r: usize)
        requires
            old(self).wf(),
            align > 0,
            old(self).can_allocate(size as int, align as int),
        ensures
            Self::allocate_post(*old(self), *final(self), size as int, align as int, Ok(r)),
            r % align == 0,
    {
        match self.try_allocate_raw(size, align) {
            Ok(addr) => addr,
            Err(_) => {
                assert(false);
                0
            },
        }
    }

    /// Allocates room for one `T`; the request must be one that can be served.
    pub fn allocate<T>(&mut self) -> (r: usize)
        requires
            old(self).wf(),
            old(self).can_allocate(vstd::layout::size_of::<T>() as int, vstd::layout::align_of::<T>() as int),
        ensures
            Self::allocate_post(
                *old(self),
                *final(self),
                vstd::layout::size_of::<T>() as int,
                vstd::layout::align_of::<T>() as int,
                Ok(r),
            ),
    {
        vstd::layout::layout_for_type_is_valid::<T>();
        self.allocate_raw(core::mem::size_of::<T>(), core::mem::align_of::<T>())
    }

    /// Allocates room for `count` contiguous values of `T`; the array layout
    /// must be valid and the request one that can be served.
    pub fn allocate_slice<T>(&mut self, count: usize) -> (r: usize)
        requires
            old(self).wf(),
            count * vstd::layout::size_of::<T>() <= usize::MAX,
            old(self).can_allocate(count * vstd::layout::size_of::<T>(), vstd::layout::align_of::<T>() as int),
        ensures
            Self::allocate_post(
                *old(self),
                *final(self),
                count * vstd::layout::size_of::<T>(),
                vstd::layout::align_of::<T>() as int,
                Ok(r),
            ),
    {
        vstd::layout::layout_for_type_is_valid::<T>();
        let size = core::mem::size_of::<T>();
        let total = count * size;
        self.allocate_raw(total, core::mem::align_of::<T>())
    }

    /// Returns the current top of the free region.
    pub fn top(&self) -> (r: usize)
        ensures
            r == self.top_spec(),
    {
        self.top
    }

    /// Returns the base of the free region.
    pub fn base(&self) -> (r: usize)
        ensures
            r == self.base_spec(),
    {
        self.base
    }
}

proof fn lemma_align_down_aligned(x: int, align: int)
    requires
        0 <= x,
        0 < align,
    ensures
        align_down(x, align) % align == 0,
        0 <= align_down(x, align) <= x,
{
    vstd::arithmetic::div_mod::lemma_fundamental_div_mod(x, align);
    vstd::arithmetic::div_mod::lemma_mod_pos_bound(x, align);
    vstd::arithmetic::div_mod::lemma_mod_multiples_basic(x / align, align);
    assert(x - x % align == (x / align) * align) by (nonlinear_arith)
        requires x == align * (x / align) + x % align;
}

/// Successful allocations never raise the top, and each returned address is
/// aligned as requested and lies in `[base, original top)`.
pub proof fn lemma_bump_monotone(
    states: Seq<InitAllocator>,
    sizes: Seq<int>,
    aligns: Seq<int>,
    addrs: Seq<usize>,
)
    requires
        states.len() == sizes.len() + 1,
        aligns.len() == sizes.len(),
        addrs.len() == sizes.len(),
        states[0].wf(),
        forall|i: int| 0 <= i < sizes.len() ==> sizes[i] > 0 && aligns[i] > 0,
        forall|i: int|
            0 <= i < sizes.len() ==> #[trigger] InitAllocator::allocate_post(
                states[i],
                states[i + 1],
                sizes[i],
                aligns[i],
                Ok(addrs[i]),
            ),
    ensures
        forall|i: int, j: int|
            0 <= i <= j < states.len() ==> #[trigger] states[j].top_spec() <= #[trigger] states[i].top_spec(),
        forall|i: int|
            0 <= i < addrs.len() ==> states[0].base_spec() <= #[trigger] addrs[i] < states[0].top_spec()
                && addrs[i] as int % aligns[i] == 0,
    decreases sizes.len(),
{
    if sizes.len() > 0 {
        let n = sizes.len() - 1;
        let ps = states.drop_last();
        let pz = sizes.drop_last();
        let pa = aligns.drop_last();
        let pd = addrs.drop_last();
        assert forall|i: int| 0 <= i < pz.len() implies #[trigger] InitAllocator::allocate_post(
            ps[i],
            ps[i + 1],
            pz[i],
            pa[i],
            Ok(pd[i]),
        ) by {
            assert(InitAllocator::allocate_post(states[i], states[i + 1], sizes[i], aligns[i], Ok(addrs[i])));
        }
        lemma_bump_monotone(ps, pz, pa, pd);
        assert(InitAllocator::allocate_post(states[n], states[n + 1], sizes[n], aligns[n], Ok(addrs[n])));
        lemma_align_down_aligned(states[n].top_spec() - sizes[n], aligns[n]);
        assert forall|i: int, j: int|
            0 <= i <= j < states.len() implies #[trigger] states[j].top_spec() <= #[trigger] states[i].top_spec() by {
            if j == states.len() - 1 && i < j {
                assert(ps[i].top_spec() >= ps[n].top_spec());
            } else if j < states.len() - 1 {
                assert(ps[j].top_spec() <= ps[i].top_spec());
            }
        }
        assert forall|i: int| 0 <= i < addrs.len() implies states[0].base_spec() <= #[trigger] addrs[i]
            < states[0].top_spec() && addrs[i] as int % aligns[i] == 0 by {
            if i < n {
                assert(pd[i] == addrs[i]);
            } else {
                assert(ps[0].top_spec() >= ps[n].top_spec());
                assert(states[n].base_spec() == states[0].base_spec()) by {
                    lemma_base_fixed(states, sizes, aligns, addrs, n);
                }
            }
        }
    }
}

proof fn lemma_base_fixed(
    states: Seq<InitAllocator>,
    sizes: Seq<int>,
    aligns: Seq<int>,
    addrs: Seq<usize>,
    k: int,
)
    requires
        states.len() == sizes.len() + 1,
        aligns.len() == sizes.len(),
        addrs.len() == sizes.len(),
        0 <= k < states.len(),
        forall|i: int|
            0 <= i < sizes.len() ==> #[trigger] InitAllocator::allocate_post(
                states[i],
                states[i + 1],
                sizes[i],
                aligns[i],
                Ok(addrs[i]),
            ),
    ensures
        states[k].base_spec() == states[0].base_spec(),
    decreases k,
{
    if k > 0 {
        lemma_base_fixed(states, sizes, aligns, addrs, k - 1);
        let j = k - 1;
        assert(InitAllocator::allocate_post(states[j], states[j + 1], sizes[j], aligns[j], Ok(addrs[j])));
    }
}

/// Once less room is left than a request needs, the request fails with
/// [`OutOfMemory`] and the top stays where it was.
pub proof fn lemma_exhaustion(
    pre: InitAllocator,
    post: InitAllocator,
    size: int,
    align: int,
    r: Result<usize, OutOfMemory>,
)
    requires
        pre.wf(),
        0 < align,
        pre.top_spec() - pre.base_spec() < size,
        InitAllocator::allocate_post(pre, post, size, align, r),
    ensures
        r is Err,
        post.top_spec() == pre.top_spec(),
{
    if size <= pre.top_spec() {
        vstd::arithmetic::div_mod::lemma_mod_pos_bound(pre.top_spec() - size, align);
    }
}

} // verus!
