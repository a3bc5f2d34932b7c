//! A [`Context`] over page tables held in ordinary memory, standing for a
//! contiguous run of physical frames starting at a chosen base address.

use vstd::prelude::*;
use crate::address_space::Context;
use crate::allocator::OutOfMemory;
use crate::model::{PageTable, PageTableFlags, PageTableIndex};

verus! {

/// A run of `frames` physical frames from `base`, each of which is either free
/// or handed out and holding a page table.
pub struct FrameArena {
    /// Physical address of the first frame.
    base: u32,
    /// Contents of each frame.
    tables: Vec<PageTable>,
    /// Which frames are handed out.
    used: Vec<bool>,
}

impl FrameArena {
    /// The slot of the frame at physical address `p`.
    pub closed spec fn slot(&self, p: u32) -> int {
        (p - self.base) / 4096
    }

    /// Whether the frame at `p` is handed out.
    pub closed spec fn holds(&self, p: u32) -> bool {
        &&& self.base <= p
        &&& (p - self.base) % 4096 == 0
        &&& self.slot(p) < self.used@.len()
        &&& self.used@[self.slot(p)]
    }

    /// The physical address of the first frame.
    pub closed spec fn base_spec(&self) -> u32 {
        self.base
    }

    /// The physical address of the frame in slot `i`.
    pub open spec fn frame_at(&self, i: int) -> u32 {
        (self.base_spec() + i * 4096) as u32
    }

    /// The number of frames.
    pub closed spec fn frame_count(&self) -> nat {
        self.used@.len()
    }

    /// Creates an arena of `frames` free frames starting at `base`.
    pub fn new(base: u32, frames: usize) -> (r: Self)
        requires
            base % 4096 == 0,
            base + frames * 4096 <= 0x1_0000_0000,
        ensures
            r.wf(),
            r.frames() == Set::new(|p: u32| exists|i: int| 0 <= i < frames && p == #[trigger] r.frame_at(i)),
            r.frames().finite(),
            r.frames().len() == frames,
            r.pages() == Map::<u32, Seq<u32>>::empty(),
            r.base_spec() == base,
            r.frame_count() == frames,
    {
        let mut tables: Vec<PageTable> = Vec::new();
        let mut used: Vec<bool> = Vec::new();
        let mut i: usize = 0;
        while i < frames
            invariant
                0 <= i <= frames,
                tables@.len() == i,
                used@.len() == i,
                forall|k: int| 0 <= k < i ==> !used@[k],
            decreases frames - i,
        {
            tables.push(PageTable::zeroed());
            used.push(false);
            i = i + 1;
        }
        let r = FrameArena { base, tables, used };
        assert(r.pages() =~= Map::<u32, Seq<u32>>::empty());
        proof {
            let x = vstd::set_lib::set_int_range(0, frames as int);
            let f = |i: int| r.frame_at(i);
            vstd::set_lib::lemma_int_range(0, frames as int);
            assert forall|i: int, j: int| x.contains(i) && x.contains(j) && #[trigger] f(i) == #[trigger] f(j) implies i == j by {
                vstd::arithmetic::mul::lemma_mul_inequality(i + 1, frames as int, 4096);
                vstd::arithmetic::mul::lemma_mul_inequality(j + 1, frames as int, 4096);
            }
            assert(vstd::relations::injective_on(f, x));
            assert forall|p: u32| x.map(f).contains(p) == r.frames().contains(p) by {
                if r.frames().contains(p) {
                    let i = choose|i: int| 0 <= i < frames && p == #[trigger] r.frame_at(i);
                    assert(x.contains(i) && f(i) == p);
                }
            }
            assert(x.map(f) =~= r.frames());
            vstd::set_lib::lemma_map_size(x, r.frames(), f);
        }
        r
    }

    /// Whether the frame at `page` is currently handed out.
    pub fn is_allocated(&self, page: u32) -> (r: bool)
        requires
            self.wf(),
        ensures
            r == self.pages().contains_key(page),
    {
        if page < self.base || (page - self.base) % 4096 != 0 {
            return false;
        }
        let slot = ((page - self.base) / 4096) as usize;
        if slot >= self.used.len() {
            return false;
        }
        self.used[slot]
    }
}

impl FrameArena {
    /// The frame in slot `j` is handed out exactly when its slot is marked used.
    proof fn lemma_frame_at(&self, j: int)
        requires
            self.wf(),
            0 <= j < self.used@.len(),
        ensures
            self.pages().contains_key(self.frame_at(j)) == self.used@[j],
            self.frame_at(j) == self.base + j * 4096,
    {
        vstd::arithmetic::mul::lemma_mul_inequality(j + 1, self.used@.len() as int, 4096);
        lemma_slot_address(self.base as int, j);
    }
}

/// Arenas over the same frames have the same frame set.
proof fn lemma_same_frames(a: FrameArena, b: FrameArena)
    requires
        a.base == b.base,
        a.used@.len() == b.used@.len(),
    ensures
        a.frames() == b.frames(),
{
    assert forall|p: u32| a.frames().contains(p) == b.frames().contains(p) by {
        if a.frames().contains(p) {
            let i = choose|i: int| 0 <= i < a.frame_count() && p == a.frame_at(i);
            assert(0 <= i < b.frame_count() && p == b.frame_at(i));
        }
        if b.frames().contains(p) {
            let i = choose|i: int| 0 <= i < b.frame_count() && p == b.frame_at(i);
            assert(0 <= i < a.frame_count() && p == a.frame_at(i));
        }
    }
    assert(a.frames() =~= b.frames());
}

/// Two frame addresses with the same slot are the same address.
proof fn lemma_slot_injective(base: int, p: int, q: int)
    requires
        base <= p,
        base <= q,
        (p - base) % 4096 == 0,
        (q - base) % 4096 == 0,
        (p - base) / 4096 == (q - base) / 4096,
    ensures
        p == q,
{
    vstd::arithmetic::div_mod::lemma_fundamental_div_mod(p - base, 4096);
    vstd::arithmetic::div_mod::lemma_fundamental_div_mod(q - base, 4096);
}

/// The frame in slot `i` lies at `base + i * 4096`.
proof fn lemma_slot_address(base: int, i: int)
    requires
        0 <= i,
    ensures
        (base + i * 4096 - base) % 4096 == 0,
        (base + i * 4096 - base) / 4096 == i,
{
    vstd::arithmetic::div_mod::lemma_mod_multiples_basic(i, 4096);
    vstd::arithmetic::div_mod::lemma_div_multiples_vanish(i, 4096);
}

impl FrameArena {
    /// Hands out the free frame with the lowest address; fails only when
    /// every frame is handed out.
    pub fn take_frame(&mut self) -> (r: Result<u32, OutOfMemory>)
        requires
            old(self).wf(),
        ensures
            final(self).wf(),
            final(self).base_spec() == old(self).base_spec(),
            final(self).frame_count() == old(self).frame_count(),
            r is Err <==> forall|i: int|
                0 <= i < old(self).frame_count() ==> old(self).pages().contains_key(
                    #[trigger] old(self).frame_at(i),
                ),
            r is Err ==> final(self).pages() == old(self).pages(),
            r is Ok ==> {
                let page = r->Ok_0;
                &&& page % 4096 == 0
                &&& !old(self).pages().contains_key(page)
                &&& final(self).pages().contains_key(page)
                &&& final(self).pages()[page].len() == 1024
                &&& final(self).pages() == old(self).pages().insert(page, final(self).pages()[page])
                &&& exists|i: int|
                    0 <= i < old(self).frame_count() && page == #[trigger] old(self).frame_at(i) && forall|j: int|
                        0 <= j < i ==> old(self).pages().contains_key(#[trigger] old(self).frame_at(j))
            },
    {
        let mut i: usize = 0;
        while i < self.used.len() && self.used[i]
            invariant
                self.wf(),
                0 <= i <= self.used@.len(),
                forall|k: int| 0 <= k < i ==> self.used@[k],
            decreases self.used@.len() - i,
        {
            i = i + 1;
        }
        if i == self.used.len() {
            proof {
                assert forall|j: int| 0 <= j < self.frame_count() implies self.pages().contains_key(
                    #[trigger] self.frame_at(j),
                ) by {
                    self.lemma_frame_at(j);
                }
            }
            return Err(OutOfMemory);
        }
        proof {
            self.lemma_frame_at(i as int);
        }
        let ghost pre = *self;
        self.used.set(i, true);
        proof {
            vstd::arithmetic::mul::lemma_mul_inequality(i as int + 1, self.used@.len() as int, 4096);
            assert(i <= u32::MAX);
        }
        let page = self.base + (i as u32) * 4096;
        proof {
            lemma_slot_address(self.base as int, i as int);
            self.tables@[i as int].lemma_len();
            assert(!pre.pages().contains_key(page));
            assert forall|p: u32| #[trigger] self.holds(p) == (pre.holds(p) || p == page) by {
                if self.holds(p) && p != page && self.slot(p) == i {
                    lemma_slot_injective(self.base as int, p as int, page as int);
                }
            }
            assert(self.pages() =~= pre.pages().insert(page, self.pages()[page]));
            pre.lemma_frame_at(i as int);
            assert forall|j: int| 0 <= j < i implies pre.pages().contains_key(#[trigger] pre.frame_at(j)) by {
                pre.lemma_frame_at(j);
            }
        }
        Ok(page)
    }
}

impl Context for FrameArena {
    closed spec fn pages(&self) -> Map<u32, Seq<u32>> {
        Map::new(|p: u32| self.holds(p), |p: u32| self.tables@[self.slot(p)]@)
    }

    closed spec fn frames(&self) -> Set<u32> {
        Set::new(|p: u32| exists|i: int| 0 <= i < self.frame_count() && p == self.frame_at(i))
    }

    closed spec fn wf(&self) -> bool {
        &&& self.base % 4096 == 0
        &&& self.tables@.len() == self.used@.len()
        &&& self.base + self.used@.len() * 4096 <= 0x1_0000_0000
    }

    fn allocate(&mut self) -> (r: Result<u32, OutOfMemory>) {
        let ghost pre = *self;
        let r = self.take_frame();
        proof {
            lemma_same_frames(*self, pre);
            if r is Ok {
                let i = choose|i: int|
                    0 <= i < pre.frame_count() && r->Ok_0 == #[trigger] pre.frame_at(i) && forall|j: int|
                        0 <= j < i ==> pre.pages().contains_key(#[trigger] pre.frame_at(j));
                assert(pre.frames().contains(r->Ok_0));
            }
            if crate::address_space::free_frame_exists(pre.frames(), pre.pages()) {
                let p = choose|p: u32| pre.frames().contains(p) && !pre.pages().contains_key(p);
                let i = choose|i: int| 0 <= i < pre.frame_count() && p == pre.frame_at(i);
                assert(!pre.pages().contains_key(pre.frame_at(i)));
            }
        }
        r
    }

    fn deallocate(&mut self, page: u32) {
        let slot = ((page - self.base) / 4096) as usize;
        let ghost pre = *self;
        self.used.set(slot, false);
        proof {
            assert forall|p: u32| #[trigger] self.holds(p) == (pre.holds(p) && p != page) by {
                if pre.holds(p) && p != page && self.slot(p) == slot {
                    lemma_slot_injective(self.base as int, p as int, page as int);
                }
            }
            assert(self.pages() =~= pre.pages().remove(page));
            lemma_same_frames(*self, pre);
        }
    }

    fn read(&self, page: u32, index: PageTableIndex) -> (r: PageTableFlags) {
        let slot = ((page - self.base) / 4096) as usize;
        self.tables[slot].get(index)
    }

    fn write(&mut self, page: u32, index: PageTableIndex, value: PageTableFlags) {
        let slot = ((page - self.base) / 4096) as usize;
        let ghost pre = *self;
        let mut table = self.tables[slot];
        table.set(index, value);
        self.tables.set(slot, table);
        proof {
            assert forall|p: u32| #[trigger] self.holds(p) implies self.tables@[self.slot(p)]@ == if p == page {
                pre.pages()[page].update(index@, value.bits)
            } else {
                pre.tables@[pre.slot(p)]@
            } by {
                if p != page && self.slot(p) == slot {
                    lemma_slot_injective(self.base as int, p as int, page as int);
                }
            }
            assert(self.pages() =~= pre.pages().insert(page, pre.pages()[page].update(index@, value.bits)));
            lemma_same_frames(*self, pre);
        }
    }
}

} // verus!
