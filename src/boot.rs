//! Boot-time decisions: how much memory the firmware reports, which region
//! the bump allocator takes, which frames the frame allocator receives, and
//! the identity-mapped address space the kernel switches to.

use vstd::prelude::*;
use crate::address_space::{
    AddressSpace, Context, MappingError, free_frame_exists, small_steps, lemma_empty_space_unblocked,
};
use crate::allocator::Allocator;
use crate::array_vec::ArrayVec;
use crate::init_allocator::InitAllocator;
use crate::memory_map::{MemMapEntry, MemoryKind, kind_of};
use crate::model::{PageTableFlags, WRITABLE, entry_present};

verus! {

/// What the kernel knows about the machine once it has booted.
pub struct SystemInfo {
    /// The total amount of available memory, in bytes.
    pub total_memory: u64,
    /// The boot loader's name, if it gave one.
    pub bootloader_name: Option<ArrayVec<u8, 62>>,
    /// Timer ticks since start-up (wrapping).
    pub tick_count: u32,
}

impl SystemInfo {
    /// The information gathered from the memory map `entries`, with the boot
    /// loader's name if known, before any tick.
    pub fn new(entries: &Vec<MemMapEntry>, bootloader_name: Option<ArrayVec<u8, 62>>) -> (r: Self)
        ensures
            r.total_memory == if available_total(entries@) <= u64::MAX {
                available_total(entries@)
            } else {
                u64::MAX as int
            },
            r.bootloader_name == bootloader_name,
            r.tick_count == 0,
    {
        SystemInfo { total_memory: available_memory(entries), bootloader_name, tick_count: 0 }
    }

    /// Counts one timer tick.
    pub fn tick(&mut self)
        ensures
            final(self).tick_count == (old(self).tick_count + 1) % 0x1_0000_0000,
            final(self).total_memory == old(self).total_memory,
    {
        self.tick_count = self.tick_count.wrapping_add(1);
    }
}

/// Start of the memory the kernel manages: everything below 1 MiB is left alone.
pub const LOW_MEMORY_END: u64 = 0x10_0000;

/// Whether `e` describes available memory.
pub open spec fn is_available(e: MemMapEntry) -> bool {
    kind_of(e.ty.0) == MemoryKind::Available
}

/// Whether `e` is a candidate region for the bump allocator: available, and
/// starting at or above 1 MiB.
pub open spec fn is_candidate(e: MemMapEntry) -> bool {
    is_available(e) && e.base_spec() >= LOW_MEMORY_END
}

/// The total length of the available entries of `entries`.
pub open spec fn available_total(entries: Seq<MemMapEntry>) -> int
    decreases entries.len(),
{
    if entries.len() == 0 {
        0
    } else {
        available_total(entries.drop_last()) + if is_available(entries.last()) {
            entries.last().length_spec()
        } else {
            0
        }
    }
}

/// The total amount of available memory, in bytes, saturated at `u64::MAX`.
pub fn available_memory(entries: &Vec<MemMapEntry>) -> (r: u64)
    ensures
        r == if available_total(entries@) <= u64::MAX {
            available_total(entries@)
        } else {
            u64::MAX as int
        },
{
    let mut total: u64 = 0;
    let mut i: usize = 0;
    while i < entries.len()
        invariant
            0 <= i <= entries@.len(),
            total == if available_total(entries@.subrange(0, i as int)) <= u64::MAX {
                available_total(entries@.subrange(0, i as int))
            } else {
                u64::MAX as int
            },
        decreases entries@.len() - i,
    {
        let e = entries[i];
        if e.kind() == MemoryKind::Available {
            total = total.saturating_add(e.length());
        }
        proof {
            lemma_available_total_nonneg(entries@.subrange(0, i as int));
            assert(entries@.subrange(0, i + 1).drop_last() =~= entries@.subrange(0, i as int));
        }
        i = i + 1;
    }
    assert(entries@.subrange(0, entries@.len() as int) =~= entries@);
    total
}

proof fn lemma_available_total_nonneg(entries: Seq<MemMapEntry>)
    ensures
        available_total(entries) >= 0,
    decreases entries.len(),
{
    if entries.len() > 0 {
        lemma_available_total_nonneg(entries.drop_last());
    }
}

/// Picks the longest available region starting at or above 1 MiB, as its
/// base and length; among equally long ones, the last.
pub fn largest_segment(entries: &Vec<MemMapEntry>) -> (r: Option<(u64, u64)>)
    ensures
        r is None <==> forall|j: int| 0 <= j < entries@.len() ==> !is_candidate(#[trigger] entries@[j]),
        r is Some ==> exists|i: int|
            0 <= i < entries@.len() && is_candidate(#[trigger] entries@[i]) && r->Some_0 == (
            entries@[i].base_spec() as u64,
            entries@[i].length_spec() as u64,
        ) && (forall|j: int|
            0 <= j < entries@.len() && is_candidate(#[trigger] entries@[j])
                ==> entries@[j].length_spec() <= entries@[i].length_spec()) && (forall|j: int|
            i < j < entries@.len() && is_candidate(#[trigger] entries@[j])
                ==> entries@[j].length_spec() < entries@[i].length_spec()),
{
    let mut best: Option<usize> = None;
    let mut i: usize = 0;
    while i < entries.len()
        invariant
            0 <= i <= entries@.len(),
            best is None <==> forall|j: int| 0 <= j < i ==> !is_candidate(#[trigger] entries@[j]),
            best is Some ==> {
                let b = best->Some_0 as int;
                &&& 0 <= b < i
                &&& is_candidate(entries@[b])
                &&& forall|j: int|
                    0 <= j < i && is_candidate(#[trigger] entries@[j]) ==> entries@[j].length_spec()
                        <= entries@[b].length_spec()
                &&& forall|j: int|
                    b < j < i && is_candidate(#[trigger] entries@[j]) ==> entries@[j].length_spec()
                        < entries@[b].length_spec()
            },
        decreases entries@.len() - i,
    {
        let e = entries[i];
        if e.kind() == MemoryKind::Available && e.base() >= LOW_MEMORY_END {
            match best {
                None => {
                    best = Some(i);
                },
                Some(b) => {
                    if e.length() >= entries[b].length() {
                        best = Some(i);
                    }
                },
            }
        }
        i = i + 1;
    }
    match best {
        None => None,
        Some(b) => {
            let e = entries[b];
            Some((e.base(), e.length()))
        },
    }
}

/// Whether the region at `base` of `length` bytes ends within 4 GiB.
pub open spec fn within_4gib(base: int, length: int) -> bool {
    base + length <= u32::MAX
}

/// The bump allocator over the region at `base` of `length` bytes, or `None`
/// when the region does not end within the 32-bit address space.
pub fn boot_allocator(base: u64, length: u64) -> (r: Option<InitAllocator>)
    ensures
        r is Some <==> within_4gib(base as int, length as int),
        r is Some ==> r->Some_0.wf() && r->Some_0.base_spec() == base && r->Some_0.top_spec() == base
            + length,
{
    if base > u32::MAX as u64 || base.saturating_add(length) > u32::MAX as u64 {
        return None;
    }
    Some(InitAllocator::new(base as usize, (base + length) as usize))
}

/// `x` rounded down to a multiple of 4 KiB.
pub open spec fn round_down_4kib(x: int) -> int {
    x - x % 4096
}

/// Builds the kernel's address space over `context`: a fresh directory, with
/// `[0, upper_bound)` rounded down to 4 KiB identity-mapped through entries
/// whose only flag besides `PRESENT` (and `HUGE_PAGE` for 4 MiB pages) is
/// `WRITABLE`, and nothing else mapped.
///
/// It fails, with `OutOfMemory`, only once every frame of the context is in
/// use: some extension of the context's pages leaves no frame free.
pub fn init_address_space<C: Context>(context: C, upper_bound: u32) -> (r: Result<
    AddressSpace<C>,
    MappingError,
>)
    requires
        context.wf(),
    ensures
        r is Err ==> r == Err::<AddressSpace<C>, MappingError>(MappingError::OutOfMemory),
        r is Err ==> exists|used: Map<u32, Seq<u32>>|
            context.pages().dom().subset_of(used.dom()) && !#[trigger] free_frame_exists(
                context.frames(),
                used,
            ),
        free_frame_exists(context.frames(), context.pages()) && round_down_4kib(upper_bound as int)
            % 0x40_0000 == 0 ==> r is Ok,
        context.frames().finite() && context.frames().difference(context.pages().dom()).len() >= 1
            + small_steps(0, 0, round_down_4kib(upper_bound as int)) ==> r is Ok,
        r is Ok ==> {
            let s = r->Ok_0;
            &&& s.wf()
            &&& forall|va: u32|
                #[trigger] s.mapping_spec(va) == if va < round_down_4kib(upper_bound as int) {
                    Some((va, WRITABLE))
                } else {
                    None
                }
        },
{
    proof {
        if context.frames().finite() && context.frames().difference(context.pages().dom()).len() >= 1 {
            let x = context.frames().difference(context.pages().dom()).choose();
            assert(context.frames().difference(context.pages().dom()).contains(x));
            assert(free_frame_exists(context.frames(), context.pages()));
        }
    }
    let mut space = match AddressSpace::new(context) {
        Ok(s) => s,
        Err(_) => {
            proof {
                assert(context.pages().dom().subset_of(context.pages().dom()));
                assert(!free_frame_exists(context.frames(), context.pages()));
            }
            return Err(MappingError::OutOfMemory);
        },
    };
    let limit = upper_bound & !0xFFF;
    proof {
        assert(upper_bound & !0xFFFu32 == upper_bound - upper_bound % 4096) by (bit_vector);
        assert(WRITABLE & !0x17Eu32 == 0) by (bit_vector);
    }
    let ghost before = space;
    proof {
        assert(0u32 & 1 != 1) by (bit_vector);
        assert(forall|d: int| 0 <= d < 1024 ==> !entry_present(#[trigger] before.dir_entry(d)));
        lemma_empty_space_unblocked(before, 0, 0, limit as int);
        if context.frames().finite() {
            let root = before.root();
            assert(before.free_frames() =~= context.frames().difference(context.pages().dom()).remove(root));
        }
    }
    match space.map_range(0, 0, limit as usize, PageTableFlags::from_bits_retain(WRITABLE)) {
        Ok(()) => {},
        Err(e) => {
            proof {
                assert(0u32 & 1 != 1) by (bit_vector);
                if e == MappingError::AlreadyMapped {
                    let d = choose|d: int|
                        0 <= d <= (limit as int - 1) / 0x40_0000 && entry_present(
                            #[trigger] before.dir_entry(d),
                        );
                    assert(d < 1024) by {
                        vstd::arithmetic::div_mod::lemma_div_is_ordered(limit - 1, 0xFFFF_FFFF, 0x40_0000);
                    }
                    assert(before.dir_entry(d) == 0);
                }
                assert(context.pages().dom().subset_of(before.mem().dom()));
                assert(context.pages().dom().subset_of(space.mem().dom()));
                assert(!free_frame_exists(space.frames(), space.mem()));
                assert(!free_frame_exists(context.frames(), space.mem()));
            }
            return Err(e);
        },
    }
    proof {
        assert forall|va: u32| #[trigger] space.mapping_spec(va) == if va < round_down_4kib(upper_bound as int) {
            Some((va, WRITABLE))
        } else {
            None
        } by {
            assert(space.mapping_spec(va) == crate::address_space::range_mapping(before, 0, 0, limit as int, WRITABLE, va));
            assert(before.mapping_spec(va) is None);
        }
    }
    Ok(space)
}

/// The first 4 KiB frame at or above both `base` and 1 MiB, and the number
/// of whole frames from it to the end of the region at `base` of `length` bytes.
pub open spec fn frame_span(base: int, length: int) -> (int, int) {
    let start = if base < LOW_MEMORY_END { LOW_MEMORY_END as int } else { base };
    let first = start + (4096 - start % 4096) % 4096;
    let end = base + length;
    if end <= first {
        (first, 0)
    } else {
        (first, (end - first) / 4096)
    }
}

/// Computes [`frame_span`] for a region that ends within 4 GiB.
pub fn usable_frames(base: u64, length: u64) -> (r: (u64, u64))
    requires
        base + length <= u32::MAX,
    ensures
        r.0 == frame_span(base as int, length as int).0,
        r.1 == frame_span(base as int, length as int).1,
{
    let start = if base < LOW_MEMORY_END { LOW_MEMORY_END } else { base };
    let first = start + (4096 - start % 4096) % 4096;
    let end = base + length;
    if end <= first {
        (first, 0)
    } else {
        (first, (end - first) / 4096)
    }
}

/// Deposits the `count` frames from `first` into the frame allocator, lowest
/// address first; the allocator must have room for all of them and hold none
/// of them already.
pub fn deposit_frames(allocator: &mut Allocator, first: u32, count: u32)
    requires
        old(allocator).wf(),
        old(allocator)@.len() + count <= old(allocator).capacity(),
        first + count * 4096 <= 0x1_0000_0000,
        forall|k: int| 0 <= k < count ==> !old(allocator)@.contains(#[trigger] ((first + k * 4096) as u32)),
    ensures
        final(allocator).wf(),
        final(allocator).capacity() == old(allocator).capacity(),
        final(allocator)@ == old(allocator)@ + Seq::new(count as nat, |k: int| (first + k * 4096) as u32),
{
    let mut k: u32 = 0;
    while k < count
        invariant
            0 <= k <= count,
            allocator.wf(),
            allocator.capacity() == old(allocator).capacity(),
            old(allocator)@.len() + count <= old(allocator).capacity(),
            first + count * 4096 <= 0x1_0000_0000,
            forall|k: int| 0 <= k < count ==> !old(allocator)@.contains(#[trigger] ((first + k * 4096) as u32)),
            allocator@ == old(allocator)@ + Seq::new(k as nat, |j: int| (first + j * 4096) as u32),
        decreases count - k,
    {
        proof {
            vstd::arithmetic::mul::lemma_mul_inequality(k as int + 1, count as int, 4096);
            let page = (first + k * 4096) as u32;
            assert(!old(allocator)@.contains(page));
            assert forall|i: int| 0 <= i < allocator@.len() implies allocator@[i] != page by {
                if i >= old(allocator)@.len() {
                    let j = i - old(allocator)@.len();
                    vstd::arithmetic::mul::lemma_mul_inequality(j + 1, count as int, 4096);
                    assert(allocator@[i] == (first + j * 4096) as u32);
                } else {
                    assert(allocator@[i] == old(allocator)@[i]);
                }
            }
        }
        allocator.deallocate(first + k * 4096);
        k = k + 1;
        assert(allocator@ =~= old(allocator)@ + Seq::new(k as nat, |j: int| (first + j * 4096) as u32));
    }
}

} // verus!
