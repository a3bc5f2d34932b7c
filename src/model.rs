//! Bit layout of page-table entries and bounds-checked table indices.

use vstd::prelude::*;

verus! {

/// Mask of the flag bits that a caller may request for a mapping: every
/// defined flag but `PRESENT` and `HUGE_PAGE`, which the mapping code owns.
pub const MAPPING_FLAGS_MASK: u32 = 0x17E;

/// Mask of an entry's flag bits other than `PRESENT` and `HUGE_PAGE`: the
/// low twelve bits without those two.
pub const ENTRY_FLAGS_MASK: u32 = 0xF7E;

/// Mask of the address bits of an entry that references a 4 KiB frame.
pub const ADDRESS_4KIB_MASK: u32 = 0xFFFF_F000;

/// Mask of the address bits of an entry that references a 4 MiB frame.
pub const ADDRESS_4MIB_MASK: u32 = 0xFFC0_0000;

/// Entry bit: the entry is present.
pub const PRESENT: u32 = 1;

/// Entry bit: the page can be written to.
pub const WRITABLE: u32 = 2;

/// Entry bit: the page can be accessed by user-mode code.
pub const USER_ACCESSIBLE: u32 = 4;

/// Entry bit: the page uses a write-through caching policy.
pub const WRITE_THROUGH: u32 = 8;

/// Entry bit: caching is disabled for the page.
pub const CACHE_DISABLED: u32 = 16;

/// Entry bit: set by the processor when the page is accessed.
pub const ACCESSED: u32 = 32;

/// Entry bit: set by the processor when the page is written to.
pub const DIRTY: u32 = 64;

/// Entry bit, directory entries only: the entry maps a 4 MiB page directly.
pub const HUGE_PAGE: u32 = 128;

/// Entry bit, directory entries only: the mapping survives a root-register reload.
pub const GLOBAL: u32 = 256;

/// A page-table or page-directory entry: a 20-bit frame address in the upper
/// bits and a set of flags in the lower twelve.
#[derive(Clone, Copy, Debug, PartialEq, Eq, Structural)]
pub struct PageTableFlags {
    pub bits: u32,
}

/// Whether the entry `e` has its `PRESENT` bit set.
pub open spec fn entry_present(e: u32) -> bool {
    e & 1 == 1
}

/// Whether the entry `e` has its `HUGE_PAGE` bit set.
pub open spec fn entry_huge(e: u32) -> bool {
    e & 0x80 == 0x80
}

/// The 4 KiB-aligned address held by the entry `e`.
pub open spec fn entry_address_4kib(e: u32) -> u32 {
    e & ADDRESS_4KIB_MASK
}

/// The 4 MiB-aligned address held by the huge-page entry `e`.
pub open spec fn entry_address_4mib(e: u32) -> u32 {
    e & ADDRESS_4MIB_MASK
}

/// The flag bits of the entry `e` other than `PRESENT` and `HUGE_PAGE`.
pub open spec fn entry_flags(e: u32) -> u32 {
    e & ENTRY_FLAGS_MASK
}

/// Whether `f` only holds flags that a caller may request for a mapping.
pub open spec fn valid_mapping_flags(f: PageTableFlags) -> bool {
    f.bits & !MAPPING_FLAGS_MASK == 0
}

impl PageTableFlags {
    /// The entry with no bit set.
    pub fn empty() -> (r: Self)
        ensures
            r.bits == 0,
    {
        PageTableFlags { bits: 0 }
    }

    /// The entry holding exactly `bits`, address bits included.
    pub fn from_bits_retain(bits: u32) -> (r: Self)
        ensures
            r.bits == bits,
    {
        PageTableFlags { bits }
    }

    /// The raw 32-bit value of the entry.
    pub fn bits(&self) -> (r: u32)
        ensures
            r == self.bits,
    {
        self.bits
    }

    /// The entry with the bits of both `self` and `other`.
    pub fn union(self, other: Self) -> (r: Self)
        ensures
            r.bits == self.bits | other.bits,
    {
        PageTableFlags { bits: self.bits | other.bits }
    }

    /// Whether `self` and `other` share at least one bit.
    pub fn intersects(&self, other: Self) -> (r: bool)
        ensures
            r == (self.bits & other.bits != 0),
    {
        self.bits & other.bits != 0
    }

    /// Whether every bit of `other` is set in `self`.
    pub fn contains(&self, other: Self) -> (r: bool)
        ensures
            r == (self.bits & other.bits == other.bits),
    {
        self.bits & other.bits == other.bits
    }

    /// Returns whether the entry is present.
    pub fn is_present(&self) -> (r: bool)
        ensures
            r == entry_present(self.bits),
    {
        let r = self.bits & 1 != 0;
        proof {
            let b = self.bits;
            assert(b & 1 != 0 <==> b & 1 == 1) by (bit_vector);
        }
        r
    }

    /// Returns whether the entry maps a 4 MiB page.
    ///
    /// Only meaningful for a page-directory entry.
    pub fn is_huge_page(&self) -> (r: bool)
        ensures
            r == entry_huge(self.bits),
    {
        let r = self.bits & 0x80 != 0;
        proof {
            let b = self.bits;
            assert(b & 0x80 != 0 <==> b & 0x80 == 0x80) by (bit_vector);
        }
        r
    }

    /// Returns the 4 KiB-aligned address of the page table or page referenced by
    /// the entry. Meaningless on a directory entry whose `HUGE_PAGE` bit is set.
    pub fn address_4kib(&self) -> (r: u32)
        ensures
            r == entry_address_4kib(self.bits),
            r % 4096 == 0,
    {
        let r = self.bits & ADDRESS_4KIB_MASK;
        proof {
            lemma_mask_4kib_aligned(self.bits);
        }
        r
    }

    /// Returns the 4 MiB-aligned address of the page referenced by a huge-page
    /// directory entry.
    pub fn address_4mib(&self) -> (r: u32)
        ensures
            r == entry_address_4mib(self.bits),
            r % 0x40_0000 == 0,
    {
        let r = self.bits & ADDRESS_4MIB_MASK;
        proof {
            lemma_mask_4mib_aligned(self.bits);
        }
        r
    }
}


/// An index within a [`PageTable`], always below 1024: it can only be built
/// through a constructor that checks it, so using it never needs a bounds check.
#[derive(Clone, Copy, Debug)]
pub struct PageTableIndex(u16);

impl View for PageTableIndex {
    type V = int;

    closed spec fn view(&self) -> int {
        self.0 as int
    }
}

impl PageTableIndex {
    #[verifier::type_invariant]
    spec fn below_entry_count(self) -> bool {
        self.0 < 1024
    }

    /// Creates a new page table index from the provided value.
    pub fn new(value: usize) -> (r: Self)
        requires
            value < 1024,
        ensures
            r@ == value,
    {
        PageTableIndex(value as u16)
    }

    /// Converts the index to a `usize`.
    pub fn as_usize(self) -> (r: usize)
        ensures
            r == self@,
            r < 1024,
    {
        proof {
            use_type_invariant(self);
        }
        self.0 as usize
    }

    /// Extracts the page-directory index (bits 31..22) of a 32-bit virtual address.
    pub fn extract_page_directory_index(virt_addr: usize) -> (r: Self)
        requires
            virt_addr <= u32::MAX,
        ensures
            r@ == directory_index(virt_addr as int),
    {
        proof {
            lemma_shift_22(virt_addr);
        }
        Self::new(virt_addr >> 22)
    }

    /// Extracts the page-table index (bits 21..12) of a virtual address.
    pub fn extract_page_table_index(virt_addr: usize) -> (r: Self)
        ensures
            r@ == table_index(virt_addr as int),
    {
        proof {
            lemma_table_bits(virt_addr);
        }
        Self::new((virt_addr >> 12) & 0x3FF)
    }

    /// Extracts the in-page offset (bits 11..0) of a virtual address, where that
    /// offset is a valid index.
    pub fn extract_offset(virt_addr: usize) -> (r: Self)
        requires
            offset_4kib(virt_addr as int) < 1024,
        ensures
            r@ == offset_4kib(virt_addr as int),
    {
        proof {
            lemma_offset_bits(virt_addr);
        }
        Self::new(virt_addr & 0xFFF)
    }
}

/// Page-directory index of the virtual address `v`.
pub open spec fn directory_index(v: int) -> int {
    v / 0x40_0000
}

/// Page-table index of the virtual address `v`.
pub open spec fn table_index(v: int) -> int {
    (v / 4096) % 1024
}

/// Offset of the virtual address `v` within its 4 KiB page.
pub open spec fn offset_4kib(v: int) -> int {
    v % 4096
}

/// Offset of the virtual address `v` within its 4 MiB page.
pub open spec fn offset_4mib(v: int) -> int {
    v % 0x40_0000
}

proof fn lemma_shift_22(v: usize)
    requires
        v <= u32::MAX,
    ensures
        v >> 22 == v / 0x40_0000,
        v >> 22 < 1024,
{
    assert(v >> 22 == v / 0x40_0000) by (bit_vector);
    assert(v <= 0xFFFF_FFFF ==> v >> 22 < 1024) by (bit_vector);
}

proof fn lemma_table_bits(v: usize)
    ensures
        (v >> 12) & 0x3FF == (v / 4096) % 1024,
        (v >> 12) & 0x3FF < 1024,
{
    assert((v >> 12) & 0x3FF == (v / 4096) % 1024) by (bit_vector);
    assert((v >> 12) & 0x3FF < 1024) by (bit_vector);
}

proof fn lemma_offset_bits(v: usize)
    ensures
        v & 0xFFF == v % 4096,
        v & 0x3F_FFFF == v % 0x40_0000,
{
    assert(v & 0xFFF == v % 4096) by (bit_vector);
    assert(v & 0x3F_FFFF == v % 0x40_0000) by (bit_vector);
}

/// A page table or page directory: exactly 1024 entries, one 4 KiB page.
#[derive(Clone, Copy, Debug)]
pub struct PageTable {
    entries: [PageTableFlags; 1024],
}

impl View for PageTable {
    type V = Seq<u32>;

    closed spec fn view(&self) -> Seq<u32> {
        self.entries@.map_values(|e: PageTableFlags| e.bits)
    }
}

impl PageTable {
    /// The view always holds 1024 entries.
    pub proof fn lemma_len(&self)
        ensures
            self@.len() == 1024,
    {
    }

    /// A table whose entries are all zero (none present).
    pub fn zeroed() -> (r: Self)
        ensures
            r@ == Seq::new(1024, |i: int| 0u32),
    {
        let entries: [PageTableFlags; 1024] = vstd::array::array_fill_for_copy_types(PageTableFlags { bits: 0 });
        let r = PageTable { entries };
        assert(r@ =~= Seq::new(1024, |i: int| 0u32));
        r
    }

    /// The entry at `index`.
    pub fn get(&self, index: PageTableIndex) -> (r: PageTableFlags)
        ensures
            r.bits == self@[index@],
    {
        let i = index.as_usize();
        self.entries[i]
    }

    /// Overwrites the entry at `index`.
    pub fn set(&mut self, index: PageTableIndex, value: PageTableFlags)
        ensures
            final(self)@ == old(self)@.update(index@, value.bits),
    {
        let i = index.as_usize();
        self.entries[i] = value;
        assert(final(self)@ =~= old(self)@.update(index@, value.bits));
    }
}

/// Masking off the low twelve bits gives the value rounded down to 4 KiB.
pub proof fn lemma_mask_4kib_aligned(e: u32)
    ensures
        e & ADDRESS_4KIB_MASK == e - e % 4096,
        (e & ADDRESS_4KIB_MASK) % 4096 == 0,
{
    assert(e & 0xFFFF_F000u32 == e - e % 4096) by (bit_vector);
    assert((e & 0xFFFF_F000u32) % 4096 == 0) by (bit_vector);
}

/// Masking off the low 22 bits gives the value rounded down to 4 MiB.
pub proof fn lemma_mask_4mib_aligned(e: u32)
    ensures
        e & ADDRESS_4MIB_MASK == e - e % 0x40_0000,
        (e & ADDRESS_4MIB_MASK) % 0x40_0000 == 0,
{
    assert(e & 0xFFC0_0000u32 == e - e % 0x40_0000) by (bit_vector);
    assert((e & 0xFFC0_0000u32) % 0x40_0000 == 0) by (bit_vector);
}

} // verus!
