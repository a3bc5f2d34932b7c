//! Address spaces: one page directory, mapped and walked through a pluggable
//! physical-memory [`Context`].

use vstd::prelude::*;
use crate::allocator::OutOfMemory;
use crate::model::{
    PageTableFlags, PageTableIndex, PRESENT, HUGE_PAGE, MAPPING_FLAGS_MASK, entry_present, entry_huge,
    entry_address_4kib, entry_address_4mib, entry_flags, valid_mapping_flags, directory_index, table_index,
    offset_4kib, offset_4mib, lemma_mask_4kib_aligned, lemma_mask_4mib_aligned,
};

verus! {

/// The size of a single 4 KiB page.
pub const FOUR_KIB: usize = 4096;

/// The size of a single 4 MiB page.
pub const FOUR_MIB: usize = 0x40_0000;

/// An error that might occur while mapping memory.
#[derive(Debug, Clone, Copy, PartialEq, Eq, Structural)]
pub enum MappingError {
    /// The context could not supply a physical page.
    OutOfMemory,
    /// The requested mapping conflicts with an existing one.
    AlreadyMapped,
}

impl From<OutOfMemory> for MappingError {
    fn from(value: OutOfMemory) -> (r: Self) {
        MappingError::OutOfMemory
    }
}

impl vstd::std_specs::convert::FromSpecImpl<OutOfMemory> for MappingError {
    open spec fn obeys_from_spec() -> bool {
        true
    }

    open spec fn from_spec(v: OutOfMemory) -> MappingError {
        MappingError::OutOfMemory
    }
}

/// Whether some page of `frames` is not among the handed-out `pages`.
pub open spec fn free_frame_exists(frames: Set<u32>, pages: Map<u32, Seq<u32>>) -> bool {
    exists|p: u32| frames.contains(p) && !pages.contains_key(p)
}

/// The physical-memory capability an address space works through: it hands
/// out and takes back whole pages, and reads and writes the 32-bit entries of
/// the pages it handed out.
///
/// Before paging is enabled an implementation accesses physical addresses
/// directly; afterwards it goes through whatever mapping it maintains.
///
/// The guarantees proved of [`AddressSpace`] hold for contexts whose
/// implementation is verified against these contracts, such as
/// [`crate::arena::FrameArena`]. An implementation written outside verified
/// code cannot define the model below and keeps its defaults (no pages, no
/// frames); nothing proved here carries over to it.
pub trait Context {
    /// The pages obtained from this context and not yet returned, each with
    /// the current values of its 1024 entries.
    closed spec fn pages(&self) -> Map<u32, Seq<u32>> {
        Map::empty()
    }

    /// The pages this context can hand out at all; fixed for its lifetime.
    closed spec fn frames(&self) -> Set<u32> {
        Set::empty()
    }

    /// The implementation's own consistency condition, kept by every operation.
    closed spec fn wf(&self) -> bool {
        true
    }


    /// Allocates one 4 KiB physical page, whose contents are unspecified; it
    /// succeeds whenever a frame is free.
    fn allocate(&mut self) -> (r: Result<u32, OutOfMemory>)
        requires
            old(self).wf(),
        ensures
            final(self).wf(),
            final(self).frames() == old(self).frames(),
            free_frame_exists(old(self).frames(), old(self).pages()) ==> r is Ok,
            r is Ok ==> old(self).frames().contains(r->Ok_0),
            match r {
                Ok(page) => {
                    &&& page % 4096 == 0
                    &&& !old(self).pages().contains_key(page)
                    &&& final(self).pages().contains_key(page)
                    &&& final(self).pages()[page].len() == 1024
                    &&& final(self).pages() == old(self).pages().insert(page, final(self).pages()[page])
                },
                Err(_) => final(self).pages() == old(self).pages(),
            },
    ;

    /// Returns a page obtained from this same context, no longer referenced by
    /// any live mapping.
    fn deallocate(&mut self, page: u32)
        requires
            old(self).wf(),
            old(self).pages().contains_key(page),
        ensures
            final(self).wf(),
            final(self).frames() == old(self).frames(),
            final(self).pages() == old(self).pages().remove(page),
    ;

    /// Reads an entry of a page obtained from this context.
    fn read(&self, page: u32, index: PageTableIndex) -> (r: PageTableFlags)
        requires
            self.wf(),
            self.pages().contains_key(page),
            self.pages()[page].len() == 1024,
        ensures
            r.bits == self.pages()[page][index@],
    ;

    /// Overwrites an entry of a page obtained from this context.
    fn write(&mut self, page: u32, index: PageTableIndex, value: PageTableFlags)
        requires
            old(self).wf(),
            old(self).pages().contains_key(page),
            old(self).pages()[page].len() == 1024,
        ensures
            final(self).wf(),
            final(self).frames() == old(self).frames(),
            final(self).pages() == old(self).pages().insert(
                page,
                old(self).pages()[page].update(index@, value.bits),
            ),
    ;
}

/// Whether the directory entry `e` references a page table.
pub open spec fn table_entry(e: u32) -> bool {
    entry_present(e) && !entry_huge(e)
}

/// How the virtual address `v` is mapped, walking the directory at `root` in
/// `mem`: the physical address it translates to, and the flags (other than
/// `PRESENT` and `HUGE_PAGE`) of the entry that maps it, a huge directory
/// entry or a page-table entry. `None` as soon as a level is not present.
pub open spec fn mapping(mem: Map<u32, Seq<u32>>, root: u32, v: u32) -> Option<(u32, u32)> {
    let pde = mem[root][directory_index(v as int)];
    if !entry_present(pde) {
        None
    } else if entry_huge(pde) {
        Some(((entry_address_4mib(pde) + offset_4mib(v as int)) as u32, entry_flags(pde)))
    } else {
        let pte = mem[entry_address_4kib(pde)][table_index(v as int)];
        if !entry_present(pte) {
            None
        } else {
            Some(((entry_address_4kib(pte) + offset_4kib(v as int)) as u32, entry_flags(pte)))
        }
    }
}

/// The physical address that the virtual address `v` translates to.
pub open spec fn translation(mem: Map<u32, Seq<u32>>, root: u32, v: u32) -> Option<u32> {
    match mapping(mem, root, v) {
        Some(m) => Some(m.0),
        None => None,
    }
}

/// Represents an address space.
pub struct AddressSpace<C> {
    /// The context used to manipulate the page tables.
    context: C,
    /// The physical address of the page directory.
    root: u32,
}

impl<C: Context> AddressSpace<C> {
    /// The pages of the context: the directory, the page tables and whatever
    /// else the context handed out.
    pub closed spec fn mem(&self) -> Map<u32, Seq<u32>> {
        self.context.pages()
    }

    /// The pages the context can hand out at all.
    pub closed spec fn frames(&self) -> Set<u32> {
        self.context.frames()
    }

    /// Whether the context still has a page to hand out.
    pub open spec fn has_free_frame(&self) -> bool {
        free_frame_exists(self.frames(), self.mem())
    }

    /// The pages the context can still hand out.
    pub open spec fn free_frames(&self) -> Set<u32> {
        self.frames().difference(self.mem().dom())
    }

    /// Whether the context is consistent.
    pub closed spec fn context_wf(&self) -> bool {
        self.context.wf()
    }

    /// The physical address of the page directory.
    pub closed spec fn root(&self) -> u32 {
        self.root
    }

    /// The directory entry at index `i`.
    pub open spec fn dir_entry(&self, i: int) -> u32 {
        self.mem()[self.root()][i]
    }

    /// The translation of the virtual address `v` in this address space.
    pub open spec fn translate_spec(&self, v: u32) -> Option<u32> {
        translation(self.mem(), self.root(), v)
    }

    /// How the virtual address `v` is mapped: physical address and flags.
    pub open spec fn mapping_spec(&self, v: u32) -> Option<(u32, u32)> {
        mapping(self.mem(), self.root(), v)
    }

    /// Whether every virtual address is mapped alike, address and flags, in
    /// `self` and `other`.
    pub open spec fn same_mappings(&self, other: &Self) -> bool {
        forall|v: u32| #[trigger] self.mapping_spec(v) == other.mapping_spec(v)
    }

    /// The directory is a zero-initialised page of the context, 4 KiB-aligned;
    /// every directory entry that references a table references a page of the
    /// context other than the directory, and no two reference the same table.
    pub open spec fn wf(&self) -> bool {
        &&& self.context_wf()
        &&& self.root() % 4096 == 0
        &&& self.mem().contains_key(self.root())
        &&& self.mem()[self.root()].len() == 1024
        &&& forall|i: int|
            0 <= i < 1024 && #[trigger] table_entry(self.dir_entry(i)) ==> {
                &&& self.mem().contains_key(entry_address_4kib(self.dir_entry(i)))
                &&& entry_address_4kib(self.dir_entry(i)) != self.root()
                &&& self.mem()[entry_address_4kib(self.dir_entry(i))].len() == 1024
            }
        &&& forall|i: int, j: int|
            0 <= i < 1024 && 0 <= j < 1024 && i != j && #[trigger] table_entry(self.dir_entry(i))
                && #[trigger] table_entry(self.dir_entry(j)) ==> entry_address_4kib(self.dir_entry(i))
                != entry_address_4kib(self.dir_entry(j))
    }

    /// What a call `map_4kib(virt, phys, flags)` from `pre` to `post` with
    /// result `r` amounts to.
    ///
    /// It fails with `AlreadyMapped` exactly when the page of `virt` is
    /// already mapped, and with `OutOfMemory` only when a page table had to be
    /// allocated, which is exactly when the directory entry of `virt` is
    /// absent and the context has no free frame; a failure leaves every mapping
    /// as it was. A call consumes at most one free frame. On success the page
    /// of `virt` maps to the frame `phys` and no
    /// other address changes. Exactly two entries are written. The directory
    /// entry of `virt` gains `flags` when it referenced a table (even when the
    /// page then turns out to be mapped); when it was absent, it comes to
    /// reference a freshly allocated table holding zeros. The entry of `virt`
    /// in that table becomes `flags | PRESENT | phys`.
    pub open spec fn map_4kib_post(
        pre: Self,
        post: Self,
        virt: usize,
        phys: u32,
        flags: PageTableFlags,
        r: Result<(), MappingError>,
    ) -> bool {
        let i = directory_index(virt as int);
        &&& post.wf()
        &&& post.root() == pre.root()
        &&& post.frames() == pre.frames()
        &&& pre.mem().dom().subset_of(post.mem().dom())
        &&& (r == Err::<(), MappingError>(MappingError::OutOfMemory) <==> !entry_present(pre.dir_entry(i))
            && !pre.has_free_frame())
        &&& (pre.frames().finite() ==> post.free_frames().len() + 1 >= pre.free_frames().len())
        &&& forall|d: int| 0 <= d < 1024 && d != i ==> #[trigger] post.dir_entry(d) == pre.dir_entry(d)
        &&& (!table_entry(pre.dir_entry(i)) && r is Err ==> post.mem() == pre.mem())
        &&& (table_entry(pre.dir_entry(i)) ==> post.dir_entry(i) == pre.dir_entry(i) | flags.bits)
        &&& (!entry_present(pre.dir_entry(i)) && r is Ok ==> {
            let t = entry_address_4kib(post.dir_entry(i));
            &&& post.dir_entry(i) == flags.bits | PRESENT | t
            &&& !pre.mem().contains_key(t)
            &&& post.mem() == pre.mem().insert(
                pre.root(),
                pre.mem()[pre.root()].update(i, flags.bits | PRESENT | t),
            ).insert(t, Seq::new(1024, |k: int| 0u32).update(table_index(virt as int), flags.bits | PRESENT | phys))
        })
        &&& (table_entry(pre.dir_entry(i)) && r is Ok ==> {
            let t = entry_address_4kib(pre.dir_entry(i));
            post.mem() == pre.mem().insert(
                pre.root(),
                pre.mem()[pre.root()].update(i, pre.dir_entry(i) | flags.bits),
            ).insert(t, pre.mem()[t].update(table_index(virt as int), flags.bits | PRESENT | phys))
        })
        &&& (table_entry(pre.dir_entry(i)) && r is Err ==> post.mem() == pre.mem().insert(
            pre.root(),
            pre.mem()[pre.root()].update(i, pre.dir_entry(i) | flags.bits),
        ))
        &&& (r == Err::<(), MappingError>(MappingError::AlreadyMapped) <==> pre.mapping_spec(
            virt as u32,
        ) is Some)
        &&& (r == Err::<(), MappingError>(MappingError::OutOfMemory) ==> !entry_present(
            pre.dir_entry(directory_index(virt as int)),
        ))
        &&& (r is Err ==> post.same_mappings(&pre))
        &&& (r is Ok ==> window_mapped(post, pre, virt as int, phys as int, 4096, flags.bits))
    }

    /// What a call `map_4mib(virt, phys, flags)` from `pre` to `post` with
    /// result `r` amounts to.
    ///
    /// It fails with `AlreadyMapped` exactly when the directory entry of
    /// `virt` is present, and then changes nothing; otherwise it writes that
    /// one directory entry, allocates nothing, and the 4 MiB window of `virt`
    /// maps onto the one of `phys`.
    pub open spec fn map_4mib_post(
        pre: Self,
        post: Self,
        virt: usize,
        phys: u32,
        flags: PageTableFlags,
        r: Result<(), MappingError>,
    ) -> bool {
        &&& post.wf()
        &&& post.root() == pre.root()
        &&& post.frames() == pre.frames()
        &&& pre.mem().dom().subset_of(post.mem().dom())
        &&& (r is Err <==> entry_present(pre.dir_entry(directory_index(virt as int))))
        &&& (r is Err ==> r == Err::<(), MappingError>(MappingError::AlreadyMapped) && post.mem()
            == pre.mem())
        &&& (r is Ok ==> post.mem() == pre.mem().insert(
            pre.root(),
            pre.mem()[pre.root()].update(
                directory_index(virt as int),
                flags.bits | PRESENT | HUGE_PAGE | phys,
            ),
        ))
        &&& (r is Ok ==> window_mapped(post, pre, virt as int, phys as int, 0x40_0000, flags.bits))
    }
}


/// Adds the flags of a child entry to its parent directory entry.
///
/// Flags are only ever added at the directory level, never removed: a
/// directory entry ends up at least as permissive as any of its children.
fn update_flags(parent: &mut PageTableFlags, child: PageTableFlags)
    ensures
        final(parent).bits == old(parent).bits | child.bits,
{
    *parent = parent.union(child);
}

/// Writes zero to all 1024 entries of `page`.
fn zero_page<C: Context>(context: &mut C, page: u32)
    requires
        old(context).wf(),
        old(context).pages().contains_key(page),
        old(context).pages()[page].len() == 1024,
    ensures
        final(context).wf(),
        final(context).frames() == old(context).frames(),
        final(context).pages() == old(context).pages().insert(page, Seq::new(1024, |i: int| 0u32)),
{
    let mut i: usize = 0;
    while i < 1024
        invariant
            0 <= i <= 1024,
            context.wf(),
            context.frames() == old(context).frames(),
            context.pages().contains_key(page),
            context.pages()[page].len() == 1024,
            context.pages() == old(context).pages().insert(page, context.pages()[page]),
            forall|k: int| 0 <= k < i ==> context.pages()[page][k] == 0,
        decreases 1024 - i,
    {
        context.write(page, PageTableIndex::new(i), PageTableFlags::empty());
        i = i + 1;
    }
    assert(context.pages()[page] =~= Seq::new(1024, |i: int| 0u32));
}

/// Merging valid mapping flags into an entry keeps its present bit, huge bit
/// and address.
proof fn lemma_merge_flags(e: u32, f: u32)
    requires
        f & !MAPPING_FLAGS_MASK == 0,
    ensures
        entry_present(e | f) == entry_present(e),
        entry_huge(e | f) == entry_huge(e),
        entry_address_4kib(e | f) == entry_address_4kib(e),
{
    assert(f & !0x17Eu32 == 0 ==> ((e | f) & 1 == 1) == (e & 1 == 1)) by (bit_vector);
    assert(f & !0x17Eu32 == 0 ==> ((e | f) & 0x80 == 0x80) == (e & 0x80 == 0x80)) by (bit_vector);
    assert(f & !0x17Eu32 == 0 ==> (e | f) & 0xFFFF_F000u32 == e & 0xFFFF_F000u32) by (bit_vector);
}

/// An entry built from valid mapping flags, `PRESENT` and a 4 KiB-aligned
/// address is present, not huge, and holds that address.
proof fn lemma_table_entry(f: u32, a: u32)
    requires
        f & !MAPPING_FLAGS_MASK == 0,
        a % 4096 == 0,
    ensures
        entry_present(f | PRESENT | a),
        !entry_huge(f | PRESENT | a),
        entry_address_4kib(f | PRESENT | a) == a,
        entry_flags(f | PRESENT | a) == f,
{
    assert(f & !0x17Eu32 == 0 && a % 4096 == 0 ==> (f | 1u32 | a) & 0xF7Eu32 == f) by (bit_vector);
    assert(f & !0x17Eu32 == 0 && a % 4096 == 0 ==> (f | 1u32 | a) & 1 == 1) by (bit_vector);
    assert(f & !0x17Eu32 == 0 && a % 4096 == 0 ==> (f | 1u32 | a) & 0x80 == 0) by (bit_vector);
    assert(f & !0x17Eu32 == 0 && a % 4096 == 0 ==> (f | 1u32 | a) & 0xFFFF_F000u32 == a) by (bit_vector);
}

/// An entry built from valid mapping flags, `PRESENT`, `HUGE_PAGE` and a
/// 4 MiB-aligned address is a present huge entry holding that address.
proof fn lemma_huge_entry(f: u32, a: u32)
    requires
        f & !MAPPING_FLAGS_MASK == 0,
        a % 0x40_0000 == 0,
    ensures
        entry_present(f | PRESENT | HUGE_PAGE | a),
        entry_huge(f | PRESENT | HUGE_PAGE | a),
        entry_address_4mib(f | PRESENT | HUGE_PAGE | a) == a,
        entry_flags(f | PRESENT | HUGE_PAGE | a) == f,
{
    assert(f & !0x17Eu32 == 0 && a % 0x40_0000 == 0 ==> (f | 1u32 | 0x80u32 | a) & 0xF7Eu32 == f) by (bit_vector);
    assert(a % 0x40_0000 == 0 ==> (f | 1u32 | 0x80u32 | a) & 1 == 1) by (bit_vector);
    assert(a % 0x40_0000 == 0 ==> (f | 1u32 | 0x80u32 | a) & 0x80 == 0x80) by (bit_vector);
    assert(f & !0x17Eu32 == 0 && a % 0x40_0000 == 0 ==> (f | 1u32 | 0x80u32 | a) & 0xFFC0_0000u32 == a)
        by (bit_vector);
}

/// Two 32-bit addresses lie in the same 4 KiB page exactly when their
/// directory and table indices agree.
proof fn lemma_same_page(v: int, w: int)
    requires
        0 <= v,
        0 <= w,
    ensures
        (v / 4096 == w / 4096) <==> (directory_index(v) == directory_index(w) && table_index(v)
            == table_index(w)),
{
    vstd::arithmetic::div_mod::lemma_div_denominator(v, 4096, 1024);
    vstd::arithmetic::div_mod::lemma_div_denominator(w, 4096, 1024);
    vstd::arithmetic::div_mod::lemma_fundamental_div_mod(v / 4096, 1024);
    vstd::arithmetic::div_mod::lemma_fundamental_div_mod(w / 4096, 1024);
}


/// Relies on `core::mem::forget`: the value is consumed without running its
/// destructor.
#[verifier::external_body]
fn forget<T>(value: T) {
    core::mem::forget(value)
}

impl<C: Context> AddressSpace<C> {
    /// Creates an address space whose directory is a fresh zero-filled page of
    /// `context`; fails exactly when the context has no free frame.
    pub fn new(context: C) -> (r: Result<Self, OutOfMemory>)
        requires
            context.wf(),
        ensures
            r is Ok <==> free_frame_exists(context.frames(), context.pages()),
            r is Ok ==> r->Ok_0.frames() == context.frames(),
            r is Ok ==> r->Ok_0.frames().contains(r->Ok_0.root()),
            r is Ok ==> {
                let s = r->Ok_0;
                &&& s.wf()
                &&& !context.pages().contains_key(s.root())
                &&& s.mem() == context.pages().insert(s.root(), Seq::new(1024, |i: int| 0u32))
                &&& forall|v: u32| #[trigger] s.mapping_spec(v) is None
                &&& forall|d: int| 0 <= d < 1024 ==> #[trigger] s.dir_entry(d) == 0
            },
    {
        let mut context = context;
        let root = match context.allocate() {
            Ok(page) => page,
            Err(e) => {
                return Err(e);
            },
        };
        zero_page(&mut context, root);
        let r = AddressSpace { context, root };
        proof {
            lemma_zero_absent();
            assert forall|i: int| 0 <= i < 1024 implies r.dir_entry(i) == 0 by {}
            assert forall|v: u32| #[trigger] r.mapping_spec(v) is None by {
                assert(directory_index(v as int) < 1024) by { assert(v as int / 0x40_0000 < 1024); }
            }
        }
        Ok(r)
    }

    /// The context the address space works through, for reading entries.
    pub fn context(&self) -> (r: &C)
        ensures
            r.wf() == self.context_wf(),
            r.pages() == self.mem(),
    {
        &self.context
    }

    /// Returns the physical address of the page directory.
    pub fn page_directory(&self) -> (r: u32)
        requires
            self.wf(),
        ensures
            r == self.root(),
            r % 4096 == 0,
    {
        self.root
    }

    /// Gives up the address space without running any cleanup, so that no
    /// destructor can release pages that the processor may now be walking.
    pub fn leak(self) {
        forget(self);
    }

    /// Translates the provided virtual address to a physical address, if it is mapped.
    pub fn translate(&self, virt: usize) -> (r: Option<u32>)
        requires
            self.wf(),
            virt <= u32::MAX,
        ensures
            r == self.translate_spec(virt as u32),
    {
        let pde = self.context.read(self.root, PageTableIndex::extract_page_directory_index(virt));
        if !pde.is_present() {
            return None;
        }
        if pde.is_huge_page() {
            proof {
                lemma_offset_bits_4mib(virt);
                lemma_mask_4mib_aligned(pde.bits);
            }
            let offset = (virt & 0x3F_FFFF) as u32;
            let base = pde.address_4mib();
            return Some(base + offset);
        }
        let pta = pde.address_4kib();
        proof {
            let d = directory_index(virt as int);
            assert(0 <= d < 1024) by { assert(virt as int / 0x40_0000 < 1024); }
            assert(table_entry(self.dir_entry(d)));
        }
        let pte = self.context.read(pta, PageTableIndex::extract_page_table_index(virt));
        if pte.is_present() {
            proof {
                lemma_offset_bits_4kib(virt);
                lemma_mask_4kib_aligned(pte.bits);
            }
            let offset = (virt & 0xFFF) as u32;
            let base = pte.address_4kib();
            Some(base + offset)
        } else {
            None
        }
    }

    /// Maps the 4 KiB virtual page at `virt` to the 4 KiB physical page at
    /// `phys`, allocating and installing a page table when the directory entry
    /// of `virt` is absent. The requested flags are also added to the directory
    /// entry.
    pub fn map_4kib(&mut self, virt: usize, phys: u32, flags: PageTableFlags) -> (r: Result<
        (),
        MappingError,
    >)
        requires
            old(self).wf(),
            virt <= u32::MAX,
            virt % FOUR_KIB == 0,
            phys % 4096 == 0,
            valid_mapping_flags(flags),
        ensures
            Self::map_4kib_post(*old(self), *final(self), virt, phys, flags, r),
    {
        let root = self.root;
        let pde_index = PageTableIndex::extract_page_directory_index(virt);
        let pte_index = PageTableIndex::extract_page_table_index(virt);
        let ghost i = directory_index(virt as int);
        let ghost j = table_index(virt as int);
        proof {
            assert(0 <= i < 1024) by { assert(virt as int / 0x40_0000 < 1024); }
        }
        let pde = self.context.read(root, pde_index);
        let pta: u32;
        if !pde.is_present() {
            let page = match self.context.allocate() {
                Ok(p) => {
                    proof {
                        assert(old(self).frames().contains(p) && !old(self).mem().contains_key(p));
                        assert(old(self).has_free_frame());
                    }
                    p
                },
                Err(_) => {
                    proof {

                        assert(self.mem() == old(self).mem());
                        assert(!entry_present(old(self).dir_entry(i)));
                        assert(forall|v: u32| #[trigger] self.mapping_spec(v) == old(self).mapping_spec(v));
                        assert(old(self).mapping_spec(virt as u32) is None);
                        assert(self.root() == old(self).root());
                        assert(forall|a: int| 0 <= a < 1024 ==> self.dir_entry(a) == old(self).dir_entry(a));
                        assert(self.wf());
                    }
                    return Err(MappingError::OutOfMemory);
                },
            };
            zero_page(&mut self.context, page);
            let entry = flags.union(PageTableFlags::from_bits_retain(PRESENT)).union(
                PageTableFlags::from_bits_retain(page),
            );
            self.context.write(root, pde_index, entry);
            pta = page;
            proof {
                lemma_table_entry(flags.bits, page);
                lemma_zero_absent();
                assert(self.dir_entry(i) == entry.bits);
                assert forall|a: int| 0 <= a < 1024 && a != i implies self.dir_entry(a) == old(self).dir_entry(a) by {}
                assert forall|a: int| 0 <= a < 1024 && #[trigger] table_entry(self.dir_entry(a)) implies {
                    &&& self.mem().contains_key(entry_address_4kib(self.dir_entry(a)))
                    &&& entry_address_4kib(self.dir_entry(a)) != self.root()
                    &&& self.mem()[entry_address_4kib(self.dir_entry(a))].len() == 1024
                } by {
                    if a != i {
                        assert(table_entry(old(self).dir_entry(a)));
                    }
                }
                assert forall|a: int, b: int|
                    0 <= a < 1024 && 0 <= b < 1024 && a != b && #[trigger] table_entry(self.dir_entry(a))
                        && #[trigger] table_entry(self.dir_entry(b)) implies entry_address_4kib(self.dir_entry(a))
                    != entry_address_4kib(self.dir_entry(b)) by {
                    if a != i && b != i {
                        assert(table_entry(old(self).dir_entry(a)));
                        assert(table_entry(old(self).dir_entry(b)));
                    } else if a == i {
                        assert(table_entry(old(self).dir_entry(b)));
                        assert(old(self).mem().contains_key(entry_address_4kib(old(self).dir_entry(b))));
                    } else {
                        assert(table_entry(old(self).dir_entry(a)));
                        assert(old(self).mem().contains_key(entry_address_4kib(old(self).dir_entry(a))));
                    }
                }
                assert forall|v: u32| #[trigger] self.mapping_spec(v) == old(self).mapping_spec(v) by {
                    let d = directory_index(v as int);
                    assert(0 <= d < 1024) by { assert(v as int / 0x40_0000 < 1024); }
                    if d != i {
                        if table_entry(old(self).dir_entry(d)) {
                            assert(old(self).mem().contains_key(entry_address_4kib(old(self).dir_entry(d))));
                        }
                    } else {
                        assert(0 <= table_index(v as int) < 1024);
                    }
                }
                assert(self.mem()[pta][j] == 0);
                assert(self.mem() =~= old(self).mem().insert(
                    root,
                    old(self).mem()[root].update(i, entry.bits),
                ).insert(page, Seq::new(1024, |k: int| 0u32)));
            }
        } else if pde.is_huge_page() {
            return Err(MappingError::AlreadyMapped);
        } else {
            let mut merged = pde;
            update_flags(&mut merged, flags);
            self.context.write(root, pde_index, merged);
            pta = merged.address_4kib();
            proof {
                lemma_merge_flags(pde.bits, flags.bits);
                assert(table_entry(old(self).dir_entry(i)));
                assert(self.dir_entry(i) == merged.bits);
                assert forall|a: int| 0 <= a < 1024 && a != i implies self.dir_entry(a) == old(self).dir_entry(a) by {}
                assert forall|a: int| 0 <= a < 1024 && #[trigger] table_entry(self.dir_entry(a)) implies {
                    &&& self.mem().contains_key(entry_address_4kib(self.dir_entry(a)))
                    &&& entry_address_4kib(self.dir_entry(a)) != self.root()
                    &&& self.mem()[entry_address_4kib(self.dir_entry(a))].len() == 1024
                } by {
                    assert(table_entry(old(self).dir_entry(a)));
                }
                assert forall|a: int, b: int|
                    0 <= a < 1024 && 0 <= b < 1024 && a != b && #[trigger] table_entry(self.dir_entry(a))
                        && #[trigger] table_entry(self.dir_entry(b)) implies entry_address_4kib(self.dir_entry(a))
                    != entry_address_4kib(self.dir_entry(b)) by {
                    assert(table_entry(old(self).dir_entry(a)));
                    assert(table_entry(old(self).dir_entry(b)));
                }
                assert forall|v: u32| #[trigger] self.mapping_spec(v) == old(self).mapping_spec(v) by {
                    let d = directory_index(v as int);
                    assert(0 <= d < 1024) by { assert(v as int / 0x40_0000 < 1024); }
                    if table_entry(old(self).dir_entry(d)) {
                        assert(entry_address_4kib(old(self).dir_entry(d)) != root);
                    }
                }
                assert(self.mem()[pta] == old(self).mem()[pta]);
                assert(self.mem() =~= old(self).mem().insert(root, old(self).mem()[root].update(i, merged.bits)));
            }
        }
        let ghost mid = *self;
        let pte = self.context.read(pta, pte_index);
        if pte.is_present() {
            proof {
                if old(self).frames().finite() {
                    assert(self.mem().dom().subset_of(old(self).mem().dom().insert(root)));
                    lemma_free_frames_step(*old(self), *self, root);
                }
            }
            return Err(MappingError::AlreadyMapped);
        }
        let entry = flags.union(PageTableFlags::from_bits_retain(PRESENT)).union(
            PageTableFlags::from_bits_retain(phys),
        );
        self.context.write(pta, pte_index, entry);
        proof {
            let leaf = flags.bits | PRESENT | phys;
            assert(entry.bits == leaf);
            if !entry_present(old(self).dir_entry(i)) {
                assert(self.mem() =~= old(self).mem().insert(
                    root,
                    old(self).mem()[root].update(i, self.dir_entry(i)),
                ).insert(pta, Seq::new(1024, |k: int| 0u32).update(j, leaf)));
            } else {
                assert(self.mem() =~= old(self).mem().insert(
                    root,
                    old(self).mem()[root].update(i, old(self).dir_entry(i) | flags.bits),
                ).insert(pta, old(self).mem()[pta].update(j, leaf)));
            }
            lemma_table_entry(flags.bits, phys);
            assert forall|a: int| 0 <= a < 1024 implies self.dir_entry(a) == mid.dir_entry(a) by {}
            assert forall|a: int| 0 <= a < 1024 && #[trigger] table_entry(self.dir_entry(a)) implies {
                &&& self.mem().contains_key(entry_address_4kib(self.dir_entry(a)))
                &&& entry_address_4kib(self.dir_entry(a)) != self.root()
                &&& self.mem()[entry_address_4kib(self.dir_entry(a))].len() == 1024
            } by {
                assert(table_entry(mid.dir_entry(a)));
            }
            assert forall|a: int, b: int|
                0 <= a < 1024 && 0 <= b < 1024 && a != b && #[trigger] table_entry(self.dir_entry(a))
                    && #[trigger] table_entry(self.dir_entry(b)) implies entry_address_4kib(self.dir_entry(a))
                != entry_address_4kib(self.dir_entry(b)) by {
                assert(table_entry(mid.dir_entry(a)));
                assert(table_entry(mid.dir_entry(b)));
            }
            assert forall|v: u32| #[trigger] self.mapping_spec(v) == if v as int / 4096 == virt as int / 4096 {
                Some(((phys + offset_4kib(v as int)) as u32, flags.bits))
            } else {
                old(self).mapping_spec(v)
            } by {
                let d = directory_index(v as int);
                assert(0 <= d < 1024) by { assert(v as int / 0x40_0000 < 1024); }
                lemma_same_page(v as int, virt as int);
                assert(mid.mapping_spec(v) == old(self).mapping_spec(v));
                if d != i {
                    if table_entry(mid.dir_entry(d)) {
                        assert(entry_address_4kib(mid.dir_entry(d)) != pta);
                    }
                }
            }
            if old(self).frames().finite() {
                assert(self.mem().dom().subset_of(old(self).mem().dom().insert(pta)));
                lemma_free_frames_step(*old(self), *self, pta);
            }
        }
        Ok(())
    }

    /// Maps `[virt, virt + length)` onto `[phys, phys + length)`, with a 4 MiB
    /// page wherever at least 4 MiB remain and both addresses are 4 MiB-aligned,
    /// and 4 KiB pages elsewhere.
    ///
    /// Every page of the range is mapped through an entry whose flags, besides
    /// `PRESENT` and `HUGE_PAGE`, are exactly `flags`. Stops at the first page
    /// that cannot be mapped; the pages mapped before it stay mapped. It fails
    /// with `AlreadyMapped` only when the range is blocked (see
    /// [`range_blocked`]), never succeeds when it is, and succeeds whenever it
    /// is not and either no page table has to be allocated or the context has
    /// at least one free frame per 4 KiB page of the range (see
    /// [`small_steps`]). It fails with `OutOfMemory` only once the context has
    /// no free frame left.
    pub fn map_range(&mut self, virt: usize, phys: u32, length: usize, flags: PageTableFlags) -> (r:
        Result<(), MappingError>)
        requires
            old(self).wf(),
            virt % FOUR_KIB == 0,
            phys % 4096 == 0,
            length % FOUR_KIB == 0,
            virt + length <= 0x1_0000_0000,
            phys + length <= 0x1_0000_0000,
            valid_mapping_flags(flags),
        ensures
            final(self).wf(),
            final(self).root() == old(self).root(),
            final(self).frames() == old(self).frames(),
            old(self).mem().dom().subset_of(final(self).mem().dom()),
            r == Err::<(), MappingError>(MappingError::OutOfMemory) ==> !final(self).has_free_frame(),
            r is Ok ==> range_mapped(*final(self), *old(self), virt as int, phys as int, length as int, flags.bits),
            r is Err ==> exists|n: int|
                0 <= n < length && n % 4096 == 0 && #[trigger] range_mapped(
                    *final(self),
                    *old(self),
                    virt as int,
                    phys as int,
                    n,
                    flags.bits,
                ),
            r == Err::<(), MappingError>(MappingError::AlreadyMapped) ==> exists|d: int|
                virt / 0x40_0000 <= d <= (virt + length - 1) / 0x40_0000 && entry_present(
                    #[trigger] old(self).dir_entry(d),
                ),
            r == Err::<(), MappingError>(MappingError::AlreadyMapped) ==> range_blocked(
                *old(self),
                virt as int,
                phys as int,
                length as int,
            ),
            r is Ok ==> !range_blocked(*old(self), virt as int, phys as int, length as int),
            !range_blocked(*old(self), virt as int, phys as int, length as int) && range_needs_no_table(
                *old(self),
                virt as int,
                phys as int,
                length as int,
            ) ==> r is Ok,
            old(self).frames().finite() && !range_blocked(*old(self), virt as int, phys as int, length as int)
                && old(self).free_frames().len() >= small_steps(virt as int, phys as int, length as int) ==> r is Ok,
            huge_aligned(virt as int, phys as int, length as int) ==> final(self).mem().dom()
                == old(self).mem().dom(),
            huge_aligned(virt as int, phys as int, length as int) && r is Ok ==> final(self).mem()
                == old(self).mem().insert(
                old(self).root(),
                huge_directory(*old(self), virt as int, phys as int, length as int, flags.bits),
            ),
            huge_aligned(virt as int, phys as int, length as int) && (forall|d: int|
                virt as int / 0x40_0000 <= d < (virt + length) / 0x40_0000 ==> !entry_present(
                    #[trigger] old(self).dir_entry(d),
                )) ==> r is Ok,
    {
        let ghost base = *self;
        proof {
            reveal(huge_progress);
            reveal(range_progress);
            assert(huge_directory(*old(self), virt as int, phys as int, 0, flags.bits) =~= old(self).mem()[old(self).root()]);
            assert(old(self).mem().insert(
                old(self).root(),
                huge_directory(*old(self), virt as int, phys as int, 0, flags.bits),
            ) =~= old(self).mem());
        }
        let mut v = virt;
        let mut p = phys;
        let mut len = length;
        let ghost mut gv: int = virt as int;
        let ghost mut gp: int = phys as int;
        while len != 0
            invariant
                base == *old(self),
                base.wf(),
                gv - virt == gp - phys == length - len,
                len != 0 ==> v == gv && p == gp,
                0 <= len <= length,
                len % 4096 == 0,
                gv % 4096 == 0,
                gp % 4096 == 0,
                virt % 4096 == 0,
                length % 4096 == 0,
                virt + length <= 0x1_0000_0000,
                phys + length <= 0x1_0000_0000,
                valid_mapping_flags(flags),
                huge_aligned(virt as int, phys as int, length as int) ==> huge_aligned(gv, gp, len as int),
                range_progress(*self, base, virt as int, phys as int, length as int, flags, gv, gp, len as int),
            decreases len,
        {
            let step: usize;
            if len >= FOUR_MIB && v % FOUR_MIB == 0 && p % 0x40_0000 == 0 {
                match self.range_step_huge(v, p, len, flags, Ghost(base), Ghost(virt as int), Ghost(phys as int), Ghost(length as int)) {
                    Ok(()) => {},
                    Err(e) => {
                        return Err(e);
                    },
                }
                step = FOUR_MIB;
            } else {
                match self.range_step_small(v, p, len, flags, Ghost(base), Ghost(virt as int), Ghost(phys as int), Ghost(length as int)) {
                    Ok(()) => {},
                    Err(e) => {
                        return Err(e);
                    },
                }
                step = FOUR_KIB;
            }
            len = len - step;
            proof {
                gv = gv + step;
                gp = gp + step;
            }
            if len != 0 {
                v = v + step;
                p = p + step as u32;
            }
        }
        proof {
            reveal(range_progress);
            assert(!range_blocked(base, gv, gp, 0));
            if huge_aligned(virt as int, phys as int, length as int) {
                lemma_huge_progress_dom(*self, *old(self), virt as int, phys as int, length as int, flags.bits);
                reveal(huge_progress);
            }
        }
        Ok(())
    }

    /// One 4 MiB step of a range mapping, at `v` onto `p` with `len` bytes left.
    fn range_step_huge(
        &mut self,
        v: usize,
        p: u32,
        len: usize,
        flags: PageTableFlags,
        base: Ghost<Self>,
        virt: Ghost<int>,
        phys: Ghost<int>,
        length: Ghost<int>,
    ) -> (r: Result<(), MappingError>)
        requires
            base@.wf(),
            v - virt@ == p - phys@ == length@ - len,
            0 < len <= length@,
            len >= FOUR_MIB,
            v % FOUR_MIB == 0,
            p % 0x40_0000 == 0,
            len % 4096 == 0,
            length@ % 4096 == 0,
            virt@ % 4096 == 0,
            0 <= virt@,
            0 <= phys@,
            virt@ + length@ <= 0x1_0000_0000,
            phys@ + length@ <= 0x1_0000_0000,
            valid_mapping_flags(flags),
            range_progress(*old(self), base@, virt@, phys@, length@, flags, v as int, p as int, len as int),
        ensures
            r is Ok ==> range_progress(
                *final(self),
                base@,
                virt@,
                phys@,
                length@,
                flags,
                v + 0x40_0000,
                p + 0x40_0000,
                len - 0x40_0000,
            ),
            r is Err ==> range_failed(*final(self), base@, virt@, phys@, length@, flags, r->Err_0),
    {
        proof {
            reveal(range_progress);
        }
        let ghost prev = *self;
        let ghost huge = huge_aligned(virt@, phys@, length@);
        let res = self.map_4mib(v, p, flags);
        proof {
            lemma_map_4mib_facts(prev, *self, v, p, flags, res);
        }
        if res.is_err() {
            proof {
                assert(forall|va: u32| #[trigger] self.mapping_spec(va) == prev.mapping_spec(va));
                assert(range_mapped(*self, base@, virt@, phys@, length@ - len, flags.bits));
                lemma_sub_aligned(length@, len as int, 4096);
                let w = v as int / 0x40_0000;
                vstd::arithmetic::div_mod::lemma_fundamental_div_mod(v as int, 0x40_0000);
                assert(w * 0x40_0000 == v);
                assert(0 <= w < 1024) by { assert(v as int / 0x40_0000 < 1024); }
                assert(entry_present(base@.dir_entry(w)));
                assert(virt@ / 0x40_0000 <= w <= (virt@ + length@ - 1) / 0x40_0000) by {
                    vstd::arithmetic::div_mod::lemma_div_is_ordered(virt@, v as int, 0x40_0000);
                    vstd::arithmetic::div_mod::lemma_div_is_ordered(v as int, virt@ + length@ - 1, 0x40_0000);
                }
                if huge {
                    lemma_huge_progress_dom(prev, base@, virt@, phys@, length@ - len, flags.bits);
                    assert(self.mem().dom() == base@.mem().dom());
                    assert(w < (virt@ + length@) / 0x40_0000) by {
                        lemma_window(v as int + len - 1, v as int, 0x40_0000);
                        vstd::arithmetic::div_mod::lemma_div_is_ordered(v as int + 0x40_0000, virt@ + length@, 0x40_0000);
                        vstd::arithmetic::div_mod::lemma_div_plus_one(v as int, 0x40_0000);
                    }
                }
                assert(range_mapped(*self, base@, virt@, phys@, length@ - len, flags.bits));
            }
            return res;
        }
        proof {
            lemma_range_step(prev, *self, base@, virt@, phys@, length@ - len, 0x40_0000, flags.bits);
            if huge {
                lemma_huge_step(prev, *self, base@, virt@, phys@, length@ - len, flags);
            }
            let w = v as int / 0x40_0000;
            vstd::arithmetic::div_mod::lemma_fundamental_div_mod(v as int, 0x40_0000);
            assert forall|d: int| 0 <= d < 1024 && d * 0x40_0000 >= v + 0x40_0000 implies #[trigger] self.dir_entry(d)
                == base@.dir_entry(d) by {
                assert(d != w);
                assert(prev.dir_entry(d) == base@.dir_entry(d));
            }
        }
        res
    }

    /// One 4 KiB step of a range mapping, at `v` onto `p` with `len` bytes left.
    fn range_step_small(
        &mut self,
        v: usize,
        p: u32,
        len: usize,
        flags: PageTableFlags,
        base: Ghost<Self>,
        virt: Ghost<int>,
        phys: Ghost<int>,
        length: Ghost<int>,
    ) -> (r: Result<(), MappingError>)
        requires
            base@.wf(),
            v - virt@ == p - phys@ == length@ - len,
            0 < len <= length@,
            !(len >= FOUR_MIB && v % FOUR_MIB == 0 && p % 0x40_0000 == 0),
            len % 4096 == 0,
            v % 4096 == 0,
            p % 4096 == 0,
            length@ % 4096 == 0,
            virt@ % 4096 == 0,
            0 <= virt@,
            0 <= phys@,
            virt@ + length@ <= 0x1_0000_0000,
            phys@ + length@ <= 0x1_0000_0000,
            valid_mapping_flags(flags),
            huge_aligned(virt@, phys@, length@) ==> huge_aligned(v as int, p as int, len as int),
            range_progress(*old(self), base@, virt@, phys@, length@, flags, v as int, p as int, len as int),
        ensures
            r is Ok ==> range_progress(
                *final(self),
                base@,
                virt@,
                phys@,
                length@,
                flags,
                v + 4096,
                p + 4096,
                len - 4096,
            ),
            r is Err ==> range_failed(*final(self), base@, virt@, phys@, length@, flags, r->Err_0),
    {
        proof {
            reveal(range_progress);
            if huge_aligned(virt@, phys@, length@) {
                assert(len >= FOUR_MIB) by {
                    vstd::arithmetic::div_mod::lemma_mod_is_zero(len as nat, 0x40_0000);
                }
            }
        }
        let ghost prev = *self;
        let res = self.map_4kib(v, p, flags);
        proof {
            lemma_map_4kib_facts(prev, *self, v, p, flags, res);
        }
        if res.is_err() {
            proof {
                assert(forall|va: u32| #[trigger] self.mapping_spec(va) == prev.mapping_spec(va));
                assert(range_mapped(*self, base@, virt@, phys@, length@ - len, flags.bits));
                lemma_sub_aligned(length@, len as int, 4096);
                if res == Err::<(), MappingError>(MappingError::OutOfMemory) && base@.frames().finite()
                    && base@.free_frames().len() >= small_steps(virt@, phys@, length@) {
                    assert forall|x: u32| !prev.free_frames().contains(x) by {
                        if prev.free_frames().contains(x) {
                            assert(prev.frames().contains(x) && !prev.mem().contains_key(x));
                            assert(prev.has_free_frame());
                        }
                    }
                    assert(prev.free_frames() =~= Set::<u32>::empty());
                    assert(small_steps(v as int, p as int, len as int) == 1 + small_steps(
                        v + 4096,
                        p + 4096,
                        len - 4096,
                    ));
                    assert(false);
                }
                if res == Err::<(), MappingError>(MappingError::AlreadyMapped) {
                    let w = v as int / 0x40_0000;
                    assert(prev.mapping_spec(v as u32) is Some);
                    assert(prev.mapping_spec(v as u32) == range_mapping(
                        base@,
                        virt@,
                        phys@,
                        length@ - len,
                        flags.bits,
                        v as u32,
                    ));
                    assert(base@.mapping_spec(v as u32) is Some);
                    assert(entry_present(base@.dir_entry(w)));
                    assert(virt@ / 0x40_0000 <= w <= (virt@ + length@ - 1) / 0x40_0000) by {
                        vstd::arithmetic::div_mod::lemma_div_is_ordered(virt@, v as int, 0x40_0000);
                        vstd::arithmetic::div_mod::lemma_div_is_ordered(v as int, virt@ + length@ - 1, 0x40_0000);
                    }
                }
            }
            return res;
        }
        proof {
            lemma_range_step(prev, *self, base@, virt@, phys@, length@ - len, 4096, flags.bits);
            assert(prev.mapping_spec(v as u32) == range_mapping(base@, virt@, phys@, length@ - len, flags.bits, v as u32));
            assert(base@.mapping_spec(v as u32) is None);
            assert(range_blocked(base@, v as int, p as int, len as int) == range_blocked(
                base@,
                v + 4096,
                p + 4096,
                len - 4096,
            ));
            assert(range_needs_no_table(base@, v as int, p as int, len as int) ==> range_needs_no_table(
                base@,
                v + 4096,
                p + 4096,
                len - 4096,
            ));
            let w = v as int / 0x40_0000;
            vstd::arithmetic::div_mod::lemma_fundamental_div_mod(v as int, 0x40_0000);
            assert forall|d: int| 0 <= d < 1024 && d * 0x40_0000 >= v + 4096 implies #[trigger] self.dir_entry(d)
                == base@.dir_entry(d) by {
                assert(d != w);
                assert(prev.dir_entry(d) == base@.dir_entry(d));
            }
        }
        res
    }

    /// Maps the 4 MiB virtual page at `virt` to the 4 MiB physical page at
    /// `phys`, by a single huge-page directory entry.
    pub fn map_4mib(&mut self, virt: usize, phys: u32, flags: PageTableFlags) -> (r: Result<
        (),
        MappingError,
    >)
        requires
            old(self).wf(),
            virt <= u32::MAX,
            virt % FOUR_MIB == 0,
            phys % 0x40_0000 == 0,
            valid_mapping_flags(flags),
        ensures
            Self::map_4mib_post(*old(self), *final(self), virt, phys, flags, r),
    {
        let root = self.root;
        let pde_index = PageTableIndex::extract_page_directory_index(virt);
        let pde = self.context.read(root, pde_index);
        if pde.is_present() {
            return Err(MappingError::AlreadyMapped);
        }
        let entry = flags.union(PageTableFlags::from_bits_retain(PRESENT)).union(
            PageTableFlags::from_bits_retain(HUGE_PAGE),
        ).union(PageTableFlags::from_bits_retain(phys));
        self.context.write(root, pde_index, entry);
        proof {
            let i = directory_index(virt as int);
            lemma_huge_entry(flags.bits, phys);
            assert(self.dir_entry(i) == entry.bits);
            assert forall|j: int| 0 <= j < 1024 && j != i implies self.dir_entry(j) == old(self).dir_entry(j) by {}
            assert forall|v: u32| #[trigger] self.mapping_spec(v) == if v as int / 0x40_0000 == virt as int / 0x40_0000 {
                Some(((phys + offset_4mib(v as int)) as u32, flags.bits))
            } else {
                old(self).mapping_spec(v)
            } by {
                let d = directory_index(v as int);
                assert(0 <= d < 1024) by { assert(v as int / 0x40_0000 < 1024); }
                if d != i {
                    assert(self.dir_entry(d) == old(self).dir_entry(d));
                    if table_entry(old(self).dir_entry(d)) {
                        assert(entry_address_4kib(old(self).dir_entry(d)) != root);
                    }
                }
            }
            assert forall|a: int| 0 <= a < 1024 && #[trigger] table_entry(self.dir_entry(a)) implies {
                &&& self.mem().contains_key(entry_address_4kib(self.dir_entry(a)))
                &&& entry_address_4kib(self.dir_entry(a)) != self.root()
                &&& self.mem()[entry_address_4kib(self.dir_entry(a))].len() == 1024
            } by {
                assert(a != i);
                assert(table_entry(old(self).dir_entry(a)));
            }
            assert forall|a: int, b: int|
                0 <= a < 1024 && 0 <= b < 1024 && a != b && #[trigger] table_entry(self.dir_entry(a))
                    && #[trigger] table_entry(self.dir_entry(b)) implies entry_address_4kib(self.dir_entry(a))
                != entry_address_4kib(self.dir_entry(b)) by {
                assert(table_entry(old(self).dir_entry(a)));
                assert(table_entry(old(self).dir_entry(b)));
            }
        }
        Ok(())
    }
}

/// For an aligned `v`, the addresses in the same `size`-window as `v` are
/// exactly `[v, v + size)`, at offset `va - v`.
proof fn lemma_window(va: int, v: int, size: int)
    requires
        0 < size,
        0 <= v,
        0 <= va,
        v % size == 0,
    ensures
        (va / size == v / size) <==> (v <= va < v + size),
        v <= va < v + size ==> va % size == va - v,
{
    let q = v / size;
    vstd::arithmetic::div_mod::lemma_fundamental_div_mod(v, size);
    vstd::arithmetic::div_mod::lemma_fundamental_div_mod(va, size);
    vstd::arithmetic::div_mod::lemma_mod_pos_bound(va, size);
    assert(v == q * size) by (nonlinear_arith)
        requires v == size * q + v % size, v % size == 0;
    if v <= va < v + size {
        vstd::arithmetic::div_mod::lemma_fundamental_div_mod_converse(va, size, q, va - v);
    }
    if va / size == q {
        assert(va == q * size + va % size) by (nonlinear_arith)
            requires va == size * (va / size) + va % size, va / size == q;
    }
}

/// The difference of two multiples of `m` is a multiple of `m`.
proof fn lemma_sub_aligned(a: int, b: int, m: int)
    requires
        0 < m,
        a % m == 0,
        b % m == 0,
    ensures
        (a - b) % m == 0,
{
    vstd::arithmetic::div_mod::lemma_fundamental_div_mod(a, m);
    vstd::arithmetic::div_mod::lemma_fundamental_div_mod(b, m);
    assert(a - b == (a / m - b / m) * m) by (nonlinear_arith)
        requires a == m * (a / m) + a % m, b == m * (b / m) + b % m, a % m == 0, b % m == 0;
    vstd::arithmetic::div_mod::lemma_fundamental_div_mod_converse(a - b, m, a / m - b / m, 0);
}

/// A step that adds at most the page `t` to the pages of an address space
/// consumes at most one free frame.
proof fn lemma_free_frames_step<C: Context>(pre: AddressSpace<C>, post: AddressSpace<C>, t: u32)
    requires
        pre.frames().finite(),
        post.frames() == pre.frames(),
        pre.mem().dom().subset_of(post.mem().dom()),
        post.mem().dom().subset_of(pre.mem().dom().insert(t)),
    ensures
        post.free_frames().len() + 1 >= pre.free_frames().len(),
{
    let a = pre.free_frames();
    let b = post.free_frames();
    assert(a.remove(t).subset_of(b));
    vstd::set_lib::lemma_len_subset(a.remove(t), b);
}

/// A zero entry is not present.
proof fn lemma_zero_absent()
    ensures
        !entry_present(0),
{
    assert(0u32 & 1 != 1) by (bit_vector);
}

proof fn lemma_offset_bits_4kib(v: usize)
    requires
        v <= u32::MAX,
    ensures
        v & 0xFFF == v % 4096,
        v & 0xFFF < 4096,
{
    assert(v & 0xFFF == v % 4096) by (bit_vector);
}

proof fn lemma_offset_bits_4mib(v: usize)
    requires
        v <= u32::MAX,
    ensures
        v & 0x3F_FFFF == v % 0x40_0000,
        v & 0x3F_FFFF < 0x40_0000,
{
    assert(v & 0x3F_FFFF == v % 0x40_0000) by (bit_vector);
}

/// The facts about a `map_4kib` call that a range mapping relies on.
proof fn lemma_map_4kib_facts<C: Context>(
    pre: AddressSpace<C>,
    post: AddressSpace<C>,
    virt: usize,
    phys: u32,
    flags: PageTableFlags,
    r: Result<(), MappingError>,
)
    requires
        AddressSpace::<C>::map_4kib_post(pre, post, virt, phys, flags, r),
        valid_mapping_flags(flags),
        pre.wf(),
        virt <= u32::MAX,
    ensures
        table_entry(pre.dir_entry(directory_index(virt as int))) ==> table_entry(
            post.dir_entry(directory_index(virt as int)),
        ),
        r == Err::<(), MappingError>(MappingError::OutOfMemory) ==> !entry_present(
            pre.dir_entry(directory_index(virt as int)),
        ),
        r == Err::<(), MappingError>(MappingError::OutOfMemory) ==> post.mem() == pre.mem()
            && !pre.has_free_frame(),
        pre.frames().finite() ==> post.free_frames().len() + 1 >= pre.free_frames().len(),
        pre.mem().dom().subset_of(post.mem().dom()),
        post.wf(),
        post.root() == pre.root(),
        post.frames() == pre.frames(),
        forall|d: int|
            0 <= d < 1024 && d != directory_index(virt as int) ==> #[trigger] post.dir_entry(d) == pre.dir_entry(d),
        r == Err::<(), MappingError>(MappingError::AlreadyMapped) <==> pre.mapping_spec(virt as u32) is Some,
        r is Err ==> post.same_mappings(&pre),
        r is Ok ==> window_mapped(post, pre, virt as int, phys as int, 4096, flags.bits),
{
    let i = directory_index(virt as int);
    lemma_merge_flags(pre.dir_entry(i), flags.bits);
}

/// The facts about a `map_4mib` call that a range mapping relies on.
proof fn lemma_map_4mib_facts<C: Context>(
    pre: AddressSpace<C>,
    post: AddressSpace<C>,
    virt: usize,
    phys: u32,
    flags: PageTableFlags,
    r: Result<(), MappingError>,
)
    requires
        AddressSpace::<C>::map_4mib_post(pre, post, virt, phys, flags, r),
    ensures
        post.wf(),
        post.root() == pre.root(),
        post.frames() == pre.frames(),
        pre.mem().dom().subset_of(post.mem().dom()),
        pre.wf() ==> post.free_frames() == pre.free_frames(),
        r is Err <==> entry_present(pre.dir_entry(directory_index(virt as int))),
        r is Err ==> post.mem() == pre.mem(),
        r is Ok ==> post.mem() == pre.mem().insert(
            pre.root(),
            pre.mem()[pre.root()].update(
                directory_index(virt as int),
                flags.bits | PRESENT | HUGE_PAGE | phys,
            ),
        ),
        r is Ok ==> window_mapped(post, pre, virt as int, phys as int, 0x40_0000, flags.bits),
{
    if pre.wf() {
        assert(post.mem().dom() =~= pre.mem().dom());
        assert(post.free_frames() =~= pre.free_frames());
    }
}

/// Whether `post` maps the `size`-sized page holding `v` onto the one at `p`
/// with the flags `flags`, and maps every other address as `pre` does.
pub open spec fn window_mapped<C: Context>(
    post: AddressSpace<C>,
    pre: AddressSpace<C>,
    v: int,
    p: int,
    size: int,
    flags: u32,
) -> bool {
    forall|va: u32|
        #[trigger] post.mapping_spec(va) == if va as int / size == v / size {
            Some(((p + va as int % size) as u32, flags))
        } else {
            pre.mapping_spec(va)
        }
}

/// Mapping one more aligned page right after a mapped range extends the range.
proof fn lemma_range_step<C: Context>(
    prev: AddressSpace<C>,
    post: AddressSpace<C>,
    base: AddressSpace<C>,
    virt: int,
    phys: int,
    done: int,
    size: int,
    flags: u32,
)
    requires
        0 < size,
        0 <= virt,
        0 <= done,
        (virt + done) % size == 0,
        range_mapped(prev, base, virt, phys, done, flags),
        window_mapped(post, prev, virt + done, phys + done, size, flags),
    ensures
        range_mapped(post, base, virt, phys, done + size, flags),
{
    assert forall|va: u32| #[trigger] post.mapping_spec(va) == range_mapping(base, virt, phys, done + size, flags, va) by {
        lemma_window(va as int, virt + done, size);
        assert(prev.mapping_spec(va) == range_mapping(base, virt, phys, done, flags, va));
    }
}

/// Whether `post` maps `[v, v + n)` onto `[p, p + n)` with the flags
/// `flags`, and every other address as `pre` does.
pub open spec fn range_mapped<C: Context>(
    post: AddressSpace<C>,
    pre: AddressSpace<C>,
    v: int,
    p: int,
    n: int,
    flags: u32,
) -> bool {
    forall|va: u32| #[trigger] post.mapping_spec(va) == range_mapping(pre, v, p, n, flags, va)
}

/// The directory of `s` once the 4 MiB windows of `[v, v + n)` map onto
/// those of `[p, p + n)` through huge entries with `flags`.
pub open spec fn huge_directory<C: Context>(s: AddressSpace<C>, v: int, p: int, n: int, flags: u32) -> Seq<u32> {
    Seq::new(
        1024,
        |d: int|
            if v <= d * 0x40_0000 < v + n {
                flags | PRESENT | HUGE_PAGE | ((p + d * 0x40_0000 - v) as u32)
            } else {
                s.dir_entry(d)
            },
    )
}

/// Whether the greedy decomposition of `[v, v + n)` onto `[p, p + n)` meets,
/// in `s`, a page that blocks it: a present directory entry where a 4 MiB
/// page would go, or an already mapped page where a 4 KiB page would go.
pub open spec fn range_blocked<C: Context>(s: AddressSpace<C>, v: int, p: int, n: int) -> bool
    decreases n,
{
    if n < 4096 {
        false
    } else if n >= 0x40_0000 && v % 0x40_0000 == 0 && p % 0x40_0000 == 0 {
        entry_present(s.dir_entry(v / 0x40_0000)) || range_blocked(s, v + 0x40_0000, p + 0x40_0000, n - 0x40_0000)
    } else {
        s.mapping_spec(v as u32) is Some || range_blocked(s, v + 4096, p + 4096, n - 4096)
    }
}


/// Whether every 4 KiB page of the greedy decomposition of `[v, v + n)` onto
/// `[p, p + n)` falls, in `s`, under a directory entry that already
/// references a page table, so that mapping the range allocates nothing.
pub open spec fn range_needs_no_table<C: Context>(s: AddressSpace<C>, v: int, p: int, n: int) -> bool
    decreases n,
{
    if n < 4096 {
        true
    } else if n >= 0x40_0000 && v % 0x40_0000 == 0 && p % 0x40_0000 == 0 {
        range_needs_no_table(s, v + 0x40_0000, p + 0x40_0000, n - 0x40_0000)
    } else {
        table_entry(s.dir_entry(v / 0x40_0000)) && range_needs_no_table(s, v + 4096, p + 4096, n - 4096)
    }
}

/// How many 4 KiB pages the greedy decomposition of `[v, v + n)` onto
/// `[p, p + n)` uses: each may need one new page table.
pub open spec fn small_steps(v: int, p: int, n: int) -> nat
    decreases n,
{
    if n < 4096 {
        0
    } else if n >= 0x40_0000 && v % 0x40_0000 == 0 && p % 0x40_0000 == 0 {
        small_steps(v + 0x40_0000, p + 0x40_0000, n - 0x40_0000)
    } else {
        1 + small_steps(v + 4096, p + 4096, n - 4096)
    }
}

/// In an address space whose directory holds no present entry, no range is
/// blocked.
pub proof fn lemma_empty_space_unblocked<C: Context>(s: AddressSpace<C>, v: int, p: int, n: int)
    requires
        forall|d: int| 0 <= d < 1024 ==> !entry_present(#[trigger] s.dir_entry(d)),
        0 <= v,
        v + n <= 0x1_0000_0000,
    ensures
        !range_blocked(s, v, p, n),
    decreases n,
{
    if n >= 4096 {
        assert(v / 0x40_0000 < 1024);
        assert(!entry_present(s.dir_entry(v / 0x40_0000)));
        assert((v as u32) as int == v);
        assert(s.mapping_spec(v as u32) is None);
        if n >= 0x40_0000 && v % 0x40_0000 == 0 && p % 0x40_0000 == 0 {
            lemma_empty_space_unblocked(s, v + 0x40_0000, p + 0x40_0000, n - 0x40_0000);
        } else {
            assert(directory_index((v as u32) as int) == v / 0x40_0000);
            lemma_empty_space_unblocked(s, v + 4096, p + 4096, n - 4096);
        }
    }
}

/// What holds of `s` during a mapping of `[virt, virt + length)` onto
/// `[phys, phys + length)` from `base`, with `len` bytes left from `v` and `p`.
#[verifier::opaque]
pub open spec fn range_progress<C: Context>(
    s: AddressSpace<C>,
    base: AddressSpace<C>,
    virt: int,
    phys: int,
    length: int,
    flags: PageTableFlags,
    v: int,
    p: int,
    len: int,
) -> bool {
    &&& s.wf()
    &&& s.root() == base.root()
    &&& s.frames() == base.frames()
    &&& base.mem().dom().subset_of(s.mem().dom())
    &&& range_mapped(s, base, virt, phys, length - len, flags.bits)
    &&& huge_aligned(virt, phys, length) ==> huge_progress(s, base, virt, phys, length - len, flags.bits)
    &&& forall|d: int| 0 <= d < 1024 && d * 0x40_0000 >= v ==> #[trigger] s.dir_entry(d) == base.dir_entry(d)
    &&& range_blocked(base, virt, phys, length) == range_blocked(base, v, p, len)
    &&& range_needs_no_table(base, virt, phys, length) ==> range_needs_no_table(base, v, p, len)
    &&& base.frames().finite() ==> s.free_frames().len() + small_steps(virt, phys, length) >= base.free_frames().len()
        + small_steps(v, p, len)
    &&& forall|d: int| 0 <= d < 1024 && table_entry(#[trigger] base.dir_entry(d)) ==> table_entry(s.dir_entry(d))
}

/// What holds of `s` once a mapping of `[virt, virt + length)` onto
/// `[phys, phys + length)` from `base` failed with `e`.
pub open spec fn range_failed<C: Context>(
    s: AddressSpace<C>,
    base: AddressSpace<C>,
    virt: int,
    phys: int,
    length: int,
    flags: PageTableFlags,
    e: MappingError,
) -> bool {
    &&& s.wf()
    &&& s.root() == base.root()
    &&& s.frames() == base.frames()
    &&& base.mem().dom().subset_of(s.mem().dom())
    &&& e == MappingError::OutOfMemory ==> !s.has_free_frame()
    &&& exists|n: int| 0 <= n < length && n % 4096 == 0 && #[trigger] range_mapped(s, base, virt, phys, n, flags.bits)
    &&& e == MappingError::AlreadyMapped ==> exists|d: int|
        virt / 0x40_0000 <= d <= (virt + length - 1) / 0x40_0000 && entry_present(#[trigger] base.dir_entry(d))
    &&& e == MappingError::AlreadyMapped ==> range_blocked(base, virt, phys, length)
    &&& range_needs_no_table(base, virt, phys, length) ==> range_blocked(base, virt, phys, length)
    &&& base.frames().finite() && base.free_frames().len() >= small_steps(virt, phys, length) ==> range_blocked(
        base,
        virt,
        phys,
        length,
    )
    &&& huge_aligned(virt, phys, length) ==> s.mem().dom() == base.mem().dom()
    &&& huge_aligned(virt, phys, length) ==> exists|d: int|
        virt / 0x40_0000 <= d < (virt + length) / 0x40_0000 && entry_present(#[trigger] base.dir_entry(d))
}

/// Whether the memory of `s` is that of `base` with the first `done` bytes
/// of `[v, v + n)` mapped through huge entries.
#[verifier::opaque]
pub open spec fn huge_progress<C: Context>(
    s: AddressSpace<C>,
    base: AddressSpace<C>,
    v: int,
    p: int,
    done: int,
    flags: u32,
) -> bool {
    s.mem() == base.mem().insert(base.root(), huge_directory(base, v, p, done, flags))
}

/// Huge-page progress only rewrites the directory: the set of pages stays.
proof fn lemma_huge_progress_dom<C: Context>(
    s: AddressSpace<C>,
    base: AddressSpace<C>,
    v: int,
    p: int,
    done: int,
    flags: u32,
)
    requires
        base.wf(),
        huge_progress(s, base, v, p, done, flags),
    ensures
        s.mem().dom() == base.mem().dom(),
{
    reveal(huge_progress);
    assert(s.mem().dom() =~= base.mem().dom());
}

/// A successful `map_4mib` right after the huge windows mapped so far adds
/// its window's entry to the directory.
proof fn lemma_huge_step<C: Context>(
    prev: AddressSpace<C>,
    post: AddressSpace<C>,
    base: AddressSpace<C>,
    virt: int,
    phys: int,
    done: int,
    flags: PageTableFlags,
)
    requires
        0 <= virt,
        0 <= done,
        (virt + done) % 0x40_0000 == 0,
        virt + done < 0x1_0000_0000,
        phys + done <= u32::MAX,
        prev.root() == base.root(),
        huge_progress(prev, base, virt, phys, done, flags.bits),
        post.mem() == prev.mem().insert(
            prev.root(),
            prev.mem()[prev.root()].update(
                directory_index(virt + done),
                flags.bits | PRESENT | HUGE_PAGE | ((phys + done) as u32),
            ),
        ),
    ensures
        huge_progress(post, base, virt, phys, done + 0x40_0000, flags.bits),
{
    reveal(huge_progress);
    let w = (virt + done) / 0x40_0000;
    vstd::arithmetic::div_mod::lemma_fundamental_div_mod(virt + done, 0x40_0000);
    assert(w * 0x40_0000 == virt + done);
    assert(prev.mem()[prev.root()] == huge_directory(base, virt, phys, done, flags.bits));
    assert(prev.mem()[prev.root()].update(w, flags.bits | PRESENT | HUGE_PAGE | ((phys + done) as u32))
        =~= huge_directory(base, virt, phys, done + 0x40_0000, flags.bits));
    assert(post.mem() =~= base.mem().insert(base.root(), huge_directory(base, virt, phys, done + 0x40_0000, flags.bits)));
}

/// Whether `v`, `p` and `n` are all multiples of 4 MiB.
pub open spec fn huge_aligned(v: int, p: int, n: int) -> bool {
    v % 0x40_0000 == 0 && p % 0x40_0000 == 0 && n % 0x40_0000 == 0
}

/// The mapping of `va` once `[v, v + n)` of `s` is mapped onto `[p, p + n)`
/// with the flags `flags`.
pub open spec fn range_mapping<C: Context>(
    s: AddressSpace<C>,
    v: int,
    p: int,
    n: int,
    flags: u32,
    va: u32,
) -> Option<(u32, u32)> {
    if v <= va < v + n {
        Some(((p + (va - v)) as u32, flags))
    } else {
        s.mapping_spec(va)
    }
}

} // verus!

verus! {

/// A successful `map_4kib(virt, phys, flags)` makes every address `virt + k`
/// of the page translate to `phys + k`, through an entry with `flags`.
pub proof fn lemma_map_4kib_round_trip<C: Context>(
    pre: AddressSpace<C>,
    post: AddressSpace<C>,
    virt: usize,
    phys: u32,
    flags: PageTableFlags,
    k: int,
)
    requires
        AddressSpace::<C>::map_4kib_post(pre, post, virt, phys, flags, Ok(())),
        virt % 4096 == 0,
        phys % 4096 == 0,
        virt <= u32::MAX,
        0 <= k < 4096,
    ensures
        post.translate_spec((virt + k) as u32) == Some((phys + k) as u32),
        post.mapping_spec((virt + k) as u32) == Some(((phys + k) as u32, flags.bits)),
{
    lemma_u32_page_end(virt as int, 4096);
    let va = (virt + k) as u32;
    lemma_window(va as int, virt as int, 4096);
    assert(post.mapping_spec(va) == if va as int / 4096 == virt as int / 4096 {
        Some(((phys + offset_4kib(va as int)) as u32, flags.bits))
    } else {
        pre.mapping_spec(va)
    });
}

/// A successful `map_4mib(virt, phys, flags)` makes every address `virt + k`
/// of the 4 MiB window translate to `phys + k`, through an entry with `flags`.
pub proof fn lemma_map_4mib_round_trip<C: Context>(
    pre: AddressSpace<C>,
    post: AddressSpace<C>,
    virt: usize,
    phys: u32,
    flags: PageTableFlags,
    k: int,
)
    requires
        AddressSpace::<C>::map_4mib_post(pre, post, virt, phys, flags, Ok(())),
        virt % 0x40_0000 == 0,
        phys % 0x40_0000 == 0,
        virt <= u32::MAX,
        0 <= k < 0x40_0000,
    ensures
        post.translate_spec((virt + k) as u32) == Some((phys + k) as u32),
        post.mapping_spec((virt + k) as u32) == Some(((phys + k) as u32, flags.bits)),
{
    lemma_u32_page_end(virt as int, 0x40_0000);
    let va = (virt + k) as u32;
    lemma_window(va as int, virt as int, 0x40_0000);
    assert(post.mapping_spec(va) == if va as int / 0x40_0000 == virt as int / 0x40_0000 {
        Some(((phys + offset_4mib(va as int)) as u32, flags.bits))
    } else {
        pre.mapping_spec(va)
    });
}

/// Mapping the same 4 KiB page twice: the second call fails with
/// `AlreadyMapped` and leaves every translation as the first call left it.
pub proof fn lemma_no_double_mapping_4kib<C: Context>(
    s0: AddressSpace<C>,
    s1: AddressSpace<C>,
    s2: AddressSpace<C>,
    virt: usize,
    phys1: u32,
    phys2: u32,
    flags1: PageTableFlags,
    flags2: PageTableFlags,
    r2: Result<(), MappingError>,
)
    requires
        AddressSpace::<C>::map_4kib_post(s0, s1, virt, phys1, flags1, Ok(())),
        AddressSpace::<C>::map_4kib_post(s1, s2, virt, phys2, flags2, r2),
        virt <= u32::MAX,
    ensures
        r2 == Err::<(), MappingError>(MappingError::AlreadyMapped),
        s2.same_mappings(&s1),
{
    assert(s1.mapping_spec(virt as u32) is Some) by {
        assert((virt as u32) as int / 4096 == virt as int / 4096);
    }
}

/// Whether an address of a page is mapped does not depend on which address
/// of the page it is.
proof fn lemma_same_page_mapped<C: Context>(s: AddressSpace<C>, a: u32, b: u32)
    requires
        a as int / 4096 == b as int / 4096,
    ensures
        (s.mapping_spec(a) is Some) == (s.mapping_spec(b) is Some),
{
    lemma_same_page(a as int, b as int);
}

/// A page that is mapped stays mapped, to the same frame with the same flags,
/// through any `map_4kib` call.
pub proof fn lemma_mapped_stays_4kib<C: Context>(
    pre: AddressSpace<C>,
    post: AddressSpace<C>,
    virt: usize,
    phys: u32,
    flags: PageTableFlags,
    r: Result<(), MappingError>,
    va: u32,
)
    requires
        AddressSpace::<C>::map_4kib_post(pre, post, virt, phys, flags, r),
        virt <= u32::MAX,
        pre.mapping_spec(va) is Some,
    ensures
        post.mapping_spec(va) == pre.mapping_spec(va),
{
    if va as int / 4096 == virt as int / 4096 {
        lemma_same_page_mapped(pre, va, virt as u32);
    }
}

/// A page that is mapped stays mapped, to the same frame with the same flags,
/// through any `map_4mib` call.
pub proof fn lemma_mapped_stays_4mib<C: Context>(
    pre: AddressSpace<C>,
    post: AddressSpace<C>,
    virt: usize,
    phys: u32,
    flags: PageTableFlags,
    r: Result<(), MappingError>,
    va: u32,
)
    requires
        AddressSpace::<C>::map_4mib_post(pre, post, virt, phys, flags, r),
        virt <= u32::MAX,
        pre.mapping_spec(va) is Some,
    ensures
        post.mapping_spec(va) == pre.mapping_spec(va),
{
}

/// A present directory entry stays present through any `map_4kib` call.
pub proof fn lemma_entry_stays_present_4kib<C: Context>(
    pre: AddressSpace<C>,
    post: AddressSpace<C>,
    virt: usize,
    phys: u32,
    flags: PageTableFlags,
    r: Result<(), MappingError>,
    d: int,
)
    requires
        AddressSpace::<C>::map_4kib_post(pre, post, virt, phys, flags, r),
        valid_mapping_flags(flags),
        0 <= d < 1024,
        entry_present(pre.dir_entry(d)),
    ensures
        entry_present(post.dir_entry(d)),
{
    lemma_merge_flags(pre.dir_entry(d), flags.bits);
}

/// A present directory entry stays present through any `map_4mib` call.
pub proof fn lemma_entry_stays_present_4mib<C: Context>(
    pre: AddressSpace<C>,
    post: AddressSpace<C>,
    virt: usize,
    phys: u32,
    flags: PageTableFlags,
    r: Result<(), MappingError>,
    d: int,
)
    requires
        AddressSpace::<C>::map_4mib_post(pre, post, virt, phys, flags, r),
        pre.wf(),
        virt <= u32::MAX,
        0 <= d < 1024,
        entry_present(pre.dir_entry(d)),
    ensures
        entry_present(post.dir_entry(d)),
{
    let i = directory_index(virt as int);
    assert(i < 1024) by { assert(virt as int / 0x40_0000 < 1024); }
    if r is Ok && d != i {
        assert(post.mem()[post.root()] == pre.mem()[pre.root()].update(i, flags.bits | PRESENT | HUGE_PAGE | phys));
        assert(post.dir_entry(d) == pre.dir_entry(d));
    }
}

/// Mapping a page that is already mapped, however long ago: the call fails
/// with `AlreadyMapped` and every mapping stays as it was.
pub proof fn lemma_mapped_page_refused_4kib<C: Context>(
    s1: AddressSpace<C>,
    s2: AddressSpace<C>,
    virt: usize,
    phys: u32,
    flags: PageTableFlags,
    r: Result<(), MappingError>,
)
    requires
        s1.mapping_spec(virt as u32) is Some,
        AddressSpace::<C>::map_4kib_post(s1, s2, virt, phys, flags, r),
    ensures
        r == Err::<(), MappingError>(MappingError::AlreadyMapped),
        s2.same_mappings(&s1),
{
}

/// Mapping a 4 MiB window whose directory entry is present, however long
/// ago it was set: the call fails with `AlreadyMapped` and changes nothing.
pub proof fn lemma_present_window_refused_4mib<C: Context>(
    s1: AddressSpace<C>,
    s2: AddressSpace<C>,
    virt: usize,
    phys: u32,
    flags: PageTableFlags,
    r: Result<(), MappingError>,
)
    requires
        entry_present(s1.dir_entry(directory_index(virt as int))),
        AddressSpace::<C>::map_4mib_post(s1, s2, virt, phys, flags, r),
    ensures
        r == Err::<(), MappingError>(MappingError::AlreadyMapped),
        s2.mem() == s1.mem(),
        s2.same_mappings(&s1),
{
}

/// Mapping the same 4 MiB window twice: the second call fails with
/// `AlreadyMapped` and changes nothing.
pub proof fn lemma_no_double_mapping_4mib<C: Context>(
    s0: AddressSpace<C>,
    s1: AddressSpace<C>,
    s2: AddressSpace<C>,
    virt: usize,
    phys1: u32,
    phys2: u32,
    flags1: PageTableFlags,
    flags2: PageTableFlags,
    r2: Result<(), MappingError>,
)
    requires
        s0.wf(),
        AddressSpace::<C>::map_4mib_post(s0, s1, virt, phys1, flags1, Ok(())),
        AddressSpace::<C>::map_4mib_post(s1, s2, virt, phys2, flags2, r2),
        valid_mapping_flags(flags1),
        phys1 % 0x40_0000 == 0,
        virt <= u32::MAX,
    ensures
        r2 == Err::<(), MappingError>(MappingError::AlreadyMapped),
        s2.mem() == s1.mem(),
        s2.same_mappings(&s1),
{
    lemma_huge_entry(flags1.bits, phys1);
    let i = directory_index(virt as int);
    assert(0 <= i < 1024) by { assert(virt as int / 0x40_0000 < 1024); }
    assert(s1.dir_entry(i) == flags1.bits | PRESENT | HUGE_PAGE | phys1);
}

/// Consecutive successful `map_4mib` calls, each 4 MiB past the previous one,
/// map `[virt, virt + n * 4 MiB)` onto `[phys, phys + n * 4 MiB)` and leave
/// every other address alone.
pub proof fn lemma_huge_pages_compose<C: Context>(
    states: Seq<AddressSpace<C>>,
    virt: int,
    phys: int,
    flags: PageTableFlags,
)
    requires
        states.len() >= 1,
        0 <= virt,
        0 <= phys,
        virt % 0x40_0000 == 0,
        virt + (states.len() - 1) * 0x40_0000 <= 0x1_0000_0000,
        phys + (states.len() - 1) * 0x40_0000 <= 0x1_0000_0000,
        forall|i: int|
            0 <= i < states.len() - 1 ==> #[trigger] AddressSpace::<C>::map_4mib_post(
                states[i],
                states[i + 1],
                (virt + i * 0x40_0000) as usize,
                (phys + i * 0x40_0000) as u32,
                flags,
                Ok(()),
            ),
    ensures
        range_mapped(states.last(), states[0], virt, phys, (states.len() - 1) * 0x40_0000, flags.bits),
    decreases states.len(),
{
    if states.len() > 1 {
        let prefix = states.drop_last();
        let n = states.len() - 2;
        assert forall|i: int| 0 <= i < prefix.len() - 1 implies #[trigger] AddressSpace::<C>::map_4mib_post(
            prefix[i],
            prefix[i + 1],
            (virt + i * 0x40_0000) as usize,
            (phys + i * 0x40_0000) as u32,
            flags,
            Ok(()),
        ) by {
            assert(AddressSpace::<C>::map_4mib_post(
                states[i],
                states[i + 1],
                (virt + i * 0x40_0000) as usize,
                (phys + i * 0x40_0000) as u32,
                flags,
                Ok(()),
            ));
        }
        lemma_huge_pages_compose(prefix, virt, phys, flags);
        assert(AddressSpace::<C>::map_4mib_post(
            states[n],
            states[n + 1],
            (virt + n * 0x40_0000) as usize,
            (phys + n * 0x40_0000) as u32,
            flags,
            Ok(()),
        ));
        let w = virt + n * 0x40_0000;
        assert(w % 0x40_0000 == 0) by {
            vstd::arithmetic::div_mod::lemma_mod_multiples_vanish(n, virt, 0x40_0000);
        }
        assert forall|va: u32| #[trigger] states.last().mapping_spec(va) == range_mapping(
            states[0],
            virt,
            phys,
            (states.len() - 1) * 0x40_0000,
            flags.bits,
            va,
        ) by {
            lemma_window(va as int, w, 0x40_0000);
            assert(prefix.last().mapping_spec(va) == range_mapping(
                states[0],
                virt,
                phys,
                n * 0x40_0000,
                flags.bits,
                va,
            ));
        }
    }
}

/// Consecutive successful `map_4kib` calls, each 4 KiB past the previous one,
/// map `[virt, virt + n * 4 KiB)` onto `[phys, phys + n * 4 KiB)` and leave
/// every other address alone.
pub proof fn lemma_small_pages_compose<C: Context>(
    states: Seq<AddressSpace<C>>,
    virt: int,
    phys: int,
    flags: PageTableFlags,
)
    requires
        states.len() >= 1,
        0 <= virt,
        0 <= phys,
        virt % 4096 == 0,
        virt + (states.len() - 1) * 4096 <= 0x1_0000_0000,
        phys + (states.len() - 1) * 4096 <= 0x1_0000_0000,
        forall|i: int|
            0 <= i < states.len() - 1 ==> #[trigger] AddressSpace::<C>::map_4kib_post(
                states[i],
                states[i + 1],
                (virt + i * 4096) as usize,
                (phys + i * 4096) as u32,
                flags,
                Ok(()),
            ),
    ensures
        range_mapped(states.last(), states[0], virt, phys, (states.len() - 1) * 4096, flags.bits),
    decreases states.len(),
{
    if states.len() > 1 {
        let prefix = states.drop_last();
        let n = states.len() - 2;
        assert forall|i: int| 0 <= i < prefix.len() - 1 implies #[trigger] AddressSpace::<C>::map_4kib_post(
            prefix[i],
            prefix[i + 1],
            (virt + i * 4096) as usize,
            (phys + i * 4096) as u32,
            flags,
                Ok(()),
        ) by {
            assert(AddressSpace::<C>::map_4kib_post(
                states[i],
                states[i + 1],
                (virt + i * 4096) as usize,
                (phys + i * 4096) as u32,
                flags,
                Ok(()),
            ));
        }
        lemma_small_pages_compose(prefix, virt, phys, flags);
        assert(AddressSpace::<C>::map_4kib_post(
            states[n],
            states[n + 1],
            (virt + n * 4096) as usize,
            (phys + n * 4096) as u32,
            flags,
                Ok(()),
        ));
        let w = virt + n * 4096;
        assert(w % 4096 == 0) by {
            vstd::arithmetic::div_mod::lemma_mod_multiples_vanish(n, virt, 4096);
        }
        assert forall|va: u32| #[trigger] states.last().mapping_spec(va) == range_mapping(
            states[0],
            virt,
            phys,
            (states.len() - 1) * 4096,
            flags.bits,
            va,
        ) by {
            lemma_window(va as int, w, 4096);
            assert(prefix.last().mapping_spec(va) == range_mapping(
                states[0],
                virt,
                phys,
                n * 4096,
                flags.bits,
                va,
            ));
        }
    }
}

/// A successful `map_range` and a sequence of page-by-page mappings of the
/// same range from the same address space, whether by 4 MiB pages or by
/// 4 KiB pages, end with the same mappings.
pub proof fn lemma_range_agrees_with_pages<C: Context>(
    pre: AddressSpace<C>,
    ranged: AddressSpace<C>,
    paged: AddressSpace<C>,
    virt: int,
    phys: int,
    length: int,
    flags: u32,
)
    requires
        range_mapped(ranged, pre, virt, phys, length, flags),
        range_mapped(paged, pre, virt, phys, length, flags),
    ensures
        ranged.same_mappings(&paged),
{
    assert forall|va: u32| #[trigger] ranged.mapping_spec(va) == paged.mapping_spec(va) by {
        assert(ranged.mapping_spec(va) == range_mapping(pre, virt, phys, length, flags, va));
        assert(paged.mapping_spec(va) == range_mapping(pre, virt, phys, length, flags, va));
    }
}

/// An aligned page start below 4 GiB leaves room for the whole page below 4 GiB.
proof fn lemma_u32_page_end(v: int, size: int)
    requires
        0 < size,
        0 <= v <= u32::MAX,
        v % size == 0,
        0x1_0000_0000int % size == 0,
    ensures
        v + size <= 0x1_0000_0000,
{
    vstd::arithmetic::div_mod::lemma_fundamental_div_mod(v, size);
    vstd::arithmetic::div_mod::lemma_fundamental_div_mod(0x1_0000_0000, size);
    let q = v / size;
    let m = 0x1_0000_0000int / size;
    assert(v == q * size) by (nonlinear_arith)
        requires v == size * q + v % size, v % size == 0;
    assert(0x1_0000_0000int == m * size) by (nonlinear_arith)
        requires 0x1_0000_0000int == size * m + 0x1_0000_0000int % size, 0x1_0000_0000int % size == 0;
    assert(q < m) by (nonlinear_arith)
        requires v == q * size, 0x1_0000_0000int == m * size, v < 0x1_0000_0000int, 0 < size;
    assert(v + size <= 0x1_0000_0000) by (nonlinear_arith)
        requires v == q * size, 0x1_0000_0000int == m * size, q < m, 0 < size;
}

} // verus!
