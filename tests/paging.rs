use kfs::address_space::{AddressSpace, Context, MappingError};
use kfs::arena::FrameArena;
use kfs::model::{PageTable, PageTableFlags, PageTableIndex, HUGE_PAGE, PRESENT, WRITABLE};

fn writable() -> PageTableFlags {
    PageTableFlags::from_bits_retain(WRITABLE)
}

fn fresh(frames: usize) -> AddressSpace<FrameArena> {
    AddressSpace::new(FrameArena::new(0x10_0000, frames)).ok().unwrap()
}

#[test]
fn scenario_map_one_small_page() {
    // 64 KiB arena: sixteen frames.
    let mut space = fresh(16);
    assert_eq!(space.map_4kib(0x1000, 0x2000, writable()), Ok(()));
    assert_eq!(space.translate(0x1000), Some(0x2000));
    assert_eq!(space.translate(0x1FFF), Some(0x2FFF));
    assert_eq!(space.translate(0x2000), None);
    assert_eq!(space.translate(0x0), None);
}

#[test]
fn scenario_identity_map_eight_mib_uses_huge_pages() {
    let mut space = fresh(16);
    assert_eq!(space.map_range(0, 0, 8 * 1024 * 1024, writable()), Ok(()));
    let dir = space.page_directory();
    let mut huge = 0;
    let mut present = 0;
    for i in 0..1024 {
        let e = space.context().read(dir, PageTableIndex::new(i));
        if e.is_present() {
            present += 1;
            if e.is_huge_page() {
                huge += 1;
            }
        }
    }
    assert_eq!(present, 2);
    assert_eq!(huge, 2);
    // Only the directory itself was taken from the arena.
    let mut in_use = 0;
    for i in 0..16u32 {
        if space.context().is_allocated(0x10_0000 + i * 0x1000) {
            in_use += 1;
        }
    }
    assert_eq!(in_use, 1);
    assert_eq!(space.translate(0x7F_FFFF), Some(0x7F_FFFF));
    assert_eq!(space.translate(0x80_0000), None);
}

#[test]
fn small_page_round_trip_every_offset() {
    let mut space = fresh(4);
    assert_eq!(space.map_4kib(0x40_3000, 0x9000, writable()), Ok(()));
    for k in 0..4096usize {
        assert_eq!(space.translate(0x40_3000 + k), Some(0x9000 + k as u32));
    }
    assert_eq!(space.translate(0x40_2FFF), None);
    assert_eq!(space.translate(0x40_4000), None);
}

#[test]
fn huge_page_round_trip() {
    let mut space = fresh(2);
    assert_eq!(space.map_4mib(0x80_0000, 0x40_0000, writable()), Ok(()));
    assert_eq!(space.translate(0x80_0000), Some(0x40_0000));
    assert_eq!(space.translate(0x80_1234), Some(0x40_1234));
    assert_eq!(space.translate(0xBF_FFFF), Some(0x7F_FFFF));
    assert_eq!(space.translate(0xC0_0000), None);
    let e = space.context().read(space.page_directory(), PageTableIndex::new(2));
    assert_eq!(e.bits(), 0x40_0000 | WRITABLE | PRESENT | HUGE_PAGE);
}

#[test]
fn second_small_mapping_is_refused() {
    let mut space = fresh(4);
    assert_eq!(space.map_4kib(0x5000, 0x7000, writable()), Ok(()));
    assert_eq!(space.map_4kib(0x5000, 0x8000, writable()), Err(MappingError::AlreadyMapped));
    assert_eq!(space.translate(0x5000), Some(0x7000));
    assert_eq!(space.translate(0x5ABC), Some(0x7ABC));
}

#[test]
fn second_huge_mapping_is_refused() {
    let mut space = fresh(2);
    assert_eq!(space.map_4mib(0, 0x40_0000, writable()), Ok(()));
    assert_eq!(space.map_4mib(0, 0x80_0000, writable()), Err(MappingError::AlreadyMapped));
    assert_eq!(space.map_4kib(0x1000, 0x80_0000, writable()), Err(MappingError::AlreadyMapped));
    assert_eq!(space.translate(0x1000), Some(0x40_1000));
}

#[test]
fn huge_mapping_over_a_page_table_is_refused() {
    let mut space = fresh(4);
    assert_eq!(space.map_4kib(0x1000, 0x2000, writable()), Ok(()));
    assert_eq!(space.map_4mib(0, 0x40_0000, writable()), Err(MappingError::AlreadyMapped));
    assert_eq!(space.translate(0x1000), Some(0x2000));
}

#[test]
fn page_table_allocation_failure_is_out_of_memory() {
    // The only frame is taken by the directory.
    let mut space = fresh(1);
    assert_eq!(space.map_4kib(0x1000, 0x2000, writable()), Err(MappingError::OutOfMemory));
    assert_eq!(space.translate(0x1000), None);
}

#[test]
fn directory_allocation_failure_is_out_of_memory() {
    assert!(AddressSpace::new(FrameArena::new(0, 0)).is_err());
}

#[test]
fn range_matches_huge_pages() {
    let mut ranged = fresh(2);
    let mut paged = fresh(2);
    assert_eq!(ranged.map_range(0x40_0000, 0x80_0000, 0xC0_0000, writable()), Ok(()));
    for i in 0..3usize {
        let off = i * 0x40_0000;
        assert_eq!(paged.map_4mib(0x40_0000 + off, 0x80_0000 + off as u32, writable()), Ok(()));
    }
    for va in (0..0x140_0000usize).step_by(0x1_0000) {
        assert_eq!(ranged.translate(va), paged.translate(va));
    }
}

#[test]
fn range_matches_small_pages_when_unaligned() {
    let mut ranged = fresh(4);
    let mut paged = fresh(4);
    assert_eq!(ranged.map_range(0x3000, 0x5000, 0x4000, writable()), Ok(()));
    for i in 0..4usize {
        let off = i * 0x1000;
        assert_eq!(paged.map_4kib(0x3000 + off, 0x5000 + off as u32, writable()), Ok(()));
    }
    for va in (0..0x10000usize).step_by(0x100) {
        assert_eq!(ranged.translate(va), paged.translate(va));
    }
    assert_eq!(ranged.translate(0x6FFF), Some(0x8FFF));
}

#[test]
fn range_mixes_page_sizes() {
    let mut space = fresh(4);
    // 4 KiB pages up to the 4 MiB boundary, then one huge page.
    assert_eq!(space.map_range(0x3F_F000, 0x3F_F000, 0x40_1000, writable()), Ok(()));
    assert_eq!(space.translate(0x3F_F123), Some(0x3F_F123));
    assert_eq!(space.translate(0x7F_FFFF), Some(0x7F_FFFF));
    let e = space.context().read(space.page_directory(), PageTableIndex::new(1));
    assert!(e.is_huge_page());
}

#[test]
fn range_stops_at_first_conflict() {
    let mut space = fresh(4);
    assert_eq!(space.map_4kib(0x2000, 0x9000, writable()), Ok(()));
    assert_eq!(space.map_range(0x0, 0x10_0000, 0x4000, writable()), Err(MappingError::AlreadyMapped));
    assert_eq!(space.translate(0x0), Some(0x10_0000));
    assert_eq!(space.translate(0x1000), Some(0x10_1000));
    assert_eq!(space.translate(0x2000), Some(0x9000));
    assert_eq!(space.translate(0x3000), None);
}

#[test]
fn directory_flags_are_merged() {
    let mut space = fresh(4);
    assert_eq!(space.map_4kib(0x1000, 0x2000, PageTableFlags::empty()), Ok(()));
    assert_eq!(space.map_4kib(0x2000, 0x3000, writable()), Ok(()));
    let e = space.context().read(space.page_directory(), PageTableIndex::new(0));
    assert!(e.contains(writable()));
    assert!(e.is_present());
    assert!(!e.is_huge_page());
}

#[test]
fn entry_predicates_and_addresses() {
    let e = PageTableFlags::from_bits_retain(0x1234_5083);
    assert!(e.is_present());
    assert!(e.is_huge_page());
    assert_eq!(e.address_4kib(), 0x1234_5000);
    assert_eq!(e.address_4mib(), 0x1200_0000);
    let z = PageTableFlags::empty();
    assert!(!z.is_present());
    assert_eq!(z.union(writable()).bits(), 2);
    assert!(writable().intersects(PageTableFlags::from_bits_retain(3)));
}

#[test]
fn index_extraction() {
    let v = 0xC040_3ABCusize;
    assert_eq!(PageTableIndex::extract_page_directory_index(v).as_usize(), 0x301);
    assert_eq!(PageTableIndex::extract_page_table_index(v).as_usize(), 0x003);
    assert_eq!(PageTableIndex::extract_offset(0x1234_5123).as_usize(), 0x123);
    assert_eq!(PageTableIndex::new(1023).as_usize(), 1023);
}

#[test]
fn arena_hands_out_distinct_frames_and_takes_them_back() {
    let mut arena = FrameArena::new(0x20_0000, 2);
    let a = arena.allocate().ok().unwrap();
    let b = arena.allocate().ok().unwrap();
    assert_ne!(a, b);
    assert!(arena.allocate().is_err());
    arena.write(a, PageTableIndex::new(5), PageTableFlags::from_bits_retain(0xABC));
    assert_eq!(arena.read(a, PageTableIndex::new(5)).bits(), 0xABC);
    arena.deallocate(a);
    assert!(!arena.is_allocated(a));
    assert_eq!(arena.allocate().ok(), Some(a));
}

#[test]
fn leak_consumes_the_space() {
    let space = fresh(1);
    let dir = space.page_directory();
    assert_eq!(dir % 4096, 0);
    space.leak();
}

#[test]
fn page_table_entries() {
    let mut t = PageTable::zeroed();
    assert_eq!(t.get(PageTableIndex::new(1023)).bits(), 0);
    t.set(PageTableIndex::new(7), PageTableFlags::from_bits_retain(0x5003));
    assert_eq!(t.get(PageTableIndex::new(7)).address_4kib(), 0x5000);
    assert!(t.get(PageTableIndex::new(7)).is_present());
    assert!(!t.get(PageTableIndex::new(6)).is_present());
}

#[test]
fn range_may_end_at_four_gib() {
    let mut space = fresh(4);
    assert_eq!(space.map_range(0xFFC0_0000, 0xFFC0_0000, 0x40_0000, writable()), Ok(()));
    assert_eq!(space.translate(0xFFFF_FFFF), Some(0xFFFF_FFFF));
    let mut small = fresh(4);
    assert_eq!(small.map_range(0xFFFF_E000, 0xFFFF_E000, 0x2000, writable()), Ok(()));
    assert_eq!(small.translate(0xFFFF_F123), Some(0xFFFF_F123));
}

#[test]
fn mapped_entries_carry_the_requested_flags() {
    let mut space = fresh(4);
    assert_eq!(space.map_range(0x3F_F000, 0x3F_F000, 0x40_1000, writable()), Ok(()));
    let dir = space.page_directory();
    let pde0 = space.context().read(dir, PageTableIndex::new(0));
    let table = pde0.address_4kib();
    let leaf = space.context().read(table, PageTableIndex::new(0x3FF));
    assert_eq!(leaf.bits(), 0x3F_F000 | WRITABLE | PRESENT);
    // The fresh table holds nothing else.
    assert_eq!(space.context().read(table, PageTableIndex::new(0)).bits(), 0);
    let pde1 = space.context().read(dir, PageTableIndex::new(1));
    assert_eq!(pde1.bits(), 0x40_0000 | WRITABLE | PRESENT | HUGE_PAGE);
}
