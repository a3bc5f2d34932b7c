use kfs::address_space::Context;
use kfs::allocator::Allocator;
use kfs::arena::FrameArena;
use kfs::boot::{available_memory, boot_allocator, deposit_frames, init_address_space, largest_segment, usable_frames};
use kfs::memory_map::{parse_memory_map, read_u32, Header, MemMapEntry, MemMapType, MemoryKind, MEMORY_MAP};
use kfs::model::PageTableIndex;

fn entry(base: u64, len: u64, ty: u32) -> MemMapEntry {
    MemMapEntry {
        size: 20,
        addr_low: base as u32,
        addr_high: (base >> 32) as u32,
        len_low: len as u32,
        len_high: (len >> 32) as u32,
        ty: MemMapType(ty),
    }
}

fn record(bytes: &mut Vec<u8>, size: u32, base: u64, len: u64, ty: u32) {
    for v in [size, base as u32, (base >> 32) as u32, len as u32, (len >> 32) as u32, ty] {
        bytes.extend_from_slice(&v.to_le_bytes());
    }
}

#[test]
fn header_checksum_sums_to_zero() {
    let h = Header::new(MEMORY_MAP);
    assert_eq!(h.magic, 0x1BAD_B002);
    assert_eq!(h.flags, 2);
    assert_eq!(h.checksum, 0xE452_4FFC);
    assert_eq!(h.magic.wrapping_add(h.flags).wrapping_add(h.checksum), 0);
    assert_eq!(Header::new(3).checksum, 0xE452_4FFB);
}

#[test]
fn memory_kinds_are_normalized() {
    assert_eq!(MemMapType(1).kind(), MemoryKind::Available);
    assert_eq!(MemMapType(2).kind(), MemoryKind::Reserved);
    assert_eq!(MemMapType(3).kind(), MemoryKind::AcpiReclaimable);
    assert_eq!(MemMapType(4).kind(), MemoryKind::Preserved);
    assert_eq!(MemMapType(5).kind(), MemoryKind::Defective);
    assert_eq!(MemMapType(77).kind(), MemoryKind::Reserved);
    let e = entry(0x1_2345_6789, 0x2_0000_0001, 1);
    assert_eq!(e.base(), 0x1_2345_6789);
    assert_eq!(e.length(), 0x2_0000_0001);
    assert_eq!(e.kind(), MemoryKind::Available);
}

#[test]
fn memory_map_records_are_decoded() {
    let mut bytes = Vec::new();
    record(&mut bytes, 20, 0, 0x9_FC00, 1);
    record(&mut bytes, 20, 0x10_0000, 0x7EE_0000, 1);
    record(&mut bytes, 20, 0xFFFC_0000, 0x4_0000, 2);
    assert_eq!(read_u32(&bytes, 4), 0);
    assert_eq!(read_u32(&bytes, 12), 0x9_FC00);
    let entries = parse_memory_map(&bytes, bytes.len() as u32).unwrap();
    assert_eq!(entries.len(), 3);
    assert_eq!(entries[1], entry(0x10_0000, 0x7EE_0000, 1));
    assert_eq!(entries[2].kind(), MemoryKind::Reserved);
    // Only the part of the map within the given length is read.
    assert_eq!(parse_memory_map(&bytes, 24).unwrap().len(), 1);
    assert_eq!(parse_memory_map(&bytes, 0).unwrap().len(), 0);
}

#[test]
fn memory_map_with_larger_records_and_malformed_maps() {
    let mut bytes = Vec::new();
    record(&mut bytes, 24, 0x10_0000, 0x1000, 1);
    bytes.extend_from_slice(&[0, 0, 0, 0]);
    record(&mut bytes, 20, 0x20_0000, 0x2000, 1);
    let entries = parse_memory_map(&bytes, bytes.len() as u32).unwrap();
    assert_eq!(entries.len(), 2);
    assert_eq!(entries[1].base(), 0x20_0000);
    // A record that would end past the bytes.
    assert_eq!(parse_memory_map(&bytes[..40], 40), None);
    // A misaligned record.
    let mut odd = Vec::new();
    record(&mut odd, 21, 0, 0x1000, 1);
    record(&mut odd, 20, 0, 0x1000, 1);
    odd.push(0);
    assert_eq!(parse_memory_map(&odd, odd.len() as u32), None);
}

#[test]
fn available_memory_sums_available_regions() {
    let entries = vec![entry(0, 0x9_FC00, 1), entry(0x9_FC00, 0x400, 2), entry(0x10_0000, 0x7EE_0000, 1)];
    assert_eq!(available_memory(&entries), 0x9_FC00 + 0x7EE_0000);
    assert_eq!(available_memory(&vec![]), 0);
    let huge = vec![entry(0, u64::MAX, 1), entry(0, 5, 1)];
    assert_eq!(available_memory(&huge), u64::MAX);
}

#[test]
fn largest_segment_above_one_mib() {
    let entries = vec![
        entry(0, 0x9_FC00, 1),
        entry(0x10_0000, 0x10_0000, 1),
        entry(0x20_0000, 0x40_0000, 2),
        entry(0x80_0000, 0x20_0000, 1),
        entry(0xA0_0000, 0x20_0000, 1),
    ];
    // Equal lengths: the last one wins.
    assert_eq!(largest_segment(&entries), Some((0xA0_0000, 0x20_0000)));
    assert_eq!(largest_segment(&vec![entry(0, 0x9_FC00, 1), entry(0x10_0000, 0x100, 3)]), None);
}

#[test]
fn boot_allocator_needs_a_32_bit_region() {
    let a = boot_allocator(0x10_0000, 0x7EE_0000).unwrap();
    assert_eq!(a.base(), 0x10_0000);
    assert_eq!(a.top(), 0x7FE_0000);
    assert!(boot_allocator(0x1_0000_0000, 0x1000).is_none());
    assert!(boot_allocator(0xFFFF_0000, 0x1_0000).is_none());
    assert!(boot_allocator(0xFFFF_0000, 0xFFFF).is_some());
}

#[test]
fn identity_map_of_the_boot_region() {
    let space = init_address_space(FrameArena::new(0x10_0000, 4), 0x80_1234).ok().unwrap();
    assert_eq!(space.translate(0), Some(0));
    assert_eq!(space.translate(0x40_0000), Some(0x40_0000));
    assert_eq!(space.translate(0x80_0FFF), Some(0x80_0FFF));
    assert_eq!(space.translate(0x80_1000), None);
    let dir = space.page_directory();
    assert!(space.context().read(dir, PageTableIndex::new(0)).is_huge_page());
    assert!(!space.context().read(dir, PageTableIndex::new(2)).is_huge_page());
    assert!(init_address_space(FrameArena::new(0x10_0000, 1), 0x80_1000).is_err());
}

#[test]
fn frames_of_a_region() {
    assert_eq!(usable_frames(0, 0x20_0000), (0x10_0000, 0x100));
    assert_eq!(usable_frames(0x10_0800, 0x3000), (0x10_1000, 2));
    assert_eq!(usable_frames(0x1000, 0x1000), (0x10_0000, 0));
    let mut alloc = Allocator::new(vec![0; 4]);
    deposit_frames(&mut alloc, 0x10_0000, 3);
    assert_eq!(alloc.remaining_memory(), 0x3000);
    assert_eq!(alloc.allocate(), Ok(0x10_2000));
    assert_eq!(alloc.allocate(), Ok(0x10_1000));
    assert_eq!(alloc.allocate(), Ok(0x10_0000));
    assert!(alloc.allocate().is_err());
}

#[test]
fn system_info_counts_memory_and_ticks() {
    use_system_info();
}

fn use_system_info() {
    let entries = vec![entry(0, 0x1000, 1), entry(0x10_0000, 0x2000, 1), entry(0x20_0000, 0x1000, 2)];
    let mut info = kfs::boot::SystemInfo::new(&entries, None);
    assert_eq!(info.total_memory, 0x3000);
    assert!(info.bootloader_name.is_none());
    info.tick();
    info.tick();
    assert_eq!(info.tick_count, 2);
    info.tick_count = u32::MAX;
    info.tick();
    assert_eq!(info.tick_count, 0);
}
