//! The boot loader's view of memory: the multiboot header that asks for a
//! memory map, and the normalized entries of that map.

use vstd::prelude::*;

verus! {

/// The value that identifies a multiboot header.
pub const HEADER_MAGIC: u32 = 0x1BAD_B002;
/// The value the boot loader leaves in EAX when it hands over to the kernel.
pub const EAX_MAGIC: u32 = 0x2BAD_B002;
/// Header flag: align loaded modules on 4 KiB boundaries.
pub const ALIGN_MODULES: u32 = 1;
/// Header flag: provide a memory map.
pub const MEMORY_MAP: u32 = 2;

/// The multiboot header placed in the kernel image.
#[derive(Clone, Copy, Debug, PartialEq, Eq, Structural)]
pub struct Header {
    /// [`HEADER_MAGIC`].
    pub magic: u32,
    /// The features requested from the boot loader.
    pub flags: u32,
    /// Makes `magic + flags + checksum` zero modulo 2^32.
    pub checksum: u32,
}

impl Header {
    /// Creates a header requesting the features in `flags`, with its checksum.
    pub fn new(flags: u32) -> (r: Self)
        ensures
            r.magic == HEADER_MAGIC,
            r.flags == flags,
            (r.magic + r.flags + r.checksum) % 0x1_0000_0000 == 0,
    {
        let sum = HEADER_MAGIC.wrapping_add(flags);
        let checksum = 0u32.wrapping_sub(sum);
        Header { magic: HEADER_MAGIC, flags, checksum }
    }
}

/// Firmware type code of usable memory.
pub const AVAILABLE: u32 = 1;
/// Firmware type code of memory holding ACPI tables, usable once they are read.
pub const ACPI_RECLAIMABLE: u32 = 3;
/// Firmware type code of memory to preserve across hibernation.
pub const PRESERVED: u32 = 4;
/// Firmware type code of defective memory.
pub const DEFECTIVE: u32 = 5;

/// The kind of a memory region, with unknown firmware codes taken as reserved.
#[derive(Clone, Copy, Debug, PartialEq, Eq, Structural)]
pub enum MemoryKind {
    Available,
    AcpiReclaimable,
    Reserved,
    Defective,
    Preserved,
}

/// The kind named by the firmware type code `code`.
pub open spec fn kind_of(code: u32) -> MemoryKind {
    if code == AVAILABLE {
        MemoryKind::Available
    } else if code == ACPI_RECLAIMABLE {
        MemoryKind::AcpiReclaimable
    } else if code == PRESERVED {
        MemoryKind::Preserved
    } else if code == DEFECTIVE {
        MemoryKind::Defective
    } else {
        MemoryKind::Reserved
    }
}

/// The firmware type code of a memory-map entry.
#[derive(Clone, Copy, Debug, PartialEq, Eq, Structural)]
pub struct MemMapType(pub u32);

impl MemMapType {
    /// The normalized kind of this code.
    pub fn kind(self) -> (r: MemoryKind)
        ensures
            r == kind_of(self.0),
    {
        if self.0 == AVAILABLE {
            MemoryKind::Available
        } else if self.0 == ACPI_RECLAIMABLE {
            MemoryKind::AcpiReclaimable
        } else if self.0 == PRESERVED {
            MemoryKind::Preserved
        } else if self.0 == DEFECTIVE {
            MemoryKind::Defective
        } else {
            MemoryKind::Reserved
        }
    }
}

/// An entry of the firmware memory map, as the boot loader lays it out.
#[derive(Clone, Copy, Debug, PartialEq, Eq, Structural)]
pub struct MemMapEntry {
    /// Size of the entry, not counting this field.
    pub size: u32,
    /// Low 32 bits of the region's base address.
    pub addr_low: u32,
    /// High 32 bits of the region's base address.
    pub addr_high: u32,
    /// Low 32 bits of the region's length.
    pub len_low: u32,
    /// High 32 bits of the region's length.
    pub len_high: u32,
    /// The type of the region.
    pub ty: MemMapType,
}

/// The 64-bit value whose halves are `high` and `low`.
pub open spec fn join_halves(low: u32, high: u32) -> int {
    high * 0x1_0000_0000 + low
}

impl MemMapEntry {
    /// The base address of the region.
    pub open spec fn base_spec(&self) -> int {
        join_halves(self.addr_low, self.addr_high)
    }

    /// The length of the region.
    pub open spec fn length_spec(&self) -> int {
        join_halves(self.len_low, self.len_high)
    }

    /// The base address of the region.
    pub fn base(&self) -> (r: u64)
        ensures
            r == self.base_spec(),
    {
        join(self.addr_low, self.addr_high)
    }

    /// The length of the region.
    pub fn length(&self) -> (r: u64)
        ensures
            r == self.length_spec(),
    {
        join(self.len_low, self.len_high)
    }

    /// The normalized kind of the region.
    pub fn kind(&self) -> (r: MemoryKind)
        ensures
            r == kind_of(self.ty.0),
    {
        self.ty.kind()
    }
}

fn join(low: u32, high: u32) -> (r: u64)
    ensures
        r == join_halves(low, high),
{
    let r = (low as u64) | ((high as u64) << 32);
    proof {
        let l = low as u64;
        let h = high as u64;
        assert(l <= 0xFFFF_FFFF ==> l | (h << 32) == h * 0x1_0000_0000 + l) by (bit_vector)
            requires h <= 0xFFFF_FFFF;
    }
    r
}

} // verus!

verus! {

/// Size in bytes of one memory-map record as laid out by the boot loader.
pub const RECORD_SIZE: usize = 24;

/// The little-endian 32-bit value stored at `b[i..i + 4]`.
pub open spec fn le_u32(b: Seq<u8>, i: int) -> int {
    b[i] + b[i + 1] * 0x100 + b[i + 2] * 0x1_0000 + b[i + 3] * 0x100_0000
}

/// The record stored at `b[i..i + 24]`.
pub open spec fn record_at(b: Seq<u8>, i: int) -> MemMapEntry {
    MemMapEntry {
        size: le_u32(b, i) as u32,
        addr_low: le_u32(b, i + 4) as u32,
        addr_high: le_u32(b, i + 8) as u32,
        len_low: le_u32(b, i + 12) as u32,
        len_high: le_u32(b, i + 16) as u32,
        ty: MemMapType(le_u32(b, i + 20) as u32),
    }
}

/// Prepends `head` to a successful parse.
pub open spec fn prepend(head: Seq<MemMapEntry>, rest: Option<Seq<MemMapEntry>>) -> Option<Seq<MemMapEntry>> {
    match rest {
        Some(r) => Some(head + r),
        None => None,
    }
}

/// The records of the map in `b`, of `length` bytes, from offset `off` on:
/// each record starts with its own size, not counting that field, and the
/// next one follows it. A record that starts before `length` must be
/// 4-byte aligned and lie within `b`; otherwise the map is malformed (`None`).
pub open spec fn parse_from(b: Seq<u8>, off: int, length: int) -> Option<Seq<MemMapEntry>>
    decreases length - off,
{
    if off >= length {
        Some(Seq::empty())
    } else if off % 4 != 0 || off + RECORD_SIZE > b.len() {
        None
    } else {
        let e = record_at(b, off);
        let next = off + e.size + 4;
        if next >= length {
            Some(seq![e])
        } else {
            prepend(seq![e], parse_from(b, next, length))
        }
    }
}

/// Reads the little-endian 32-bit value at `b[i..i + 4]`.
pub fn read_u32(b: &[u8], i: usize) -> (r: u32)
    requires
        i + 4 <= b@.len(),
    ensures
        r == le_u32(b@, i as int),
{
    (b[i] as u32) + (b[i + 1] as u32) * 0x100 + (b[i + 2] as u32) * 0x1_0000 + (b[i + 3] as u32)
        * 0x100_0000
}

/// Decodes the memory map held in the first `length` bytes of `b` (the map
/// starting 4-byte aligned); `None` when it is malformed.
pub fn parse_memory_map(b: &[u8], length: u32) -> (r: Option<Vec<MemMapEntry>>)
    ensures
        match parse_from(b@, 0, length as int) {
            Some(s) => r is Some && r->Some_0@ == s,
            None => r is None,
        },
{
    let mut entries: Vec<MemMapEntry> = Vec::new();
    let mut off: u64 = 0;
    while off < length as u64
        invariant
            off <= length as int + 0x1_0000_0004,
            parse_from(b@, 0, length as int) == prepend(entries@, parse_from(b@, off as int, length as int)),
        decreases length + 0x1_0000_0004 - off,
    {
        if off % 4 != 0 || off + RECORD_SIZE as u64 > b.len() as u64 {
            return None;
        }
        let i = off as usize;
        let e = MemMapEntry {
            size: read_u32(b, i),
            addr_low: read_u32(b, i + 4),
            addr_high: read_u32(b, i + 8),
            len_low: read_u32(b, i + 12),
            len_high: read_u32(b, i + 16),
            ty: MemMapType(read_u32(b, i + 20)),
        };
        let ghost before = entries@;
        entries.push(e);
        proof {
            assert(e == record_at(b@, off as int));
            let rest = parse_from(b@, off + e.size + 4, length as int);
            if off + e.size + 4 >= length {
                assert(seq![e] =~= seq![e] + Seq::<MemMapEntry>::empty());
            }
            match rest {
                Some(x) => {
                    assert(before + (seq![e] + x) =~= entries@ + x);
                },
                None => {},
            }
        }
        off = off + e.size as u64 + 4;
    }
    assert(entries@ + Seq::<MemMapEntry>::empty() =~= entries@);
    Some(entries)
}

} // verus!
