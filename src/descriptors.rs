//! Descriptor tables: the flat segments of the global table and the gates
//! of the interrupt table.

use vstd::prelude::*;

verus! {

/// Selector of the kernel code segment.
pub const KERNEL_CODE_SEGMENT: u16 = 0x08;
/// Selector of the kernel data segment.
pub const KERNEL_DATA_SEGMENT: u16 = 0x10;
/// Gate type of an interrupt gate (interrupts disabled on entry).
pub const INTERRUPT_GATE: u64 = 0xE;
/// Gate type of a trap gate.
pub const TRAP_GATE: u64 = 0xF;

/// What the processor pushes when it enters an interrupt handler.
#[derive(Debug, Clone, Copy)]
pub struct InterruptStackFrame {
    pub ip: u32,
    pub cs: u32,
    pub flags: u32,
    pub sp: u32,
    pub ss: u32,
}

/// A pointer to a descriptor table, as the table-load instructions read it.
#[derive(Debug, Clone, Copy)]
pub struct DescriptorTablePointer {
    /// Size of the table in bytes, minus one.
    pub limit: u16,
    /// Address of the table.
    pub base: u32,
}

/// Physical address where the global descriptor table is placed.
pub const GDT_ADDRESS: u32 = 0x800;

/// The global descriptor table: a null descriptor, then flat 4 GiB code and
/// data segments for the kernel (ring 0) and for users (ring 3).
pub open spec fn gdt_spec() -> Seq<u64> {
    seq![0u64, 0x00cf_9a00_0000_ffff, 0x00cf_9200_0000_ffff, 0x00cf_fa00_0000_ffff, 0x00cf_f200_0000_ffff]
}

/// The entries of the global descriptor table.
pub fn gdt_entries() -> (r: Vec<u64>)
    ensures
        r@ == gdt_spec(),
{
    let r = vec![0u64, 0x00cf_9a00_0000_ffff, 0x00cf_9200_0000_ffff, 0x00cf_fa00_0000_ffff, 0x00cf_f200_0000_ffff];
    assert(r@ =~= gdt_spec());
    r
}

/// The 64-bit gate descriptor for a handler at `handler`: the handler's low
/// 16 bits, the kernel code selector, the type of gate, the present bit, and the
/// handler's next 16 bits.
pub open spec fn gate_descriptor(is_interrupt: bool, handler: int) -> int {
    (handler % 0x1_0000) + KERNEL_CODE_SEGMENT * 0x1_0000 + (if is_interrupt {
        INTERRUPT_GATE
    } else {
        TRAP_GATE
    }) * 0x100_0000_0000 + 0x8000_0000_0000 + ((handler / 0x1_0000) % 0x1_0000)
        * 0x1_0000_0000_0000
}

/// Builds a gate descriptor for a handler at address `handler`.
pub fn create_gate_descriptor(is_interrupt: bool, handler: u32) -> (r: u64)
    ensures
        r == gate_descriptor(is_interrupt, handler as int),
{
    let h = handler as u64;
    let ty: u64 = if is_interrupt { INTERRUPT_GATE } else { TRAP_GATE };
    let mut val: u64 = 0;
    val = val | (h & 0xFFFF);
    val = val | ((KERNEL_CODE_SEGMENT as u64) << 16);
    val = val | (ty << 40);
    val = val | (1u64 << 47);
    val = val | (((h >> 16) & 0xFFFF) << 48);
    proof {
        assert(h <= 0xFFFF_FFFF && (ty == 0xE || ty == 0xF) ==>
            ((((0u64 | (h & 0xFFFF)) | (8u64 << 16)) | (ty << 40)) | (1u64 << 47)) | (((h >> 16) & 0xFFFF) << 48)
            == (h % 0x1_0000) + 8 * 0x1_0000 + ty * 0x100_0000_0000 + 0x8000_0000_0000
                + ((h / 0x1_0000) % 0x1_0000) * 0x1_0000_0000_0000) by (bit_vector);
    }
    val
}

/// The pointer to a table of `entries` 8-byte descriptors at `base`.
pub fn table_pointer(base: u32, entries: u16) -> (r: DescriptorTablePointer)
    requires
        1 <= entries <= 8192,
    ensures
        r.base == base,
        r.limit == entries * 8 - 1,
{
    DescriptorTablePointer { limit: (entries - 1) * 8 + 7, base }
}

} // verus!
