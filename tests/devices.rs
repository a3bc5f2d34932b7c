use kfs::descriptors::{create_gate_descriptor, gdt_entries, table_pointer};
use kfs::pic::{end_of_interrupt, init as pic_init, set_irq_mask, Irq};
use kfs::pit::{freq_to_reload_value, init as pit_init, interval_ns, reload_value_to_ns};
use kfs::port::PortWrite;
use kfs::ps2::{is_output_buffer_full, is_release};
use kfs::serial::{init as serial_init, ready_to_send};

fn w(port: u16, value: u8) -> PortWrite {
    PortWrite { port, value }
}

#[test]
fn pic_initialization_sequence() {
    let seq = pic_init();
    assert_eq!(seq.len(), 16);
    assert_eq!(seq[0], w(0x20, 0x11));
    assert_eq!(seq[2], w(0xA0, 0x11));
    assert_eq!(seq[4], w(0x21, 0x20));
    assert_eq!(seq[6], w(0xA1, 0x28));
    assert_eq!(seq[8], w(0x21, 0x04));
    assert_eq!(seq[10], w(0xA1, 0x02));
    assert_eq!(seq[12], w(0x21, 0x01));
    assert_eq!(seq[14], w(0xA1, 0x01));
    for i in 0..8 {
        assert_eq!(seq[2 * i + 1], w(0x80, 0));
    }
}

#[test]
fn pic_end_of_interrupt() {
    assert_eq!(end_of_interrupt(Irq::Keyboard), vec![w(0x20, 0x20)]);
    assert_eq!(end_of_interrupt(Irq::Lpt1), vec![w(0x20, 0x20)]);
    assert_eq!(end_of_interrupt(Irq::RealTimeClock), vec![w(0xA0, 0x20), w(0x20, 0x20)]);
    assert_eq!(end_of_interrupt(Irq::Ata2), vec![w(0xA0, 0x20), w(0x20, 0x20)]);
    assert_eq!(Irq::Mouse.line(), 12);
}

#[test]
fn pic_mask_splits_bytes() {
    assert_eq!(set_irq_mask(!0x0002), vec![w(0x21, 0xFD), w(0xA1, 0xFF)]);
    assert_eq!(set_irq_mask(0x1234), vec![w(0x21, 0x34), w(0xA1, 0x12)]);
}

#[test]
fn serial_setup_and_status() {
    let seq = serial_init();
    assert_eq!(
        seq,
        vec![
            w(0x3F9, 0x00),
            w(0x3FB, 0x80),
            w(0x3F8, 3),
            w(0x3F9, 0),
            w(0x3FB, 0x03),
            w(0x3FC, 0xC7),
            w(0x3FC, 0x03),
        ]
    );
    assert!(ready_to_send(0x20));
    assert!(ready_to_send(0x61));
    assert!(!ready_to_send(0x1F));
}

#[test]
fn ps2_status_bits() {
    assert!(is_output_buffer_full(0x01));
    assert!(is_output_buffer_full(0x1D));
    assert!(!is_output_buffer_full(0x02));
    assert!(is_release(0x9E));
    assert!(!is_release(0x1E));
}

#[test]
fn pit_reload_values() {
    assert_eq!(freq_to_reload_value(10), 0x10000);
    assert_eq!(freq_to_reload_value(18), 0x10000);
    assert_eq!(freq_to_reload_value(2_000_000), 1);
    assert_eq!(freq_to_reload_value(100), 11932);
    assert_eq!(freq_to_reload_value(1000), 1193);
    assert_eq!(reload_value_to_ns(1193), 999_848);
    assert_eq!(reload_value_to_ns(0x10000), 54_925_416);
}

#[test]
fn pit_start_up() {
    let pit = pit_init();
    assert_eq!(pit.reload_value, 1193);
    assert_eq!(interval_ns(&pit), 999_848);
    assert_eq!(pit.writes, vec![w(0x43, 0x34), w(0x40, 0xA9), w(0x40, 0x04)]);
}

#[test]
fn gate_descriptors() {
    assert_eq!(create_gate_descriptor(true, 0x1234_5678), 0x1234_8E00_0008_5678);
    assert_eq!(create_gate_descriptor(false, 0x1234_5678), 0x1234_8F00_0008_5678);
    assert_eq!(create_gate_descriptor(true, 0), 0x0000_8E00_0008_0000);
}

#[test]
fn descriptor_tables() {
    let gdt = gdt_entries();
    assert_eq!(gdt.len(), 5);
    assert_eq!(gdt[0], 0);
    assert_eq!(gdt[1], 0x00cf_9a00_0000_ffff);
    let p = table_pointer(0x800, 5);
    assert_eq!(p.limit, 39);
    assert_eq!(p.base, 0x800);
    assert_eq!(table_pointer(0, 256).limit, 2047);
}
