//! The PS/2 controller's status register.

use vstd::prelude::*;

verus! {

/// Status port of the controller.
pub const STATUS_PORT: u16 = 0x64;
/// Data port of the controller.
pub const DATA_PORT: u16 = 0x60;
/// Status bit: a byte is waiting in the output buffer.
pub const OUTPUT_BUFFER_FULL: u8 = 1;
/// Status bit: the input buffer holds a byte not yet taken by the controller.
pub const INPUT_BUFFER_FULL: u8 = 2;

/// Whether the status byte `status` says that data can be read.
pub fn is_output_buffer_full(status: u8) -> (r: bool)
    ensures
        r == (status & OUTPUT_BUFFER_FULL != 0),
{
    status & OUTPUT_BUFFER_FULL != 0
}

/// Whether the scancode `scancode` reports a key release rather than a press.
pub fn is_release(scancode: u8) -> (r: bool)
    ensures
        r == (scancode >= 0x80),
{
    let r = scancode & 0x80 != 0;
    assert(scancode & 0x80 != 0 <==> scancode >= 0x80) by (bit_vector);
    r
}

} // verus!
