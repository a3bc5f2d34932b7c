//! The first serial port, used for logging: its setup and its status bits.

use vstd::prelude::*;
use crate::port::{PortWrite, port_write};

verus! {

/// Base I/O port of the first serial port (data register).
pub const PORT: u16 = 0x3F8;
/// Interrupt-enable register.
pub const INTERRUPT_ENABLE: u16 = 0x3F9;
/// Line-control register.
pub const LINE_CONTROL: u16 = 0x3FB;
/// Modem-control register.
pub const MODEM_CONTROL: u16 = 0x3FC;
/// Line-status register.
pub const LINE_STATUS: u16 = 0x3FD;
/// Line-control bit giving the data registers over to the baud-rate divisor.
pub const DLAB: u8 = 0x80;
/// Eight data bits, no parity, one stop bit.
pub const DEFAULT_LINE_CONTROL: u8 = 0x03;
/// Line-status bit: the transmitter can take another byte.
pub const TRANSMITTER_EMPTY: u8 = 0x20;
/// Low byte of the baud-rate divisor used (3, for 38400 baud).
pub const BAUD_DIVISOR_LOW: u8 = 3;
/// High byte of the baud-rate divisor used.
pub const BAUD_DIVISOR_HIGH: u8 = 0;
/// Modem-control bits: data terminal ready and request to send.
pub const HANDSHAKE: u8 = 0x03;

/// A handle on the serial port, for writing log text.
#[derive(Clone, Copy, Debug)]
pub struct Serial;

/// The setup sequence: interrupts off, divisor 3, 8N1, FIFO with a 14-byte
/// threshold, then data-terminal-ready and request-to-send.
pub open spec fn init_sequence() -> Seq<PortWrite> {
    seq![
        PortWrite { port: INTERRUPT_ENABLE, value: 0 },
        PortWrite { port: LINE_CONTROL, value: DLAB },
        PortWrite { port: PORT, value: 3 },
        PortWrite { port: INTERRUPT_ENABLE, value: 0 },
        PortWrite { port: LINE_CONTROL, value: DEFAULT_LINE_CONTROL },
        PortWrite { port: MODEM_CONTROL, value: 0xC7 },
        PortWrite { port: MODEM_CONTROL, value: HANDSHAKE },
    ]
}

/// The port writes that set the serial port up for polled output.
pub fn init() -> (r: Vec<PortWrite>)
    ensures
        r@ == init_sequence(),
{
    let mut r: Vec<PortWrite> = Vec::new();
    r.push(port_write(INTERRUPT_ENABLE, 0x00));
    r.push(port_write(LINE_CONTROL, DLAB));
    // Low then high byte of the divisor.
    r.push(port_write(PORT, BAUD_DIVISOR_LOW));
    r.push(port_write(INTERRUPT_ENABLE, BAUD_DIVISOR_HIGH));
    r.push(port_write(LINE_CONTROL, DEFAULT_LINE_CONTROL));
    r.push(port_write(MODEM_CONTROL, 0xC7));
    r.push(port_write(MODEM_CONTROL, HANDSHAKE));
    assert(r@ =~= init_sequence());
    r
}

/// Whether the line status `status` says that a byte can be sent.
pub fn ready_to_send(status: u8) -> (r: bool)
    ensures
        r == (status & TRANSMITTER_EMPTY != 0),
{
    status & TRANSMITTER_EMPTY != 0
}

} // verus!
