//! The Programmable Interrupt Controller pair: the words that set it up,
//! acknowledge an interrupt, and mask interrupt lines.

use vstd::prelude::*;
use crate::port::{PortWrite, port_write};

verus! {

/// Command port of the master controller.
pub const MASTER_COMMAND: u16 = 0x20;
/// Data port of the master controller.
pub const MASTER_DATA: u16 = 0x21;
/// Command port of the slave controller.
pub const SLAVE_COMMAND: u16 = 0xA0;
/// Data port of the slave controller.
pub const SLAVE_DATA: u16 = 0xA1;
/// An unused port; writing to it gives the controllers time to settle.
pub const WAIT_PORT: u16 = 0x80;
/// The first interrupt vector used by the master controller's lines.
pub const PIC_OFFSET: u8 = 0x20;
/// The "end of interrupt" command word.
pub const END_OF_INTERRUPT: u8 = 0x20;

/// An interrupt line of the controller pair; lines 8 to 15 belong to the slave.
#[derive(Clone, Copy, Debug, PartialEq, Eq, Structural)]
pub enum Irq {
    Timer,
    Keyboard,
    Cascade,
    Com2,
    Com1,
    Lpt2,
    Floppy,
    Lpt1,
    RealTimeClock,
    Periph1,
    Periph2,
    Periph3,
    Mouse,
    Fpu,
    Ata1,
    Ata2,
}

/// The line number of `irq`.
pub open spec fn irq_line(irq: Irq) -> nat {
    match irq {
        Irq::Timer => 0,
        Irq::Keyboard => 1,
        Irq::Cascade => 2,
        Irq::Com2 => 3,
        Irq::Com1 => 4,
        Irq::Lpt2 => 5,
        Irq::Floppy => 6,
        Irq::Lpt1 => 7,
        Irq::RealTimeClock => 8,
        Irq::Periph1 => 9,
        Irq::Periph2 => 10,
        Irq::Periph3 => 11,
        Irq::Mouse => 12,
        Irq::Fpu => 13,
        Irq::Ata1 => 14,
        Irq::Ata2 => 15,
    }
}

impl Irq {
    /// The line number of the interrupt.
    pub fn line(self) -> (r: u8)
        ensures
            r == irq_line(self),
    {
        match self {
            Irq::Timer => 0,
            Irq::Keyboard => 1,
            Irq::Cascade => 2,
            Irq::Com2 => 3,
            Irq::Com1 => 4,
            Irq::Lpt2 => 5,
            Irq::Floppy => 6,
            Irq::Lpt1 => 7,
            Irq::RealTimeClock => 8,
            Irq::Periph1 => 9,
            Irq::Periph2 => 10,
            Irq::Periph3 => 11,
            Irq::Mouse => 12,
            Irq::Fpu => 13,
            Irq::Ata1 => 14,
            Irq::Ata2 => 15,
        }
    }
}

/// The initialization sequence: the four initialization words to each
/// controller in turn (start in cascade mode, vector offsets, wiring of the
/// slave on line 2, 8086 mode), each write followed by a settling write.
pub open spec fn init_sequence() -> Seq<PortWrite> {
    seq![
        PortWrite { port: MASTER_COMMAND, value: 0x11 },
        PortWrite { port: WAIT_PORT, value: 0 },
        PortWrite { port: SLAVE_COMMAND, value: 0x11 },
        PortWrite { port: WAIT_PORT, value: 0 },
        PortWrite { port: MASTER_DATA, value: PIC_OFFSET },
        PortWrite { port: WAIT_PORT, value: 0 },
        PortWrite { port: SLAVE_DATA, value: (PIC_OFFSET + 8) as u8 },
        PortWrite { port: WAIT_PORT, value: 0 },
        PortWrite { port: MASTER_DATA, value: 4 },
        PortWrite { port: WAIT_PORT, value: 0 },
        PortWrite { port: SLAVE_DATA, value: 2 },
        PortWrite { port: WAIT_PORT, value: 0 },
        PortWrite { port: MASTER_DATA, value: 1 },
        PortWrite { port: WAIT_PORT, value: 0 },
        PortWrite { port: SLAVE_DATA, value: 1 },
        PortWrite { port: WAIT_PORT, value: 0 },
    ]
}

/// The port writes that initialize both controllers.
pub fn init() -> (r: Vec<PortWrite>)
    ensures
        r@ == init_sequence(),
{
    let mut r: Vec<PortWrite> = Vec::new();
    r.push(port_write(MASTER_COMMAND, 0x11));
    r.push(port_write(WAIT_PORT, 0));
    r.push(port_write(SLAVE_COMMAND, 0x11));
    r.push(port_write(WAIT_PORT, 0));
    r.push(port_write(MASTER_DATA, PIC_OFFSET));
    r.push(port_write(WAIT_PORT, 0));
    r.push(port_write(SLAVE_DATA, PIC_OFFSET + 8));
    r.push(port_write(WAIT_PORT, 0));
    r.push(port_write(MASTER_DATA, 0x04));
    r.push(port_write(WAIT_PORT, 0));
    r.push(port_write(SLAVE_DATA, 0x02));
    r.push(port_write(WAIT_PORT, 0));
    r.push(port_write(MASTER_DATA, 0x01));
    r.push(port_write(WAIT_PORT, 0));
    r.push(port_write(SLAVE_DATA, 0x01));
    r.push(port_write(WAIT_PORT, 0));
    assert(r@ =~= init_sequence());
    r
}

/// The port writes that acknowledge `irq`: the slave is told too when the
/// line is one of its own.
pub fn end_of_interrupt(irq: Irq) -> (r: Vec<PortWrite>)
    ensures
        irq_line(irq) >= 8 ==> r@ == seq![
            PortWrite { port: SLAVE_COMMAND, value: END_OF_INTERRUPT },
            PortWrite { port: MASTER_COMMAND, value: END_OF_INTERRUPT },
        ],
        irq_line(irq) < 8 ==> r@ == seq![PortWrite { port: MASTER_COMMAND, value: END_OF_INTERRUPT }],
{
    let mut r: Vec<PortWrite> = Vec::new();
    if irq.line() >= 8 {
        r.push(port_write(SLAVE_COMMAND, END_OF_INTERRUPT));
    }
    r.push(port_write(MASTER_COMMAND, END_OF_INTERRUPT));
    assert(irq_line(irq) >= 8 ==> r@ =~= seq![
        PortWrite { port: SLAVE_COMMAND, value: END_OF_INTERRUPT },
        PortWrite { port: MASTER_COMMAND, value: END_OF_INTERRUPT },
    ]);
    assert(irq_line(irq) < 8 ==> r@ =~= seq![PortWrite { port: MASTER_COMMAND, value: END_OF_INTERRUPT }]);
    r
}

/// The port writes that mask the lines whose bits are set in `masked_irqs`
/// (bit `n` for line `n`): the low byte to the master, the high byte to the slave.
pub fn set_irq_mask(masked_irqs: u16) -> (r: Vec<PortWrite>)
    ensures
        r@ == seq![
            PortWrite { port: MASTER_DATA, value: (masked_irqs % 256) as u8 },
            PortWrite { port: SLAVE_DATA, value: (masked_irqs / 256) as u8 },
        ],
{
    let mut r: Vec<PortWrite> = Vec::new();
    r.push(port_write(MASTER_DATA, (masked_irqs & 0xFF) as u8));
    r.push(port_write(SLAVE_DATA, (masked_irqs >> 8) as u8));
    proof {
        assert(masked_irqs & 0xFF == masked_irqs % 256) by (bit_vector);
        assert(masked_irqs >> 8 == masked_irqs / 256) by (bit_vector);
    }
    assert(r@ =~= seq![
        PortWrite { port: MASTER_DATA, value: (masked_irqs % 256) as u8 },
        PortWrite { port: SLAVE_DATA, value: (masked_irqs / 256) as u8 },
    ]);
    r
}

} // verus!
