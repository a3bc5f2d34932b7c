//! Port output as data: drivers compute the bytes to send, and whoever owns
//! the processor's I/O instructions sends them in order.

use vstd::prelude::*;

verus! {

/// One byte to write to one I/O port.
#[derive(Clone, Copy, Debug, PartialEq, Eq, Structural)]
pub struct PortWrite {
    pub port: u16,
    pub value: u8,
}

/// Builds a [`PortWrite`].
pub fn port_write(port: u16, value: u8) -> (r: PortWrite)
    ensures
        r == (PortWrite { port, value }),
{
    PortWrite { port, value }
}

} // verus!
