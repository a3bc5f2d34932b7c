//! The Programmable Interval Timer: reload-value arithmetic and the port
//! writes that start the periodic tick.

use vstd::prelude::*;
use crate::port::{PortWrite, port_write};

verus! {

/// Command port of the timer.
pub const COMMAND_PORT: u16 = 0x43;
/// Data port of channel 0.
pub const DATA_PORT: u16 = 0x40;
/// Channel 0, low byte then high byte, rate generator.
pub const RATE_GENERATOR_COMMAND: u8 = 0x34;
/// Three times the timer's base frequency, in Hz (the base is 1193181.667 Hz).
pub const TRIPLE_BASE_FREQUENCY: u64 = 3579545;
/// The tick frequency requested at start-up, in Hz.
pub const TICK_FREQUENCY: u64 = 1000;
/// The largest reload value accepted at start-up.
pub const MAX_STARTUP_RELOAD: u64 = 0x1000;

/// `num / denom`, rounded to the nearest integer.
pub open spec fn rounded_div(num: int, denom: int) -> int {
    (num + denom / 2) / denom
}

/// The reload value that best approximates the frequency `freq`, clamped to
/// what the hardware supports.
pub open spec fn reload_value_of(freq: int) -> int {
    if freq <= 18 {
        0x10000
    } else if freq >= 1193181 {
        1
    } else {
        rounded_div(TRIPLE_BASE_FREQUENCY as int, 3 * freq)
    }
}

/// The tick period, in nanoseconds, of the reload value `rl`.
pub open spec fn period_ns_of(rl: int) -> int {
    rounded_div(3 * rl * 1_000_000_000, TRIPLE_BASE_FREQUENCY as int)
}

fn divide_rounded(num: u64, denom: u64) -> (r: u64)
    requires
        denom > 0,
        num + denom / 2 <= u64::MAX,
    ensures
        r == rounded_div(num as int, denom as int),
{
    (num + denom / 2) / denom
}

/// The reload value for the frequency `freq`, in Hz.
pub fn freq_to_reload_value(freq: u64) -> (r: u64)
    ensures
        r == reload_value_of(freq as int),
{
    if freq <= 18 {
        0x10000
    } else if freq >= 1193181 {
        1
    } else {
        divide_rounded(TRIPLE_BASE_FREQUENCY, 3 * freq)
    }
}

/// The tick period, in nanoseconds, of the reload value `rl` (at most 0x10000).
pub fn reload_value_to_ns(rl: u64) -> (r: u32)
    requires
        rl <= 0x10000,
    ensures
        r == period_ns_of(rl as int),
{
    let r = divide_rounded(3 * rl * 1_000_000_000, TRIPLE_BASE_FREQUENCY);
    assert(r <= u32::MAX) by {
        assert(3 * rl * 1_000_000_000 <= 3 * 0x10000 * 1_000_000_000int);
        vstd::arithmetic::div_mod::lemma_div_is_ordered(
            3 * rl * 1_000_000_000 + TRIPLE_BASE_FREQUENCY as int / 2,
            3 * 0x10000 * 1_000_000_000int + TRIPLE_BASE_FREQUENCY as int / 2,
            TRIPLE_BASE_FREQUENCY as int,
        );
    }
    r as u32
}

/// The timer's configuration once started.
#[derive(Debug)]
pub struct Pit {
    /// The reload value programmed into channel 0.
    pub reload_value: u16,
    /// The tick period, in nanoseconds.
    pub interval_ns: u32,
    /// The port writes that program the timer.
    pub writes: Vec<PortWrite>,
}

/// Configures a 1 kHz tick: the reload value, its period, and the command
/// and the two reload bytes to send.
pub fn init() -> (r: Pit)
    ensures
        r.reload_value == reload_value_of(TICK_FREQUENCY as int),
        r.interval_ns == period_ns_of(reload_value_of(TICK_FREQUENCY as int)),
        r.writes@ == seq![
            PortWrite { port: COMMAND_PORT, value: RATE_GENERATOR_COMMAND },
            PortWrite { port: DATA_PORT, value: (r.reload_value % 256) as u8 },
            PortWrite { port: DATA_PORT, value: (r.reload_value / 256) as u8 },
        ],
{
    let reload_value = freq_to_reload_value(TICK_FREQUENCY);
    assert((3579545int + 1500) / 3000 == 1193);
    assert(reload_value <= MAX_STARTUP_RELOAD);
    let interval_ns = reload_value_to_ns(reload_value);
    let rl = reload_value as u16;
    let mut writes: Vec<PortWrite> = Vec::new();
    writes.push(port_write(COMMAND_PORT, RATE_GENERATOR_COMMAND));
    writes.push(port_write(DATA_PORT, (rl & 0xFF) as u8));
    writes.push(port_write(DATA_PORT, (rl >> 8) as u8));
    proof {
        assert(rl & 0xFF == rl % 256) by (bit_vector);
        assert(rl >> 8 == rl / 256) by (bit_vector);
    }
    let r = Pit { reload_value: rl, interval_ns, writes };
    assert(r.writes@ =~= seq![
        PortWrite { port: COMMAND_PORT, value: RATE_GENERATOR_COMMAND },
        PortWrite { port: DATA_PORT, value: (r.reload_value % 256) as u8 },
        PortWrite { port: DATA_PORT, value: (r.reload_value / 256) as u8 },
    ]);
    r
}

/// The tick period of a started timer, in nanoseconds.
pub fn interval_ns(pit: &Pit) -> (r: u32)
    ensures
        r == pit.interval_ns,
{
    pit.interval_ns
}

} // verus!
