//! Keyboard input: the state of the modifier keys and the QWERTY layout that
//! turns set-1 scancodes into characters.

use vstd::prelude::*;

verus! {

/// Modifier bit: left CONTROL pressed.
pub const LEFT_CONTROL: u8 = 0x01;
/// Modifier bit: right CONTROL pressed.
pub const RIGHT_CONTROL: u8 = 0x02;
/// Modifier bit: left SHIFT pressed.
pub const LEFT_SHIFT: u8 = 0x04;
/// Modifier bit: right SHIFT pressed.
pub const RIGHT_SHIFT: u8 = 0x08;
/// Modifier bit: CAPS LOCK active.
pub const CAPS_LOCK: u8 = 0x10;
/// Modifier bit: left ALT pressed.
pub const LEFT_ALT: u8 = 0x20;
/// Modifier bit: right ALT pressed.
pub const RIGHT_ALT: u8 = 0x40;
/// Modifier bit: NUM LOCK active (the keypad types digits).
pub const NUM_LOCK: u8 = 0x80;

/// The state of the special keys, one bit each.
#[derive(Clone, Copy, Debug, PartialEq, Eq, Structural)]
pub struct Modifiers {
    pub bits: u8,
}

/// Whether a SHIFT key is held in `m`.
pub open spec fn has_shift_spec(m: u8) -> bool {
    m & (LEFT_SHIFT | RIGHT_SHIFT) != 0
}

/// Whether typing is shifted in `m`: SHIFT held or CAPS LOCK on, not both.
pub open spec fn shifted_spec(m: u8) -> bool {
    has_shift_spec(m) != (m & CAPS_LOCK != 0)
}

/// Whether a CONTROL key is held in `m`.
pub open spec fn has_control_spec(m: u8) -> bool {
    m & (LEFT_CONTROL | RIGHT_CONTROL) != 0
}

/// Whether NUM LOCK is on in `m`.
pub open spec fn num_locked_spec(m: u8) -> bool {
    m & NUM_LOCK != 0
}

impl Modifiers {
    /// No modifier.
    pub fn empty() -> (r: Self)
        ensures
            r.bits == 0,
    {
        Modifiers { bits: 0 }
    }

    /// Sets the bits of `m`.
    pub fn insert(&mut self, m: u8)
        ensures
            final(self).bits == old(self).bits | m,
    {
        self.bits = self.bits | m;
    }

    /// Clears the bits of `m`.
    pub fn remove(&mut self, m: u8)
        ensures
            final(self).bits == old(self).bits & !m,
    {
        self.bits = self.bits & !m;
    }

    /// Flips the bits of `m`.
    pub fn toggle(&mut self, m: u8)
        ensures
            final(self).bits == old(self).bits ^ m,
    {
        self.bits = self.bits ^ m;
    }

    /// Returns whether the keys are currently shifted.
    pub fn shifted(&self) -> (r: bool)
        ensures
            r == shifted_spec(self.bits),
    {
        self.has_shift() ^ (self.bits & CAPS_LOCK != 0)
    }

    /// Whether any of the control keys are currently pressed.
    pub fn has_control(&self) -> (r: bool)
        ensures
            r == has_control_spec(self.bits),
    {
        self.bits & (LEFT_CONTROL | RIGHT_CONTROL) != 0
    }

    /// Whether any of the shift keys are currently pressed (CAPS LOCK aside).
    pub fn has_shift(&self) -> (r: bool)
        ensures
            r == has_shift_spec(self.bits),
    {
        self.bits & (LEFT_SHIFT | RIGHT_SHIFT) != 0
    }

    /// Whether any of the alt keys are currently pressed.
    pub fn has_alt(&self) -> (r: bool)
        ensures
            r == (self.bits & (LEFT_ALT | RIGHT_ALT) != 0),
    {
        self.bits & (LEFT_ALT | RIGHT_ALT) != 0
    }

    /// Returns whether NUM LOCK is currently active.
    pub fn num_locked(&self) -> (r: bool)
        ensures
            r == num_locked_spec(self.bits),
    {
        self.bits & NUM_LOCK != 0
    }
}

/// The character of a printable key, by its scancode, shifted or not.
pub open spec fn printable_spec(scancode: u8, shifted: bool) -> Option<char> {
    match scancode {
        0x02 => Some(if shifted { '!' } else { '1' }),
        0x03 => Some(if shifted { '@' } else { '2' }),
        0x04 => Some(if shifted { '#' } else { '3' }),
        0x05 => Some(if shifted { '$' } else { '4' }),
        0x06 => Some(if shifted { '%' } else { '5' }),
        0x07 => Some(if shifted { '^' } else { '6' }),
        0x08 => Some(if shifted { '&' } else { '7' }),
        0x09 => Some(if shifted { '*' } else { '8' }),
        0x0A => Some(if shifted { '(' } else { '9' }),
        0x0B => Some(if shifted { ')' } else { '0' }),
        0x0C => Some(if shifted { '_' } else { '-' }),
        0x0D => Some(if shifted { '+' } else { '=' }),
        0x10 => Some(if shifted { 'Q' } else { 'q' }),
        0x11 => Some(if shifted { 'W' } else { 'w' }),
        0x12 => Some(if shifted { 'E' } else { 'e' }),
        0x13 => Some(if shifted { 'R' } else { 'r' }),
        0x14 => Some(if shifted { 'T' } else { 't' }),
        0x15 => Some(if shifted { 'Y' } else { 'y' }),
        0x16 => Some(if shifted { 'U' } else { 'u' }),
        0x17 => Some(if shifted { 'I' } else { 'i' }),
        0x18 => Some(if shifted { 'O' } else { 'o' }),
        0x19 => Some(if shifted { 'P' } else { 'p' }),
        0x1A => Some(if shifted { '{' } else { '[' }),
        0x1B => Some(if shifted { '}' } else { ']' }),
        0x2B => Some(if shifted { '|' } else { '\\' }),
        0x1E => Some(if shifted { 'A' } else { 'a' }),
        0x1F => Some(if shifted { 'S' } else { 's' }),
        0x20 => Some(if shifted { 'D' } else { 'd' }),
        0x21 => Some(if shifted { 'F' } else { 'f' }),
        0x22 => Some(if shifted { 'G' } else { 'g' }),
        0x23 => Some(if shifted { 'H' } else { 'h' }),
        0x24 => Some(if shifted { 'J' } else { 'j' }),
        0x25 => Some(if shifted { 'K' } else { 'k' }),
        0x26 => Some(if shifted { 'L' } else { 'l' }),
        0x27 => Some(if shifted { ':' } else { ';' }),
        0x28 => Some(if shifted { '"' } else { '\'' }),
        0x29 => Some(if shifted { '~' } else { '`' }),
        0x2C => Some(if shifted { 'Z' } else { 'z' }),
        0x2D => Some(if shifted { 'X' } else { 'x' }),
        0x2E => Some(if shifted { 'C' } else { 'c' }),
        0x2F => Some(if shifted { 'V' } else { 'v' }),
        0x30 => Some(if shifted { 'B' } else { 'b' }),
        0x31 => Some(if shifted { 'N' } else { 'n' }),
        0x32 => Some(if shifted { 'M' } else { 'm' }),
        0x33 => Some(if shifted { '<' } else { ',' }),
        0x34 => Some(if shifted { '>' } else { '.' }),
        0x35 => Some(if shifted { '?' } else { '/' }),
        _ => None,
    }
}

/// The digit or point typed by a keypad key while NUM LOCK is on.
pub open spec fn keypad_spec(scancode: u8) -> Option<char> {
    match scancode {
        0x47 => Some('7'),
        0x48 => Some('8'),
        0x49 => Some('9'),
        0x4B => Some('4'),
        0x4C => Some('5'),
        0x4D => Some('6'),
        0x4F => Some('1'),
        0x50 => Some('2'),
        0x51 => Some('3'),
        0x52 => Some('0'),
        0x53 => Some('.'),
        _ => None,
    }
}

fn printable(scancode: u8, shifted: bool) -> (r: Option<char>)
    ensures
        r == printable_spec(scancode, shifted),
{
    match scancode {
        0x02 => Some(if shifted { '!' } else { '1' }),
        0x03 => Some(if shifted { '@' } else { '2' }),
        0x04 => Some(if shifted { '#' } else { '3' }),
        0x05 => Some(if shifted { '$' } else { '4' }),
        0x06 => Some(if shifted { '%' } else { '5' }),
        0x07 => Some(if shifted { '^' } else { '6' }),
        0x08 => Some(if shifted { '&' } else { '7' }),
        0x09 => Some(if shifted { '*' } else { '8' }),
        0x0A => Some(if shifted { '(' } else { '9' }),
        0x0B => Some(if shifted { ')' } else { '0' }),
        0x0C => Some(if shifted { '_' } else { '-' }),
        0x0D => Some(if shifted { '+' } else { '=' }),
        0x10 => Some(if shifted { 'Q' } else { 'q' }),
        0x11 => Some(if shifted { 'W' } else { 'w' }),
        0x12 => Some(if shifted { 'E' } else { 'e' }),
        0x13 => Some(if shifted { 'R' } else { 'r' }),
        0x14 => Some(if shifted { 'T' } else { 't' }),
        0x15 => Some(if shifted { 'Y' } else { 'y' }),
        0x16 => Some(if shifted { 'U' } else { 'u' }),
        0x17 => Some(if shifted { 'I' } else { 'i' }),
        0x18 => Some(if shifted { 'O' } else { 'o' }),
        0x19 => Some(if shifted { 'P' } else { 'p' }),
        0x1A => Some(if shifted { '{' } else { '[' }),
        0x1B => Some(if shifted { '}' } else { ']' }),
        0x2B => Some(if shifted { '|' } else { '\\' }),
        0x1E => Some(if shifted { 'A' } else { 'a' }),
        0x1F => Some(if shifted { 'S' } else { 's' }),
        0x20 => Some(if shifted { 'D' } else { 'd' }),
        0x21 => Some(if shifted { 'F' } else { 'f' }),
        0x22 => Some(if shifted { 'G' } else { 'g' }),
        0x23 => Some(if shifted { 'H' } else { 'h' }),
        0x24 => Some(if shifted { 'J' } else { 'j' }),
        0x25 => Some(if shifted { 'K' } else { 'k' }),
        0x26 => Some(if shifted { 'L' } else { 'l' }),
        0x27 => Some(if shifted { ':' } else { ';' }),
        0x28 => Some(if shifted { '"' } else { '\'' }),
        0x29 => Some(if shifted { '~' } else { '`' }),
        0x2C => Some(if shifted { 'Z' } else { 'z' }),
        0x2D => Some(if shifted { 'X' } else { 'x' }),
        0x2E => Some(if shifted { 'C' } else { 'c' }),
        0x2F => Some(if shifted { 'V' } else { 'v' }),
        0x30 => Some(if shifted { 'B' } else { 'b' }),
        0x31 => Some(if shifted { 'N' } else { 'n' }),
        0x32 => Some(if shifted { 'M' } else { 'm' }),
        0x33 => Some(if shifted { '<' } else { ',' }),
        0x34 => Some(if shifted { '>' } else { '.' }),
        0x35 => Some(if shifted { '?' } else { '/' }),
        _ => None,
    }
}

fn keypad(scancode: u8) -> (r: Option<char>)
    ensures
        r == keypad_spec(scancode),
{
    match scancode {
        0x47 => Some('7'),
        0x48 => Some('8'),
        0x49 => Some('9'),
        0x4B => Some('4'),
        0x4C => Some('5'),
        0x4D => Some('6'),
        0x4F => Some('1'),
        0x50 => Some('2'),
        0x51 => Some('3'),
        0x52 => Some('0'),
        0x53 => Some('.'),
        _ => None,
    }
}

/// The abstract state of the layout.
pub struct QwertyState {
    /// The modifier bits.
    pub modifiers: u8,
    /// Whether the previous scancode was the 0xE0 escape.
    pub escaped: bool,
    /// Whether NUM LOCK is held down (so that key repeat does not toggle it again).
    pub numlock_repeating: bool,
    /// Whether CAPS LOCK is held down.
    pub capslock_repeating: bool,
}

/// The modifier bits after `scancode`, read in state `s`.
pub open spec fn next_modifiers(s: QwertyState, scancode: u8) -> u8 {
    let m = s.modifiers;
    if !s.escaped {
        if scancode == 0x2A { m | LEFT_SHIFT }
        else if scancode == 0xAA { m & !LEFT_SHIFT }
        else if scancode == 0x36 { m | RIGHT_SHIFT }
        else if scancode == 0xB6 { m & !RIGHT_SHIFT }
        else if scancode == 0x1D { m | LEFT_CONTROL }
        else if scancode == 0x9D { m & !LEFT_CONTROL }
        else if scancode == 0x3A && !s.capslock_repeating { m ^ CAPS_LOCK }
        else if scancode == 0x38 { m | LEFT_ALT }
        else if scancode == 0xB8 { m & !LEFT_ALT }
        else if scancode == 0x45 && !s.numlock_repeating { m ^ NUM_LOCK }
        else { m }
    } else {
        if scancode == 0x1D { m | RIGHT_CONTROL }
        else if scancode == 0x9D { m & !RIGHT_CONTROL }
        else if scancode == 0x38 { m | RIGHT_ALT }
        else if scancode == 0xB8 { m & !RIGHT_ALT }
        else { m }
    }
}

/// The state after `scancode`, read in state `s`: the escape flag is set by
/// 0xE0 in a neutral state and cleared by anything else; a lock key press
/// marks its key as held, its release clears that mark.
pub open spec fn next_state(s: QwertyState, scancode: u8) -> QwertyState {
    QwertyState {
        modifiers: next_modifiers(s, scancode),
        escaped: !s.escaped && scancode == 0xE0,
        numlock_repeating: if !s.escaped && scancode == 0x45 {
            true
        } else if !s.escaped && scancode == 0xC5 {
            false
        } else {
            s.numlock_repeating
        },
        capslock_repeating: if !s.escaped && scancode == 0x3A {
            true
        } else if !s.escaped && scancode == 0xBA {
            false
        } else {
            s.capslock_repeating
        },
    }
}

/// The state after reading `codes` in order from state `s`.
pub open spec fn next_state_all(s: QwertyState, codes: Seq<u8>) -> QwertyState
    decreases codes.len(),
{
    if codes.len() == 0 {
        s
    } else {
        next_state(next_state_all(s, codes.drop_last()), codes.last())
    }
}

/// The character typed by `scancode` in state `s`, if any. Printable keys
/// read the modifiers as they were before the scancode.
pub open spec fn output(s: QwertyState, scancode: u8) -> Option<char> {
    if s.escaped {
        if scancode == 0x35 {
            Some('/')
        } else if scancode == 0x1C {
            Some('\n')
        } else {
            None
        }
    } else if printable_spec(scancode, shifted_spec(s.modifiers)) is Some {
        printable_spec(scancode, shifted_spec(s.modifiers))
    } else if num_locked_spec(s.modifiers) && keypad_spec(scancode) is Some {
        keypad_spec(scancode)
    } else if scancode == 0x39 {
        Some(' ')
    } else if scancode == 0x1C {
        Some('\n')
    } else if scancode == 0x0E {
        Some('\x08')
    } else if scancode == 0x0F {
        Some('\t')
    } else {
        None
    }
}

/// Converts scancodes into text, keeping track of the modifier keys.
pub struct Qwerty {
    /// The state of key modifiers.
    modifiers: Modifiers,
    /// Whether the 0xE0 escape code has just been received.
    escaped: bool,
    /// Whether the NUM LOCK key is held down.
    numlock_repeating: bool,
    /// Whether the CAPS LOCK key is held down.
    capslock_repeating: bool,
}

impl View for Qwerty {
    type V = QwertyState;

    closed spec fn view(&self) -> QwertyState {
        QwertyState {
            modifiers: self.modifiers.bits,
            escaped: self.escaped,
            numlock_repeating: self.numlock_repeating,
            capslock_repeating: self.capslock_repeating,
        }
    }
}

impl Qwerty {
    /// The state of a fresh layout.
    pub open spec fn new_state() -> QwertyState {
        QwertyState { modifiers: 0, escaped: false, numlock_repeating: false, capslock_repeating: false }
    }

    /// A layout with no modifier active and no pending escape.
    pub fn new() -> (r: Self)
        ensures
            r@ == Self::new_state(),
    {
        Qwerty {
            modifiers: Modifiers::empty(),
            escaped: false,
            numlock_repeating: false,
            capslock_repeating: false,
        }
    }

    /// Returns the current state of the modifiers.
    pub fn modifiers(&self) -> (r: Modifiers)
        ensures
            r.bits == self@.modifiers,
    {
        self.modifiers
    }

    /// Advances the state machine with a new scancode, returning the character
    /// it produces, if any.
    pub fn advance(&mut self, scancode: u8) -> (r: Option<char>)
        ensures
            final(self)@ == next_state(old(self)@, scancode),
            r == output(old(self)@, scancode),
    {
        let escaped = self.escaped;
        self.escaped = !escaped && scancode == 0xE0;
        if escaped {
            return match scancode {
                0x1D => {
                    self.modifiers.insert(RIGHT_CONTROL);
                    None
                },
                0x9D => {
                    self.modifiers.remove(RIGHT_CONTROL);
                    None
                },
                0x38 => {
                    self.modifiers.insert(RIGHT_ALT);
                    None
                },
                0xB8 => {
                    self.modifiers.remove(RIGHT_ALT);
                    None
                },
                0x35 => Some('/'),
                0x1C => Some('\n'),
                _ => None,
            };
        }
        match scancode {
            0x2A => {
                self.modifiers.insert(LEFT_SHIFT);
                None
            },
            0xAA => {
                self.modifiers.remove(LEFT_SHIFT);
                None
            },
            0x36 => {
                self.modifiers.insert(RIGHT_SHIFT);
                None
            },
            0xB6 => {
                self.modifiers.remove(RIGHT_SHIFT);
                None
            },
            0x1D => {
                self.modifiers.insert(LEFT_CONTROL);
                None
            },
            0x9D => {
                self.modifiers.remove(LEFT_CONTROL);
                None
            },
            0x3A => {
                if !self.capslock_repeating {
                    self.capslock_repeating = true;
                    self.modifiers.toggle(CAPS_LOCK);
                }
                None
            },
            0xBA => {
                self.capslock_repeating = false;
                None
            },
            0x38 => {
                self.modifiers.insert(LEFT_ALT);
                None
            },
            0xB8 => {
                self.modifiers.remove(LEFT_ALT);
                None
            },
            0x45 => {
                if !self.numlock_repeating {
                    self.numlock_repeating = true;
                    self.modifiers.toggle(NUM_LOCK);
                }
                None
            },
            0xC5 => {
                self.numlock_repeating = false;
                None
            },
            _ => {
                let c = printable(scancode, self.modifiers.shifted());
                if c.is_some() {
                    return c;
                }
                if self.modifiers.num_locked() {
                    let k = keypad(scancode);
                    if k.is_some() {
                        return k;
                    }
                }
                match scancode {
                    0x39 => Some(' '),
                    0x1C => Some('\n'),
                    0x0E => Some('\x08'),
                    0x0F => Some('\t'),
                    _ => None,
                }
            },
        }
    }
}

} // verus!
