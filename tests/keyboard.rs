use kfs::keyboard::{Modifiers, Qwerty, CAPS_LOCK, LEFT_CONTROL, LEFT_SHIFT, NUM_LOCK, RIGHT_ALT, RIGHT_SHIFT};

fn type_all(q: &mut Qwerty, codes: &[u8]) -> Vec<Option<char>> {
    codes.iter().map(|&c| q.advance(c)).collect()
}

#[test]
fn plain_letters_and_digits() {
    let mut q = Qwerty::new();
    assert_eq!(q.advance(0x23), Some('h'));
    assert_eq!(q.advance(0x17), Some('i'));
    assert_eq!(q.advance(0x02), Some('1'));
    assert_eq!(q.advance(0x39), Some(' '));
    assert_eq!(q.advance(0x1C), Some('\n'));
    assert_eq!(q.advance(0x0E), Some('\x08'));
    assert_eq!(q.advance(0x0F), Some('\t'));
    assert_eq!(q.advance(0x9E), None);
}

#[test]
fn shift_and_caps_lock() {
    let mut q = Qwerty::new();
    assert_eq!(q.advance(0x2A), None);
    assert!(q.modifiers().has_shift());
    assert_eq!(q.advance(0x1E), Some('A'));
    assert_eq!(q.advance(0x02), Some('!'));
    assert_eq!(q.advance(0xAA), None);
    assert_eq!(q.advance(0x1E), Some('a'));
    // Caps lock toggles once per press, however long the key is held.
    assert_eq!(type_all(&mut q, &[0x3A, 0x3A, 0x3A]), vec![None, None, None]);
    assert!(q.modifiers().shifted());
    assert_eq!(q.advance(0x1E), Some('A'));
    assert_eq!(q.advance(0xBA), None);
    // Shift with caps lock cancels out.
    assert_eq!(q.advance(0x36), None);
    assert_eq!(q.advance(0x1E), Some('a'));
    assert_eq!(q.advance(0xB6), None);
    assert_eq!(q.advance(0x3A), None);
    assert!(!q.modifiers().shifted());
}

#[test]
fn escaped_keys() {
    let mut q = Qwerty::new();
    assert_eq!(q.advance(0xE0), None);
    assert_eq!(q.advance(0x35), Some('/'));
    assert_eq!(q.advance(0xE0), None);
    assert_eq!(q.advance(0x1C), Some('\n'));
    assert_eq!(q.advance(0xE0), None);
    assert_eq!(q.advance(0x1D), None);
    assert!(q.modifiers().has_control());
    assert_eq!(q.advance(0xE0), None);
    assert_eq!(q.advance(0x38), None);
    assert!(q.modifiers().has_alt());
    assert_eq!(q.modifiers().bits & RIGHT_ALT, RIGHT_ALT);
    // An escaped key that is not special types nothing.
    assert_eq!(q.advance(0xE0), None);
    assert_eq!(q.advance(0x1E), None);
    assert_eq!(q.advance(0x1E), Some('a'));
}

#[test]
fn keypad_needs_num_lock() {
    let mut q = Qwerty::new();
    assert_eq!(q.advance(0x47), None);
    assert_eq!(q.advance(0x45), None);
    assert!(q.modifiers().num_locked());
    assert_eq!(q.advance(0x47), Some('7'));
    assert_eq!(q.advance(0x53), Some('.'));
    assert_eq!(q.advance(0xC5), None);
    assert_eq!(q.advance(0x45), None);
    assert!(!q.modifiers().num_locked());
}

#[test]
fn modifier_queries() {
    let mut m = Modifiers::empty();
    assert!(!m.has_control() && !m.has_shift() && !m.has_alt() && !m.num_locked() && !m.shifted());
    m.insert(LEFT_CONTROL | RIGHT_SHIFT);
    assert!(m.has_control() && m.has_shift() && m.shifted());
    m.toggle(CAPS_LOCK);
    assert!(!m.shifted());
    m.remove(RIGHT_SHIFT);
    assert!(m.shifted());
    m.insert(NUM_LOCK);
    assert!(m.num_locked());
    assert_eq!(m.bits, LEFT_CONTROL | CAPS_LOCK | NUM_LOCK);
    assert_eq!(m.bits & LEFT_SHIFT, 0);
}
