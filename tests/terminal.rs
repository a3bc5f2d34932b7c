use kfs::format::HumanBytes;
use kfs::shell::{clear, font, help, Command, Shell};
use kfs::terminal::{find_start_of_last_word, ReadLine, Terminal};
use kfs::vga::{Color, VgaBuffer, VgaChar, CLEAR_VALUE};

fn term() -> Terminal {
    Terminal::new(VgaBuffer::new())
}

fn row(t: &Terminal, y: usize) -> Vec<u8> {
    t.screen().buffer()[y * 80..(y + 1) * 80].iter().map(|c| (c & 0xFF) as u8).collect()
}

fn type_keys(t: &mut Terminal, shell: &mut Shell, codes: &[u8]) {
    for &c in codes {
        t.take_scancode(c, shell);
    }
}

#[test]
fn human_bytes_parts() {
    let p = HumanBytes(512).parts();
    assert_eq!((p.integer, p.hundredths, p.unit), (512, 0, 0));
    let p = HumanBytes(1536).parts();
    assert_eq!((p.integer, p.hundredths, p.unit), (1, 50, 1));
    let p = HumanBytes(1024 * 1024).parts();
    assert_eq!((p.integer, p.hundredths, p.unit), (1, 0, 2));
    let p = HumanBytes(3 * 1024 * 1024 * 1024 + 512 * 1024 * 1024).parts();
    assert_eq!((p.integer, p.hundredths, p.unit), (3, 50, 3));
    let p = HumanBytes(u64::MAX).parts();
    assert_eq!((p.integer, p.unit), (16383, 5));
    assert_eq!(HumanBytes::unit_name(2), "MiB");
    assert_eq!(HumanBytes::unit_name(0), "B");
}

#[test]
fn vga_characters() {
    assert_eq!(VgaChar::from_char('A').unwrap().as_u8(), b'A');
    assert_eq!(VgaChar::from_char(' ').unwrap().as_u8(), b' ');
    assert!(VgaChar::from_char('\n').is_none());
    assert!(VgaChar::from_char('é').is_none());
    assert!(VgaChar::new(0).is_none());
    assert_eq!(VgaChar::block().as_u8(), 0xDB);
    assert_eq!(Color::all().len(), 16);
    assert_eq!(Color::Yellow.code(), 14);
}

#[test]
fn writing_and_scrolling_output() {
    let mut t = term();
    assert!(t.write_bytes(b"hi"));
    assert_eq!(&row(&t, 23)[..2], b"hi");
    assert_eq!(t.screen().buffer()[23 * 80], 0x0F00 | b'h' as u16);
    assert!(t.write_char('\n'));
    assert!(t.write_char('x'));
    assert_eq!(&row(&t, 22)[..2], b"hi");
    assert_eq!(row(&t, 23)[0], b'x');
    assert_eq!(row(&t, 23)[1], 0);
    assert!(!t.write_char('\u{7}'));
    t.set_color(Color::Red);
    assert!(t.write_char('y'));
    assert_eq!(t.screen().buffer()[23 * 80 + 1], 0x0400 | b'y' as u16);
    t.scroll_once();
    assert_eq!(row(&t, 22)[0], b'x');
    assert_eq!(t.screen().buffer()[23 * 80], CLEAR_VALUE);
    t.reset();
    assert!(t.screen().buffer().iter().all(|&c| c == CLEAR_VALUE));
    assert_eq!(t.screen().cursor(), 24 * 80);
}

#[test]
fn a_full_line_wraps() {
    let mut t = term();
    for _ in 0..80 {
        t.write_vga_char(VgaChar::from_char('a').unwrap());
    }
    t.write_vga_char(VgaChar::from_char('b').unwrap());
    assert!(row(&t, 22).iter().all(|&c| c == b'a'));
    assert_eq!(row(&t, 23)[0], b'b');
}

#[test]
fn command_line_editing() {
    let mut t = term();
    let mut shell = Shell::new();
    // "ab cd", then left arrow is not handled; backspace removes one.
    type_keys(&mut t, &mut shell, &[0x1E, 0x30, 0x39, 0x2E, 0x20]);
    assert_eq!(t.cmdline(), b"ab cd");
    assert_eq!(&row(&t, 24)[..5], b"ab cd");
    assert_eq!(t.screen().cursor(), 24 * 80 + 5);
    type_keys(&mut t, &mut shell, &[0x0E]);
    assert_eq!(t.cmdline(), b"ab c");
    // CONTROL + backspace removes the last word.
    type_keys(&mut t, &mut shell, &[0x1D, 0x0E, 0x9D]);
    assert_eq!(t.cmdline(), b"ab ");
    assert_eq!(t.cmdline_cursor(), 3);
    // CONTROL + C clears the line.
    type_keys(&mut t, &mut shell, &[0x1D, 0x2E, 0x9D]);
    assert_eq!(t.cmdline(), b"");
    assert_eq!(row(&t, 24)[0], 0);
}

#[test]
fn command_line_is_bounded() {
    let mut t = term();
    for _ in 0..80 {
        assert!(t.type_in(b'z'));
    }
    assert!(!t.type_in(b'z'));
    assert_eq!(t.cmdline().len(), 80);
    t.type_out(false);
    assert_eq!(t.cmdline().len(), 79);
    t.clear_cmdline();
    t.type_out(true);
    assert_eq!(t.cmdline().len(), 0);
}

#[test]
fn last_word_start() {
    assert_eq!(find_start_of_last_word(b"hello world"), 6);
    assert_eq!(find_start_of_last_word(b"hello world   "), 6);
    assert_eq!(find_start_of_last_word(b"hello"), 0);
    assert_eq!(find_start_of_last_word(b"   "), 0);
    assert_eq!(find_start_of_last_word(b""), 0);
    assert_eq!(find_start_of_last_word(b" a"), 1);
}

#[test]
fn submit_selects_a_command() {
    let mut t = term();
    let mut shell = Shell::new();
    // "help" then ENTER.
    type_keys(&mut t, &mut shell, &[0x23, 0x12, 0x26, 0x19, 0x1C]);
    assert_eq!(shell.run(), Some(Command::Help));
    assert_eq!(shell.run(), None);
    assert_eq!(t.cmdline(), b"");
    type_keys(&mut t, &mut shell, &[0x23, 0x1C]);
    assert_eq!(shell.run(), None);
}

#[test]
fn tab_completes_a_command() {
    let mut t = term();
    let mut shell = Shell::new();
    // "sy" then TAB: "system" comes before "syscall".
    type_keys(&mut t, &mut shell, &[0x1F, 0x15, 0x0F]);
    assert_eq!(t.cmdline(), b"system");
    assert_eq!(t.cmdline_cursor(), 6);
    t.clear_cmdline();
    type_keys(&mut t, &mut shell, &[0x2D, 0x0F]);
    assert_eq!(t.cmdline(), b"x");
    // Completion only acts when the cursor ends the line.
    t.clear_cmdline();
    shell.auto_complete(&mut t);
    assert_eq!(t.cmdline(), b"");
    assert_eq!(Command::Restart.name(), b"restart".to_vec());
}

#[test]
fn buffered_scancodes() {
    let mut t = term();
    let mut shell = Shell::new();
    for c in [0x21u8, 0x18, 0x31, 0x14, 0x1C, 0x2E, 0x26, 0x12] {
        assert!(t.buffer_scancode(c));
    }
    assert!(!t.buffer_scancode(0x1E));
    t.take_buffered_scancodes(&mut shell);
    assert_eq!(shell.run(), Some(Command::Font));
    assert_eq!(t.cmdline(), b"cle");
    // CONTROL + L resets.
    type_keys(&mut t, &mut shell, &[0x1D, 0x26, 0x9D]);
    assert_eq!(t.cmdline(), b"");
}

#[test]
fn shell_output_commands() {
    let mut t = term();
    help(&mut t);
    assert_eq!(&row(&t, 23)[..7], b"syscall");
    assert_eq!(&row(&t, 22)[..7], b"restart");
    font(&mut t);
    // One pair of blocks per color, black first and white last.
    assert_eq!(t.screen().buffer()[23 * 80], 0x00DB);
    assert_eq!(t.screen().buffer()[23 * 80 + 31], 0x0FDB);
    assert_eq!(t.screen().buffer()[23 * 80 + 32], CLEAR_VALUE);
    clear(&mut t);
    assert!(t.screen().buffer().iter().all(|&c| c == CLEAR_VALUE));
}

#[test]
fn write_char_columns() {
    let mut t = term();
    for _ in 0..80 {
        assert!(t.write_char('a'));
    }
    // The line is full, so the newline scrolls it up and leaves the column
    // at the end of an empty line.
    assert!(t.write_char('\n'));
    assert_eq!(row(&t, 22)[79], b'a');
    assert_eq!(row(&t, 23)[79], 0);
    // The next character starts a new line.
    assert!(t.write_char('b'));
    assert_eq!(row(&t, 21)[79], b'a');
    assert_eq!(row(&t, 22)[0], 0);
    assert_eq!(row(&t, 23)[0], b'b');
    assert_eq!(row(&t, 23)[1], 0);
}
