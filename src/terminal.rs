//! A terminal on the VGA screen: an output area that scrolls up, and a
//! command line on the last row that the keyboard edits.

use vstd::prelude::*;
use crate::array_vec::ArrayVec;
use crate::keyboard::{Qwerty, QwertyState, next_state, next_state_all, output, has_control_spec};
use crate::vga::{
    VgaBuffer, VgaChar, Color, WIDTH, HEIGHT, CELLS, CLEAR_VALUE, cell_value, is_screen_byte,
};

verus! {

/// The row where output is written.
pub const OUTPUT_ROW: u32 = 23;
/// The row that holds the command line.
pub const CMDLINE_ROW: u32 = 24;
/// Index of the first cell of the command line.
pub const CMDLINE_START: usize = 1920;
/// Index of the first cell of the output row.
pub const OUTPUT_START: usize = 1840;
/// Longest command line.
pub const CMDLINE_CAPACITY: usize = 80;
/// Number of scancodes that can wait to be processed.
pub const SCANCODE_CAPACITY: usize = 8;

/// The cells after scrolling `cells` up by one row: the output area moves up,
/// the output row is cleared, the command line stays.
pub open spec fn scrolled(cells: Seq<u16>) -> Seq<u16> {
    Seq::new(
        cells.len(),
        |i: int|
            if i < OUTPUT_START {
                cells[i + WIDTH]
            } else if i < CMDLINE_START {
                CLEAR_VALUE
            } else {
                cells[i]
            },
    )
}

/// The cells once the command line `line` is drawn on the last row of `cells`.
pub open spec fn with_cmdline(cells: Seq<u16>, line: Seq<u8>) -> Seq<u16> {
    Seq::new(
        cells.len(),
        |i: int|
            if i < CMDLINE_START {
                cells[i]
            } else if i - CMDLINE_START < line.len() {
                cell_value(line[i - CMDLINE_START], Color::White, Color::Black)
            } else {
                CLEAR_VALUE
            },
    )
}

/// Whether `s` holds no space at any index in `lo..hi`.
pub open spec fn no_space_in(s: Seq<u8>, lo: int, hi: int) -> bool {
    forall|k: int| lo <= k < hi ==> #[trigger] s[k] != 0x20
}

/// Whether `r` is where the last word of `s` starts: after the trailing
/// spaces, back to just after the space before it, or 0.
pub open spec fn is_last_word_start(s: Seq<u8>, r: int) -> bool {
    if no_space_in(s, 0, 0) && forall|k: int| 0 <= k < s.len() ==> #[trigger] s[k] == 0x20 {
        r == 0
    } else {
        exists|j: int|
            #![trigger s[j]]
            0 <= j < s.len() && s[j] != 0x20 && (forall|k: int| j < k < s.len() ==> #[trigger] s[k]
                == 0x20) && 0 <= r <= j && no_space_in(s, r, j + 1) && (r == 0 || s[r - 1] == 0x20)
    }
}

/// Returns the index of the first character of the last word of `s`, or 0.
pub fn find_start_of_last_word(s: &[u8]) -> (r: usize)
    ensures
        r <= s@.len(),
        is_last_word_start(s@, r as int),
{
    let mut i = s.len();
    let mut found = false;
    while i > 0 && !found
        invariant
            0 <= i <= s@.len(),
            !found ==> forall|k: int| i <= k < s@.len() ==> #[trigger] s@[k] == 0x20,
            found ==> i < s@.len() && s@[i as int] != 0x20 && forall|k: int|
                i < k < s@.len() ==> #[trigger] s@[k] == 0x20,
        decreases i + if found { 0int } else { 1 },
    {
        i = i - 1;
        if s[i] != 0x20 {
            found = true;
        }
    }
    if !found {
        return 0;
    }
    let ghost j = i as int;
    while i > 0
        invariant
            0 <= i <= j < s@.len(),
            s@[j] != 0x20,
            forall|k: int| j < k < s@.len() ==> #[trigger] s@[k] == 0x20,
            no_space_in(s@, i as int, j + 1),
        decreases i,
    {
        if s[i - 1] == 0x20 {
            return i;
        }
        i = i - 1;
    }
    i
}

/// What the terminal does with a character produced by the layout.
#[derive(Clone, Copy, Debug, PartialEq, Eq, Structural)]
pub enum KeyAction {
    /// Nothing: no character, or one the screen cannot show.
    Ignore,
    /// Erase before the cursor; a whole word when `true`.
    Erase(bool),
    /// Clear the screen and the command line.
    Reset,
    /// Clear the command line.
    ClearLine,
    /// Submit the command line, then clear it.
    Submit,
    /// Ask for completion.
    Complete,
    /// Type the character.
    Type(u8),
}

/// The action for the character `c`, with `control` held or not.
pub open spec fn action_of(c: Option<char>, control: bool) -> KeyAction {
    match c {
        None => KeyAction::Ignore,
        Some(c) => if c == '\x08' {
            KeyAction::Erase(control)
        } else if (c == 'l' || c == 'L') && control {
            KeyAction::Reset
        } else if (c == 'c' || c == 'C') && control {
            KeyAction::ClearLine
        } else if c == '\n' {
            KeyAction::Submit
        } else if c == '\t' {
            KeyAction::Complete
        } else if ' ' <= c <= '~' {
            KeyAction::Type(c as u8)
        } else {
            KeyAction::Ignore
        },
    }
}

/// The action for `scancode` read by a layout in state `s`.
pub open spec fn scancode_action(s: QwertyState, scancode: u8) -> KeyAction {
    action_of(output(s, scancode), has_control_spec(next_state(s, scancode).modifiers))
}

/// Whether erasing before cursor `cursor` of `line` (a word when `bulk`)
/// gives `new_line` with the cursor at `new_cursor`.
pub open spec fn erased(line: Seq<u8>, cursor: int, bulk: bool, new_line: Seq<u8>, new_cursor: int) -> bool {
    if cursor == 0 {
        new_line == line && new_cursor == 0
    } else {
        &&& 0 <= new_cursor < cursor
        &&& bulk ==> is_last_word_start(line.subrange(0, cursor), new_cursor)
        &&& !bulk ==> new_cursor == cursor - 1
        &&& new_line == line.subrange(0, new_cursor) + line.subrange(cursor, line.len() as int)
    }
}

/// Called by the terminal when the user submits the command line or asks
/// for completion.
pub trait ReadLine {
    /// The user submitted the command line.
    fn submit(&mut self, term: &mut Terminal)
        requires
            old(term).wf(),
        ensures
            final(term).wf(),
            final(term).layout_spec() == old(term).layout_spec(),
            final(term).scancodes() == old(term).scancodes(),
    ;

    /// The user asked for the command line to be completed.
    fn auto_complete(&mut self, term: &mut Terminal)
        requires
            old(term).wf(),
        ensures
            final(term).wf(),
            final(term).layout_spec() == old(term).layout_spec(),
            final(term).scancodes() == old(term).scancodes(),
    ;
}

/// Contains the state of the terminal.
pub struct Terminal {
    /// The screen being written.
    screen: VgaBuffer,
    /// The column to which the next character goes; `WIDTH` means that a new
    /// line starts before the next character.
    cursor: u32,
    /// The current foreground color.
    foreground: Color,
    /// The current command line.
    cmdline: ArrayVec<u8, 80>,
    /// The position of the user's cursor within the command line.
    cmdline_cursor: u8,
    /// Scancodes received and not yet processed.
    scancode_buffer: ArrayVec<u8, 8>,
    /// The keyboard layout.
    layout: Qwerty,
}

impl Terminal {
    /// The screen cells.
    pub closed spec fn cells(&self) -> Seq<u16> {
        self.screen.cells_spec()
    }

    /// The cell index of the hardware cursor.
    pub closed spec fn hardware_cursor(&self) -> u32 {
        self.screen.cursor_spec()
    }

    /// The output column.
    pub closed spec fn column(&self) -> u32 {
        self.cursor
    }

    /// The foreground color of output.
    pub closed spec fn foreground_spec(&self) -> Color {
        self.foreground
    }

    /// The command line.
    pub closed spec fn line(&self) -> Seq<u8> {
        self.cmdline@
    }

    /// The user's cursor in the command line.
    pub closed spec fn line_cursor(&self) -> int {
        self.cmdline_cursor as int
    }

    /// The scancodes waiting to be processed.
    pub closed spec fn scancodes(&self) -> Seq<u8> {
        self.scancode_buffer@
    }

    /// The state of the keyboard layout.
    pub closed spec fn layout_spec(&self) -> QwertyState {
        self.layout@
    }

    /// The screen has all its cells, the column is at most `WIDTH`, the
    /// command line holds screen bytes only and the user's cursor lies within it.
    pub open spec fn wf(&self) -> bool {
        &&& self.cells().len() == CELLS
        &&& self.column() <= WIDTH
        &&& self.line().len() <= CMDLINE_CAPACITY
        &&& self.line_cursor() <= self.line().len()
        &&& forall|k: int| 0 <= k < self.line().len() ==> is_screen_byte(#[trigger] self.line()[k])
        &&& self.scancodes().len() <= SCANCODE_CAPACITY
    }

    /// Creates a terminal over `screen`, writing white on black from the
    /// first column, with an empty command line.
    pub fn new(screen: VgaBuffer) -> (r: Self)
        requires
            screen.wf(),
        ensures
            r.wf(),
            r.cells() == screen.cells_spec(),
            r.column() == 0,
            r.foreground_spec() == Color::White,
            r.line() == Seq::<u8>::empty(),
            r.line_cursor() == 0,
            r.scancodes() == Seq::<u8>::empty(),
            r.layout_spec() == Qwerty::new_state(),
    {
        Terminal {
            screen,
            cursor: 0,
            foreground: Color::White,
            cmdline: ArrayVec::new(),
            cmdline_cursor: 0,
            scancode_buffer: ArrayVec::new(),
            layout: Qwerty::new(),
        }
    }

    /// Clears the screen and the command line and moves the cursors home.
    pub fn reset(&mut self)
        requires
            old(self).wf(),
        ensures
            final(self).wf(),
            final(self).cells() == Seq::new(CELLS as nat, |i: int| CLEAR_VALUE),
            final(self).hardware_cursor() == CMDLINE_ROW * WIDTH,
            final(self).column() == 0,
            final(self).line() == Seq::<u8>::empty(),
            final(self).line_cursor() == 0,
            final(self).foreground_spec() == old(self).foreground_spec(),
            final(self).scancodes() == old(self).scancodes(),
            final(self).layout_spec() == old(self).layout_spec(),
    {
        self.cmdline.clear();
        self.cmdline_cursor = 0;
        self.cursor = 0;
        self.screen.fill(0, CELLS, CLEAR_VALUE);
        self.screen.cursor_move(0, HEIGHT - 1);
        assert(self.cells() =~= Seq::new(CELLS as nat, |i: int| CLEAR_VALUE));
    }

    /// An alias of [`Terminal::reset`].
    pub fn clear(&mut self)
        requires
            old(self).wf(),
        ensures
            final(self).wf(),
            final(self).cells() == Seq::new(CELLS as nat, |i: int| CLEAR_VALUE),
            final(self).column() == 0,
            final(self).line() == Seq::<u8>::empty(),
    {
        self.reset();
    }

    /// Empties the command line and blanks its row.
    pub fn clear_cmdline(&mut self)
        requires
            old(self).wf(),
        ensures
            final(self).wf(),
            final(self).cells() == with_cmdline(old(self).cells(), Seq::<u8>::empty()),
            final(self).hardware_cursor() == CMDLINE_ROW * WIDTH,
            final(self).line() == Seq::<u8>::empty(),
            final(self).line_cursor() == 0,
            final(self).column() == old(self).column(),
            final(self).foreground_spec() == old(self).foreground_spec(),
            final(self).scancodes() == old(self).scancodes(),
            final(self).layout_spec() == old(self).layout_spec(),
    {
        self.cmdline.clear();
        self.cmdline_cursor = 0;
        self.screen.fill(CMDLINE_START, CELLS, CLEAR_VALUE);
        self.screen.cursor_move(0, HEIGHT - 1);
        assert(self.cells() =~= with_cmdline(old(self).cells(), Seq::<u8>::empty()));
    }

    /// Scrolls the output area up by one row.
    pub fn scroll_once(&mut self)
        requires
            old(self).wf(),
        ensures
            final(self).wf(),
            final(self).cells() == scrolled(old(self).cells()),
            final(self).hardware_cursor() == old(self).hardware_cursor(),
            final(self).column() == old(self).column(),
            final(self).line() == old(self).line(),
            final(self).line_cursor() == old(self).line_cursor(),
            final(self).foreground_spec() == old(self).foreground_spec(),
            final(self).scancodes() == old(self).scancodes(),
            final(self).layout_spec() == old(self).layout_spec(),
    {
        self.screen.copy_down(WIDTH as usize, 0, OUTPUT_START);
        self.screen.fill(OUTPUT_START, CMDLINE_START, CLEAR_VALUE);
        assert(self.cells() =~= scrolled(old(self).cells()));
    }

    /// Ends the current output line; the scroll happens when the next
    /// character is written.
    pub fn insert_linefeed(&mut self)
        requires
            old(self).wf(),
        ensures
            final(self).wf(),
            final(self).column() == WIDTH,
            final(self).cells() == if old(self).column() == WIDTH {
                scrolled(old(self).cells())
            } else {
                old(self).cells()
            },
            final(self).line() == old(self).line(),
            final(self).line_cursor() == old(self).line_cursor(),
            final(self).foreground_spec() == old(self).foreground_spec(),
            final(self).layout_spec() == old(self).layout_spec(),
            final(self).scancodes() == old(self).scancodes(),
    {
        if self.cursor == WIDTH {
            self.scroll_once();
        }
        self.cursor = WIDTH;
    }

    /// Writes `c` at the output column, starting a new line first when the
    /// current one is full.
    pub fn write_vga_char(&mut self, c: VgaChar)
        requires
            old(self).wf(),
        ensures
            final(self).wf(),
            final(self).column() == (if old(self).column() == WIDTH { 0 } else { old(self).column() }) + 1,
            final(self).cells() == (if old(self).column() == WIDTH {
                scrolled(old(self).cells())
            } else {
                old(self).cells()
            }).update(
                OUTPUT_ROW * WIDTH + if old(self).column() == WIDTH { 0 } else { old(self).column() },
                cell_value(c@, old(self).foreground_spec(), Color::Black),
            ),
            final(self).line() == old(self).line(),
            final(self).line_cursor() == old(self).line_cursor(),
            final(self).foreground_spec() == old(self).foreground_spec(),
            final(self).layout_spec() == old(self).layout_spec(),
            final(self).scancodes() == old(self).scancodes(),
    {
        if self.cursor == WIDTH {
            self.cursor = 0;
            self.scroll_once();
        }
        self.screen.putc(c, self.cursor, HEIGHT - 2, self.foreground, Color::Black);
        self.cursor = self.cursor + 1;
    }

    /// Writes `c`: a newline ends the line, a screen character is shown;
    /// anything else is refused (`false`) and changes nothing.
    pub fn write_char(&mut self, c: char) -> (r: bool)
        requires
            old(self).wf(),
        ensures
            final(self).wf(),
            r == (c == '\n' || (' ' <= c <= '~')),
            !r ==> *final(self) == *old(self),
            c == '\n' ==> final(self).column() == WIDTH && final(self).cells() == if old(self).column() == WIDTH {
                scrolled(old(self).cells())
            } else {
                old(self).cells()
            },
            ' ' <= c <= '~' ==> {
                let col = if old(self).column() == WIDTH { 0 } else { old(self).column() };
                &&& final(self).column() == col + 1
                &&& final(self).cells() == (if old(self).column() == WIDTH {
                    scrolled(old(self).cells())
                } else {
                    old(self).cells()
                }).update(OUTPUT_ROW * WIDTH + col, cell_value(c as u8, old(self).foreground_spec(), Color::Black))
            },
            final(self).foreground_spec() == old(self).foreground_spec(),
            final(self).line() == old(self).line(),
            final(self).layout_spec() == old(self).layout_spec(),
            final(self).scancodes() == old(self).scancodes(),
    {
        if c == '\n' {
            self.insert_linefeed();
            return true;
        }
        match VgaChar::from_char(c) {
            Some(v) => {
                self.write_vga_char(v);
                true
            },
            None => false,
        }
    }

    /// Writes the characters of `bytes` in order, stopping before the first
    /// one that is neither a newline nor a screen character (then `false`).
    pub fn write_bytes(&mut self, bytes: &[u8]) -> (r: bool)
        requires
            old(self).wf(),
        ensures
            final(self).wf(),
            r == forall|k: int| 0 <= k < bytes@.len() ==> #[trigger] bytes@[k] == 0x0A || is_screen_byte(bytes@[k]),
            final(self).line() == old(self).line(),
            final(self).layout_spec() == old(self).layout_spec(),
            final(self).scancodes() == old(self).scancodes(),
    {
        let mut i: usize = 0;
        while i < bytes.len()
            invariant
                0 <= i <= bytes@.len(),
                self.wf(),
                forall|k: int| 0 <= k < i ==> #[trigger] bytes@[k] == 0x0A || is_screen_byte(bytes@[k]),
                self.line() == old(self).line(),
                self.layout_spec() == old(self).layout_spec(),
                self.scancodes() == old(self).scancodes(),
            decreases bytes@.len() - i,
        {
            let b = bytes[i];
            if !self.write_char(b as char) {
                return false;
            }
            i = i + 1;
        }
        true
    }

    /// Sets the foreground color of later output.
    pub fn set_color(&mut self, color: Color)
        requires
            old(self).wf(),
        ensures
            final(self).wf(),
            final(self).foreground_spec() == color,
            final(self).cells() == old(self).cells(),
            final(self).column() == old(self).column(),
            final(self).line() == old(self).line(),
            final(self).line_cursor() == old(self).line_cursor(),
            final(self).layout_spec() == old(self).layout_spec(),
            final(self).scancodes() == old(self).scancodes(),
    {
        self.foreground = color;
    }

    /// Redraws the command line on the last row and places the hardware
    /// cursor at the user's cursor.
    pub fn refresh_cmdline(&mut self)
        requires
            old(self).wf(),
        ensures
            final(self).wf(),
            final(self).cells() == with_cmdline(old(self).cells(), old(self).line()),
            final(self).hardware_cursor() == CMDLINE_ROW * WIDTH + old(self).line_cursor(),
            final(self).column() == old(self).column(),
            final(self).line() == old(self).line(),
            final(self).line_cursor() == old(self).line_cursor(),
            final(self).foreground_spec() == old(self).foreground_spec(),
            final(self).layout_spec() == old(self).layout_spec(),
            final(self).scancodes() == old(self).scancodes(),
    {
        let len = self.cmdline.len();
        let mut x: usize = 0;
        while x < len
            invariant
                0 <= x <= len,
                len == self.line().len(),
                self.wf(),
                self.line() == old(self).line(),
                self.line_cursor() == old(self).line_cursor(),
                self.column() == old(self).column(),
                self.foreground_spec() == old(self).foreground_spec(),
                self.layout_spec() == old(self).layout_spec(),
                self.scancodes() == old(self).scancodes(),
                forall|i: int|
                    0 <= i < CELLS ==> #[trigger] self.cells()[i] == if CMDLINE_START <= i < CMDLINE_START + x {
                        cell_value(old(self).line()[i - CMDLINE_START], Color::White, Color::Black)
                    } else {
                        old(self).cells()[i]
                    },
            decreases len - x,
        {
            let b = self.cmdline.as_slice()[x];
            match VgaChar::from_byte(b) {
                Some(c) => {
                    self.screen.putc(c, x as u32, HEIGHT - 1, Color::White, Color::Black);
                },
                None => {},
            }
            x = x + 1;
        }
        self.screen.fill(CMDLINE_START + len, CELLS, CLEAR_VALUE);
        self.screen.cursor_move(self.cmdline_cursor as u32, HEIGHT - 1);
        assert(self.cells() =~= with_cmdline(old(self).cells(), old(self).line()));
    }

    /// Inserts `c` at the user's cursor and moves the cursor past it; returns
    /// `false`, changing nothing, when the command line is full.
    pub fn type_in(&mut self, c: u8) -> (r: bool)
        requires
            old(self).wf(),
            is_screen_byte(c),
        ensures
            final(self).wf(),
            r == (old(self).line().len() < CMDLINE_CAPACITY),
            !r ==> final(self).line() == old(self).line() && final(self).line_cursor() == old(self).line_cursor()
                && final(self).cells() == old(self).cells(),
            r ==> final(self).line() == old(self).line().insert(old(self).line_cursor(), c),
            r ==> final(self).line_cursor() == old(self).line_cursor() + 1,
            r ==> final(self).cells() == with_cmdline(old(self).cells(), final(self).line()),
            final(self).layout_spec() == old(self).layout_spec(),
            final(self).scancodes() == old(self).scancodes(),
    {
        match self.cmdline.try_insert(self.cmdline_cursor as usize, c) {
            Ok(()) => {},
            Err(_) => {
                return false;
            },
        }
        self.cmdline_cursor = self.cmdline_cursor + 1;
        proof {
            assert forall|k: int| 0 <= k < self.line().len() implies is_screen_byte(#[trigger] self.line()[k]) by {
                let p = old(self).line_cursor();
                if k < p {
                    assert(self.line()[k] == old(self).line()[k]);
                } else if k > p {
                    assert(self.line()[k] == old(self).line()[k - 1]);
                }
            }
        }
        self.refresh_cmdline();
        true
    }

    /// Erases before the user's cursor: one character, or with `bulk` back to
    /// the start of the last word before the cursor.
    pub fn type_out(&mut self, bulk: bool)
        requires
            old(self).wf(),
        ensures
            final(self).wf(),
            old(self).line_cursor() == 0 ==> *final(self) == *old(self),
            old(self).line_cursor() > 0 ==> final(self).cells() == with_cmdline(old(self).cells(), final(self).line()),
            erased(old(self).line(), old(self).line_cursor(), bulk, final(self).line(), final(self).line_cursor()),
            final(self).layout_spec() == old(self).layout_spec(),
            final(self).scancodes() == old(self).scancodes(),
    {
        let cur = self.cmdline_cursor as usize;
        if cur == 0 {
            return;
        }
        let ghost prefix = old(self).line().subrange(0, cur as int);
        let start = if bulk {
            find_start_of_last_word(vstd::slice::slice_subrange(self.cmdline.as_slice(), 0, cur))
        } else {
            cur - 1
        };
        proof {
            if bulk && !(no_space_in(prefix, 0, 0) && forall|k: int| 0 <= k < prefix.len() ==> #[trigger] prefix[k] == 0x20) {
                let j = choose|j: int|
                    #![trigger prefix[j]]
                    0 <= j < prefix.len() && prefix[j] != 0x20 && (forall|k: int| j < k < prefix.len() ==> #[trigger] prefix[k]
                        == 0x20) && 0 <= start <= j && no_space_in(prefix, start as int, j + 1) && (start == 0 || prefix[start - 1] == 0x20);
                assert(start < cur);
            }
        }
        self.cmdline.remove_range(start, cur);
        self.cmdline_cursor = start as u8;
        proof {
            assert forall|k: int| 0 <= k < self.line().len() implies is_screen_byte(#[trigger] self.line()[k]) by {
                if k < start {
                    assert(self.line()[k] == old(self).line()[k]);
                } else {
                    assert(self.line()[k] == old(self).line()[k - start + cur]);
                }
            }
        }
        self.refresh_cmdline();
    }

    /// Queues a scancode for later processing; `false` when the queue is full.
    pub fn buffer_scancode(&mut self, scancode: u8) -> (r: bool)
        requires
            old(self).wf(),
        ensures
            final(self).wf(),
            r == (old(self).scancodes().len() < SCANCODE_CAPACITY),
            r ==> final(self).scancodes() == old(self).scancodes().push(scancode),
            !r ==> final(self).scancodes() == old(self).scancodes(),
            final(self).line() == old(self).line(),
            final(self).cells() == old(self).cells(),
            final(self).layout_spec() == old(self).layout_spec(),
    {
        self.scancode_buffer.try_push(scancode).is_ok()
    }

    /// Processes one scancode through the layout: BACKSPACE erases (a word
    /// with CONTROL), CONTROL-L resets, CONTROL-C clears the command line,
    /// ENTER submits then clears it, TAB asks for completion, and other
    /// characters are typed in.
    pub fn take_scancode<R: ReadLine>(&mut self, scancode: u8, readline: &mut R)
        requires
            old(self).wf(),
        ensures
            final(self).wf(),
            final(self).layout_spec() == next_state(old(self).layout_spec(), scancode),
            final(self).scancodes() == old(self).scancodes(),
            ({
                let action = scancode_action(old(self).layout_spec(), scancode);
                match action {
                    KeyAction::Ignore => final(self).line() == old(self).line() && final(self).line_cursor()
                        == old(self).line_cursor() && final(self).cells() == old(self).cells(),
                    KeyAction::Erase(bulk) => erased(
                        old(self).line(),
                        old(self).line_cursor(),
                        bulk,
                        final(self).line(),
                        final(self).line_cursor(),
                    ),
                    KeyAction::Reset => final(self).line() == Seq::<u8>::empty() && final(self).cells()
                        == Seq::new(CELLS as nat, |i: int| CLEAR_VALUE),
                    KeyAction::ClearLine => final(self).line() == Seq::<u8>::empty() && final(self).cells()
                        == with_cmdline(old(self).cells(), Seq::<u8>::empty()),
                    KeyAction::Submit => final(self).line() == Seq::<u8>::empty() && final(self).line_cursor() == 0,
                    KeyAction::Complete => true,
                    KeyAction::Type(b) => if old(self).line().len() < CMDLINE_CAPACITY {
                        final(self).line() == old(self).line().insert(old(self).line_cursor(), b)
                            && final(self).line_cursor() == old(self).line_cursor() + 1
                    } else {
                        final(self).line() == old(self).line()
                    },
                }
            }),
    {
        let c = match self.layout.advance(scancode) {
            Some(c) => c,
            None => {
                return;
            },
        };
        let ghost advanced = self.layout_spec();
        let control = self.layout.modifiers().has_control();
        if c == '\x08' {
            self.type_out(control);
        } else if (c == 'l' || c == 'L') && control {
            self.reset();
        } else if (c == 'c' || c == 'C') && control {
            self.clear_cmdline();
        } else if c == '\n' {
            readline.submit(self);
            self.clear_cmdline();
        } else if c == '\t' {
            readline.auto_complete(self);
        } else {
            match VgaChar::from_char(c) {
                Some(v) => {
                    self.type_in(v.as_u8());
                },
                None => {},
            }
        }
    }

    /// Processes every queued scancode in order, then empties the queue.
    pub fn take_buffered_scancodes<R: ReadLine>(&mut self, readline: &mut R)
        requires
            old(self).wf(),
        ensures
            final(self).wf(),
            final(self).scancodes() == Seq::<u8>::empty(),
            final(self).layout_spec() == next_state_all(old(self).layout_spec(), old(self).scancodes()),
    {
        let n = self.scancode_buffer.len();
        let mut i: usize = 0;
        while i < n
            invariant
                0 <= i <= n,
                self.wf(),
                self.scancodes() == old(self).scancodes(),
                n == old(self).scancodes().len(),
                self.layout_spec() == next_state_all(
                    old(self).layout_spec(),
                    old(self).scancodes().subrange(0, i as int),
                ),
            decreases n - i,
        {
            let scancode = self.scancode_buffer.as_slice()[i];
            self.take_scancode(scancode, readline);
            i = i + 1;
            assert(old(self).scancodes().subrange(0, i as int).drop_last() =~= old(self).scancodes().subrange(
                0,
                i - 1,
            ));
        }
        assert(old(self).scancodes().subrange(0, n as int) =~= old(self).scancodes());
        self.scancode_buffer.clear();
    }

    /// Replaces the command line with `text`, puts the user's cursor at its
    /// end and redraws it.
    pub fn replace_cmdline(&mut self, text: &[u8])
        requires
            old(self).wf(),
            text@.len() <= CMDLINE_CAPACITY,
            forall|k: int| 0 <= k < text@.len() ==> is_screen_byte(#[trigger] text@[k]),
        ensures
            final(self).wf(),
            final(self).line() == text@,
            final(self).line_cursor() == text@.len(),
            final(self).cells() == with_cmdline(old(self).cells(), text@),
            final(self).layout_spec() == old(self).layout_spec(),
            final(self).scancodes() == old(self).scancodes(),
    {
        self.cmdline.clear();
        self.cmdline.extend_from_slice(text);
        self.cmdline_cursor = text.len() as u8;
        self.refresh_cmdline();
    }

    /// Returns the command line.
    pub fn cmdline(&self) -> (r: &[u8])
        ensures
            r@ == self.line(),
    {
        self.cmdline.as_slice()
    }

    /// Returns the position of the user's cursor in the command line.
    pub fn cmdline_cursor(&self) -> (r: usize)
        ensures
            r == self.line_cursor(),
    {
        self.cmdline_cursor as usize
    }

    /// The screen.
    pub fn screen(&self) -> (r: &VgaBuffer)
        ensures
            r.cells_spec() == self.cells(),
            r.cursor_spec() == self.hardware_cursor(),
    {
        &self.screen
    }
}

} // verus!
