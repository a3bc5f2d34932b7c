//! The VGA text screen, held as an array of cells; the owner of the hardware
//! copies it to the text buffer and moves the hardware cursor.

use vstd::prelude::*;

verus! {

/// Number of columns.
pub const WIDTH: u32 = 80;
/// Number of rows.
pub const HEIGHT: u32 = 25;
/// Number of cells.
pub const CELLS: usize = 2000;
/// A blank cell: a space-less zero character, white on black.
pub const CLEAR_VALUE: u16 = 0x0F00;

/// A text-mode color.
#[derive(Clone, Copy, Debug, PartialEq, Eq, Structural)]
pub enum Color {
    Black,
    Blue,
    Green,
    Cyan,
    Red,
    Magenta,
    Brown,
    LightGray,
    DarkGray,
    LightBlue,
    LightGreen,
    LightCyan,
    LightRed,
    Pink,
    Yellow,
    White,
}

/// The 4-bit code of `c`.
pub open spec fn color_code(c: Color) -> u16 {
    match c {
        Color::Black => 0,
        Color::Blue => 1,
        Color::Green => 2,
        Color::Cyan => 3,
        Color::Red => 4,
        Color::Magenta => 5,
        Color::Brown => 6,
        Color::LightGray => 7,
        Color::DarkGray => 8,
        Color::LightBlue => 9,
        Color::LightGreen => 10,
        Color::LightCyan => 11,
        Color::LightRed => 12,
        Color::Pink => 13,
        Color::Yellow => 14,
        Color::White => 15,
    }
}

impl Color {
    /// The 4-bit code of the color.
    pub fn code(self) -> (r: u16)
        ensures
            r == color_code(self),
            r < 16,
    {
        match self {
            Color::Black => 0,
            Color::Blue => 1,
            Color::Green => 2,
            Color::Cyan => 3,
            Color::Red => 4,
            Color::Magenta => 5,
            Color::Brown => 6,
            Color::LightGray => 7,
            Color::DarkGray => 8,
            Color::LightBlue => 9,
            Color::LightGreen => 10,
            Color::LightCyan => 11,
            Color::LightRed => 12,
            Color::Pink => 13,
            Color::Yellow => 14,
            Color::White => 15,
        }
    }

    /// All sixteen colors, by code.
    pub fn all() -> (r: Vec<Color>)
        ensures
            r@.len() == 16,
            forall|i: int| 0 <= i < 16 ==> color_code(#[trigger] r@[i]) == i,
    {
        vec![
            Color::Black,
            Color::Blue,
            Color::Green,
            Color::Cyan,
            Color::Red,
            Color::Magenta,
            Color::Brown,
            Color::LightGray,
            Color::DarkGray,
            Color::LightBlue,
            Color::LightGreen,
            Color::LightCyan,
            Color::LightRed,
            Color::Pink,
            Color::Yellow,
            Color::White,
        ]
    }
}

/// Whether the byte `b` is a character the screen shows: a space or a
/// graphic ASCII character.
pub open spec fn is_screen_byte(b: u8) -> bool {
    0x20 <= b <= 0x7E
}

/// A character that the screen can show.
#[derive(Clone, Copy, Debug, PartialEq, Eq, Structural)]
pub struct VgaChar(u8);

impl View for VgaChar {
    type V = u8;

    closed spec fn view(&self) -> u8 {
        self.0
    }
}

impl VgaChar {
    /// A character is never the zero byte.
    #[verifier::type_invariant]
    spec fn nonzero(self) -> bool {
        self.0 != 0
    }

    /// The character with code `b`, unless `b` is zero.
    pub fn new(b: u8) -> (r: Option<Self>)
        ensures
            r is Some <==> b != 0,
            r is Some ==> r->Some_0@ == b,
    {
        if b != 0 {
            Some(VgaChar(b))
        } else {
            None
        }
    }

    /// The full block character.
    pub fn block() -> (r: Self)
        ensures
            r@ == 0xDB,
    {
        VgaChar(0xDB)
    }

    /// The space character.
    pub fn space() -> (r: Self)
        ensures
            r@ == 0x20,
    {
        VgaChar(0x20)
    }

    /// The character for `c`, when it is a space or graphic ASCII.
    pub fn from_char(c: char) -> (r: Option<Self>)
        ensures
            r is Some <==> (' ' <= c <= '~'),
            r is Some ==> r->Some_0@ == c as u8,
    {
        if ' ' <= c && c <= '~' {
            Some(VgaChar(c as u8))
        } else {
            None
        }
    }

    /// The character for the byte `b`, when it is a screen byte.
    pub fn from_byte(b: u8) -> (r: Option<Self>)
        ensures
            r is Some <==> is_screen_byte(b),
            r is Some ==> r->Some_0@ == b,
    {
        if 0x20 <= b && b <= 0x7E {
            Some(VgaChar(b))
        } else {
            None
        }
    }

    /// Returns the underlying character as a byte.
    pub fn as_u8(&self) -> (r: u8)
        ensures
            r == self@,
            r != 0,
    {
        proof {
            use_type_invariant(self);
        }
        self.0
    }
}

/// The cell value of `c` in colors `fg` on `bg`.
pub open spec fn cell_value(c: u8, fg: Color, bg: Color) -> u16 {
    (c + color_code(fg) * 0x100 + color_code(bg) * 0x1000) as u16
}

/// The screen: `WIDTH * HEIGHT` cells, row by row, and the hardware cursor
/// position as a cell index.
pub struct VgaBuffer {
    cells: Vec<u16>,
    cursor: u32,
}

impl VgaBuffer {
    /// The cells.
    pub closed spec fn cells_spec(&self) -> Seq<u16> {
        self.cells@
    }

    /// The cell index of the hardware cursor.
    pub closed spec fn cursor_spec(&self) -> u32 {
        self.cursor
    }

    /// The screen always has `WIDTH * HEIGHT` cells.
    pub open spec fn wf(&self) -> bool {
        self.cells_spec().len() == CELLS
    }

    /// A blank screen with the cursor at the top left.
    pub fn new() -> (r: Self)
        ensures
            r.wf(),
            r.cells_spec() == Seq::new(CELLS as nat, |i: int| CLEAR_VALUE),
            r.cursor_spec() == 0,
    {
        let mut cells: Vec<u16> = Vec::new();
        let mut i: usize = 0;
        while i < CELLS
            invariant
                0 <= i <= CELLS,
                cells@ == Seq::new(i as nat, |k: int| CLEAR_VALUE),
            decreases CELLS - i,
        {
            cells.push(CLEAR_VALUE);
            i = i + 1;
            assert(cells@ =~= Seq::new(i as nat, |k: int| CLEAR_VALUE));
        }
        VgaBuffer { cells, cursor: 0 }
    }

    /// Writes `c` in colors `fg` on `bg` at column `x` of row `y`; does
    /// nothing when the position is off screen.
    pub fn putc(&mut self, c: VgaChar, x: u32, y: u32, fg: Color, bg: Color)
        requires
            old(self).wf(),
        ensures
            final(self).wf(),
            final(self).cursor_spec() == old(self).cursor_spec(),
            x < WIDTH && y < HEIGHT ==> final(self).cells_spec() == old(self).cells_spec().update(
                y * WIDTH + x,
                cell_value(c@, fg, bg),
            ),
            !(x < WIDTH && y < HEIGHT) ==> final(self).cells_spec() == old(self).cells_spec(),
    {
        if x < WIDTH && y < HEIGHT {
            let b = c.as_u8() as u16;
            let f = fg.code();
            let g = bg.code();
            let value = b | (g << 12) | (f << 8);
            proof {
                assert(b < 256 && f < 16 && g < 16 ==> b | (g << 12) | (f << 8) == b + f * 0x100 + g * 0x1000)
                    by (bit_vector);
            }
            let offset = (y * WIDTH + x) as usize;
            self.cells.set(offset, value);
        }
    }

    /// Sets the cells in `start..end` to `value`.
    pub fn fill(&mut self, start: usize, end: usize, value: u16)
        requires
            old(self).wf(),
            start <= end <= CELLS,
        ensures
            final(self).wf(),
            final(self).cursor_spec() == old(self).cursor_spec(),
            forall|i: int|
                0 <= i < CELLS ==> #[trigger] final(self).cells_spec()[i] == if start <= i < end {
                    value
                } else {
                    old(self).cells_spec()[i]
                },
    {
        let mut i = start;
        while i < end
            invariant
                start <= i <= end <= CELLS,
                self.wf(),
                self.cursor_spec() == old(self).cursor_spec(),
                forall|k: int|
                    0 <= k < CELLS ==> #[trigger] self.cells_spec()[k] == if start <= k < i {
                        value
                    } else {
                        old(self).cells_spec()[k]
                    },
            decreases end - i,
        {
            self.cells.set(i, value);
            i = i + 1;
        }
    }

    /// Copies the cells of `from..from + count` to `to..to + count`, with `to`
    /// at most `from`.
    pub fn copy_down(&mut self, from: usize, to: usize, count: usize)
        requires
            old(self).wf(),
            to <= from,
            from + count <= CELLS,
        ensures
            final(self).wf(),
            final(self).cursor_spec() == old(self).cursor_spec(),
            forall|i: int|
                0 <= i < CELLS ==> #[trigger] final(self).cells_spec()[i] == if to <= i < to + count {
                    old(self).cells_spec()[i - to + from]
                } else {
                    old(self).cells_spec()[i]
                },
    {
        let mut k: usize = 0;
        while k < count
            invariant
                0 <= k <= count,
                to <= from,
                from + count <= CELLS,
                self.wf(),
                self.cursor_spec() == old(self).cursor_spec(),
                forall|i: int|
                    0 <= i < CELLS ==> #[trigger] self.cells_spec()[i] == if to <= i < to + k {
                        old(self).cells_spec()[i - to + from]
                    } else {
                        old(self).cells_spec()[i]
                    },
            decreases count - k,
        {
            let v = self.cells[from + k];
            self.cells.set(to + k, v);
            k = k + 1;
        }
    }

    /// Moves the hardware cursor to column `x` of row `y`.
    pub fn cursor_move(&mut self, x: u32, y: u32)
        requires
            x <= WIDTH,
            y < HEIGHT,
        ensures
            final(self).cells_spec() == old(self).cells_spec(),
            final(self).cursor_spec() == y * WIDTH + x,
    {
        self.cursor = y * WIDTH + x;
    }

    /// The cells, row by row.
    pub fn buffer(&self) -> (r: &[u16])
        ensures
            r@ == self.cells_spec(),
    {
        self.cells.as_slice()
    }

    /// The cell index of the hardware cursor.
    pub fn cursor(&self) -> (r: u32)
        ensures
            r == self.cursor_spec(),
    {
        self.cursor
    }
}

} // verus!
