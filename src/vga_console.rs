//! The VGA text console: colours, and the text grid with its cursor. The
//! grid is kept here and copied to video memory by the caller.

use vstd::prelude::*;

verus! {

/// The sixteen colours of VGA text mode.
#[derive(Clone, Copy, PartialEq, Eq, Structural, Debug)]
pub enum Color {
    Black,
    Blue,
    Green,
    Cyan,
    Red,
    Magenta,
    Brown,
    LightGray,
    DarkGray,
    LightBlue,
    LightGreen,
    LightCyan,
    LightRed,
    Pink,
    Yellow,
    White,
}

/// The value this variant stands for.
pub open spec fn color_value(v: Color) -> u8 {
    match v {
        Color::Black => 0,
        Color::Blue => 1,
        Color::Green => 2,
        Color::Cyan => 3,
        Color::Red => 4,
        Color::Magenta => 5,
        Color::Brown => 6,
        Color::LightGray => 7,
        Color::DarkGray => 8,
        Color::LightBlue => 9,
        Color::LightGreen => 10,
        Color::LightCyan => 11,
        Color::LightRed => 12,
        Color::Pink => 13,
        Color::Yellow => 14,
        Color::White => 15,
    }
}

impl Color {
    /// The value this variant stands for.
    pub fn value(&self) -> (r: u8)
        ensures
            r == color_value(*self),
    {
        match self {
            Color::Black => 0,
            Color::Blue => 1,
            Color::Green => 2,
            Color::Cyan => 3,
            Color::Red => 4,
            Color::Magenta => 5,
            Color::Brown => 6,
            Color::LightGray => 7,
            Color::DarkGray => 8,
            Color::LightBlue => 9,
            Color::LightGreen => 10,
            Color::LightCyan => 11,
            Color::LightRed => 12,
            Color::Pink => 13,
            Color::Yellow => 14,
            Color::White => 15,
        }
    }
}

/// A foreground and a background colour in one attribute byte.
#[derive(Clone, Copy, PartialEq, Eq, Structural, Debug)]
pub struct ColorCode {
    pub code: u8,
}

impl ColorCode {
    /// Background in the high nibble, foreground in the low one.
    pub fn new(foreground: Color, background: Color) -> (r: Self)
        ensures
            r.code == color_value(background) * 16 + color_value(foreground),
    {
        let b = background.value();
        let f = foreground.value();
        assert((b << 4u8) | f == b * 16 + f) by (bit_vector)
            requires
                b < 16,
                f < 16,
        ;
        ColorCode { code: (b << 4u8) | f }
    }
}

/// Columns of the text grid.
pub const BUFFER_WIDTH: usize = 80;
/// Rows of the text grid.
pub const BUFFER_HEIGHT: usize = 25;
/// Cells of the text grid.
pub const BUFFER_CELLS: usize = 2000;
/// The byte that erases the character before the cursor.
pub const BACKSPACE: u8 = 0x08;
/// The byte that starts a new line.
pub const NEWLINE: u8 = 0x0A;
/// The byte of a blank cell.
pub const SPACE: u8 = 0x20;

/// One cell: a character and its colours.
#[derive(Clone, Copy, PartialEq, Eq, Structural, Debug)]
pub struct Character {
    pub ascii_char: u8,
    pub color_code: ColorCode,
}

/// The grid moved up by one row, with a blank row of colour `c` at the
/// bottom.
pub open spec fn scrolled(cells: Seq<Character>, c: ColorCode) -> Seq<Character> {
    Seq::new(
        BUFFER_CELLS as nat,
        |i: int|
            if i < BUFFER_CELLS - BUFFER_WIDTH {
                cells[i + BUFFER_WIDTH]
            } else {
                Character { ascii_char: SPACE, color_code: c }
            },
    )
}

/// The writer's state: the grid, row by row, the cursor, and the colours
/// of new characters.
pub struct ConsoleWriter {
    row: u16,
    col: u16,
    color_code: ColorCode,
    cells: Vec<Character>,
}

impl ConsoleWriter {
    pub closed spec fn row(&self) -> int {
        self.row as int
    }

    pub closed spec fn col(&self) -> int {
        self.col as int
    }

    pub closed spec fn color(&self) -> ColorCode {
        self.color_code
    }

    /// The grid, row by row.
    pub closed spec fn cells(&self) -> Seq<Character> {
        self.cells@
    }

    pub open spec fn wf(&self) -> bool {
        &&& self.cells().len() == BUFFER_CELLS
        &&& 0 <= self.row() < BUFFER_HEIGHT
        &&& 0 <= self.col() <= BUFFER_WIDTH
    }

    /// A blank grid, white on black, with the cursor at the top left.
    pub fn new() -> (r: Self)
        ensures
            r.wf(),
            r.row() == 0 && r.col() == 0,
            r.color() == (ColorCode { code: 0x0F }),
            forall|i: int| 0 <= i < BUFFER_CELLS ==> #[trigger] r.cells()[i] == (Character {
                ascii_char: SPACE,
                color_code: ColorCode { code: 0x0F },
            }),
    {
        let color_code = ColorCode::new(Color::White, Color::Black);
        let empty_space = Character { ascii_char: SPACE, color_code };
        let mut cells: Vec<Character> = Vec::new();
        let mut i: usize = 0;
        while i < BUFFER_CELLS
            invariant
                i <= BUFFER_CELLS,
                cells@.len() == i,
                empty_space == (Character { ascii_char: SPACE, color_code: ColorCode { code: 0x0F } }),
                forall|k: int| 0 <= k < i ==> #[trigger] cells@[k] == empty_space,
            decreases BUFFER_CELLS - i,
        {
            cells.push(empty_space);
            i = i + 1;
        }
        ConsoleWriter { row: 0, col: 0, color_code, cells }
    }

    /// Moves every row up by one and blanks the last row.
    pub fn scroll(&mut self)
        requires
            old(self).wf(),
        ensures
            final(self).wf(),
            final(self).row() == old(self).row() && final(self).col() == old(self).col(),
            final(self).color() == old(self).color(),
            final(self).cells() == scrolled(old(self).cells(), old(self).color()),
    {
        let ghost old_cells = self.cells@;
        let mut i: usize = 0;
        while i < BUFFER_CELLS - BUFFER_WIDTH
            invariant
                i <= BUFFER_CELLS - BUFFER_WIDTH,
                self.cells@.len() == BUFFER_CELLS,
                old_cells == old(self).cells@,
                self.row == old(self).row && self.col == old(self).col && self.color_code == old(self).color_code,
                forall|k: int| 0 <= k < i ==> #[trigger] self.cells@[k] == old_cells[k + BUFFER_WIDTH],
                forall|k: int| i <= k < BUFFER_CELLS ==> #[trigger] self.cells@[k] == old_cells[k],
            decreases BUFFER_CELLS - BUFFER_WIDTH - i,
        {
            let c = self.cells[i + BUFFER_WIDTH];
            self.cells.set(i, c);
            i = i + 1;
        }
        let blank = Character { ascii_char: SPACE, color_code: self.color_code };
        let mut j: usize = BUFFER_CELLS - BUFFER_WIDTH;
        while j < BUFFER_CELLS
            invariant
                BUFFER_CELLS - BUFFER_WIDTH <= j <= BUFFER_CELLS,
                self.cells@.len() == BUFFER_CELLS,
                old_cells == old(self).cells@,
                self.row == old(self).row && self.col == old(self).col && self.color_code == old(self).color_code,
                blank.ascii_char == SPACE && blank.color_code == self.color_code,
                forall|k: int| 0 <= k < BUFFER_CELLS - BUFFER_WIDTH ==> #[trigger] self.cells@[k] == old_cells[k + BUFFER_WIDTH],
                forall|k: int| BUFFER_CELLS - BUFFER_WIDTH <= k < j ==> #[trigger] self.cells@[k] == blank,
            decreases BUFFER_CELLS - j,
        {
            self.cells.set(j, blank);
            j = j + 1;
        }
        assert(self.cells@ =~= scrolled(old_cells, self.color_code));
    }

    /// Moves the cursor to the start of the next row, scrolling when it is
    /// on the last row.
    pub fn new_line(&mut self)
        requires
            old(self).wf(),
        ensures
            final(self).wf(),
            final(self).col() == 0,
            final(self).color() == old(self).color(),
            old(self).row() + 1 < BUFFER_HEIGHT ==> final(self).row() == old(self).row() + 1
                && final(self).cells() == old(self).cells(),
            old(self).row() + 1 >= BUFFER_HEIGHT ==> final(self).row() == old(self).row()
                && final(self).cells() == scrolled(old(self).cells(), old(self).color()),
    {
        self.col = 0;
        if (self.row as usize) + 1 < BUFFER_HEIGHT {
            self.row = self.row + 1;
        } else {
            self.scroll();
        }
    }

    /// Moves the cursor back one cell, to the end of the previous row from
    /// the start of a row, and blanks the cell it lands on.
    pub fn backspace(&mut self)
        requires
            old(self).wf(),
        ensures
            final(self).wf(),
            final(self).color() == old(self).color(),
            old(self).col() > 0 ==> final(self).row() == old(self).row() && final(self).col() == old(self).col() - 1,
            old(self).col() == 0 && old(self).row() > 0 ==> final(self).row() == old(self).row() - 1
                && final(self).col() == BUFFER_WIDTH - 1,
            old(self).col() == 0 && old(self).row() == 0 ==> final(self).row() == 0 && final(self).col() == 0,
            final(self).col() < BUFFER_WIDTH,
            final(self).cells() == old(self).cells().update(
                final(self).row() * BUFFER_WIDTH + final(self).col(),
                Character { ascii_char: SPACE, color_code: old(self).color() },
            ),
    {
        if self.col == 0 {
            if self.row != 0 {
                self.row = self.row - 1;
                self.col = (BUFFER_WIDTH - 1) as u16;
            }
        } else {
            self.col = self.col - 1;
        }
        let index = (self.row as usize) * BUFFER_WIDTH + (self.col as usize);
        self.cells.set(index, Character { ascii_char: SPACE, color_code: self.color_code });
    }

    /// Writes one byte: a new line, a backspace, or a character at the
    /// cursor, which then moves right; a character past the end of a row
    /// goes to the start of the next.
    pub fn write_ascii_char(&mut self, byte: u8)
        requires
            old(self).wf(),
        ensures
            final(self).wf(),
            final(self).color() == old(self).color(),
            byte != NEWLINE && byte != BACKSPACE ==> final(self).col() >= 1
                && final(self).cells()[(final(self).row() * BUFFER_WIDTH + final(self).col() - 1)] == (Character {
                ascii_char: byte,
                color_code: old(self).color(),
            }),
            byte != NEWLINE && byte != BACKSPACE && old(self).col() < BUFFER_WIDTH ==> final(self).row() == old(self).row()
                && final(self).col() == old(self).col() + 1 && final(self).cells() == old(self).cells().update(
                old(self).row() * BUFFER_WIDTH + old(self).col(),
                Character { ascii_char: byte, color_code: old(self).color() },
            ),
    {
        if byte == NEWLINE {
            self.new_line();
        } else if byte == BACKSPACE {
            self.backspace();
        } else {
            if self.col as usize >= BUFFER_WIDTH {
                self.new_line();
            }
            let index = (self.row as usize) * BUFFER_WIDTH + (self.col as usize);
            self.cells.set(index, Character { ascii_char: byte, color_code: self.color_code });
            self.col = self.col + 1;
        }
    }

    /// Writes every byte of `string` in turn.
    pub fn write_ascii_string(&mut self, string: &[u8])
        requires
            old(self).wf(),
        ensures
            final(self).wf(),
            final(self).color() == old(self).color(),
    {
        let mut i: usize = 0;
        while i < string.len()
            invariant
                self.wf(),
                self.color() == old(self).color(),
                i <= string@.len(),
            decreases string@.len() - i,
        {
            self.write_ascii_char(string[i]);
            i = i + 1;
        }
    }

    /// New characters get these colours.
    pub fn change_color(&mut self, foreground: Color, background: Color)
        requires
            old(self).wf(),
        ensures
            final(self).wf(),
            final(self).color().code == color_value(background) * 16 + color_value(foreground),
            final(self).row() == old(self).row() && final(self).col() == old(self).col(),
            final(self).cells() == old(self).cells(),
    {
        self.color_code = ColorCode::new(foreground, background);
    }

    /// The cursor's cell index, split into the low and high bytes that the
    /// cursor location registers take.
    pub fn move_cursor(&self) -> (r: (u8, u8))
        requires
            self.wf(),
        ensures
            r.0 as int == (self.row() * BUFFER_WIDTH + self.col()) % 256,
            r.1 as int == (self.row() * BUFFER_WIDTH + self.col()) / 256,
    {
        let pos: u16 = self.row * (BUFFER_WIDTH as u16) + self.col;
        ((pos % 256) as u8, (pos / 256) as u8)
    }

    /// The character in cell `index`, row by row.
    pub fn char_at(&self, index: usize) -> (r: Character)
        requires
            self.wf(),
            index < BUFFER_CELLS,
        ensures
            r == self.cells()[index as int],
    {
        self.cells[index]
    }

    /// The cursor: row and column.
    pub fn cursor(&self) -> (r: (u16, u16))
        ensures
            r.0 as int == self.row() && r.1 as int == self.col(),
    {
        (self.row, self.col)
    }
}

} // verus!
