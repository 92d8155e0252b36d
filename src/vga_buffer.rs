use vstd::prelude::*;
use vstd::string::*;

verus! {

/// The sixteen colours of the VGA text mode palette.
#[derive(Debug, Clone, Copy, PartialEq, Eq, Structural)]
pub enum Color {
    Black,
    Blue,
    Green,
    Cyan,
    Red,
    Magenta,
    Brown,
    LightGray,
    DarkGray,
    LightBlue,
    LightGreen,
    LightCyan,
    LightRed,
    Pink,
    Yellow,
    White,
}

/// The hardware number of a colour.
pub open spec fn color_number(c: Color) -> u8 {
    match c {
        Color::Black => 0,
        Color::Blue => 1,
        Color::Green => 2,
        Color::Cyan => 3,
        Color::Red => 4,
        Color::Magenta => 5,
        Color::Brown => 6,
        Color::LightGray => 7,
        Color::DarkGray => 8,
        Color::LightBlue => 9,
        Color::LightGreen => 10,
        Color::LightCyan => 11,
        Color::LightRed => 12,
        Color::Pink => 13,
        Color::Yellow => 14,
        Color::White => 15,
    }
}

impl Color {
    /// The hardware number of this colour, in `0..16`.
    pub fn as_u8(self) -> (r: u8)
        ensures
            r == color_number(self),
            r < 16,
    {
        match self {
            Color::Black => 0,
            Color::Blue => 1,
            Color::Green => 2,
            Color::Cyan => 3,
            Color::Red => 4,
            Color::Magenta => 5,
            Color::Brown => 6,
            Color::LightGray => 7,
            Color::DarkGray => 8,
            Color::LightBlue => 9,
            Color::LightGreen => 10,
            Color::LightCyan => 11,
            Color::LightRed => 12,
            Color::Pink => 13,
            Color::Yellow => 14,
            Color::White => 15,
        }
    }
}

/// The attribute byte of a colour pair.
pub open spec fn attribute(c: ColorCode) -> u8 {
    (16 * color_number(c.background_spec()) + color_number(c.foreground_spec())) as u8
}

/// A foreground and background colour pair, as one attribute byte on screen.
#[derive(Debug, Clone, Copy, PartialEq, Eq, Structural)]
pub struct ColorCode {
    foreground: Color,
    background: Color,
}

impl ColorCode {
    pub closed spec fn foreground_spec(self) -> Color {
        self.foreground
    }

    pub closed spec fn background_spec(self) -> Color {
        self.background
    }

    pub closed spec fn new_spec(foreground: Color, background: Color) -> ColorCode {
        ColorCode { foreground, background }
    }

    pub fn new(foreground: Color, background: Color) -> (r: ColorCode)
        ensures
            r == ColorCode::new_spec(foreground, background),
            r.foreground_spec() == foreground,
            r.background_spec() == background,
    {
        ColorCode { foreground, background }
    }

    pub fn get_foreground(&self) -> (r: Color)
        ensures
            r == self.foreground_spec(),
    {
        self.foreground
    }

    pub fn get_background(&self) -> (r: Color)
        ensures
            r == self.background_spec(),
    {
        self.background
    }

    /// The attribute byte: background in the high nibble, foreground in the low one.
    pub fn to_u8(&self) -> (r: u8)
        ensures
            r == attribute(*self),
    {
        let b = self.background.as_u8();
        let f = self.foreground.as_u8();
        assert((b << 4u8) | f == 16 * b + f) by (bit_vector)
            requires
                b < 16,
                f < 16,
        ;
        (b << 4u8) | f
    }
}

/// Rows of the text screen.
pub const BUFFER_HEIGHT: usize = 25;

/// Columns of the text screen.
pub const BUFFER_WIDTH: usize = 80;

/// Cells on the text screen.
pub const BUFFER_SIZE: usize = 2000;

/// A blank cell's character.
pub const SPACE: u8 = 0x20;

/// The byte that ends a line.
pub const NEWLINE: u8 = 0x0a;

/// The first character of the "> " prompt.
pub const PROMPT_MARK: u8 = 0x3e;

/// Width of the "> " prompt at the start of an input line.
pub const PROMPT_LENGTH: usize = 2;

/// Index of the first cell of the bottom row, where text is written.
pub const LAST_ROW_START: usize = 1920;

/// One cell of the text screen: a character and its attribute byte.
#[derive(Debug, Clone, Copy, PartialEq, Eq, Structural)]
pub struct ScreenChar {
    pub ascii_character: u8,
    pub color_code: u8,
}

/// The cell index of `row` and `col`.
pub open spec fn cell_index(row: int, col: int) -> int {
    row * BUFFER_WIDTH + col
}

/// A space in the given attribute.
pub open spec fn blank(attr: u8) -> ScreenChar {
    ScreenChar { ascii_character: 32u8, color_code: attr }
}

/// The screen with every row moved up by one and a blank bottom row.
pub open spec fn scroll_up(cells: Seq<ScreenChar>, attr: u8) -> Seq<ScreenChar> {
    Seq::new(
        BUFFER_SIZE as nat,
        |i: int|
            if i < LAST_ROW_START {
                cells[i + BUFFER_WIDTH]
            } else {
                blank(attr)
            },
    )
}

/// The screen with every row but the top one replaced by the row above it.
pub open spec fn shift_down(cells: Seq<ScreenChar>) -> Seq<ScreenChar> {
    Seq::new(
        BUFFER_SIZE as nat,
        |i: int|
            if i < BUFFER_WIDTH {
                cells[i]
            } else {
                cells[i - BUFFER_WIDTH]
            },
    )
}

/// The cells and column after writing byte `b` at the cursor: a newline
/// scrolls; any other byte goes to the bottom row, after a scroll when the
/// row is full.
pub open spec fn write_byte_spec(cells: Seq<ScreenChar>, col: nat, attr: u8, b: u8) -> (
    Seq<ScreenChar>,
    nat,
) {
    if b == 10 {
        (scroll_up(cells, attr), 0)
    } else {
        let (c1, col1) = if col >= BUFFER_WIDTH {
            (scroll_up(cells, attr), 0nat)
        } else {
            (cells, col)
        };
        (c1.update(LAST_ROW_START + col1, ScreenChar { ascii_character: b, color_code: attr }), col1 + 1)
    }
}

/// The byte shown for `b`: printable ASCII and newline as they are, anything
/// else as a block.
pub open spec fn shown_byte(b: u8) -> u8 {
    if (0x20 <= b && b <= 0x7e) || b == 10 {
        b
    } else {
        0xfe
    }
}

/// The cells and column after writing `bytes` at the cursor.
pub open spec fn write_bytes_spec(cells: Seq<ScreenChar>, col: nat, attr: u8, bytes: Seq<u8>) -> (
    Seq<ScreenChar>,
    nat,
)
    decreases bytes.len(),
{
    if bytes.len() == 0 {
        (cells, col)
    } else {
        let (c, k) = write_bytes_spec(cells, col, attr, bytes.drop_last());
        write_byte_spec(c, k, attr, shown_byte(bytes.last()))
    }
}

/// The cells and cursor after a backspace on the bottom row: the previous
/// cell is blanked unless the cursor is just past the prompt; at the start
/// of a row the text moves down and the cursor goes to the end of the row.
pub open spec fn remove_previous_spec(cells: Seq<ScreenChar>, col: nat, attr: u8) -> (
    Seq<ScreenChar>,
    nat,
) {
    if col > PROMPT_LENGTH {
        (cells.update(LAST_ROW_START + col - 1, blank(attr)), (col - 1) as nat)
    } else if col == PROMPT_LENGTH {
        if cells[LAST_ROW_START + 1].ascii_character == 32 && cells[LAST_ROW_START as int].ascii_character
            == 62 {
            (cells, col)
        } else {
            (cells.update(LAST_ROW_START + 1, blank(attr)), 1)
        }
    } else {
        (shift_down(cells), BUFFER_WIDTH as nat)
    }
}

/// The state of a positioned write: cells, cursor column, and the row and
/// column of the next byte.
pub open spec fn write_at_step(
    state: (Seq<ScreenChar>, nat, nat, nat),
    attr: u8,
    b: u8,
) -> (Seq<ScreenChar>, nat, nat, nat) {
    let (cells, cursor, col, row) = state;
    if b == 10 {
        (cells, cursor, 0, row + 1)
    } else {
        let (col1, row1) = if col >= BUFFER_WIDTH {
            (0nat, row + 1)
        } else {
            (col, row)
        };
        let (c2, cursor2, row2) = if row1 >= BUFFER_HEIGHT {
            (scroll_up(cells, attr), 0nat, (BUFFER_HEIGHT - 1) as nat)
        } else {
            (cells, cursor, row1)
        };
        (
            c2.update(cell_index(row2 as int, col1 as int), ScreenChar { ascii_character: b, color_code: attr }),
            cursor2,
            col1 + 1,
            row2,
        )
    }
}

/// The state after writing `bytes` from a given row and column.
pub open spec fn write_at_spec(
    state: (Seq<ScreenChar>, nat, nat, nat),
    attr: u8,
    bytes: Seq<u8>,
) -> (Seq<ScreenChar>, nat, nat, nat)
    decreases bytes.len(),
{
    if bytes.len() == 0 {
        state
    } else {
        write_at_step(write_at_spec(state, attr, bytes.drop_last()), attr, bytes.last())
    }
}

/// The text console: a grid of cells, the cursor column on the bottom row,
/// and the colours new text is written in.
pub struct Writer {
    column_position: usize,
    color_code: ColorCode,
    chars: Vec<ScreenChar>,
}

impl Writer {
    /// The cells, row by row.
    pub closed spec fn cells(&self) -> Seq<ScreenChar> {
        self.chars@
    }

    /// The cursor column on the bottom row.
    pub closed spec fn column(&self) -> nat {
        self.column_position as nat
    }

    /// The colours of text written from now on.
    pub closed spec fn color(&self) -> ColorCode {
        self.color_code
    }

    pub closed spec fn wf(&self) -> bool {
        &&& self.chars@.len() == BUFFER_SIZE
        &&& self.column_position <= BUFFER_WIDTH
    }

    /// A blank screen, white on black, with the cursor at the left.
    pub fn new() -> (r: Writer)
        ensures
            r.wf(),
            r.column() == 0,
            r.color() == ColorCode::new_spec(Color::White, Color::Black),
            r.cells() == Seq::new(BUFFER_SIZE as nat, |i: int| blank(attribute(r.color()))),
    {
        let color_code = ColorCode::new(Color::White, Color::Black);
        let cell = ScreenChar { ascii_character: SPACE, color_code: color_code.to_u8() };
        let chars = vec![cell; BUFFER_SIZE];
        let r = Writer { column_position: 0, color_code, chars };
        assert(r.cells() =~= Seq::new(BUFFER_SIZE as nat, |i: int| blank(attribute(r.color()))));
        r
    }

    /// The cell at `row` and `col`.
    pub fn screen_char(&self, row: usize, col: usize) -> (r: ScreenChar)
        requires
            self.wf(),
            row < BUFFER_HEIGHT,
            col < BUFFER_WIDTH,
        ensures
            r == self.cells()[cell_index(row as int, col as int)],
    {
        assert(row * BUFFER_WIDTH + col < BUFFER_SIZE) by (nonlinear_arith)
            requires
                row < BUFFER_HEIGHT,
                col < BUFFER_WIDTH,
        ;
        self.chars[row * BUFFER_WIDTH + col]
    }

    /// The position to program into the hardware cursor: the cursor column
    /// on the bottom row, counted in cells from the top left.
    pub fn cursor_position(&self) -> (r: usize)
        requires
            self.wf(),
        ensures
            r == LAST_ROW_START + self.column(),
    {
        LAST_ROW_START + self.column_position
    }

    /// Moves every row up by one, blanks the bottom row and returns the
    /// cursor to its start.
    fn new_line(&mut self)
        requires
            old(self).wf(),
        ensures
            final(self).wf(),
            final(self).cells() == scroll_up(old(self).cells(), attribute(old(self).color())),
            final(self).column() == 0,
            final(self).color() == old(self).color(),
    {
        let attr = self.color_code.to_u8();
        let mut i: usize = 0;
        while i < LAST_ROW_START
            invariant
                self.chars@.len() == BUFFER_SIZE,
                old(self).chars@.len() == BUFFER_SIZE,
                i <= LAST_ROW_START,
                self.column_position == old(self).column_position,
                self.column_position <= BUFFER_WIDTH,
                self.color_code == old(self).color_code,
                forall|j: int| 0 <= j < i ==> self.chars@[j] == old(self).chars@[j + BUFFER_WIDTH],
                forall|j: int| i <= j < BUFFER_SIZE ==> self.chars@[j] == old(self).chars@[j],
            decreases LAST_ROW_START - i,
        {
            let c = self.chars[i + BUFFER_WIDTH];
            self.chars.set(i, c);
            i += 1;
        }
        let ghost moved = self.chars@;
        self.clear_row(BUFFER_HEIGHT - 1);
        assert(cell_index(24, 0) == LAST_ROW_START && cell_index(24, 80) == BUFFER_SIZE);
        assert forall|j: int| 0 <= j < BUFFER_SIZE implies #[trigger] self.chars@[j] == scroll_up(
            old(self).cells(),
            attr,
        )[j] by {
            if j < LAST_ROW_START {
                assert(self.cells()[j] == moved[j]);
            } else {
                assert(self.cells()[j] == blank(attr));
            }
        }
        assert(self.chars@ =~= scroll_up(old(self).cells(), attr));
        self.column_position = 0;
    }

    /// Overwrites one row with blanks in the current colours.
    fn clear_row(&mut self, row: usize)
        requires
            old(self).wf(),
            row < BUFFER_HEIGHT,
        ensures
            final(self).wf(),
            final(self).column() == old(self).column(),
            final(self).color() == old(self).color(),
            forall|j: int|
                0 <= j < BUFFER_SIZE ==> #[trigger] final(self).cells()[j] == if cell_index(row as int, 0)
                    <= j < cell_index(row as int, BUFFER_WIDTH as int) {
                    blank(attribute(old(self).color()))
                } else {
                    old(self).cells()[j]
                },
    {
        let attr = self.color_code.to_u8();
        let start = row * BUFFER_WIDTH;
        assert(start == cell_index(row as int, 0) && start + BUFFER_WIDTH == cell_index(row as int, BUFFER_WIDTH as int) && start + BUFFER_WIDTH <= BUFFER_SIZE) by (nonlinear_arith)
            requires
                row < BUFFER_HEIGHT,
                start == row * BUFFER_WIDTH,
        ;
        let mut col: usize = 0;
        while col < BUFFER_WIDTH
            invariant
                self.chars@.len() == BUFFER_SIZE,
                col <= BUFFER_WIDTH,
                start + BUFFER_WIDTH <= BUFFER_SIZE,
                self.column_position == old(self).column_position,
                self.color_code == old(self).color_code,
                attr == attribute(self.color_code),
                forall|j: int|
                    0 <= j < BUFFER_SIZE ==> #[trigger] self.chars@[j] == if start <= j < start + col {
                        blank(attr)
                    } else {
                        old(self).chars@[j]
                    },
            decreases BUFFER_WIDTH - col,
        {
            self.chars.set(start + col, ScreenChar { ascii_character: SPACE, color_code: attr });
            col += 1;
        }
    }

    /// Writes one byte at the cursor and advances it; see `write_byte_spec`.
    pub fn write_byte(&mut self, byte: u8)
        requires
            old(self).wf(),
        ensures
            final(self).wf(),
            (final(self).cells(), final(self).column()) == write_byte_spec(
                old(self).cells(),
                old(self).column(),
                attribute(old(self).color()),
                byte,
            ),
            final(self).color() == old(self).color(),
    {
        if byte == NEWLINE {
            self.new_line();
        } else {
            if self.column_position >= BUFFER_WIDTH {
                self.new_line();
            }
            let col = self.column_position;
            let color_code = self.color_code.to_u8();
            self.chars.set(LAST_ROW_START + col, ScreenChar { ascii_character: byte, color_code });
            self.column_position += 1;
        }
    }

    /// Writes text at the cursor, wrapping and scrolling as needed; bytes
    /// outside printable ASCII show as a block.
    pub fn write_string(&mut self, s: &str)
        requires
            old(self).wf(),
        ensures
            final(self).wf(),
            (final(self).cells(), final(self).column()) == write_bytes_spec(
                old(self).cells(),
                old(self).column(),
                attribute(old(self).color()),
                s.spec_bytes(),
            ),
            final(self).color() == old(self).color(),
    {
        let bytes = s.as_bytes();
        let mut i: usize = 0;
        while i < bytes.len()
            invariant
                self.wf(),
                i <= bytes@.len(),
                bytes@ == s.spec_bytes(),
                self.color_code == old(self).color_code,
                (self.cells(), self.column()) == write_bytes_spec(
                    old(self).cells(),
                    old(self).column(),
                    attribute(old(self).color()),
                    bytes@.take(i as int),
                ),
            decreases bytes@.len() - i,
        {
            let byte = bytes[i];
            if (0x20 <= byte && byte <= 0x7e) || byte == NEWLINE {
                self.write_byte(byte);
            } else {
                self.write_byte(0xfe);
            }
            assert(bytes@.take(i + 1).drop_last() =~= bytes@.take(i as int));
            i += 1;
        }
        assert(bytes@.take(i as int) =~= bytes@);
    }

    /// Writes a byte at a given cell, leaving the cursor alone.
    pub fn write_byte_at(&mut self, byte: u8, column: usize, row: usize)
        requires
            old(self).wf(),
            column < BUFFER_WIDTH,
            row < BUFFER_HEIGHT,
        ensures
            final(self).wf(),
            final(self).cells() == old(self).cells().update(
                cell_index(row as int, column as int),
                ScreenChar { ascii_character: byte, color_code: attribute(old(self).color()) },
            ),
            final(self).column() == old(self).column(),
            final(self).color() == old(self).color(),
    {
        assert(row * BUFFER_WIDTH + column < BUFFER_SIZE) by (nonlinear_arith)
            requires
                row < BUFFER_HEIGHT,
                column < BUFFER_WIDTH,
        ;
        let color_code = self.color_code.to_u8();
        self.chars.set(row * BUFFER_WIDTH + column, ScreenChar { ascii_character: byte, color_code });
    }

    /// Writes text from a given row and column: a newline starts the next
    /// row, a full row wraps, and writing below the screen scrolls it.
    pub fn write_string_at(&mut self, s: &str, column: usize, row: usize)
        requires
            old(self).wf(),
            row < BUFFER_HEIGHT,
            s.spec_bytes().len() + BUFFER_HEIGHT < usize::MAX,
        ensures
            final(self).wf(),
            final(self).color() == old(self).color(),
            ({
                let r = write_at_spec(
                    (old(self).cells(), old(self).column(), column as nat, row as nat),
                    attribute(old(self).color()),
                    s.spec_bytes(),
                );
                final(self).cells() == r.0 && final(self).column() == r.1
            }),
    {
        let bytes = s.as_bytes();
        let ghost attr = attribute(self.color_code);
        let mut col = column;
        let mut r = row;
        let mut i: usize = 0;
        assert(bytes@.take(0) =~= Seq::<u8>::empty());
        while i < bytes.len()
            invariant
                self.wf(),
                i <= bytes@.len(),
                bytes@ == s.spec_bytes(),
                bytes@.len() + BUFFER_HEIGHT < usize::MAX,
                r <= BUFFER_HEIGHT + i,
                col <= BUFFER_WIDTH || i == 0,
                i == 0 ==> col == column && r == row,
                self.color_code == old(self).color_code,
                attr == attribute(old(self).color()),
                (self.cells(), self.column(), col as nat, r as nat) == write_at_spec(
                    (old(self).cells(), old(self).column(), column as nat, row as nat),
                    attr,
                    bytes@.take(i as int),
                ),
            decreases bytes@.len() - i,
        {
            let byte = bytes[i];
            assert(bytes@.take(i + 1).drop_last() =~= bytes@.take(i as int));
            i += 1;
            if byte == NEWLINE {
                r += 1;
                col = 0;
                continue;
            }
            if col >= BUFFER_WIDTH {
                r += 1;
                col = 0;
            }
            if r >= BUFFER_HEIGHT {
                self.new_line();
                r = BUFFER_HEIGHT - 1;
            }
            self.write_byte_at(byte, col, r);
            col += 1;
        }
        assert(bytes@.take(i as int) =~= bytes@);
    }

    /// Places the cursor.
    pub fn set_column(&mut self, column: usize)
        requires
            old(self).wf(),
            column <= BUFFER_WIDTH,
        ensures
            final(self).wf(),
            final(self).column() == column,
            final(self).cells() == old(self).cells(),
            final(self).color() == old(self).color(),
    {
        self.column_position = column;
    }

    pub fn get_column(&self) -> (r: usize)
        ensures
            r == self.column(),
    {
        self.column_position
    }

    /// Erases the character before the cursor; see `remove_previous_spec`.
    pub fn remove_previous_symbol(&mut self)
        requires
            old(self).wf(),
        ensures
            final(self).wf(),
            (final(self).cells(), final(self).column()) == remove_previous_spec(
                old(self).cells(),
                old(self).column(),
                attribute(old(self).color()),
            ),
            final(self).color() == old(self).color(),
    {
        if self.column_position > PROMPT_LENGTH {
            self.column_position -= 1;
            self.write_byte(SPACE);
            self.column_position -= 1;
        } else if self.column_position == PROMPT_LENGTH {
            let prev_char = self.chars[LAST_ROW_START + self.column_position - 1];
            let prev_prev_char = self.chars[LAST_ROW_START + self.column_position - 2];
            if !(prev_char.ascii_character == SPACE && prev_prev_char.ascii_character == PROMPT_MARK) {
                self.column_position -= 1;
                self.write_byte(SPACE);
                self.column_position -= 1;
            }
        } else {
            self.move_text_down();
            self.column_position = BUFFER_WIDTH;
        }
    }

    /// Moves every row down by one; the top row stays as it was.
    fn move_text_down(&mut self)
        requires
            old(self).wf(),
        ensures
            final(self).wf(),
            final(self).cells() == shift_down(old(self).cells()),
            final(self).column() == old(self).column(),
            final(self).color() == old(self).color(),
    {
        let mut i: usize = BUFFER_SIZE;
        while i > BUFFER_WIDTH
            invariant
                self.chars@.len() == BUFFER_SIZE,
                BUFFER_WIDTH <= i <= BUFFER_SIZE,
                self.column_position == old(self).column_position,
                self.color_code == old(self).color_code,
                forall|j: int| i <= j < BUFFER_SIZE ==> self.chars@[j] == old(self).chars@[j - BUFFER_WIDTH],
                forall|j: int| 0 <= j < i ==> self.chars@[j] == old(self).chars@[j],
            decreases i,
        {
            i -= 1;
            let c = self.chars[i - BUFFER_WIDTH];
            self.chars.set(i, c);
        }
        assert(self.chars@ =~= shift_down(old(self).cells()));
    }

    fn set_color(&mut self, color_code: ColorCode)
        ensures
            final(self).color() == color_code,
            final(self).cells() == old(self).cells(),
            final(self).column() == old(self).column(),
    {
        self.color_code = color_code;
    }

    /// Fills the whole screen with blanks on `background_color`, keeping the
    /// current foreground, and returns the cursor to the left.
    pub fn set_screen_color(&mut self, background_color: Color)
        requires
            old(self).wf(),
        ensures
            final(self).wf(),
            final(self).cells() == Seq::new(
                BUFFER_SIZE as nat,
                |i: int|
                    blank(
                        attribute(ColorCode::new_spec(old(self).color().foreground_spec(), background_color)),
                    ),
            ),
            final(self).column() == 0,
            final(self).color() == old(self).color(),
    {
        let color_code = ColorCode::new(self.color_code.get_foreground(), background_color).to_u8();
        let mut i: usize = 0;
        while i < BUFFER_SIZE
            invariant
                self.chars@.len() == BUFFER_SIZE,
                i <= BUFFER_SIZE,
                self.color_code == old(self).color_code,
                color_code == attribute(
                    ColorCode::new_spec(old(self).color().foreground_spec(), background_color),
                ),
                forall|j: int| 0 <= j < i ==> self.chars@[j] == blank(color_code),
            decreases BUFFER_SIZE - i,
        {
            self.chars.set(i, ScreenChar { ascii_character: SPACE, color_code });
            i += 1;
        }
        self.column_position = 0;
        assert(self.chars@ =~= Seq::new(BUFFER_SIZE as nat, |i: int| blank(color_code)));
    }

    /// Returns to white text on black.
    pub fn reset_color(&mut self)
        ensures
            final(self).color() == ColorCode::new_spec(Color::White, Color::Black),
            final(self).cells() == old(self).cells(),
            final(self).column() == old(self).column(),
    {
        self.set_color(ColorCode::new(Color::White, Color::Black));
    }

    /// Writes the fault screen's title, blue on white, centred a third of the
    /// way down.
    pub fn bsod_title(&mut self)
        requires
            old(self).wf(),
        ensures
            final(self).wf(),
            final(self).color() == ColorCode::new_spec(Color::Blue, Color::White),
            ({
                let r = write_at_spec(
                    (old(self).cells(), old(self).column(), 31, 8),
                    attribute(ColorCode::new_spec(Color::Blue, Color::White)),
                    "VertexDOS panicked".spec_bytes(),
                );
                final(self).cells() == r.0 && final(self).column() == r.1
            }),
    {
        let message = "VertexDOS panicked";
        proof {
            reveal_strlit("VertexDOS panicked");
            vstd::utf8::is_ascii_chars_encode_utf8(message@);
        }
        let row = BUFFER_HEIGHT / 3;
        let column = (BUFFER_WIDTH - message.len()) / 2;
        self.set_color(ColorCode::new(Color::Blue, Color::White));
        self.write_string_at(message, column, row);
    }

    /// Writes a fault message, white on blue, from the middle row, a third
    /// of the way into the space the message leaves on its row (from the
    /// left edge when it is wider than the screen).
    pub fn bsod_panic_message(&mut self, message: &str)
        requires
            old(self).wf(),
            message.spec_bytes().len() + BUFFER_HEIGHT < usize::MAX,
        ensures
            final(self).wf(),
            final(self).color() == ColorCode::new_spec(Color::White, Color::Blue),
            ({
                let n = message.spec_bytes().len();
                let start = if n <= BUFFER_WIDTH {
                    ((BUFFER_WIDTH - n) / 3) as nat
                } else {
                    0nat
                };
                let r = write_at_spec(
                    (old(self).cells(), old(self).column(), start, 12),
                    attribute(ColorCode::new_spec(Color::White, Color::Blue)),
                    message.spec_bytes(),
                );
                final(self).cells() == r.0 && final(self).column() == r.1
            }),
    {
        let row = BUFFER_HEIGHT / 2;
        let n = message.len();
        let column = if n <= BUFFER_WIDTH {
            (BUFFER_WIDTH - n) / 3
        } else {
            0
        };
        self.set_color(ColorCode::new(Color::White, Color::Blue));
        self.write_string_at(message, column, row);
    }
}

} // verus!
