//! The VGA text screen: 25 rows of 80 characters, each with a foreground and
//! a background colour, written like a terminal.
//!
//! The writer keeps a copy of the screen's cells and of the hardware cursor
//! position; copying them to the VGA buffer and the cursor ports is left to
//! the caller.
use vstd::prelude::*;
use vstd::string::StringSliceAdditionalSpecFns;

verus! {

/// Number of rows on the screen.
pub const MAX_ROW: usize = 25;

/// Number of characters in a row.
pub const MAX_COLUMN: usize = 80;

/// Number of cells on the screen.
pub const SCREEN_CELLS: usize = 2000;

/// The sixteen colours of the VGA text mode.
#[derive(Clone, Copy, Debug, PartialEq, Eq, Structural)]
pub enum Color {
    Black,
    Blue,
    Green,
    Cyan,
    Red,
    Magenta,
    Brown,
    LightGray,
    DarkGray,
    LightBlue,
    LightGreen,
    LightCyan,
    LightRed,
    Pink,
    Yellow,
    White,
}

/// The hardware number of a colour.
pub open spec fn color_number(c: Color) -> u8 {
    match c {
        Color::Black => 0,
        Color::Blue => 1,
        Color::Green => 2,
        Color::Cyan => 3,
        Color::Red => 4,
        Color::Magenta => 5,
        Color::Brown => 6,
        Color::LightGray => 7,
        Color::DarkGray => 8,
        Color::LightBlue => 9,
        Color::LightGreen => 10,
        Color::LightCyan => 11,
        Color::LightRed => 12,
        Color::Pink => 13,
        Color::Yellow => 14,
        Color::White => 15,
    }
}

impl Color {
    /// The hardware number of the colour.
    pub fn number(&self) -> (n: u8)
        ensures
            n == color_number(*self),
            n < 16,
    {
        match self {
            Color::Black => 0,
            Color::Blue => 1,
            Color::Green => 2,
            Color::Cyan => 3,
            Color::Red => 4,
            Color::Magenta => 5,
            Color::Brown => 6,
            Color::LightGray => 7,
            Color::DarkGray => 8,
            Color::LightBlue => 9,
            Color::LightGreen => 10,
            Color::LightCyan => 11,
            Color::LightRed => 12,
            Color::Pink => 13,
            Color::Yellow => 14,
            Color::White => 15,
        }
    }
}

/// One cell of the screen: a character and its colour byte.
#[derive(Clone, Copy, Debug, PartialEq, Eq, Structural)]
pub struct ScreenCharacter {
    pub character: u8,
    pub color: u8,
}

/// The colour byte of a cell: the background in the high four bits, the
/// foreground in the low four.
pub open spec fn color_byte(foreground: Color, background: Color) -> u8 {
    (color_number(background) * 16 + color_number(foreground)) as u8
}

/// A cell holding `character` in the given colours.
pub open spec fn cell(character: u8, foreground: Color, background: Color) -> ScreenCharacter {
    ScreenCharacter { character, color: color_byte(foreground, background) }
}

impl ScreenCharacter {
    /// A cell holding `character` in the given colours.
    pub fn new(character: u8, foreground: Color, background: Color) -> (c: ScreenCharacter)
        ensures
            c == cell(character, foreground, background),
    {
        let b = background.number();
        let f = foreground.number();
        assert((b << 4u8) == b * 16) by (bit_vector)
            requires
                b < 16,
        ;
        ScreenCharacter { character, color: (b << 4) + f }
    }
}

/// What the writer holds: the cursor of the text (row and column), the
/// colours it writes in, the cells of the screen, and the position shown by
/// the hardware cursor.
pub ghost struct ScreenState {
    pub row: int,
    pub col: int,
    pub foreground: Color,
    pub background: Color,
    pub cells: Seq<ScreenCharacter>,
    pub cursor: int,
}

/// The state is that of a screen: the text cursor lies on the screen and
/// the screen has all its cells.
pub open spec fn state_wf(s: ScreenState) -> bool {
    &&& 0 <= s.row < MAX_ROW
    &&& 0 <= s.col < MAX_COLUMN
    &&& s.cells.len() == SCREEN_CELLS
}

/// The text cursor lies in a row of the screen, possibly just past its last
/// column, and the screen has all its cells.
pub open spec fn state_in_row(s: ScreenState) -> bool {
    &&& 0 <= s.row < MAX_ROW
    &&& 0 <= s.col <= MAX_COLUMN
    &&& s.cells.len() == SCREEN_CELLS
}

/// An empty cell in the current colours.
pub open spec fn blank(s: ScreenState) -> ScreenCharacter {
    cell(0x20, s.foreground, s.background)
}

/// The cells with those of positions `from` up to `to` blanked.
pub open spec fn blank_range(s: ScreenState, from: int, to: int) -> Seq<ScreenCharacter> {
    Seq::new(
        SCREEN_CELLS as nat,
        |i: int|
            if from <= i < to {
                blank(s)
            } else {
                s.cells[i]
            },
    )
}

/// The rest of the current row, from the text cursor on, blanked.
pub open spec fn clear_rem_line_spec(s: ScreenState) -> ScreenState {
    ScreenState { cells: blank_range(s, s.row * 80 + s.col, s.row * 80 + 80), ..s }
}

/// Row `row` blanked.
pub open spec fn clear_line_spec(s: ScreenState, row: int) -> ScreenState {
    ScreenState { cells: blank_range(s, row * 80, row * 80 + 80), ..s }
}

/// Every row moved up by one; the first row is lost and the last one is
/// blank.
pub open spec fn shift_rows_up_spec(s: ScreenState) -> ScreenState {
    ScreenState {
        cells: Seq::new(
            SCREEN_CELLS as nat,
            |i: int|
                if i < 1920 {
                    s.cells[i + 80]
                } else {
                    blank(s)
                },
        ),
        ..s
    }
}

/// The rest of the row blanked and the text cursor at the start of the next
/// row; past the last row the screen scrolls up by one row.
pub open spec fn add_line_spec(s: ScreenState) -> ScreenState {
    let cleared = clear_rem_line_spec(s);
    if s.row + 1 == MAX_ROW {
        shift_rows_up_spec(ScreenState { row: s.row, col: 0, ..cleared })
    } else {
        ScreenState { row: s.row + 1, col: 0, ..cleared }
    }
}

/// The effect of one byte: a newline starts a new row, a carriage return
/// goes back to the start of the row, a backspace steps back one cell (to
/// the end of the previous row from the start of a row, and nowhere from
/// the first cell); any other byte is written at the text cursor in the
/// current colours and the cursor moves on, to a new row after the last
/// column.
pub open spec fn print_byte_spec(s: ScreenState, byte: u8) -> ScreenState {
    if byte == 0x0a {
        add_line_spec(s)
    } else if byte == 0x0d {
        ScreenState { col: 0, ..s }
    } else if byte == 0x08 {
        if s.col == 0 && s.row != 0 {
            ScreenState { col: MAX_COLUMN - 1, row: s.row - 1, ..s }
        } else if s.col != 0 {
            ScreenState { col: s.col - 1, ..s }
        } else {
            s
        }
    } else {
        let written = ScreenState {
            cells: s.cells.update(s.row * 80 + s.col, cell(byte, s.foreground, s.background)),
            col: s.col + 1,
            ..s
        };
        if s.col + 1 == MAX_COLUMN {
            add_line_spec(written)
        } else {
            written
        }
    }
}

/// The effect of the bytes, one after the other.
pub open spec fn print_bytes_spec(s: ScreenState, bytes: Seq<u8>) -> ScreenState
    decreases bytes.len(),
{
    if bytes.len() == 0 {
        s
    } else {
        print_byte_spec(print_bytes_spec(s, bytes.drop_last()), bytes.last())
    }
}

/// The hardware cursor moved to the text cursor.
pub open spec fn move_cursor_spec(s: ScreenState) -> ScreenState {
    ScreenState { cursor: s.row * 80 + s.col, ..s }
}

/// Writes text to the screen.
pub struct ScreenWriter {
    row: usize,
    col: usize,
    foreground: Color,
    background: Color,
    cells: Vec<ScreenCharacter>,
    cursor: usize,
}

impl View for ScreenWriter {
    type V = ScreenState;

    closed spec fn view(&self) -> ScreenState {
        ScreenState {
            row: self.row as int,
            col: self.col as int,
            foreground: self.foreground,
            background: self.background,
            cells: self.cells@,
            cursor: self.cursor as int,
        }
    }
}

impl ScreenWriter {
    /// A writer over a screen whose cells are all zero, with the text in
    /// green on black from the top left corner.
    pub fn new() -> (w: ScreenWriter)
        ensures
            state_wf(w@),
            w@.row == 0 && w@.col == 0 && w@.cursor == 0,
            w@.foreground == Color::Green && w@.background == Color::Black,
            w@.cells == Seq::new(
                SCREEN_CELLS as nat,
                |i: int| ScreenCharacter { character: 0, color: 0 },
            ),
    {
        let mut cells: Vec<ScreenCharacter> = Vec::new();
        let mut i: usize = 0;
        while i < SCREEN_CELLS
            invariant
                i <= SCREEN_CELLS,
                cells@ == Seq::new(i as nat, |j: int| ScreenCharacter { character: 0, color: 0 }),
            decreases SCREEN_CELLS - i,
        {
            cells.push(ScreenCharacter { character: 0, color: 0 });
            i = i + 1;
            assert(cells@ =~= Seq::new(i as nat, |j: int| ScreenCharacter { character: 0, color: 0 }));
        }
        ScreenWriter {
            row: 0,
            col: 0,
            foreground: Color::Green,
            background: Color::Black,
            cells,
            cursor: 0,
        }
    }

    /// The row of the text cursor.
    pub fn row(&self) -> (r: usize)
        ensures
            r == self@.row,
    {
        self.row
    }

    /// The column of the text cursor.
    pub fn col(&self) -> (c: usize)
        ensures
            c == self@.col,
    {
        self.col
    }

    /// The position shown by the hardware cursor.
    pub fn cursor(&self) -> (c: usize)
        ensures
            c == self@.cursor,
    {
        self.cursor
    }

    /// The colour that text is written in.
    pub fn foreground(&self) -> (c: Color)
        ensures
            c == self@.foreground,
    {
        self.foreground
    }

    /// The colour behind the text.
    pub fn background(&self) -> (c: Color)
        ensures
            c == self@.background,
    {
        self.background
    }

    /// The cell at position `pos`, counted row by row from the top left.
    pub fn screen_char_at(&self, pos: usize) -> (c: ScreenCharacter)
        requires
            state_wf(self@),
            pos < SCREEN_CELLS,
        ensures
            c == self@.cells[pos as int],
    {
        self.cells[pos]
    }

    /// Blanks the rest of the current row, from the text cursor on.
    pub fn clear_rem_line(&mut self)
        requires
            state_in_row(old(self)@),
        ensures
            final(self)@ == clear_rem_line_spec(old(self)@),
    {
        let ghost s0 = self@;
        let rpos = self.row * MAX_COLUMN;
        let mut i = self.col;
        assert(self.cells@ =~= blank_range(s0, rpos + s0.col, rpos + i));
        while i < MAX_COLUMN
            invariant
                self.col <= i <= MAX_COLUMN,
                rpos == self.row * 80,
                state_in_row(s0),
                self@ == (ScreenState { cells: blank_range(s0, rpos + s0.col, rpos + i), ..s0 }),
            decreases MAX_COLUMN - i,
        {
            let pos = rpos + i;
            let c = ScreenCharacter::new(0x20, self.foreground, self.background);
            self.cells.set(pos, c);
            i = i + 1;
            assert(self.cells@ =~= blank_range(s0, rpos + s0.col, rpos + i));
        }
        assert(self@ =~= clear_rem_line_spec(s0));
    }

    /// Blanks row `row`, leaving the text cursor where it is.
    pub fn clear_line(&mut self, row: usize)
        requires
            state_wf(old(self)@),
            row < MAX_ROW,
        ensures
            final(self)@ == clear_line_spec(old(self)@, row as int),
    {
        let c = self.col;
        let r = self.row;
        self.col = 0;
        self.row = row;
        self.clear_rem_line();
        self.row = r;
        self.col = c;
    }

    /// Moves every row up by one: the first row is lost and the last one is
    /// blanked.
    pub fn shift_rows_up(&mut self)
        requires
            state_wf(old(self)@),
        ensures
            final(self)@ == shift_rows_up_spec(old(self)@),
    {
        let ghost s0 = self@;
        let mut r: usize = 0;
        assert(self.cells@ =~= Seq::new(
            SCREEN_CELLS as nat,
            |i: int| if i < r * 80 { s0.cells[i + 80] } else { s0.cells[i] },
        ));
        while r < MAX_ROW - 1
            invariant
                r <= MAX_ROW - 1,
                state_wf(s0),
                self@ == (ScreenState { cells: self@.cells, ..s0 }),
                self.cells@ == Seq::new(
                    SCREEN_CELLS as nat,
                    |i: int| if i < r * 80 { s0.cells[i + 80] } else { s0.cells[i] },
                ),
            decreases MAX_ROW - 1 - r,
        {
            let mut c: usize = 0;
            while c < MAX_COLUMN
                invariant
                    r < MAX_ROW - 1,
                    c <= MAX_COLUMN,
                    state_wf(s0),
                    self@ == (ScreenState { cells: self@.cells, ..s0 }),
                    self.cells@ == Seq::new(
                        SCREEN_CELLS as nat,
                        |i: int| if i < r * 80 + c { s0.cells[i + 80] } else { s0.cells[i] },
                    ),
                decreases MAX_COLUMN - c,
            {
                let new_pos = r * MAX_COLUMN + c;
                let old_pos = (r + 1) * MAX_COLUMN + c;
                let old_field = self.cells[old_pos];
                self.cells.set(new_pos, old_field);
                c = c + 1;
                assert(self.cells@ =~= Seq::new(
                    SCREEN_CELLS as nat,
                    |i: int| if i < r * 80 + c { s0.cells[i + 80] } else { s0.cells[i] },
                ));
            }
            r = r + 1;
        }
        self.clear_line(MAX_ROW - 1);
        assert(self@.cells =~= shift_rows_up_spec(s0).cells);
    }

    /// Blanks the rest of the row and moves the text cursor to the start of
    /// the next row, scrolling the screen up when there is none.
    pub fn add_line(&mut self)
        requires
            state_in_row(old(self)@),
        ensures
            final(self)@ == add_line_spec(old(self)@),
            state_wf(final(self)@),
    {
        self.clear_rem_line();
        self.col = 0;
        self.row = self.row + 1;
        if self.row == MAX_ROW {
            self.row = self.row - 1;
            self.shift_rows_up();
        }
    }

    /// Writes one byte, as `print_byte_spec` describes.
    pub fn print_byte(&mut self, byte: u8)
        requires
            state_wf(old(self)@),
        ensures
            final(self)@ == print_byte_spec(old(self)@, byte),
            state_wf(final(self)@),
    {
        if byte == 0x0a {
            self.add_line();
        } else if byte == 0x0d {
            self.col = 0;
        } else if byte == 0x08 {
            if self.col == 0 && self.row != 0 {
                self.col = MAX_COLUMN - 1;
                self.row = self.row - 1;
            } else if self.col != 0 {
                self.col = self.col - 1;
            }
        } else {
            let pos = self.row * MAX_COLUMN + self.col;
            let c = ScreenCharacter::new(byte, self.foreground, self.background);
            self.cells.set(pos, c);
            self.col = self.col + 1;
            if self.col == MAX_COLUMN {
                self.add_line();
            }
        }
    }

    /// Moves the hardware cursor to the text cursor.
    pub fn move_cursor(&mut self)
        requires
            state_wf(old(self)@),
        ensures
            final(self)@ == move_cursor_spec(old(self)@),
    {
        self.cursor = self.row * MAX_COLUMN + self.col;
    }

    /// Writes the bytes of `msg` one after the other, then moves the
    /// hardware cursor to the text cursor.
    pub fn write_str(&mut self, msg: &str)
        requires
            state_wf(old(self)@),
        ensures
            final(self)@ == move_cursor_spec(print_bytes_spec(old(self)@, msg.spec_bytes())),
            state_wf(final(self)@),
    {
        self.write_bytes(msg.as_bytes());
        self.move_cursor();
    }

    /// Writes the bytes one after the other.
    pub fn write_bytes(&mut self, bytes: &[u8])
        requires
            state_wf(old(self)@),
        ensures
            final(self)@ == print_bytes_spec(old(self)@, bytes@),
            state_wf(final(self)@),
    {
        let ghost s0 = self@;
        let mut i: usize = 0;
        assert(bytes@.subrange(0, 0) =~= Seq::<u8>::empty());
        while i < bytes.len()
            invariant
                i <= bytes@.len(),
                state_wf(self@),
                self@ == print_bytes_spec(s0, bytes@.subrange(0, i as int)),
            decreases bytes.len() - i,
        {
            self.print_byte(bytes[i]);
            assert(bytes@.subrange(0, i as int + 1).drop_last() =~= bytes@.subrange(0, i as int));
            i = i + 1;
        }
        assert(bytes@.subrange(0, i as int) =~= bytes@);
    }

    /// Blanks the whole screen and moves both cursors to the top left.
    pub fn clear_screen(&mut self)
        requires
            state_wf(old(self)@),
        ensures
            state_wf(final(self)@),
            final(self)@ == (ScreenState {
                row: 0,
                col: 0,
                cursor: 0,
                cells: Seq::new(SCREEN_CELLS as nat, |i: int| blank(old(self)@)),
                ..old(self)@
            }),
    {
        let ghost s0 = self@;
        let mut line: usize = 0;
        assert(self.cells@ =~= Seq::new(
            SCREEN_CELLS as nat,
            |i: int| if i < line * 80 { blank(s0) } else { s0.cells[i] },
        ));
        while line < MAX_ROW
            invariant
                line <= MAX_ROW,
                state_wf(s0),
                self@ == (ScreenState { cells: self@.cells, ..s0 }),
                self.cells@ == Seq::new(
                    SCREEN_CELLS as nat,
                    |i: int| if i < line * 80 { blank(s0) } else { s0.cells[i] },
                ),
            decreases MAX_ROW - line,
        {
            self.clear_line(line);
            line = line + 1;
            assert(self.cells@ =~= Seq::new(
                SCREEN_CELLS as nat,
                |i: int| if i < line * 80 { blank(s0) } else { s0.cells[i] },
            ));
        }
        self.row = 0;
        self.col = 0;
        self.move_cursor();
        assert(self.cells@ =~= Seq::new(SCREEN_CELLS as nat, |i: int| blank(s0)));
    }

    /// Makes `color` the colour of the text written from now on.
    pub fn set_foreground(&mut self, color: Color)
        ensures
            final(self)@ == (ScreenState { foreground: color, ..old(self)@ }),
    {
        self.foreground = color;
    }

    /// Makes `color` the colour behind the text written from now on.
    pub fn set_background(&mut self, color: Color)
        ensures
            final(self)@ == (ScreenState { background: color, ..old(self)@ }),
    {
        self.background = color;
    }
}

/// The decimal digits of `n`, most significant first, as ASCII bytes.
pub open spec fn decimal(n: nat) -> Seq<u8>
    decreases n,
{
    if n < 10 {
        seq![(48 + n) as u8]
    } else {
        decimal(n / 10).push((48 + n % 10) as u8)
    }
}

/// The decimal digits of `n`, most significant first, as ASCII bytes.
pub fn format_decimal(n: u64) -> (digits: Vec<u8>)
    ensures
        digits@ == decimal(n as nat),
    decreases n,
{
    if n < 10 {
        vec![48 + n as u8]
    } else {
        let mut digits = format_decimal(n / 10);
        digits.push(48 + (n % 10) as u8);
        digits
    }
}

/// The bytes of "Error: ".
pub open spec fn error_prefix() -> Seq<u8> {
    seq![0x45u8, 0x72, 0x72, 0x6f, 0x72, 0x3a, 0x20]
}

/// The bytes of " in ".
pub open spec fn in_text() -> Seq<u8> {
    seq![0x20u8, 0x69, 0x6e, 0x20]
}

/// The bytes of " at line ".
pub open spec fn at_line_text() -> Seq<u8> {
    seq![0x20u8, 0x61, 0x74, 0x20, 0x6c, 0x69, 0x6e, 0x65, 0x20]
}

/// The text of an error report: "Error: ", the message, " in ", the file
/// and " at line " followed by the line number in decimal.
pub open spec fn error_report(message: Seq<u8>, file: Seq<u8>, line: nat) -> Seq<u8> {
    error_prefix() + message + in_text() + file + at_line_text() + decimal(line)
}

/// The effect of writing `text` in white on red, the hardware cursor
/// following the text, and of going back to the colours used before.
pub open spec fn print_highlighted_spec(s: ScreenState, text: Seq<u8>) -> ScreenState {
    ScreenState {
        foreground: s.foreground,
        background: s.background,
        ..move_cursor_spec(
            print_bytes_spec(
                ScreenState { foreground: Color::White, background: Color::Red, ..s },
                text,
            ),
        )
    }
}

/// Writing two pieces one after the other is writing them together.
pub proof fn law_print_bytes_concat(s: ScreenState, a: Seq<u8>, b: Seq<u8>)
    ensures
        print_bytes_spec(print_bytes_spec(s, a), b) == print_bytes_spec(s, a + b),
    decreases b.len(),
{
    if b.len() == 0 {
        assert(a + b =~= a);
    } else {
        law_print_bytes_concat(s, a, b.drop_last());
        assert((a + b).drop_last() =~= a + b.drop_last());
        assert((a + b).last() == b.last());
    }
}

/// Blanks the screen and moves both cursors to the top left.
pub fn clear_screen(writer: &mut ScreenWriter)
    requires
        state_wf(old(writer)@),
    ensures
        state_wf(final(writer)@),
        final(writer)@ == (ScreenState {
            row: 0,
            col: 0,
            cursor: 0,
            cells: Seq::new(SCREEN_CELLS as nat, |i: int| blank(old(writer)@)),
            ..old(writer)@
        }),
{
    writer.clear_screen()
}

/// Writes already formatted text and moves the hardware cursor after it.
pub fn print_args(writer: &mut ScreenWriter, text: &str)
    requires
        state_wf(old(writer)@),
    ensures
        state_wf(final(writer)@),
        final(writer)@ == move_cursor_spec(print_bytes_spec(old(writer)@, text.spec_bytes())),
{
    writer.write_str(text)
}

/// Writes already formatted text followed by a newline.
pub fn println_args(writer: &mut ScreenWriter, text: &str)
    requires
        state_wf(old(writer)@),
    ensures
        state_wf(final(writer)@),
        final(writer)@ == move_cursor_spec(
            print_bytes_spec(old(writer)@, text.spec_bytes().push(0x0a)),
        ),
{
    writer.write_bytes(text.as_bytes());
    writer.print_byte(0x0a);
    assert(text.spec_bytes().push(0x0a).drop_last() =~= text.spec_bytes());
    writer.move_cursor();
}

/// Writes `text` in white on red, then goes back to the colours used
/// before.
pub fn print_highlighted(writer: &mut ScreenWriter, text: &[u8])
    requires
        state_wf(old(writer)@),
    ensures
        state_wf(final(writer)@),
        final(writer)@ == print_highlighted_spec(old(writer)@, text@),
{
    let foreground = writer.foreground;
    let background = writer.background;
    writer.foreground = Color::White;
    writer.background = Color::Red;
    writer.write_bytes(text);
    writer.move_cursor();
    writer.foreground = foreground;
    writer.background = background;
}

/// Reports an error in white on red: "Error: ", the message, then " in ",
/// the file and " at line " with the line number; the colours are set back
/// afterwards.
pub fn print_err(writer: &mut ScreenWriter, msg: &str, file: &str, line: u64)
    requires
        state_wf(old(writer)@),
    ensures
        state_wf(final(writer)@),
        final(writer)@ == print_highlighted_spec(
            old(writer)@,
            error_report(msg.spec_bytes(), file.spec_bytes(), line as nat),
        ),
{
    let text = error_report_text(msg.as_bytes(), file.as_bytes(), line);
    print_highlighted(writer, text.as_slice());
}

/// Reports an error whose message was formatted already, as `print_err`
/// does.
pub fn print_err_fmt(writer: &mut ScreenWriter, text: &str, file: &str, line: u64)
    requires
        state_wf(old(writer)@),
    ensures
        state_wf(final(writer)@),
        final(writer)@ == print_highlighted_spec(
            old(writer)@,
            error_report(text.spec_bytes(), file.spec_bytes(), line as nat),
        ),
{
    print_err(writer, text, file, line)
}

/// Appends `bytes` to `v`.
fn append_bytes(v: &mut Vec<u8>, bytes: &[u8])
    ensures
        final(v)@ == old(v)@ + bytes@,
{
    let mut i: usize = 0;
    while i < bytes.len()
        invariant
            i <= bytes@.len(),
            v@ == old(v)@ + bytes@.subrange(0, i as int),
        decreases bytes.len() - i,
    {
        v.push(bytes[i]);
        i = i + 1;
        assert(v@ =~= old(v)@ + bytes@.subrange(0, i as int));
    }
    assert(bytes@.subrange(0, i as int) =~= bytes@);
}

/// The text of an error report.
fn error_report_text(message: &[u8], file: &[u8], line: u64) -> (text: Vec<u8>)
    ensures
        text@ == error_report(message@, file@, line as nat),
{
    let mut text: Vec<u8> = vec![0x45u8, 0x72, 0x72, 0x6f, 0x72, 0x3a, 0x20];
    assert(text@ =~= error_prefix());
    append_bytes(&mut text, message);
    let in_bytes: Vec<u8> = vec![0x20u8, 0x69, 0x6e, 0x20];
    assert(in_bytes@ =~= in_text());
    append_bytes(&mut text, in_bytes.as_slice());
    append_bytes(&mut text, file);
    let at_line: Vec<u8> = vec![0x20u8, 0x61, 0x74, 0x20, 0x6c, 0x69, 0x6e, 0x65, 0x20];
    assert(at_line@ =~= at_line_text());
    append_bytes(&mut text, at_line.as_slice());
    let digits = format_decimal(line);
    append_bytes(&mut text, digits.as_slice());
    text
}

/// Makes `color` the colour of the text written from now on.
pub fn set_foreground(writer: &mut ScreenWriter, color: Color)
    ensures
        final(writer)@ == (ScreenState { foreground: color, ..old(writer)@ }),
{
    writer.set_foreground(color)
}

/// Makes `color` the colour behind the text written from now on.
pub fn set_background(writer: &mut ScreenWriter, color: Color)
    ensures
        final(writer)@ == (ScreenState { background: color, ..old(writer)@ }),
{
    writer.set_background(color)
}

/// Writing never moves the text cursor off the screen or changes the
/// number of cells.
pub proof fn law_print_bytes_keeps_screen(s: ScreenState, bytes: Seq<u8>)
    requires
        state_wf(s),
    ensures
        state_wf(print_bytes_spec(s, bytes)),
    decreases bytes.len(),
{
    if bytes.len() > 0 {
        law_print_bytes_keeps_screen(s, bytes.drop_last());
        lemma_print_byte_keeps_screen(print_bytes_spec(s, bytes.drop_last()), bytes.last());
    }
}

/// One byte never moves the text cursor off the screen.
proof fn lemma_print_byte_keeps_screen(s: ScreenState, byte: u8)
    requires
        state_wf(s),
    ensures
        state_wf(print_byte_spec(s, byte)),
{
}

/// An error report leaves the writer in the colours it had before.
pub proof fn law_report_keeps_colors(s: ScreenState, text: Seq<u8>)
    ensures
        print_highlighted_spec(s, text).foreground == s.foreground,
        print_highlighted_spec(s, text).background == s.background,
{
}

/// Scrolling moves every row up by one: each cell of rows 0 to 23 holds
/// afterwards the cell one row (80 cells) below it, the last row is blank
/// in the current colours, and the cursor and colours stay.
pub proof fn law_scroll_moves_every_row_up(s: ScreenState)
    requires
        s.cells.len() == SCREEN_CELLS,
    ensures
        shift_rows_up_spec(s).cells.len() == SCREEN_CELLS,
        forall|i: int| 0 <= i < 1920 ==> #[trigger] shift_rows_up_spec(s).cells[i] == s.cells[i + 80],
        forall|i: int|
            1920 <= i < 2000 ==> #[trigger] shift_rows_up_spec(s).cells[i] == cell(
                0x20,
                s.foreground,
                s.background,
            ),
        shift_rows_up_spec(s).row == s.row,
        shift_rows_up_spec(s).col == s.col,
        shift_rows_up_spec(s).cursor == s.cursor,
        shift_rows_up_spec(s).foreground == s.foreground,
        shift_rows_up_spec(s).background == s.background,
{
}

/// A newline on the last row scrolls: the text of the last row, up to the
/// cursor, is on row 23 afterwards, every row above it holds the row that
/// was below it, the last row is blank, and the cursor is at the start of
/// the last row.
pub proof fn law_newline_on_last_row_scrolls(s: ScreenState)
    requires
        state_wf(s),
        s.row == 24,
    ensures
        print_byte_spec(s, 0x0a).row == 24,
        print_byte_spec(s, 0x0a).col == 0,
        print_byte_spec(s, 0x0a).cells.len() == SCREEN_CELLS,
        forall|c: int| 0 <= c < s.col ==> #[trigger] print_byte_spec(s, 0x0a).cells[1840 + c] == s.cells[1920 + c],
        forall|c: int|
            s.col <= c < 80 ==> #[trigger] print_byte_spec(s, 0x0a).cells[1840 + c] == cell(
                0x20,
                s.foreground,
                s.background,
            ),
        forall|i: int| 0 <= i < 1840 ==> #[trigger] print_byte_spec(s, 0x0a).cells[i] == s.cells[i + 80],
        forall|i: int|
            1920 <= i < 2000 ==> #[trigger] print_byte_spec(s, 0x0a).cells[i] == cell(
                0x20,
                s.foreground,
                s.background,
            ),
{
    let cleared = clear_rem_line_spec(s);
    law_scroll_moves_every_row_up(ScreenState { row: s.row, col: 0, ..cleared });
    assert forall|c: int| 0 <= c < s.col implies #[trigger] print_byte_spec(s, 0x0a).cells[1840 + c] == s.cells[1920 + c] by {
        assert(print_byte_spec(s, 0x0a).cells[1840 + c] == cleared.cells[1920 + c]);
    }
    assert forall|c: int| s.col <= c < 80 implies #[trigger] print_byte_spec(s, 0x0a).cells[1840 + c] == cell(
        0x20,
        s.foreground,
        s.background,
    ) by {
        assert(print_byte_spec(s, 0x0a).cells[1840 + c] == cleared.cells[1920 + c]);
    }
    assert forall|i: int| 0 <= i < 1840 implies #[trigger] print_byte_spec(s, 0x0a).cells[i] == s.cells[i + 80] by {
        assert(print_byte_spec(s, 0x0a).cells[i] == cleared.cells[i + 80]);
    }
}

/// What one byte does to the screen, cell by cell: a carriage return goes
/// to the start of the row; a backspace steps the cursor back one cell in
/// reading order, but not before the first; a newline below the last row
/// blanks the rest of the row and goes to the start of the next; any other
/// byte is written in the current colours at the cursor, which moves on,
/// to the next row after the last column, and on the last row the screen
/// scrolls so that the byte ends up one row higher.
pub proof fn law_print_byte_effects(s: ScreenState, byte: u8)
    requires
        state_wf(s),
    ensures
        ({
            let t = print_byte_spec(s, byte);
            let pos = s.row * 80 + s.col;
            &&& t.cells.len() == SCREEN_CELLS
            &&& t.foreground == s.foreground && t.background == s.background && t.cursor == s.cursor
            &&& byte == 0x0d ==> t.row == s.row && t.col == 0 && t.cells == s.cells
            &&& byte == 0x08 ==> t.cells == s.cells && t.row * 80 + t.col == (if pos == 0 {
                0
            } else {
                pos - 1
            })
            &&& byte == 0x0a && s.row < 24 ==> {
                &&& t.row == s.row + 1
                &&& t.col == 0
                &&& forall|i: int|
                    0 <= i < 2000 && !(pos <= i < s.row * 80 + 80) ==> #[trigger] t.cells[i] == s.cells[i]
                &&& forall|i: int|
                    pos <= i < s.row * 80 + 80 ==> #[trigger] t.cells[i] == cell(
                        0x20,
                        s.foreground,
                        s.background,
                    )
            }
            &&& byte != 0x0a && byte != 0x0d && byte != 0x08 && !(s.col == 79 && s.row == 24) ==> {
                &&& t.cells[pos] == cell(byte, s.foreground, s.background)
                &&& forall|i: int| 0 <= i < 2000 && i != pos ==> #[trigger] t.cells[i] == s.cells[i]
                &&& s.col < 79 ==> t.row == s.row && t.col == s.col + 1
                &&& s.col == 79 ==> t.row == s.row + 1 && t.col == 0
            }
            &&& byte != 0x0a && byte != 0x0d && byte != 0x08 && s.col == 79 && s.row == 24 ==> {
                &&& t.row == 24
                &&& t.col == 0
                &&& t.cells[pos - 80] == cell(byte, s.foreground, s.background)
                &&& forall|i: int| 0 <= i < 1920 && i != pos - 80 ==> #[trigger] t.cells[i] == s.cells[i + 80]
            }
        }),
{
    let t = print_byte_spec(s, byte);
    let pos = s.row * 80 + s.col;
    if byte == 0x0a && s.row < 24 {
        assert forall|i: int| 0 <= i < 2000 && !(pos <= i < s.row * 80 + 80) implies #[trigger] t.cells[i]
            == s.cells[i] by {}
    }
    if byte != 0x0a && byte != 0x0d && byte != 0x08 && s.col == 79 {
        let written = ScreenState {
            cells: s.cells.update(pos, cell(byte, s.foreground, s.background)),
            col: s.col + 1,
            ..s
        };
        if s.row == 24 {
            let cleared = clear_rem_line_spec(written);
            law_scroll_moves_every_row_up(ScreenState { row: written.row, col: 0, ..cleared });
            assert(t.cells[pos - 80] == cleared.cells[pos]);
            assert forall|i: int| 0 <= i < 1920 && i != pos - 80 implies #[trigger] t.cells[i] == s.cells[i
                + 80] by {
                assert(t.cells[i] == cleared.cells[i + 80]);
            }
        }
    }
}

/// A colour byte holds the background's number in its high four bits and
/// the foreground's in its low four, and different colours have different
/// numbers below 16.
pub proof fn law_color_byte_halves(foreground: Color, background: Color)
    ensures
        color_byte(foreground, background) / 16 == color_number(background),
        color_byte(foreground, background) % 16 == color_number(foreground),
        color_number(foreground) < 16,
        color_number(foreground) == color_number(background) <==> foreground == background,
{
}

/// The number that decimal digits, most significant first, stand for.
pub open spec fn digits_value(digits: Seq<u8>) -> int
    decreases digits.len(),
{
    if digits.len() == 0 {
        0
    } else {
        digits_value(digits.drop_last()) * 10 + (digits.last() - 48)
    }
}

/// The decimal text of `n` is a run of digits, without a leading zero
/// unless it is the single digit of zero, that stands for `n`.
pub proof fn law_decimal_stands_for_its_number(n: nat)
    ensures
        decimal(n).len() >= 1,
        forall|i: int| 0 <= i < decimal(n).len() ==> 48 <= #[trigger] decimal(n)[i] <= 57,
        decimal(n)[0] != 48 || n == 0,
        digits_value(decimal(n)) == n,
    decreases n,
{
    if n >= 10 {
        law_decimal_stands_for_its_number(n / 10);
        let d = decimal(n);
        assert(d.drop_last() == decimal(n / 10));
        assert forall|i: int| 0 <= i < d.len() implies 48 <= #[trigger] d[i] <= 57 by {
            if i < d.len() - 1 {
                assert(d[i] == decimal(n / 10)[i]);
            }
        }
        assert(d[0] == decimal(n / 10)[0]);
        assert(d.last() == 48 + n % 10);
        assert(digits_value(d) == digits_value(decimal(n / 10)) * 10 + n % 10);
        assert(n / 10 * 10 + n % 10 == n);
    } else {
        let d = decimal(n);
        assert(d.drop_last() =~= Seq::<u8>::empty());
        assert(digits_value(d.drop_last()) == 0);
        assert(d.last() == 48 + n);
    }
}

} // verus!
