//! The character grid of one emulated screen, and the mathematical model that
//! every operation on it is stated against.

use vstd::prelude::*;
use vstd::string::*;

verus! {

/// A pen or cell colour: the terminal default or one of the sixteen named colours.
#[derive(Clone, Copy, Debug, PartialEq, Eq, Structural)]
pub enum Colour {
    Default,
    Black,
    Red,
    Green,
    Yellow,
    Blue,
    Magenta,
    Cyan,
    White,
    BrightBlack,
    BrightRed,
    BrightGreen,
    BrightYellow,
    BrightBlue,
    BrightMagenta,
    BrightCyan,
    BrightWhite,
}

/// One character cell.
#[derive(Clone, Copy, Debug, PartialEq, Eq, Structural)]
pub struct Cell {
    pub ch: char,
    pub fg: Colour,
    pub bg: Colour,
}

/// The erased cell: a space in default colours.
pub open spec fn blank_cell() -> Cell {
    Cell { ch: ' ', fg: Colour::Default, bg: Colour::Default }
}

/// A row of `cols` erased cells.
pub open spec fn blank_row(cols: int) -> Seq<Cell> {
    Seq::new(cols as nat, |c: int| blank_cell())
}

/// The colour with the given index in the sixteen-colour palette
/// (0 to 7 normal, 8 to 15 bright); `Default` outside that range.
pub open spec fn palette(index: int) -> Colour {
    if index == 0 {
        Colour::Black
    } else if index == 1 {
        Colour::Red
    } else if index == 2 {
        Colour::Green
    } else if index == 3 {
        Colour::Yellow
    } else if index == 4 {
        Colour::Blue
    } else if index == 5 {
        Colour::Magenta
    } else if index == 6 {
        Colour::Cyan
    } else if index == 7 {
        Colour::White
    } else if index == 8 {
        Colour::BrightBlack
    } else if index == 9 {
        Colour::BrightRed
    } else if index == 10 {
        Colour::BrightGreen
    } else if index == 11 {
        Colour::BrightYellow
    } else if index == 12 {
        Colour::BrightBlue
    } else if index == 13 {
        Colour::BrightMagenta
    } else if index == 14 {
        Colour::BrightCyan
    } else if index == 15 {
        Colour::BrightWhite
    } else {
        Colour::Default
    }
}

/// Whether cell `(r, c)` lies between `(r0, c0)` and `(r1, c1)`, both included,
/// in reading order.
pub open spec fn in_span(r: int, c: int, r0: int, c0: int, r1: int, c1: int) -> bool {
    (r0 < r || (r0 == r && c0 <= c)) && (r < r1 || (r == r1 && c <= c1))
}

/// A repeat count taken from a control sequence: zero stands for one.
pub open spec fn at_least_one(n: int) -> int {
    if n <= 0 {
        1
    } else {
        n
    }
}

/// The cells that hold the characters of `text` in the given colours. Each
/// character is taken by its scalar value.
pub open spec fn styled(text: Seq<char>, fg: Colour, bg: Colour) -> Seq<Cell> {
    Seq::new(text.len(), |i: int| Cell { ch: (text[i] as u32) as char, fg, bg })
}

/// `styled` keeps the characters of the text, one cell for each, in order.
pub proof fn lemma_styled(text: Seq<char>, fg: Colour, bg: Colour)
    ensures
        styled(text, fg, bg).len() == text.len(),
        forall|i: int|
            0 <= i < text.len() ==> (#[trigger] styled(text, fg, bg)[i]).ch == text[i] && styled(
                text,
                fg,
                bg,
            )[i].fg == fg && styled(text, fg, bg)[i].bg == bg,
{
    assert forall|i: int| 0 <= i < text.len() implies (#[trigger] styled(text, fg, bg)[i]).ch
        == text[i] by {
        vstd::utf8::char_u32_cast(text[i], text[i] as u32);
    }
}

/// The model of a grid: `rows` rows of `cols` cells, a cursor and a pen.
pub struct GridState {
    pub cols: int,
    pub rows: int,
    pub cells: Seq<Seq<Cell>>,
    pub cursor_col: int,
    pub cursor_row: int,
    pub fg: Colour,
    pub bg: Colour,
}

impl GridState {
    /// The grid is rectangular, not empty, and the cursor is inside it.
    pub open spec fn wf(self) -> bool {
        &&& 0 < self.cols <= u16::MAX
        &&& 0 < self.rows <= u16::MAX
        &&& self.cells.len() == self.rows
        &&& forall|r: int| 0 <= r < self.rows ==> (#[trigger] self.cells[r]).len() == self.cols
        &&& 0 <= self.cursor_col < self.cols
        &&& 0 <= self.cursor_row < self.rows
    }

    /// A new grid: erased cells, cursor at the origin, default pen.
    pub open spec fn fresh(cols: int, rows: int) -> GridState {
        GridState {
            cols,
            rows,
            cells: Seq::new(rows as nat, |r: int| blank_row(cols)),
            cursor_col: 0,
            cursor_row: 0,
            fg: Colour::Default,
            bg: Colour::Default,
        }
    }

    /// The cursor moved to `(col, row)`, clamped into the grid.
    pub open spec fn with_cursor(self, col: int, row: int) -> GridState {
        GridState {
            cursor_col: vstd::math::max(0, vstd::math::min(col, self.cols - 1)),
            cursor_row: vstd::math::max(0, vstd::math::min(row, self.rows - 1)),
            ..self
        }
    }

    /// A printable character: written at the cursor with the pen, then the
    /// cursor advances, wrapping to the next row and stopping at the last.
    pub open spec fn put_char(self, ch: char) -> GridState {
        let cell = Cell { ch, fg: self.fg, bg: self.bg };
        let cells = self.cells.update(
            self.cursor_row,
            self.cells[self.cursor_row].update(self.cursor_col, cell),
        );
        if self.cursor_col + 1 == self.cols {
            GridState {
                cells,
                cursor_col: 0,
                cursor_row: vstd::math::min(self.rows - 1, self.cursor_row + 1),
                ..self
            }
        } else {
            GridState { cells, cursor_col: self.cursor_col + 1, ..self }
        }
    }

    /// BS: one column to the left, stopping at the first.
    pub open spec fn backspace(self) -> GridState {
        GridState { cursor_col: vstd::math::max(0, self.cursor_col - 1), ..self }
    }

    /// HT: to the next multiple of eight, stopping at the last column.
    pub open spec fn tab(self) -> GridState {
        GridState {
            cursor_col: vstd::math::min(self.cols - 1, (self.cursor_col / 8 + 1) * 8),
            ..self
        }
    }

    /// LF: to the first column of the next row, stopping at the last row.
    pub open spec fn line_feed(self) -> GridState {
        GridState {
            cursor_col: 0,
            cursor_row: vstd::math::min(self.rows - 1, self.cursor_row + 1),
            ..self
        }
    }

    /// CR: to the first column.
    pub open spec fn carriage_return(self) -> GridState {
        GridState { cursor_col: 0, ..self }
    }

    /// CUP with one-based `row` and `col`, zero standing for one.
    pub open spec fn cursor_position(self, row: int, col: int) -> GridState {
        self.with_cursor(at_least_one(col) - 1, at_least_one(row) - 1)
    }

    /// CUU: `n` rows up.
    pub open spec fn cursor_up(self, n: int) -> GridState {
        self.with_cursor(self.cursor_col, self.cursor_row - at_least_one(n))
    }

    /// CUD: `n` rows down.
    pub open spec fn cursor_down(self, n: int) -> GridState {
        self.with_cursor(self.cursor_col, self.cursor_row + at_least_one(n))
    }

    /// CUF: `n` columns to the right.
    pub open spec fn cursor_forward(self, n: int) -> GridState {
        self.with_cursor(self.cursor_col + at_least_one(n), self.cursor_row)
    }

    /// CUB: `n` columns to the left.
    pub open spec fn cursor_back(self, n: int) -> GridState {
        self.with_cursor(self.cursor_col - at_least_one(n), self.cursor_row)
    }

    /// The cells from `(r0, c0)` to `(r1, c1)`, in reading order, erased.
    pub open spec fn erase_span(self, r0: int, c0: int, r1: int, c1: int) -> GridState {
        GridState {
            cells: Seq::new(
                self.rows as nat,
                |r: int|
                    Seq::new(
                        self.cols as nat,
                        |c: int|
                            if in_span(r, c, r0, c0, r1, c1) {
                                blank_cell()
                            } else {
                                self.cells[r][c]
                            },
                    ),
            ),
            ..self
        }
    }

    /// ED: mode 0 erases from the cursor to the end of the grid, mode 1 from
    /// the start to the cursor, mode 2 everything and homes the cursor.
    pub open spec fn erase_display(self, mode: int) -> GridState {
        if mode == 0 {
            self.erase_span(self.cursor_row, self.cursor_col, self.rows - 1, self.cols - 1)
        } else if mode == 1 {
            self.erase_span(0, 0, self.cursor_row, self.cursor_col)
        } else if mode == 2 {
            self.erase_span(0, 0, self.rows - 1, self.cols - 1).with_cursor(0, 0)
        } else {
            self
        }
    }

    /// EL: as ED, within the cursor's row; the cursor stays.
    pub open spec fn erase_line(self, mode: int) -> GridState {
        if mode == 0 {
            self.erase_span(self.cursor_row, self.cursor_col, self.cursor_row, self.cols - 1)
        } else if mode == 1 {
            self.erase_span(self.cursor_row, 0, self.cursor_row, self.cursor_col)
        } else if mode == 2 {
            self.erase_span(self.cursor_row, 0, self.cursor_row, self.cols - 1)
        } else {
            self
        }
    }

    /// How many rows an insertion or deletion of `n` lines at the cursor moves.
    pub open spec fn line_shift(self, n: int) -> int {
        vstd::math::min(at_least_one(n), self.rows - self.cursor_row)
    }

    /// IL: the rows from the cursor's row on move down by `n`; the rows they
    /// leave are erased and the rows pushed off the grid are lost.
    pub open spec fn insert_lines(self, n: int) -> GridState {
        let k = self.line_shift(n);
        GridState {
            cells: Seq::new(
                self.rows as nat,
                |r: int|
                    if r < self.cursor_row {
                        self.cells[r]
                    } else if r < self.cursor_row + k {
                        blank_row(self.cols)
                    } else {
                        self.cells[r - k]
                    },
            ),
            ..self
        }
    }

    /// DL: the rows below the `n` deleted ones move up; the rows they leave
    /// at the bottom are erased.
    pub open spec fn delete_lines(self, n: int) -> GridState {
        let k = self.line_shift(n);
        GridState {
            cells: Seq::new(
                self.rows as nat,
                |r: int|
                    if r < self.cursor_row {
                        self.cells[r]
                    } else if r < self.rows - k {
                        self.cells[r + k]
                    } else {
                        blank_row(self.cols)
                    },
            ),
            ..self
        }
    }

    /// One SGR parameter applied to the pen; unknown codes change nothing.
    pub open spec fn select_rendition(self, code: int) -> GridState {
        if code == 0 {
            GridState { fg: Colour::Default, bg: Colour::Default, ..self }
        } else if 30 <= code <= 37 {
            GridState { fg: palette(code - 30), ..self }
        } else if 90 <= code <= 97 {
            GridState { fg: palette(code - 90 + 8), ..self }
        } else if code == 39 {
            GridState { fg: Colour::Default, ..self }
        } else if 40 <= code <= 47 {
            GridState { bg: palette(code - 40), ..self }
        } else if 100 <= code <= 107 {
            GridState { bg: palette(code - 100 + 8), ..self }
        } else if code == 49 {
            GridState { bg: Colour::Default, ..self }
        } else {
            self
        }
    }

    /// The SGR parameters applied to the pen from left to right.
    pub open spec fn select_renditions(self, params: Seq<u16>) -> GridState
        decreases params.len(),
    {
        if params.len() == 0 {
            self
        } else {
            self.select_renditions(params.drop_last()).select_rendition(params.last() as int)
        }
    }

    /// SGR: no parameter resets the pen, else each parameter is applied in turn.
    pub open spec fn sgr(self, params: Seq<u16>) -> GridState {
        if params.len() == 0 {
            self.select_rendition(0)
        } else {
            self.select_renditions(params)
        }
    }

    /// RIS: the grid as new, at its size.
    pub open spec fn reset(self) -> GridState {
        GridState::fresh(self.cols, self.rows)
    }

    /// The grid at a new size: the overlapping region keeps its cells, the
    /// rest is erased, the cursor is clamped and the pen stays.
    pub open spec fn resize(self, cols: int, rows: int) -> GridState {
        GridState {
            cols,
            rows,
            cells: Seq::new(
                rows as nat,
                |r: int|
                    Seq::new(
                        cols as nat,
                        |c: int|
                            if r < self.rows && c < self.cols {
                                self.cells[r][c]
                            } else {
                                blank_cell()
                            },
                    ),
            ),
            cursor_col: vstd::math::min(self.cursor_col, cols - 1),
            cursor_row: vstd::math::min(self.cursor_row, rows - 1),
            fg: self.fg,
            bg: self.bg,
        }
    }

    /// Row `row` with `text` written over it from the first column on, in
    /// the given colours, cut off at the last column.
    pub open spec fn write_row(self, row: int, text: Seq<char>, fg: Colour, bg: Colour) -> GridState {
        let written = styled(text, fg, bg);
        GridState {
            cells: self.cells.update(
                row,
                Seq::new(
                    self.cols as nat,
                    |c: int|
                        if 0 <= c < written.len() {
                            written[c]
                        } else {
                            self.cells[row][c]
                        },
                ),
            ),
            ..self
        }
    }

    /// The characters of row `r`, left to right.
    pub open spec fn row_text(self, r: int) -> Seq<char> {
        Seq::new(self.cols as nat, |c: int| self.cells[r][c].ch)
    }

    /// The colours of row `r`, left to right, as (foreground, background).
    pub open spec fn row_colours(self, r: int) -> Seq<(Colour, Colour)> {
        Seq::new(self.cols as nat, |c: int| (self.cells[r][c].fg, self.cells[r][c].bg))
    }
}

/// The colour at `index` of the sixteen-colour palette.
pub fn palette_colour(index: u8) -> (colour: Colour)
    ensures
        colour == palette(index as int),
{
    match index {
        0 => Colour::Black,
        1 => Colour::Red,
        2 => Colour::Green,
        3 => Colour::Yellow,
        4 => Colour::Blue,
        5 => Colour::Magenta,
        6 => Colour::Cyan,
        7 => Colour::White,
        8 => Colour::BrightBlack,
        9 => Colour::BrightRed,
        10 => Colour::BrightGreen,
        11 => Colour::BrightYellow,
        12 => Colour::BrightBlue,
        13 => Colour::BrightMagenta,
        14 => Colour::BrightCyan,
        15 => Colour::BrightWhite,
        _ => Colour::Default,
    }
}

/// A rectangular screen of cells with a cursor and a pen.
pub struct Grid {
    cols: u16,
    rows: u16,
    cells: Vec<Vec<Cell>>,
    cursor_col: u16,
    cursor_row: u16,
    fg: Colour,
    bg: Colour,
}

impl View for Grid {
    type V = GridState;

    closed spec fn view(&self) -> GridState {
        GridState {
            cols: self.cols as int,
            rows: self.rows as int,
            cells: Seq::new(self.cells.len() as nat, |r: int| self.cells[r]@),
            cursor_col: self.cursor_col as int,
            cursor_row: self.cursor_row as int,
            fg: self.fg,
            bg: self.bg,
        }
    }
}

/// A row of `cols` erased cells.
fn make_blank_row(cols: u16) -> (row: Vec<Cell>)
    ensures
        row@ == blank_row(cols as int),
{
    let mut row: Vec<Cell> = Vec::new();
    let mut c: u16 = 0;
    while c < cols
        invariant
            c <= cols,
            row@.len() == c,
            forall|i: int| 0 <= i < c ==> row@[i] == blank_cell(),
        decreases cols - c,
    {
        row.push(Cell { ch: ' ', fg: Colour::Default, bg: Colour::Default });
        c += 1;
    }
    assert(row@ =~= blank_row(cols as int));
    row
}

/// The cells that hold the characters of `text` in the given colours.
fn style_text(text: &str, fg: Colour, bg: Colour) -> (cells: Vec<Cell>)
    ensures
        cells@ == styled(text@, fg, bg),
{
    let len = text.unicode_len();
    let mut cells: Vec<Cell> = Vec::new();
    let mut i: usize = 0;
    while i < len
        invariant
            i <= len,
            len == text@.len(),
            cells@.len() == i,
            forall|j: int| 0 <= j < i ==> (#[trigger] cells@[j]) == styled(text@, fg, bg)[j],
        decreases len - i,
    {
        let ch = text.get_char(i);
        proof {
            vstd::utf8::char_u32_cast(ch, ch as u32);
        }
        cells.push(Cell { ch, fg, bg });
        i += 1;
    }
    assert(cells@ =~= styled(text@, fg, bg));
    cells
}

impl Grid {
    /// The invariant of a grid: its model is well formed.
    pub open spec fn wf(&self) -> bool {
        self@.wf()
    }

    /// A grid of `cols` by `rows` erased cells.
    pub fn new(cols: u16, rows: u16) -> (grid: Grid)
        requires
            cols > 0,
            rows > 0,
        ensures
            grid.wf(),
            grid@ == GridState::fresh(cols as int, rows as int),
    {
        let mut cells: Vec<Vec<Cell>> = Vec::new();
        let mut r: u16 = 0;
        while r < rows
            invariant
                r <= rows,
                cells@.len() == r,
                forall|i: int| 0 <= i < r ==> (#[trigger] cells@[i])@ == blank_row(cols as int),
            decreases rows - r,
        {
            cells.push(make_blank_row(cols));
            r += 1;
        }
        let grid = Grid {
            cols,
            rows,
            cells,
            cursor_col: 0,
            cursor_row: 0,
            fg: Colour::Default,
            bg: Colour::Default,
        };
        assert(grid@.cells =~= GridState::fresh(cols as int, rows as int).cells);
        grid
    }

    /// The number of columns.
    pub fn cols(&self) -> (n: u16)
        ensures
            n == self@.cols,
    {
        self.cols
    }

    /// The number of rows.
    pub fn rows(&self) -> (n: u16)
        ensures
            n == self@.rows,
    {
        self.rows
    }

    /// The cursor as (column, row).
    pub fn cursor(&self) -> (at: (u16, u16))
        ensures
            at.0 == self@.cursor_col,
            at.1 == self@.cursor_row,
    {
        (self.cursor_col, self.cursor_row)
    }

    /// The pen as (foreground, background).
    pub fn pen(&self) -> (pen: (Colour, Colour))
        ensures
            pen.0 == self@.fg,
            pen.1 == self@.bg,
    {
        (self.fg, self.bg)
    }

    /// The cell at column `col` of row `row`.
    pub fn cell(&self, col: u16, row: u16) -> (cell: Cell)
        requires
            self.wf(),
            col < self@.cols,
            row < self@.rows,
        ensures
            cell == self@.cells[row as int][col as int],
    {
        self.cells[row as usize][col as usize]
    }

    /// Writes `ch` at the cursor with the pen and advances the cursor.
    pub fn put_char(&mut self, ch: char)
        requires
            old(self).wf(),
        ensures
            final(self).wf(),
            final(self)@ == old(self)@.put_char(ch),
    {
        let cell = Cell { ch, fg: self.fg, bg: self.bg };
        let r = self.cursor_row as usize;
        let c = self.cursor_col as usize;
        self.cells[r][c] = cell;
        if self.cursor_col + 1 == self.cols {
            self.cursor_col = 0;
            if self.cursor_row + 1 < self.rows {
                self.cursor_row = self.cursor_row + 1;
            }
        } else {
            self.cursor_col = self.cursor_col + 1;
        }
        assert(self@.cells =~= old(self)@.put_char(ch).cells);
    }

    /// Moves the cursor one column to the left, stopping at the first.
    pub fn backspace(&mut self)
        requires
            old(self).wf(),
        ensures
            final(self).wf(),
            final(self)@ == old(self)@.backspace(),
    {
        if self.cursor_col > 0 {
            self.cursor_col = self.cursor_col - 1;
        }
    }

    /// Moves the cursor to the next tab stop, stopping at the last column.
    pub fn tab(&mut self)
        requires
            old(self).wf(),
        ensures
            final(self).wf(),
            final(self)@ == old(self)@.tab(),
    {
        let next: u32 = (self.cursor_col as u32 / 8 + 1) * 8;
        if next < self.cols as u32 {
            self.cursor_col = next as u16;
        } else {
            self.cursor_col = self.cols - 1;
        }
    }

    /// Moves the cursor to the first column of the next row, stopping at the last row.
    pub fn line_feed(&mut self)
        requires
            old(self).wf(),
        ensures
            final(self).wf(),
            final(self)@ == old(self)@.line_feed(),
    {
        if self.cursor_row + 1 < self.rows {
            self.cursor_row = self.cursor_row + 1;
        }
        self.cursor_col = 0;
    }

    /// Moves the cursor to the first column.
    pub fn carriage_return(&mut self)
        requires
            old(self).wf(),
        ensures
            final(self).wf(),
            final(self)@ == old(self)@.carriage_return(),
    {
        self.cursor_col = 0;
    }

    /// Moves the cursor to the one-based `(row, col)`, clamped into the grid.
    pub fn cursor_position(&mut self, row: u16, col: u16)
        requires
            old(self).wf(),
        ensures
            final(self).wf(),
            final(self)@ == old(self)@.cursor_position(row as int, col as int),
    {
        let col0: u16 = if col == 0 { 0 } else { col - 1 };
        let row0: u16 = if row == 0 { 0 } else { row - 1 };
        self.cursor_col = if col0 < self.cols { col0 } else { self.cols - 1 };
        self.cursor_row = if row0 < self.rows { row0 } else { self.rows - 1 };
    }

    /// Moves the cursor `n` rows up, stopping at the first.
    pub fn cursor_up(&mut self, n: u16)
        requires
            old(self).wf(),
        ensures
            final(self).wf(),
            final(self)@ == old(self)@.cursor_up(n as int),
    {
        let n: u16 = if n == 0 { 1 } else { n };
        self.cursor_row = if n <= self.cursor_row { self.cursor_row - n } else { 0 };
    }

    /// Moves the cursor `n` rows down, stopping at the last.
    pub fn cursor_down(&mut self, n: u16)
        requires
            old(self).wf(),
        ensures
            final(self).wf(),
            final(self)@ == old(self)@.cursor_down(n as int),
    {
        let n: u16 = if n == 0 { 1 } else { n };
        let room: u16 = self.rows - 1 - self.cursor_row;
        self.cursor_row = if n <= room { self.cursor_row + n } else { self.rows - 1 };
    }

    /// Moves the cursor `n` columns to the right, stopping at the last.
    pub fn cursor_forward(&mut self, n: u16)
        requires
            old(self).wf(),
        ensures
            final(self).wf(),
            final(self)@ == old(self)@.cursor_forward(n as int),
    {
        let n: u16 = if n == 0 { 1 } else { n };
        let room: u16 = self.cols - 1 - self.cursor_col;
        self.cursor_col = if n <= room { self.cursor_col + n } else { self.cols - 1 };
    }

    /// Moves the cursor `n` columns to the left, stopping at the first.
    pub fn cursor_back(&mut self, n: u16)
        requires
            old(self).wf(),
        ensures
            final(self).wf(),
            final(self)@ == old(self)@.cursor_back(n as int),
    {
        let n: u16 = if n == 0 { 1 } else { n };
        self.cursor_col = if n <= self.cursor_col { self.cursor_col - n } else { 0 };
    }

    /// Erases the cells from `(r0, c0)` to `(r1, c1)`, in reading order.
    fn erase_span(&mut self, r0: u16, c0: u16, r1: u16, c1: u16)
        requires
            old(self).wf(),
        ensures
            final(self).wf(),
            final(self)@ == old(self)@.erase_span(r0 as int, c0 as int, r1 as int, c1 as int),
    {
        let ghost before = self@;
        let rows = self.rows;
        let cols = self.cols;
        assert forall|i: int| 0 <= i < rows implies (#[trigger] self.cells@[i])@ == before.cells[i] by {
            assert(self@.cells[i] == self.cells@[i]@);
        }
        let mut r: u16 = 0;
        while r < rows
            invariant
                r <= rows,
                rows == before.rows,
                cols == before.cols,
                before.wf(),
                self.cols == cols,
                self.rows == rows,
                self.cursor_col == before.cursor_col,
                self.cursor_row == before.cursor_row,
                self.fg == before.fg,
                self.bg == before.bg,
                self.cells@.len() == rows,
                forall|i: int| 0 <= i < rows ==> (#[trigger] self.cells@[i])@.len() == cols,
                forall|i: int, j: int|
                    0 <= i < rows && 0 <= j < cols ==> (#[trigger] self.cells@[i]@[j]) == (if i < r
                        && in_span(i, j, r0 as int, c0 as int, r1 as int, c1 as int) {
                        blank_cell()
                    } else {
                        before.cells[i][j]
                    }),
            decreases rows - r,
        {
            let mut c: u16 = 0;
            while c < cols
                invariant
                    c <= cols,
                    r < rows,
                    rows == before.rows,
                    cols == before.cols,
                    before.wf(),
                    self.cols == cols,
                    self.rows == rows,
                    self.cursor_col == before.cursor_col,
                    self.cursor_row == before.cursor_row,
                    self.fg == before.fg,
                    self.bg == before.bg,
                    self.cells@.len() == rows,
                    forall|i: int| 0 <= i < rows ==> (#[trigger] self.cells@[i])@.len() == cols,
                    forall|i: int, j: int|
                        0 <= i < rows && 0 <= j < cols ==> (#[trigger] self.cells@[i]@[j]) == (if (i
                            < r || (i == r && j < c)) && in_span(
                            i,
                            j,
                            r0 as int,
                            c0 as int,
                            r1 as int,
                            c1 as int,
                        ) {
                            blank_cell()
                        } else {
                            before.cells[i][j]
                        }),
                decreases cols - c,
            {
                let inside = (r0 < r || (r0 == r && c0 <= c)) && (r < r1 || (r == r1 && c <= c1));
                if inside {
                    self.cells[r as usize][c as usize] = Cell {
                        ch: ' ',
                        fg: Colour::Default,
                        bg: Colour::Default,
                    };
                }
                c += 1;
            }
            r += 1;
        }
        proof {
            let goal = before.erase_span(r0 as int, c0 as int, r1 as int, c1 as int);
            assert forall|i: int| 0 <= i < rows implies #[trigger] self@.cells[i] == goal.cells[i] by {
                assert(self@.cells[i] =~= goal.cells[i]);
            }
            assert(self@.cells =~= goal.cells);
        }
    }

    /// ED: erases part of the display according to `mode`.
    pub fn erase_display(&mut self, mode: u16)
        requires
            old(self).wf(),
        ensures
            final(self).wf(),
            final(self)@ == old(self)@.erase_display(mode as int),
    {
        if mode == 0 {
            self.erase_span(self.cursor_row, self.cursor_col, self.rows - 1, self.cols - 1);
        } else if mode == 1 {
            self.erase_span(0, 0, self.cursor_row, self.cursor_col);
        } else if mode == 2 {
            self.erase_span(0, 0, self.rows - 1, self.cols - 1);
            self.cursor_col = 0;
            self.cursor_row = 0;
        }
    }

    /// EL: erases part of the cursor's row according to `mode`.
    pub fn erase_line(&mut self, mode: u16)
        requires
            old(self).wf(),
        ensures
            final(self).wf(),
            final(self)@ == old(self)@.erase_line(mode as int),
    {
        if mode == 0 {
            self.erase_span(self.cursor_row, self.cursor_col, self.cursor_row, self.cols - 1);
        } else if mode == 1 {
            self.erase_span(self.cursor_row, 0, self.cursor_row, self.cursor_col);
        } else if mode == 2 {
            self.erase_span(self.cursor_row, 0, self.cursor_row, self.cols - 1);
        }
    }

    /// IL: inserts `n` erased rows at the cursor's row.
    pub fn insert_lines(&mut self, n: u16)
        requires
            old(self).wf(),
        ensures
            final(self).wf(),
            final(self)@ == old(self)@.insert_lines(n as int),
    {
        let ghost before = self@;
        let n: u16 = if n == 0 { 1 } else { n };
        let room: u16 = self.rows - self.cursor_row;
        let k: u16 = if n < room { n } else { room };
        let at = self.cursor_row as usize;
        let cols = self.cols;
        let mut done: u16 = 0;
        while done < k
            invariant
                done <= k,
                k <= before.rows - before.cursor_row,
                at == before.cursor_row,
                cols == before.cols,
                before.wf(),
                self.cols == before.cols,
                self.rows == before.rows,
                self.cursor_col == before.cursor_col,
                self.cursor_row == before.cursor_row,
                self.fg == before.fg,
                self.bg == before.bg,
                self.cells@.len() == before.rows,
                forall|i: int|
                    0 <= i < before.rows ==> (#[trigger] self.cells@[i])@ == (if i < at {
                        before.cells[i]
                    } else if i < at + done {
                        blank_row(cols as int)
                    } else {
                        before.cells[i - done]
                    }),
            decreases k - done,
        {
            let last = self.cells.len() - 1;
            self.cells.remove(last);
            self.cells.insert(at, make_blank_row(cols));
            done += 1;
        }
        assert(self@.cells =~= before.insert_lines(n as int).cells);
    }

    /// DL: deletes `n` rows at the cursor's row.
    pub fn delete_lines(&mut self, n: u16)
        requires
            old(self).wf(),
        ensures
            final(self).wf(),
            final(self)@ == old(self)@.delete_lines(n as int),
    {
        let ghost before = self@;
        let n: u16 = if n == 0 { 1 } else { n };
        let room: u16 = self.rows - self.cursor_row;
        let k: u16 = if n < room { n } else { room };
        let at = self.cursor_row as usize;
        let cols = self.cols;
        let mut done: u16 = 0;
        while done < k
            invariant
                done <= k,
                k <= before.rows - before.cursor_row,
                at == before.cursor_row,
                cols == before.cols,
                before.wf(),
                self.cols == before.cols,
                self.rows == before.rows,
                self.cursor_col == before.cursor_col,
                self.cursor_row == before.cursor_row,
                self.fg == before.fg,
                self.bg == before.bg,
                self.cells@.len() == before.rows,
                forall|i: int|
                    0 <= i < before.rows ==> (#[trigger] self.cells@[i])@ == (if i < at {
                        before.cells[i]
                    } else if i < before.rows - done {
                        before.cells[i + done]
                    } else {
                        blank_row(cols as int)
                    }),
            decreases k - done,
        {
            self.cells.remove(at);
            self.cells.push(make_blank_row(cols));
            done += 1;
        }
        assert(self@.cells =~= before.delete_lines(n as int).cells);
    }

    /// Applies one SGR parameter to the pen.
    pub fn select_rendition(&mut self, code: u16)
        requires
            old(self).wf(),
        ensures
            final(self).wf(),
            final(self)@ == old(self)@.select_rendition(code as int),
    {
        if code == 0 {
            self.fg = Colour::Default;
            self.bg = Colour::Default;
        } else if 30 <= code && code <= 37 {
            self.fg = palette_colour((code - 30) as u8);
        } else if 90 <= code && code <= 97 {
            self.fg = palette_colour((code - 90 + 8) as u8);
        } else if code == 39 {
            self.fg = Colour::Default;
        } else if 40 <= code && code <= 47 {
            self.bg = palette_colour((code - 40) as u8);
        } else if 100 <= code && code <= 107 {
            self.bg = palette_colour((code - 100 + 8) as u8);
        } else if code == 49 {
            self.bg = Colour::Default;
        }
    }

    /// SGR: updates the pen from the parameters of one sequence.
    pub fn sgr(&mut self, params: &Vec<u16>)
        requires
            old(self).wf(),
        ensures
            final(self).wf(),
            final(self)@ == old(self)@.sgr(params@),
    {
        if params.len() == 0 {
            self.select_rendition(0);
            return ;
        }
        let ghost before = self@;
        let mut i: usize = 0;
        while i < params.len()
            invariant
                i <= params.len(),
                self.wf(),
                self@ == before.select_renditions(params@.take(i as int)),
            decreases params.len() - i,
        {
            assert(params@.take(i + 1).drop_last() =~= params@.take(i as int));
            self.select_rendition(params[i]);
            i += 1;
        }
        assert(params@.take(params.len() as int) =~= params@);
    }

    /// RIS: erases the grid, resets the pen and homes the cursor.
    pub fn reset(&mut self)
        requires
            old(self).wf(),
        ensures
            final(self).wf(),
            final(self)@ == old(self)@.reset(),
    {
        let ghost before = self@;
        self.erase_span(0, 0, self.rows - 1, self.cols - 1);
        self.cursor_col = 0;
        self.cursor_row = 0;
        self.fg = Colour::Default;
        self.bg = Colour::Default;
        proof {
            let goal = before.reset();
            assert forall|i: int| 0 <= i < before.rows implies #[trigger] self@.cells[i]
                == goal.cells[i] by {
                assert(self@.cells[i] =~= goal.cells[i]);
            }
            assert(self@.cells =~= goal.cells);
        }
    }

    /// Changes the size of the grid: cells in the overlap stay where they
    /// are, new cells are erased and the cursor is clamped.
    pub fn resize(&mut self, cols: u16, rows: u16)
        requires
            old(self).wf(),
            cols > 0,
            rows > 0,
        ensures
            final(self).wf(),
            final(self)@ == old(self)@.resize(cols as int, rows as int),
    {
        let ghost before = self@;
        let mut cells: Vec<Vec<Cell>> = Vec::new();
        let mut r: u16 = 0;
        while r < rows
            invariant
                r <= rows,
                self@ == before,
                before.wf(),
                cells@.len() == r,
                forall|i: int| 0 <= i < r ==> (#[trigger] cells@[i])@ == before.resize(
                    cols as int,
                    rows as int,
                ).cells[i],
            decreases rows - r,
        {
            let mut row: Vec<Cell> = Vec::new();
            let mut c: u16 = 0;
            while c < cols
                invariant
                    c <= cols,
                    r < rows,
                    self@ == before,
                    before.wf(),
                    row@.len() == c,
                    forall|j: int|
                        0 <= j < c ==> (#[trigger] row@[j]) == (if r < before.rows && j
                            < before.cols {
                            before.cells[r as int][j]
                        } else {
                            blank_cell()
                        }),
                decreases cols - c,
            {
                if r < self.rows && c < self.cols {
                    row.push(self.cells[r as usize][c as usize]);
                } else {
                    row.push(Cell { ch: ' ', fg: Colour::Default, bg: Colour::Default });
                }
                c += 1;
            }
            assert(row@ =~= before.resize(cols as int, rows as int).cells[r as int]);
            cells.push(row);
            r += 1;
        }
        self.cells = cells;
        self.cols = cols;
        self.rows = rows;
        if self.cursor_col >= cols {
            self.cursor_col = cols - 1;
        }
        if self.cursor_row >= rows {
            self.cursor_row = rows - 1;
        }
        assert(self@.cells =~= before.resize(cols as int, rows as int).cells);
    }

    /// Writes `text` over row `row` from the first column on, in the given
    /// colours, cut off at the last column.
    pub fn write_row(&mut self, row: u16, text: &str, fg: Colour, bg: Colour)
        requires
            old(self).wf(),
            row < old(self)@.rows,
        ensures
            final(self).wf(),
            final(self)@ == old(self)@.write_row(row as int, text@, fg, bg),
    {
        let ghost before = self@;
        let written = style_text(text, fg, bg);
        let len = written.len();
        let cols = self.cols;
        assert forall|i: int| 0 <= i < self.rows implies (#[trigger] self.cells@[i])@
            == before.cells[i] by {
            assert(self@.cells[i] == self.cells@[i]@);
        }
        let mut c: u16 = 0;
        while c < cols && (c as usize) < len
            invariant
                c <= cols,
                c <= len,
                len == written@.len(),
                cols == before.cols,
                row < before.rows,
                before.wf(),
                self.cols == before.cols,
                self.rows == before.rows,
                self.cursor_col == before.cursor_col,
                self.cursor_row == before.cursor_row,
                self.fg == before.fg,
                self.bg == before.bg,
                self.cells@.len() == before.rows,
                forall|i: int|
                    0 <= i < before.rows && i != row ==> (#[trigger] self.cells@[i])@
                        == before.cells[i],
                self.cells@[row as int]@.len() == cols,
                forall|j: int|
                    0 <= j < cols ==> (#[trigger] self.cells@[row as int]@[j]) == (if j < c {
                        written@[j]
                    } else {
                        before.cells[row as int][j]
                    }),
            decreases cols - c,
        {
            self.cells[row as usize][c as usize] = written[c as usize];
            c += 1;
        }
        proof {
            let goal = before.write_row(row as int, text@, fg, bg);
            assert(self@.cells[row as int] == self.cells@[row as int]@);
            assert(self@.cells[row as int] =~= goal.cells[row as int]);
            assert forall|i: int| 0 <= i < before.rows implies #[trigger] self@.cells[i]
                == goal.cells[i] by {
                assert(self@.cells[i] == self.cells@[i]@);
            }
            assert(self@.cells =~= goal.cells);
        }
    }

    /// The characters of row `row`, left to right.
    pub fn row_chars(&self, row: u16) -> (text: Vec<char>)
        requires
            self.wf(),
            row < self@.rows,
        ensures
            text@ == self@.row_text(row as int),
    {
        let mut text: Vec<char> = Vec::new();
        let mut c: u16 = 0;
        while c < self.cols
            invariant
                c <= self.cols,
                self.wf(),
                row < self@.rows,
                text@.len() == c,
                forall|j: int| 0 <= j < c ==> (#[trigger] text@[j]) == self@.cells[row as int][j].ch,
            decreases self.cols - c,
        {
            text.push(self.cells[row as usize][c as usize].ch);
            c += 1;
        }
        assert(text@ =~= self@.row_text(row as int));
        text
    }

    /// The colours of row `row`, left to right, as (foreground, background).
    pub fn row_colours(&self, row: u16) -> (colours: Vec<(Colour, Colour)>)
        requires
            self.wf(),
            row < self@.rows,
        ensures
            colours@ == self@.row_colours(row as int),
    {
        let mut colours: Vec<(Colour, Colour)> = Vec::new();
        let mut c: u16 = 0;
        while c < self.cols
            invariant
                c <= self.cols,
                self.wf(),
                row < self@.rows,
                colours@.len() == c,
                forall|j: int|
                    0 <= j < c ==> (#[trigger] colours@[j]) == (
                        self@.cells[row as int][j].fg,
                        self@.cells[row as int][j].bg,
                    ),
            decreases self.cols - c,
        {
            let cell = self.cells[row as usize][c as usize];
            colours.push((cell.fg, cell.bg));
            c += 1;
        }
        assert(colours@ =~= self@.row_colours(row as int));
        colours
    }

    /// The cells of row `row`, left to right.
    pub fn row_cells(&self, row: u16) -> (cells: Vec<Cell>)
        requires
            self.wf(),
            row < self@.rows,
        ensures
            cells@ == self@.cells[row as int],
    {
        let mut cells: Vec<Cell> = Vec::new();
        let mut c: u16 = 0;
        while c < self.cols
            invariant
                c <= self.cols,
                self.wf(),
                row < self@.rows,
                cells@.len() == c,
                forall|j: int| 0 <= j < c ==> (#[trigger] cells@[j]) == self@.cells[row as int][j],
            decreases self.cols - c,
        {
            assert(self@.cells[row as int] == self.cells@[row as int]@);
            cells.push(self.cells[row as usize][c as usize]);
            c += 1;
        }
        assert(cells@ =~= self@.cells[row as int]);
        cells
    }
}

} // verus!
