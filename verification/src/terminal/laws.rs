//! What holds of every screen: the invariants that feeding keeps, and the
//! round trips between emitted sequences and the parser.

use vstd::prelude::*;
use crate::terminal::grid::{Cell, Colour, GridState, at_least_one};
use crate::terminal::keys::utf8_of;
use crate::terminal::parser::{ParserModel, ParserState, Screen, csi_dispatch, is_scalar_value};
use crate::terminal::emit::{bg_code, cup_bytes, decimal, fg_code, sgr_bytes, sgr_code_bytes};

verus! {

/// The parameters with their last one replaced by `value`; `value` alone where
/// there is none.
pub open spec fn with_last(params: Seq<u16>, value: u16) -> Seq<u16> {
    if params.len() == 0 {
        seq![value]
    } else {
        params.update(params.len() - 1, value)
    }
}

/// Every operation on a well-formed grid gives a well-formed grid of the same size.
pub proof fn lemma_grid_operations_keep_wf(g: GridState, ch: char, n: int, m: int)
    requires
        g.wf(),
    ensures
        g.put_char(ch).wf(),
        g.backspace().wf(),
        g.tab().wf(),
        g.line_feed().wf(),
        g.carriage_return().wf(),
        g.cursor_position(n, m).wf(),
        g.cursor_up(n).wf(),
        g.cursor_down(n).wf(),
        g.cursor_forward(n).wf(),
        g.cursor_back(n).wf(),
        g.erase_display(n).wf(),
        g.erase_line(n).wf(),
        g.insert_lines(n).wf(),
        g.delete_lines(n).wf(),
        g.select_rendition(n).wf(),
        g.reset().wf(),
        g.put_char(ch).cols == g.cols && g.put_char(ch).rows == g.rows,
        g.erase_display(n).cols == g.cols && g.erase_display(n).rows == g.rows,
        g.erase_line(n).cols == g.cols && g.erase_line(n).rows == g.rows,
        g.insert_lines(n).cols == g.cols && g.insert_lines(n).rows == g.rows,
        g.delete_lines(n).cols == g.cols && g.delete_lines(n).rows == g.rows,
        g.select_rendition(n).cols == g.cols && g.select_rendition(n).rows == g.rows,
{
    let p = g.put_char(ch);
    assert forall|r: int| 0 <= r < p.rows implies (#[trigger] p.cells[r]).len() == p.cols by {
        if r != g.cursor_row {
            assert(p.cells[r] == g.cells[r]);
        }
    }
    let i = g.insert_lines(n);
    assert forall|r: int| 0 <= r < i.rows implies (#[trigger] i.cells[r]).len() == i.cols by {
        let k = g.line_shift(n);
        if r >= g.cursor_row + k {
            assert(i.cells[r] == g.cells[r - k]);
        }
    }
    let d = g.delete_lines(n);
    assert forall|r: int| 0 <= r < d.rows implies (#[trigger] d.cells[r]).len() == d.cols by {
        let k = g.line_shift(n);
        if g.cursor_row <= r < g.rows - k {
            assert(d.cells[r] == g.cells[r + k]);
        }
    }
}

/// The SGR parameters change the pen and nothing else.
pub proof fn lemma_sgr_keeps_wf(g: GridState, params: Seq<u16>)
    requires
        g.wf(),
    ensures
        g.select_renditions(params).wf(),
        g.sgr(params).wf(),
        g.sgr(params).cols == g.cols,
        g.sgr(params).rows == g.rows,
        g.sgr(params).cells == g.cells,
        g.sgr(params).cursor_col == g.cursor_col,
        g.sgr(params).cursor_row == g.cursor_row,
        g.select_renditions(params).cols == g.cols,
        g.select_renditions(params).rows == g.rows,
        g.select_renditions(params).cells == g.cells,
        g.select_renditions(params).cursor_col == g.cursor_col,
        g.select_renditions(params).cursor_row == g.cursor_row,
    decreases params.len(),
{
    if params.len() > 0 {
        lemma_sgr_keeps_wf(g, params.drop_last());
    }
}

/// A control sequence gives a well-formed grid of the same size.
pub proof fn lemma_dispatch_keeps_wf(g: GridState, params: Seq<u16>, last: u8)
    requires
        g.wf(),
    ensures
        csi_dispatch(g, params, last).wf(),
        csi_dispatch(g, params, last).cols == g.cols,
        csi_dispatch(g, params, last).rows == g.rows,
{
    let first = crate::terminal::parser::param_or_zero(params, 0);
    let second = crate::terminal::parser::param_or_zero(params, 1);
    lemma_grid_operations_keep_wf(g, ' ', first, second);
    lemma_sgr_keeps_wf(g, params);
}

/// One byte leaves a well-formed screen well formed and at its size.
pub proof fn lemma_step_keeps_wf(s: Screen, byte: u8)
    requires
        s.wf(),
    ensures
        s.step(byte).wf(),
        s.step(byte).grid.cols == s.grid.cols,
        s.step(byte).grid.rows == s.grid.rows,
{
    lemma_grid_operations_keep_wf(s.grid, byte as char, 0, 0);
    match s.parser.state {
        ParserState::Ground => {
            if s.parser.pending > 0 && 0x80 <= byte <= 0xBF {
                let scalar = s.parser.scalar * 64 + (byte - 0x80);
                if is_scalar_value(scalar) {
                    lemma_grid_operations_keep_wf(s.grid, scalar as char, 0, 0);
                }
            }
        },
        ParserState::Escape => {},
        ParserState::CsiEntry => {
            lemma_dispatch_keeps_wf(s.grid, s.parser.params, byte);
        },
        ParserState::CsiParam => {
            lemma_dispatch_keeps_wf(s.grid, s.parser.params, byte);
        },
        ParserState::OscString => {},
    }
}

/// Whatever bytes are fed to a well-formed screen, the screen stays well
/// formed: the grid keeps its size and the cursor stays inside it.
pub proof fn lemma_feed_keeps_cursor_inside(s: Screen, bytes: Seq<u8>)
    requires
        s.wf(),
    ensures
        s.feed(bytes).wf(),
        s.feed(bytes).grid.cols == s.grid.cols,
        s.feed(bytes).grid.rows == s.grid.rows,
        0 <= s.feed(bytes).grid.cursor_col < s.grid.cols,
        0 <= s.feed(bytes).grid.cursor_row < s.grid.rows,
    decreases bytes.len(),
{
    if bytes.len() > 0 {
        lemma_feed_keeps_cursor_inside(s, bytes.drop_last());
        lemma_step_keeps_wf(s.feed(bytes.drop_last()), bytes.last());
    }
}

/// Every cell of a grid holds a Unicode scalar value.
pub proof fn lemma_cells_hold_scalar_values(g: GridState, r: int, c: int)
    requires
        g.wf(),
        0 <= r < g.rows,
        0 <= c < g.cols,
    ensures
        is_scalar_value(g.cells[r][c].ch as int),
{
    vstd::utf8::char_is_scalar(g.cells[r][c].ch);
}

/// Resizing a grid to the size it has changes nothing.
pub proof fn lemma_resize_to_same_size(g: GridState)
    requires
        g.wf(),
    ensures
        g.resize(g.cols, g.rows) == g,
{
    let r = g.resize(g.cols, g.rows);
    assert forall|i: int| 0 <= i < g.rows implies #[trigger] r.cells[i] == g.cells[i] by {
        assert(r.cells[i] =~= g.cells[i]);
    }
    assert(r.cells =~= g.cells);
}

/// A character printed in the last column sends the cursor to the first
/// column of the next row; in the last row the cursor stays in that row, and
/// so it does on a line feed there.
pub proof fn lemma_output_wraps_and_saturates(g: GridState, ch: char)
    requires
        g.wf(),
    ensures
        g.cursor_col + 1 < g.cols ==> g.put_char(ch).cursor_col == g.cursor_col + 1
            && g.put_char(ch).cursor_row == g.cursor_row,
        g.cursor_col + 1 == g.cols ==> g.put_char(ch).cursor_col == 0,
        g.cursor_col + 1 == g.cols && g.cursor_row + 1 < g.rows ==> g.put_char(ch).cursor_row
            == g.cursor_row + 1,
        g.cursor_col + 1 == g.cols && g.cursor_row + 1 == g.rows ==> g.put_char(ch).cursor_row
            == g.rows - 1,
        g.cursor_row + 1 == g.rows ==> g.line_feed().cursor_row == g.rows - 1,
        g.put_char(ch).cells[g.cursor_row][g.cursor_col] == (crate::terminal::grid::Cell {
            ch,
            fg: g.fg,
            bg: g.bg,
        }),
{
}

/// Erasing the whole display homes the cursor; erasing from or up to the
/// cursor, and erasing within a line, leave it where it is.
pub proof fn lemma_erase_display_cursor(g: GridState, mode: int)
    requires
        g.wf(),
    ensures
        g.erase_display(2).cursor_col == 0 && g.erase_display(2).cursor_row == 0,
        g.erase_display(0).cursor_col == g.cursor_col && g.erase_display(0).cursor_row
            == g.cursor_row,
        g.erase_display(1).cursor_col == g.cursor_col && g.erase_display(1).cursor_row
            == g.cursor_row,
        g.erase_line(mode).cursor_col == g.cursor_col && g.erase_line(mode).cursor_row
            == g.cursor_row,
        forall|r: int, c: int|
            0 <= r < g.rows && 0 <= c < g.cols ==> g.erase_display(2).cells[r][c]
                == crate::terminal::grid::blank_cell(),
{
}

/// Feeding one more byte is one more step.
pub proof fn lemma_feed_push(s: Screen, bytes: Seq<u8>, byte: u8)
    ensures
        s.feed(bytes.push(byte)) == s.feed(bytes).step(byte),
{
    assert(bytes.push(byte).drop_last() =~= bytes);
}

/// Feeding two chunks one after the other is feeding them joined.
pub proof fn lemma_feed_concat(s: Screen, a: Seq<u8>, b: Seq<u8>)
    ensures
        s.feed(a + b) == s.feed(a).feed(b),
    decreases b.len(),
{
    if b.len() == 0 {
        assert(a + b =~= a);
    } else {
        lemma_feed_concat(s, a, b.drop_last());
        assert((a + b).drop_last() =~= a + b.drop_last());
    }
}

/// Feeding a single byte is one step.
pub proof fn lemma_feed_one(s: Screen, byte: u8)
    ensures
        s.feed(seq![byte]) == s.step(byte),
{
    assert(seq![byte] =~= Seq::<u8>::empty().push(byte));
    lemma_feed_push(s, Seq::<u8>::empty(), byte);
}

/// The parameter that the digits of `n` make: `n`, or the largest `u16`
/// where `n` is beyond it.
pub open spec fn saturated(n: nat) -> u16 {
    if n > u16::MAX {
        u16::MAX
    } else {
        n as u16
    }
}

/// Inside a control sequence whose last parameter is still zero, the decimal
/// digits of `n` make that parameter `n`, or the largest `u16` where `n` is
/// beyond it.
pub proof fn lemma_feed_decimal(s: Screen, n: nat)
    requires
        s.wf(),
        s.parser.state == ParserState::CsiEntry || s.parser.state == ParserState::CsiParam,
        s.parser.params.len() == 0 || s.parser.params.last() == 0,
    ensures
        s.feed(decimal(n)) == (Screen {
            parser: ParserModel {
                state: ParserState::CsiParam,
                params: with_last(s.parser.params, saturated(n)),
                ..s.parser
            },
            grid: s.grid,
        }),
    decreases n,
{
    let goal = with_last(s.parser.params, saturated(n));
    if n < 10 {
        lemma_feed_one(s, (0x30 + n) as u8);
        assert(s.step((0x30 + n) as u8).parser.params =~= goal);
    } else {
        let head = n / 10;
        let digit = (0x30 + n % 10) as u8;
        lemma_feed_decimal(s, head);
        lemma_feed_push(s, decimal(head), digit);
        let mid = s.feed(decimal(head));
        assert(mid.step(digit).parser.params =~= goal);
    }
}

/// `ESC [`, fed to the parser in any state, opens a control sequence that
/// has no parameter yet.
pub proof fn lemma_feed_opening(s: Screen)
    requires
        s.wf(),
    ensures
        s.feed(seq![0x1Bu8, 0x5Bu8]) == s.enter(ParserState::CsiEntry),
{
    let s1 = s.step(0x1B);
    assert(s1 == s.enter(ParserState::Escape));
    let s2 = s1.step(0x5B);
    assert(s2 == s.enter(ParserState::CsiEntry));
    assert(seq![0x1Bu8, 0x5Bu8] =~= seq![0x1Bu8].push(0x5Bu8));
    lemma_feed_one(s, 0x1B);
    lemma_feed_push(s, seq![0x1Bu8], 0x5B);
}

/// The sequence that `ESC [` opens from any state, with one parameter and a
/// final byte, has the effect of that control sequence on the grid, and
/// leaves the parser in its ground state.
pub proof fn lemma_feed_one_parameter_sequence(s: Screen, a: nat, last: u8)
    requires
        s.wf(),
        0x40 <= last <= 0x7E,
    ensures
        s.feed(seq![0x1Bu8, 0x5Bu8] + decimal(a) + seq![last]) == (Screen {
            parser: ParserModel::at(ParserState::Ground),
            grid: csi_dispatch(s.grid, seq![saturated(a)], last),
        }),
{
    let opening = seq![0x1Bu8, 0x5Bu8];
    lemma_feed_opening(s);
    let s2 = s.feed(opening);
    lemma_feed_decimal(s2, a);
    let s3 = s2.feed(decimal(a));
    assert(s3.parser.params =~= seq![saturated(a)]);
    lemma_feed_one(s3, last);
    lemma_feed_concat(s, opening, decimal(a));
    lemma_feed_concat(s, opening + decimal(a), seq![last]);
}

/// The sequence that `ESC [` opens from any state, with two parameters and a
/// final byte, has the effect of that control sequence on the grid, and
/// leaves the parser in its ground state.
pub proof fn lemma_feed_two_parameter_sequence(s: Screen, a: nat, b: nat, last: u8)
    requires
        s.wf(),
        0x40 <= last <= 0x7E,
    ensures
        s.feed(seq![0x1Bu8, 0x5Bu8] + decimal(a) + seq![0x3Bu8] + decimal(b) + seq![last]) == (
        Screen {
            parser: ParserModel::at(ParserState::Ground),
            grid: csi_dispatch(s.grid, seq![saturated(a), saturated(b)], last),
        }),
{
    let opening = seq![0x1Bu8, 0x5Bu8];
    lemma_feed_opening(s);
    let s2 = s.feed(opening);
    lemma_feed_decimal(s2, a);
    let s3 = s2.feed(decimal(a));
    let s4 = s3.step(0x3B);
    lemma_feed_one(s3, 0x3B);
    assert(s4.parser.params =~= seq![saturated(a), 0u16]);
    lemma_feed_decimal(s4, b);
    let s5 = s4.feed(decimal(b));
    assert(s5.parser.params =~= seq![saturated(a), saturated(b)]);
    let s6 = s5.step(last);
    lemma_feed_one(s5, last);
    lemma_feed_concat(s, opening, decimal(a));
    lemma_feed_concat(s, opening + decimal(a), seq![0x3Bu8]);
    lemma_feed_concat(s, opening + decimal(a) + seq![0x3Bu8], decimal(b));
    lemma_feed_concat(s, opening + decimal(a) + seq![0x3Bu8] + decimal(b), seq![last]);
}

/// The parameter emitted for a colour selects that colour, as foreground
/// or as background, and changes nothing else.
pub proof fn lemma_codes_select_colours(g: GridState, colour: Colour)
    ensures
        30 <= fg_code(colour) <= 97,
        g.select_rendition(fg_code(colour) as int) == (GridState { fg: colour, ..g }),
        g.select_rendition(bg_code(colour) as int) == (GridState { bg: colour, ..g }),
{
}

/// The emitted SGR sequence for a pen, fed to the parser in any state, sets
/// exactly that pen: the rest of the grid is as before and the parser is in
/// its ground state.
pub proof fn lemma_sgr_round_trip(s: Screen, fg: Colour, bg: Colour)
    requires
        s.wf(),
    ensures
        s.feed(sgr_bytes(fg, bg)) == (Screen {
            parser: ParserModel::at(ParserState::Ground),
            grid: GridState { fg, bg, ..s.grid },
        }),
{
    let a = fg_code(fg);
    let b = bg_code(bg);
    lemma_codes_select_colours(s.grid, fg);
    lemma_codes_select_colours(s.grid, bg);
    lemma_feed_two_parameter_sequence(s, a, b, 0x6D);
    let params = seq![a as u16, b as u16];
    assert(params.drop_last() =~= seq![a as u16]);
    assert(seq![a as u16].drop_last() =~= Seq::<u16>::empty());
    let g0 = s.grid.select_renditions(Seq::<u16>::empty());
    assert(g0 == s.grid);
    let g1 = s.grid.select_renditions(seq![a as u16]);
    assert(g1 == g0.select_rendition(a as int));
    assert(g1 == (GridState { fg, ..s.grid }));
    lemma_codes_select_colours(g1, bg);
    assert(s.grid.select_renditions(params) == g1.select_rendition(b as int));
}

/// The emitted CUP sequence for any position, fed to the parser in any
/// state, puts the cursor at that position clamped into the grid, and
/// changes nothing else of the grid: a position inside the grid is where
/// the cursor then is, and one beyond it leaves the cursor in the last
/// column or the last row.
pub proof fn lemma_cup_round_trip(s: Screen, col: int, row: int)
    requires
        s.wf(),
        0 <= col,
        0 <= row,
    ensures
        s.feed(cup_bytes(col, row)) == (Screen {
            parser: ParserModel::at(ParserState::Ground),
            grid: s.grid.with_cursor(col, row),
        }),
        s.feed(cup_bytes(col, row)).grid == (GridState {
            cursor_col: vstd::math::min(col, s.grid.cols - 1),
            cursor_row: vstd::math::min(row, s.grid.rows - 1),
            ..s.grid
        }),
        col < s.grid.cols && row < s.grid.rows ==> s.feed(cup_bytes(col, row)).grid == (GridState {
            cursor_col: col,
            cursor_row: row,
            ..s.grid
        }),
{
    let a = saturated((row + 1) as nat);
    let b = saturated((col + 1) as nat);
    lemma_feed_two_parameter_sequence(s, (row + 1) as nat, (col + 1) as nat, 0x48);
    assert(at_least_one(a as int) - 1 == vstd::math::min(row, u16::MAX - 1));
    assert(at_least_one(b as int) - 1 == vstd::math::min(col, u16::MAX - 1));
}

/// A single SGR code for a colour, fed to the parser in any state, sets
/// that side of the pen and leaves the other: the code of a foreground
/// sets the foreground, the code of a background the background.
pub proof fn lemma_single_code_sets_one_side(s: Screen, colour: Colour)
    requires
        s.wf(),
    ensures
        s.feed(sgr_code_bytes(fg_code(colour))) == (Screen {
            parser: ParserModel::at(ParserState::Ground),
            grid: GridState { fg: colour, ..s.grid },
        }),
        s.feed(sgr_code_bytes(bg_code(colour))) == (Screen {
            parser: ParserModel::at(ParserState::Ground),
            grid: GridState { bg: colour, ..s.grid },
        }),
{
    let f = fg_code(colour);
    let b = bg_code(colour);
    lemma_codes_select_colours(s.grid, colour);
    lemma_feed_one_parameter_sequence(s, f, 0x6D);
    lemma_feed_one_parameter_sequence(s, b, 0x6D);
    assert(seq![f as u16].drop_last() =~= Seq::<u16>::empty());
    assert(seq![b as u16].drop_last() =~= Seq::<u16>::empty());
    assert(s.grid.select_renditions(Seq::<u16>::empty()) == s.grid);
    assert(s.grid.select_renditions(seq![f as u16]) == s.grid.select_rendition(f as int));
    assert(s.grid.select_renditions(seq![b as u16]) == s.grid.select_rendition(b as int));
}

/// The codes of two colours differ where the colours do, on either side,
/// and no code of a foreground is a code of a background: the pen can be
/// read back from the codes.
pub proof fn lemma_codes_tell_colours_apart(a: Colour, b: Colour)
    ensures
        a != b ==> fg_code(a) != fg_code(b) && bg_code(a) != bg_code(b),
        fg_code(a) != bg_code(b),
        a != Colour::Default ==> (30 <= fg_code(a) <= 37 || 90 <= fg_code(a) <= 97),
        a != Colour::Default ==> (40 <= bg_code(a) <= 47 || 100 <= bg_code(a) <= 107),
{
}

/// On a new grid, the single SGR code of a named colour followed by one
/// printable byte leaves that byte in the first cell, with the colour on the
/// side that the code sets and the default colour on the other. So the
/// cell shows which colour was set, and never the default one in its place.
pub proof fn lemma_single_code_round_trip(cols: int, rows: int, colour: Colour, byte: u8)
    requires
        0 < cols <= u16::MAX,
        0 < rows <= u16::MAX,
        colour != Colour::Default,
        0x20 <= byte < 0x7F,
    ensures
        Screen::fresh(cols, rows).feed(
            sgr_code_bytes(fg_code(colour)).push(byte),
        ).grid.cells[0][0] == (Cell { ch: byte as char, fg: colour, bg: Colour::Default }),
        Screen::fresh(cols, rows).feed(
            sgr_code_bytes(bg_code(colour)).push(byte),
        ).grid.cells[0][0] == (Cell { ch: byte as char, fg: Colour::Default, bg: colour }),
        Screen::fresh(cols, rows).feed(
            sgr_code_bytes(fg_code(colour)).push(byte),
        ).grid.row_colours(0)[0] == (colour, Colour::Default),
        Screen::fresh(cols, rows).feed(
            sgr_code_bytes(bg_code(colour)).push(byte),
        ).grid.row_colours(0)[0] == (Colour::Default, colour),
{
    let s = Screen::fresh(cols, rows);
    assert(s.wf());
    lemma_single_code_sets_one_side(s, colour);
    lemma_feed_push(s, sgr_code_bytes(fg_code(colour)), byte);
    lemma_feed_push(s, sgr_code_bytes(bg_code(colour)), byte);
}

/// The grid after the bytes of `text`, all printable, were written from the
/// cursor on into the rest of its row: the cells hold the bytes in the pen's
/// colours, and the cursor stands behind them, or at the start of the next
/// row, stopping at the last, where they fill the row.
pub open spec fn typed(g: GridState, text: Seq<u8>) -> GridState {
    let full = g.cursor_col + text.len() == g.cols;
    GridState {
        cells: g.cells.update(
            g.cursor_row,
            Seq::new(
                g.cols as nat,
                |c: int|
                    if g.cursor_col <= c < g.cursor_col + text.len() {
                        Cell { ch: text[c - g.cursor_col] as char, fg: g.fg, bg: g.bg }
                    } else {
                        g.cells[g.cursor_row][c]
                    },
            ),
        ),
        cursor_col: if full {
            0
        } else {
            g.cursor_col + text.len()
        },
        cursor_row: if full {
            vstd::math::min(g.rows - 1, g.cursor_row + 1)
        } else {
            g.cursor_row
        },
        ..g
    }
}

/// Whether every byte of `text` is a printable ASCII byte.
pub open spec fn printable(text: Seq<u8>) -> bool {
    forall|i: int| 0 <= i < text.len() ==> 0x20 <= #[trigger] text[i] < 0x7F
}

/// Printable bytes that fit into the rest of the cursor's row, fed to a
/// parser at rest, are written into that row one after the other, and change
/// nothing else.
pub proof fn lemma_printable_bytes_are_typed(s: Screen, text: Seq<u8>)
    requires
        s.wf(),
        s.parser.state == ParserState::Ground,
        s.parser.pending == 0,
        printable(text),
        s.grid.cursor_col + text.len() <= s.grid.cols,
    ensures
        s.feed(text) == (Screen { parser: s.parser, grid: typed(s.grid, text) }),
    decreases text.len(),
{
    let g = s.grid;
    if text.len() == 0 {
        assert(typed(g, text).cells[g.cursor_row] =~= g.cells[g.cursor_row]);
        assert(typed(g, text).cells =~= g.cells);
    } else {
        let head = text.drop_last();
        let byte = text.last();
        assert forall|i: int| 0 <= i < head.len() implies 0x20 <= #[trigger] head[i] < 0x7F by {
            assert(head[i] == text[i]);
        }
        lemma_printable_bytes_are_typed(s, head);
        let mid = s.feed(head);
        assert(mid.grid.cursor_col == g.cursor_col + head.len());
        assert(mid.grid.cursor_row == g.cursor_row);
        let after = mid.step(byte);
        assert(after.parser == s.parser);
        assert(after.grid == mid.grid.put_char(byte as char));
        let goal = typed(g, text);
        assert(after.grid.cells[g.cursor_row] =~= goal.cells[g.cursor_row]);
        assert(after.grid.cells =~= goal.cells);
    }
}

/// A row's worth of printable bytes, fed to a new screen of two rows or
/// more, fills the first row with those bytes and leaves the cursor at the
/// start of the second.
pub proof fn lemma_full_row_wraps(cols: int, rows: int, text: Seq<u8>)
    requires
        0 < cols <= u16::MAX,
        2 <= rows <= u16::MAX,
        text.len() == cols,
        printable(text),
    ensures
        Screen::fresh(cols, rows).feed(text).grid.row_text(0) == Seq::new(
            cols as nat,
            |c: int| text[c] as char,
        ),
        Screen::fresh(cols, rows).feed(text).grid.cursor_col == 0,
        Screen::fresh(cols, rows).feed(text).grid.cursor_row == 1,
        forall|r: int|
            1 <= r < rows ==> #[trigger] Screen::fresh(cols, rows).feed(text).grid.cells[r]
                == crate::terminal::grid::blank_row(cols),
{
    let s = Screen::fresh(cols, rows);
    assert(s.wf());
    lemma_printable_bytes_are_typed(s, text);
    assert(s.feed(text).grid.row_text(0) =~= Seq::new(cols as nat, |c: int| text[c] as char));
}

/// With the cursor in the last row and the parser in its ground state, a
/// line feed, or a printable byte written in the last column, leaves the
/// cursor at the start of that same row. The grid has as many rows as
/// before and none of them has moved: the line feed changes no cell, and
/// the printable byte changes only the cell that it is written to.
pub proof fn lemma_last_row_saturates(s: Screen, byte: u8)
    requires
        s.wf(),
        s.parser.state == ParserState::Ground,
        s.grid.cursor_row == s.grid.rows - 1,
        byte == 0x0A || (0x20 <= byte < 0x7F && s.grid.cursor_col == s.grid.cols - 1),
    ensures
        s.feed(seq![byte]).grid.cursor_col == 0,
        s.feed(seq![byte]).grid.cursor_row == s.grid.rows - 1,
        s.feed(seq![byte]).grid.rows == s.grid.rows,
        s.feed(seq![byte]).grid.cells.len() == s.grid.rows,
        byte == 0x0A ==> s.feed(seq![byte]).grid.cells == s.grid.cells,
        forall|r: int|
            0 <= r < s.grid.rows - 1 ==> #[trigger] s.feed(seq![byte]).grid.cells[r]
                == s.grid.cells[r],
        forall|c: int|
            0 <= c < s.grid.cols - 1 ==> #[trigger] s.feed(seq![byte]).grid.cells[s.grid.rows
                - 1][c] == s.grid.cells[s.grid.rows - 1][c],
{
    lemma_feed_one(s, byte);
}

/// What a byte that begins a UTF-8 sequence leaves in a parser at rest.
pub proof fn lemma_leading_byte(s: Screen, byte: u8)
    requires
        s.parser.state == ParserState::Ground,
        s.parser.pending == 0,
        0xC2 <= byte <= 0xF4,
    ensures
        s.step(byte) == s.expect(
            if byte <= 0xDF {
                1
            } else if byte <= 0xEF {
                2
            } else {
                3
            },
            if byte <= 0xDF {
                byte - 0xC0
            } else if byte <= 0xEF {
                byte - 0xE0
            } else {
                byte - 0xF0
            },
            if byte <= 0xDF {
                0x80
            } else if byte <= 0xEF {
                0x800
            } else {
                0x10000
            },
        ),
{
}

/// What a continuation byte does to a UTF-8 sequence under way.
pub proof fn lemma_continuation_byte(s: Screen, byte: u8)
    requires
        s.parser.state == ParserState::Ground,
        s.parser.pending > 0,
        0x80 <= byte <= 0xBF,
    ensures
        s.parser.pending > 1 ==> s.step(byte) == s.expect(
            s.parser.pending - 1,
            s.parser.scalar * 64 + (byte - 0x80),
            s.parser.floor,
        ),
        s.parser.pending == 1 && s.parser.scalar * 64 + (byte - 0x80) >= s.parser.floor
            && is_scalar_value(s.parser.scalar * 64 + (byte - 0x80)) ==> s.step(byte) == (Screen {
            grid: s.grid.put_char((s.parser.scalar * 64 + (byte - 0x80)) as char),
            parser: ParserModel::at(ParserState::Ground),
        }),
{
}

/// The UTF-8 bytes of a character that is no control, fed to a screen that
/// rests in the ground state, print that character and leave the parser
/// at rest in the ground state.
pub proof fn lemma_utf8_round_trip(s: Screen, c: char)
    requires
        s.wf(),
        s.parser.state == ParserState::Ground,
        s.parser.pending == 0,
        c as int >= 0x20,
        c as int != 0x7F,
    ensures
        s.feed(utf8_of(c as int)).grid == s.grid.put_char(c),
        s.feed(utf8_of(c as int)).parser.state == ParserState::Ground,
        s.feed(utf8_of(c as int)).parser.pending == 0,
{
    let v = c as int;
    vstd::utf8::char_is_scalar(c);
    vstd::utf8::char_u32_cast(c, c as u32);
    assert(is_scalar_value(v));
    assert(v as char == c);
    if v < 0x80 {
        lemma_feed_one(s, v as u8);
    } else if v < 0x800 {
        lemma_two_bytes_decode(s, v);
    } else if v < 0x10000 {
        lemma_three_bytes_decode(s, v);
    } else {
        lemma_four_bytes_decode(s, v);
    }
}

/// The two bytes that encode `v` print the character of `v`.
pub proof fn lemma_two_bytes_decode(s: Screen, v: int)
    requires
        s.parser.state == ParserState::Ground,
        s.parser.pending == 0,
        0x80 <= v < 0x800,
    ensures
        s.feed(utf8_of(v)) == (Screen {
            grid: s.grid.put_char(v as char),
            parser: ParserModel::at(ParserState::Ground),
        }),
{
    let b1 = (0xC0 + v / 64) as u8;
    let b2 = (0x80 + v % 64) as u8;
    assert(utf8_of(v) =~= seq![b1].push(b2));
    lemma_feed_one(s, b1);
    lemma_feed_push(s, seq![b1], b2);
    lemma_leading_byte(s, b1);
    let s1 = s.expect(1, v / 64, 0x80);
    assert(s.feed(seq![b1]) == s1);
    lemma_continuation_byte(s1, b2);
    assert(s1.parser.scalar * 64 + (b2 - 0x80) == v);
    assert(s1.grid == s.grid);
}

/// The three bytes that encode `v` print the character of `v`.
pub proof fn lemma_three_bytes_decode(s: Screen, v: int)
    requires
        s.parser.state == ParserState::Ground,
        s.parser.pending == 0,
        0x800 <= v < 0x10000,
        is_scalar_value(v),
    ensures
        s.feed(utf8_of(v)) == (Screen {
            grid: s.grid.put_char(v as char),
            parser: ParserModel::at(ParserState::Ground),
        }),
{
    let b1 = (0xE0 + v / 4096) as u8;
    let b2 = (0x80 + (v / 64) % 64) as u8;
    let b3 = (0x80 + v % 64) as u8;
    assert(utf8_of(v) =~= seq![b1].push(b2).push(b3));
    lemma_feed_one(s, b1);
    lemma_feed_push(s, seq![b1], b2);
    lemma_feed_push(s, seq![b1].push(b2), b3);
    lemma_leading_byte(s, b1);
    let s1 = s.expect(2, v / 4096, 0x800);
    assert(s.feed(seq![b1]) == s1);
    lemma_continuation_byte(s1, b2);
    assert(s1.parser.scalar * 64 + (b2 - 0x80) == v / 64);
    let s2 = s1.expect(1, v / 64, 0x800);
    assert(s.feed(seq![b1].push(b2)) == s2);
    lemma_continuation_byte(s2, b3);
    assert(s2.parser.scalar * 64 + (b3 - 0x80) == v);
    assert(s2.grid == s.grid);
}

/// The four bytes that encode `v` print the character of `v`.
pub proof fn lemma_four_bytes_decode(s: Screen, v: int)
    requires
        s.parser.state == ParserState::Ground,
        s.parser.pending == 0,
        0x10000 <= v <= 0x10FFFF,
    ensures
        s.feed(utf8_of(v)) == (Screen {
            grid: s.grid.put_char(v as char),
            parser: ParserModel::at(ParserState::Ground),
        }),
{
    let b1 = (0xF0 + v / 262144) as u8;
    let b2 = (0x80 + (v / 4096) % 64) as u8;
    let b3 = (0x80 + (v / 64) % 64) as u8;
    let b4 = (0x80 + v % 64) as u8;
    assert(utf8_of(v) =~= seq![b1].push(b2).push(b3).push(b4));
    lemma_feed_one(s, b1);
    lemma_feed_push(s, seq![b1], b2);
    lemma_feed_push(s, seq![b1].push(b2), b3);
    lemma_feed_push(s, seq![b1].push(b2).push(b3), b4);
    lemma_leading_byte(s, b1);
    let s1 = s.expect(3, v / 262144, 0x10000);
    assert(s.feed(seq![b1]) == s1);
    lemma_continuation_byte(s1, b2);
    assert(s1.parser.scalar * 64 + (b2 - 0x80) == v / 4096);
    let s2 = s1.expect(2, v / 4096, 0x10000);
    assert(s.feed(seq![b1].push(b2)) == s2);
    lemma_continuation_byte(s2, b3);
    assert(s2.parser.scalar * 64 + (b3 - 0x80) == v / 64);
    let s3 = s2.expect(1, v / 64, 0x10000);
    assert(s.feed(seq![b1].push(b2).push(b3)) == s3);
    lemma_continuation_byte(s3, b4);
    assert(s3.parser.scalar * 64 + (b4 - 0x80) == v);
    assert(s3.grid == s.grid);
}

} // verus!
