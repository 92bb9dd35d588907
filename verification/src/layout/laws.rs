//! What holds of every layout and of every move of the focus.

use vstd::prelude::*;
use crate::layout::cuts::{
    cuts, is_slice, lemma_cut_holds_each_place_once, lemma_slice_fits, lies_in,
};
use crate::layout::geometry::{
    Axis, FocusDirection, LayoutMode, Rect, TileLayout, focus_target, grid_columns, grid_of,
    grid_row, in_direction, is_candidate, is_nearest, layout_of, rects_of, spiral_axis, spiral_of,
    two,
};
use crate::workspace::TerminalId;

verus! {

/// Every residual of a spiral, and with it every rectangle, lies inside
/// the viewport.
pub proof fn lemma_residual_lies_within(area: Rect, rects: Seq<Rect>, residuals: Seq<Rect>, i: int)
    requires
        area.fits(),
        spiral_of(area, rects, residuals),
        0 <= i < rects.len(),
    ensures
        residuals[i].fits(),
        residuals[i].within(area),
        area.is_empty() ==> residuals[i].is_empty(),
        rects[i].within(area),
        area.is_empty() ==> rects[i].is_empty(),
    decreases i,
{
    if i > 0 {
        lemma_residual_lies_within(area, rects, residuals, i - 1);
        let halves = two(rects[i - 1], residuals[i - 1 + 1]);
        assert(cuts(halves, residuals[i - 1], spiral_axis(i - 1)));
        assert(is_slice(halves[1], residuals[i - 1], spiral_axis(i - 1)));
        lemma_slice_fits(residuals[i], residuals[i - 1], spiral_axis(i - 1));
    }
    if i < rects.len() - 1 {
        let halves = two(rects[i], residuals[i + 1]);
        assert(cuts(halves, residuals[i], spiral_axis(i)));
        assert(is_slice(halves[0], residuals[i], spiral_axis(i)));
        lemma_slice_fits(rects[i], residuals[i], spiral_axis(i));
    }
}

/// The rectangle of session `i` in a grid is a piece of the strip of its row.
pub proof fn lemma_grid_piece(
    area: Rect,
    cols: int,
    rects: Seq<Rect>,
    strips: Seq<Rect>,
    i: int,
)
    requires
        grid_of(area, cols, rects, strips),
        0 <= i < rects.len(),
    ensures
        0 <= i / cols < strips.len(),
        0 <= i % cols < grid_row(rects, cols, i / cols).len(),
        grid_row(rects, cols, i / cols)[i % cols] == rects[i],
        is_slice(rects[i], strips[i / cols], Axis::Horizontal),
        is_slice(strips[i / cols], area, Axis::Vertical),
{
    let r = i / cols;
    let k = i % cols;
    vstd::arithmetic::div_mod::lemma_fundamental_div_mod(i, cols);
    vstd::arithmetic::div_mod::lemma_div_pos_is_pos(i, cols);
    assert(i < cols * strips.len()) by (nonlinear_arith)
        requires
            i < rects.len(),
            strips.len() * cols >= rects.len(),
    ;
    vstd::arithmetic::div_mod::lemma_multiply_divide_lt(i, cols, strips.len() as int);
    assert(r * cols == cols * r) by (nonlinear_arith);
    assert((r + 1) * cols == r * cols + cols) by (nonlinear_arith);
    let row = grid_row(rects, cols, r);
    assert(cuts(row, strips[r], Axis::Horizontal));
    assert(row[k] == rects[r * cols + k]);
    assert(is_slice(row[k], strips[r], Axis::Horizontal));
    assert(is_slice(strips[r], area, Axis::Vertical));
}

/// Each rectangle of a layout is empty where the viewport is, and in every
/// mode but `Floating` it lies inside the viewport.
pub proof fn lemma_rectangles_lie_within_viewport(
    mode: LayoutMode,
    area: Rect,
    ids: Seq<TerminalId>,
    positions: Seq<(TerminalId, Rect)>,
    i: int,
)
    requires
        area.fits(),
        layout_of(mode, area, ids, positions),
        0 <= i < positions.len(),
    ensures
        mode != LayoutMode::Floating ==> positions[i].1.within(area),
        area.is_empty() ==> positions[i].1.is_empty(),
{
    assert(positions.len() == ids.len()) by {
        assert(crate::layout::geometry::ids_of(positions).len() == positions.len());
    }
    let rects = rects_of(positions);
    assert(rects[i] == positions[i].1);
    match mode {
        LayoutMode::Tiled(TileLayout::Vertical) => {
            assert(is_slice(rects[i], area, Axis::Vertical));
            lemma_slice_fits(rects[i], area, Axis::Vertical);
        },
        LayoutMode::Tiled(TileLayout::Horizontal) => {
            assert(is_slice(rects[i], area, Axis::Horizontal));
            lemma_slice_fits(rects[i], area, Axis::Horizontal);
        },
        LayoutMode::Tiled(TileLayout::Grid { cols }) => {
            let columns = grid_columns(cols as int, ids.len() as int);
            let strips = choose|strips: Seq<Rect>| #[trigger]
                grid_of(area, columns, rects, strips);
            lemma_grid_piece(area, columns, rects, strips, i);
            lemma_slice_fits(strips[i / columns], area, Axis::Vertical);
            lemma_slice_fits(rects[i], strips[i / columns], Axis::Horizontal);
        },
        LayoutMode::Tiled(TileLayout::Spiral) => {
            let residuals = choose|residuals: Seq<Rect>| #[trigger]
                spiral_of(area, rects, residuals);
            lemma_residual_lies_within(area, rects, residuals, i);
        },
        LayoutMode::Floating => {},
        LayoutMode::Tabbed => {},
        LayoutMode::Stacked => {},
    }
}

/// Exactly one of the rectangles holds the cell at column `col` of row `row`.
pub open spec fn held_once(rects: Seq<Rect>, col: int, row: int) -> bool {
    &&& exists|i: int| 0 <= i < rects.len() && (#[trigger] rects[i]).holds(col, row)
    &&& forall|i: int, j: int|
        #![trigger rects[i].holds(col, row), rects[j].holds(col, row)]
        0 <= i < rects.len() && 0 <= j < rects.len() && rects[i].holds(col, row) && rects[j].holds(
            col,
            row,
        ) ==> i == j
}

/// A slice of an area holds a cell of the area just when the place of the
/// cell along the axis lies in the slice.
pub proof fn lemma_slice_holds(piece: Rect, area: Rect, axis: Axis, col: int, row: int)
    requires
        is_slice(piece, area, axis),
        area.fits(),
    ensures
        piece.holds(col, row) ==> area.holds(col, row),
        area.holds(col, row) ==> (piece.holds(col, row) <==> lies_in(
            match axis {
                Axis::Horizontal => col,
                Axis::Vertical => row,
            },
            piece,
            axis,
        )),
{
}

/// The pieces of a cut of an area hold each cell of the area exactly once.
pub proof fn lemma_cut_holds_each_cell_once(
    pieces: Seq<Rect>,
    area: Rect,
    axis: Axis,
    col: int,
    row: int,
)
    requires
        area.fits(),
        cuts(pieces, area, axis),
        area.holds(col, row),
    ensures
        held_once(pieces, col, row),
{
    let at = match axis {
        Axis::Horizontal => col,
        Axis::Vertical => row,
    };
    lemma_cut_holds_each_place_once(area, axis, pieces, at);
    let i = choose|i: int| 0 <= i < pieces.len() && lies_in(at, #[trigger] pieces[i], axis);
    lemma_slice_holds(pieces[i], area, axis, col, row);
    assert(pieces[i].holds(col, row));
    assert forall|a: int, b: int|
        #![trigger pieces[a].holds(col, row), pieces[b].holds(col, row)]
        0 <= a < pieces.len() && 0 <= b < pieces.len() && pieces[a].holds(col, row) && pieces[b].holds(
            col,
            row,
        ) implies a == b by {
        lemma_slice_holds(pieces[a], area, axis, col, row);
        lemma_slice_holds(pieces[b], area, axis, col, row);
        assert(lies_in(at, pieces[a], axis) && lies_in(at, pieces[b], axis));
    }
}

/// From residual `i` of a spiral on, a cell of that residual is held by
/// exactly one rectangle, and a cell outside it by none.
pub proof fn lemma_spiral_holds_each_cell_once(
    area: Rect,
    rects: Seq<Rect>,
    residuals: Seq<Rect>,
    i: int,
    col: int,
    row: int,
)
    requires
        area.fits(),
        spiral_of(area, rects, residuals),
        0 <= i < rects.len(),
    ensures
        residuals[i].holds(col, row) ==> exists|j: int|
            i <= j < rects.len() && (#[trigger] rects[j]).holds(col, row),
        forall|a: int, b: int|
            #![trigger rects[a].holds(col, row), rects[b].holds(col, row)]
            i <= a < rects.len() && i <= b < rects.len() && rects[a].holds(col, row) && rects[b].holds(
                col,
                row,
            ) ==> a == b,
        forall|j: int|
            i <= j < rects.len() && (#[trigger] rects[j]).holds(col, row) ==> residuals[i].holds(
                col,
                row,
            ),
    decreases rects.len() - i,
{
    lemma_residual_lies_within(area, rects, residuals, i);
    if i == rects.len() - 1 {
        assert(rects[i] == residuals[i]);
    } else {
        lemma_spiral_holds_each_cell_once(area, rects, residuals, i + 1, col, row);
        let halves = two(rects[i], residuals[i + 1]);
        let axis = spiral_axis(i);
        assert(cuts(halves, residuals[i], axis));
        assert(is_slice(halves[0], residuals[i], axis));
        assert(is_slice(halves[1], residuals[i], axis));
        lemma_slice_holds(rects[i], residuals[i], axis, col, row);
        lemma_slice_holds(residuals[i + 1], residuals[i], axis, col, row);
        if residuals[i].holds(col, row) {
            lemma_cut_holds_each_cell_once(halves, residuals[i], axis, col, row);
            if halves[0].holds(col, row) {
                assert(rects[i].holds(col, row));
                assert(!halves[1].holds(col, row)) by {
                    if halves[1].holds(col, row) {
                        assert(halves[0].holds(col, row) && halves[1].holds(col, row));
                    }
                }
            } else {
                let k = choose|k: int| 0 <= k < halves.len() && (#[trigger] halves[k]).holds(col, row);
                assert(k == 1);
                assert(residuals[i + 1].holds(col, row));
            }
        }
        assert forall|a: int, b: int|
            #![trigger rects[a].holds(col, row), rects[b].holds(col, row)]
            i <= a < rects.len() && i <= b < rects.len() && rects[a].holds(col, row) && rects[b].holds(
                col,
                row,
            ) implies a == b by {
            if a == i && b > i {
                assert(residuals[i + 1].holds(col, row));
                assert(halves[0].holds(col, row) && halves[1].holds(col, row));
                lemma_cut_holds_each_cell_once(halves, residuals[i], axis, col, row);
            } else if b == i && a > i {
                assert(residuals[i + 1].holds(col, row));
                assert(halves[0].holds(col, row) && halves[1].holds(col, row));
                lemma_cut_holds_each_cell_once(halves, residuals[i], axis, col, row);
            }
        }
    }
}

/// A piece of a cut that holds the cell of the area.
pub proof fn lemma_piece_of_cell(pieces: Seq<Rect>, area: Rect, axis: Axis, col: int, row: int) -> (i:
    int)
    requires
        area.fits(),
        cuts(pieces, area, axis),
        area.holds(col, row),
    ensures
        0 <= i < pieces.len(),
        pieces[i].holds(col, row),
        pieces[i].fits(),
{
    let at = match axis {
        Axis::Horizontal => col,
        Axis::Vertical => row,
    };
    lemma_cut_holds_each_place_once(area, axis, pieces, at);
    let i = choose|i: int| 0 <= i < pieces.len() && lies_in(at, #[trigger] pieces[i], axis);
    assert(is_slice(pieces[i], area, axis));
    lemma_slice_holds(pieces[i], area, axis, col, row);
    lemma_slice_fits(pieces[i], area, axis);
    i
}

/// The rectangle at place `k` of row `r` of a grid is rectangle `r * cols + k`.
pub proof fn lemma_grid_row_index(rects: Seq<Rect>, cols: int, r: int, k: int)
    requires
        cols > 0,
        0 <= r,
        r * cols <= rects.len(),
        0 <= k < grid_row(rects, cols, r).len(),
    ensures
        0 <= r * cols + k < rects.len(),
        grid_row(rects, cols, r)[k] == rects[r * cols + k],
{
    assert(r * cols >= 0) by (nonlinear_arith)
        requires
            r >= 0,
            cols > 0,
    ;
    assert((r + 1) * cols == r * cols + cols) by (nonlinear_arith);
}

/// Every row of a grid begins within the rectangles of the grid.
pub proof fn lemma_grid_row_begins(cols: int, rects: Seq<Rect>, strips: Seq<Rect>, r: int)
    requires
        cols > 0,
        (strips.len() - 1) * cols < rects.len(),
        0 <= r < strips.len(),
    ensures
        0 <= r * cols < rects.len(),
{
    assert(r * cols <= (strips.len() - 1) * cols) by (nonlinear_arith)
        requires
            0 <= r <= strips.len() - 1,
            cols > 0,
    ;
    assert(r * cols >= 0) by (nonlinear_arith)
        requires
            r >= 0,
            cols > 0,
    ;
}

/// Some rectangle of a grid holds the cell of the viewport.
pub proof fn lemma_grid_holds_each_cell(
    area: Rect,
    cols: int,
    rects: Seq<Rect>,
    strips: Seq<Rect>,
    col: int,
    row: int,
)
    requires
        area.fits(),
        grid_of(area, cols, rects, strips),
        area.holds(col, row),
    ensures
        exists|i: int| 0 <= i < rects.len() && (#[trigger] rects[i]).holds(col, row),
{
    let r = lemma_piece_of_cell(strips, area, Axis::Vertical, col, row);
    let line = grid_row(rects, cols, r);
    assert(cuts(line, strips[r], Axis::Horizontal));
    let k = lemma_piece_of_cell(line, strips[r], Axis::Horizontal, col, row);
    lemma_grid_row_begins(cols, rects, strips, r);
    lemma_grid_row_index(rects, cols, r, k);
    assert(rects[r * cols + k].holds(col, row));
}

/// Two rectangles of a grid that hold the same cell are one.
pub proof fn lemma_grid_rectangles_lie_apart(
    area: Rect,
    cols: int,
    rects: Seq<Rect>,
    strips: Seq<Rect>,
    col: int,
    row: int,
    a: int,
    b: int,
)
    requires
        area.fits(),
        grid_of(area, cols, rects, strips),
        0 <= a < rects.len(),
        0 <= b < rects.len(),
        rects[a].holds(col, row),
        rects[b].holds(col, row),
    ensures
        a == b,
{
    lemma_grid_piece(area, cols, rects, strips, a);
    lemma_grid_piece(area, cols, rects, strips, b);
    let qa = a / cols;
    let qb = b / cols;
    lemma_slice_fits(strips[qa], area, Axis::Vertical);
    lemma_slice_fits(strips[qb], area, Axis::Vertical);
    lemma_slice_holds(rects[a], strips[qa], Axis::Horizontal, col, row);
    lemma_slice_holds(rects[b], strips[qb], Axis::Horizontal, col, row);
    lemma_slice_holds(strips[qa], area, Axis::Vertical, col, row);
    lemma_slice_holds(strips[qb], area, Axis::Vertical, col, row);
    assert(area.holds(col, row));
    assert(lies_in(row, strips[qa], Axis::Vertical));
    assert(lies_in(row, strips[qb], Axis::Vertical));
    assert(qa == qb) by {
        lemma_cut_holds_each_place_once(area, Axis::Vertical, strips, row);
    }
    let line = grid_row(rects, cols, qa);
    let ma = a % cols;
    let mb = b % cols;
    assert(line[ma] == rects[a]);
    assert(line[mb] == rects[b]);
    assert(lies_in(col, line[ma], Axis::Horizontal));
    assert(lies_in(col, line[mb], Axis::Horizontal));
    assert(ma == mb) by {
        assert(cuts(line, strips[qa], Axis::Horizontal));
        lemma_cut_holds_each_place_once(strips[qa], Axis::Horizontal, line, col);
    }
    vstd::arithmetic::div_mod::lemma_fundamental_div_mod(a, cols);
    vstd::arithmetic::div_mod::lemma_fundamental_div_mod(b, cols);
}

/// The rectangles of a grid hold each cell of the viewport exactly once.
pub proof fn lemma_grid_holds_each_cell_once(
    area: Rect,
    cols: int,
    rects: Seq<Rect>,
    strips: Seq<Rect>,
    col: int,
    row: int,
)
    requires
        area.fits(),
        grid_of(area, cols, rects, strips),
        area.holds(col, row),
    ensures
        held_once(rects, col, row),
{
    lemma_grid_holds_each_cell(area, cols, rects, strips, col, row);
    assert forall|a: int, b: int|
        #![trigger rects[a].holds(col, row), rects[b].holds(col, row)]
        0 <= a < rects.len() && 0 <= b < rects.len() && rects[a].holds(col, row) && rects[b].holds(
            col,
            row,
        ) implies a == b by {
        lemma_grid_rectangles_lie_apart(area, cols, rects, strips, col, row, a, b);
    }
}

/// The rectangles of a tiled layout of at least one session do not overlap
/// and fill the viewport: each cell of the viewport belongs to exactly one
/// of them, and none of them reaches beyond the viewport.
pub proof fn lemma_tiles_hold_each_cell_once(
    tiles: TileLayout,
    area: Rect,
    ids: Seq<TerminalId>,
    positions: Seq<(TerminalId, Rect)>,
    col: int,
    row: int,
)
    requires
        area.fits(),
        ids.len() > 0,
        layout_of(LayoutMode::Tiled(tiles), area, ids, positions),
        area.holds(col, row),
    ensures
        held_once(rects_of(positions), col, row),
{
    let rects = rects_of(positions);
    assert(crate::layout::geometry::ids_of(positions).len() == positions.len());
    match tiles {
        TileLayout::Vertical => {
            lemma_cut_holds_each_cell_once(rects, area, Axis::Vertical, col, row);
        },
        TileLayout::Horizontal => {
            lemma_cut_holds_each_cell_once(rects, area, Axis::Horizontal, col, row);
        },
        TileLayout::Grid { cols } => {
            let columns = grid_columns(cols as int, ids.len() as int);
            let strips = choose|strips: Seq<Rect>| #[trigger]
                grid_of(area, columns, rects, strips);
            lemma_grid_holds_each_cell_once(area, columns, rects, strips, col, row);
        },
        TileLayout::Spiral => {
            let residuals = choose|residuals: Seq<Rect>| #[trigger]
                spiral_of(area, rects, residuals);
            lemma_spiral_holds_each_cell_once(area, rects, residuals, 0, col, row);
            assert(residuals[0] == area);
        },
    }
}

/// A tabbed layout gives every session the whole viewport.
pub proof fn lemma_tabbed_gives_the_viewport(
    area: Rect,
    ids: Seq<TerminalId>,
    positions: Seq<(TerminalId, Rect)>,
    i: int,
)
    requires
        layout_of(LayoutMode::Tabbed, area, ids, positions),
        0 <= i < positions.len(),
    ensures
        positions[i].1 == area,
{
    assert(crate::layout::geometry::ids_of(positions).len() == positions.len());
}

/// A layout of no session holds no rectangle, and a layout of some sessions
/// names them in their order.
pub proof fn lemma_layout_names_the_sessions(
    mode: LayoutMode,
    area: Rect,
    ids: Seq<TerminalId>,
    positions: Seq<(TerminalId, Rect)>,
)
    requires
        layout_of(mode, area, ids, positions),
    ensures
        positions.len() == ids.len(),
        forall|i: int| 0 <= i < ids.len() ==> (#[trigger] positions[i]).0 == ids[i],
{
    let names = crate::layout::geometry::ids_of(positions);
    assert(names.len() == positions.len());
    assert forall|i: int| 0 <= i < ids.len() implies (#[trigger] positions[i]).0 == ids[i] by {
        assert(names[i] == positions[i].0);
    }
}

/// The focus never moves to the session it is on: the session it moves to
/// is another one, and its centre lies strictly on the side asked for.
pub proof fn lemma_focus_moves_to_another_session(
    positions: Seq<(TerminalId, Rect)>,
    current: TerminalId,
    from: Rect,
    direction: FocusDirection,
)
    ensures
        match focus_target(positions, current, from, direction) {
            Some(target) => target != current && exists|j: int|
                0 <= j < positions.len() && (#[trigger] positions[j]).0 == target && in_direction(
                    from,
                    positions[j].1,
                    direction,
                ),
            None => forall|k: int| !is_candidate(positions, current, from, direction, k),
        },
{
    if exists|j: int| is_nearest(positions, current, from, direction, j) {
        let j = choose|j: int| is_nearest(positions, current, from, direction, j);
        assert(is_candidate(positions, current, from, direction, j));
        assert(positions[j].0 != current);
    } else {
        assert forall|k: int| !is_candidate(positions, current, from, direction, k) by {
            if is_candidate(positions, current, from, direction, k) {
                lemma_some_candidate_is_nearest(positions, current, from, direction, k);
            }
        }
    }
}

/// Where a session is a candidate, some session is the nearest candidate.
pub proof fn lemma_some_candidate_is_nearest(
    positions: Seq<(TerminalId, Rect)>,
    current: TerminalId,
    from: Rect,
    direction: FocusDirection,
    k: int,
)
    requires
        is_candidate(positions, current, from, direction, k),
    ensures
        exists|j: int| is_nearest(positions, current, from, direction, j),
{
    let j = nearest_among(positions, current, from, direction, positions.len() as int);
    lemma_nearest_among(positions, current, from, direction, positions.len() as int);
    assert(j >= 0) by {
        if j < 0 {
            assert(!is_candidate(positions, current, from, direction, k));
        }
    }
    assert(is_nearest(positions, current, from, direction, j));
}

/// The nearest candidate among the first `n` sessions, the first of those
/// that are as near; `-1` where there is no candidate among them.
pub open spec fn nearest_among(
    positions: Seq<(TerminalId, Rect)>,
    current: TerminalId,
    from: Rect,
    direction: FocusDirection,
    n: int,
) -> int
    decreases n,
{
    if n <= 0 {
        -1
    } else {
        let before = nearest_among(positions, current, from, direction, n - 1);
        if !is_candidate(positions, current, from, direction, n - 1) {
            before
        } else if before < 0 {
            n - 1
        } else if crate::layout::geometry::distance2(from, positions[n - 1].1)
            < crate::layout::geometry::distance2(from, positions[before].1) {
            n - 1
        } else {
            before
        }
    }
}

/// `nearest_among` is a candidate that no candidate among the first `n`
/// sessions beats.
pub proof fn lemma_nearest_among(
    positions: Seq<(TerminalId, Rect)>,
    current: TerminalId,
    from: Rect,
    direction: FocusDirection,
    n: int,
)
    requires
        0 <= n <= positions.len(),
    ensures
        -1 <= nearest_among(positions, current, from, direction, n) < n,
        nearest_among(positions, current, from, direction, n) < 0 ==> forall|k: int|
            0 <= k < n ==> !is_candidate(positions, current, from, direction, k),
        nearest_among(positions, current, from, direction, n) >= 0 ==> is_candidate(
            positions,
            current,
            from,
            direction,
            nearest_among(positions, current, from, direction, n),
        ) && forall|k: int|
            0 <= k < n && is_candidate(positions, current, from, direction, k)
                ==> crate::layout::geometry::distance2(
                from,
                positions[nearest_among(positions, current, from, direction, n)].1,
            ) < crate::layout::geometry::distance2(from, positions[k].1) || (
            crate::layout::geometry::distance2(
                from,
                positions[nearest_among(positions, current, from, direction, n)].1,
            ) == crate::layout::geometry::distance2(from, positions[k].1) && nearest_among(
                positions,
                current,
                from,
                direction,
                n,
            ) <= k),
    decreases n,
{
    if n > 0 {
        lemma_nearest_among(positions, current, from, direction, n - 1);
    }
}

} // verus!
