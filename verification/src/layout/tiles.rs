//! The cuts that the tiled layouts make.

use vstd::prelude::*;
use ratatui::layout::{Constraint, Direction, Layout};
use crate::layout::cuts::{cuts, is_slice, lemma_slice_fits, pack_pieces};
use crate::layout::geometry::{Axis, Rect, Share, grid_row, two};
use crate::workspace::TerminalId;

verus! {

/// `ratatui::layout::Layout::split` with one constraint for each share, on
/// the default layout in the direction of `axis`. The pieces come back in the
/// order of the shares, one for each, and that is all that is claimed here.
/// Where a piece lies and how large it is, the constraint solver decides: it
/// picks its pivots while walking hash maps that every process seeds anew,
/// and the documentation of `split` calls the result of some constraints
/// indeterminate. So the sizes are taken as they come, whatever they are, and
/// `pack_pieces` makes a cut of the area of them.
#[verifier::external_body]
fn split(area: Rect, axis: Axis, shares: &Vec<Share>) -> (pieces: Vec<Rect>)
    requires
        area.fits(),
        shares@.len() > 0,
    ensures
        pieces@.len() == shares@.len(),
{
    let direction = match axis {
        Axis::Horizontal => Direction::Horizontal,
        Axis::Vertical => Direction::Vertical,
    };
    let constraints: Vec<Constraint> = shares.iter().map(|s| match s {
        Share::Ratio(n, d) => Constraint::Ratio(*n, *d),
        Share::Percentage(p) => Constraint::Percentage(*p),
    }).collect();
    let whole = ratatui::layout::Rect::new(area.x, area.y, area.width, area.height);
    let pieces = Layout::default().direction(direction).constraints(constraints).split(whole);
    pieces.iter().map(|r| Rect { x: r.x, y: r.y, width: r.width, height: r.height }).collect()
}

/// The share of one of `n` pieces that ask for as much as one another.
pub open spec fn equal_share(n: int) -> Share {
    Share::Ratio(1, vstd::math::min(n, u32::MAX as int) as u32)
}

/// `n` shares, each of one `n`-th.
fn equal_shares(n: usize) -> (shares: Vec<Share>)
    ensures
        shares@.len() == n,
        forall|i: int| 0 <= i < n ==> (#[trigger] shares@[i]) == equal_share(n as int),
{
    let denominator: u32 = if n > 0xFFFF_FFFF { 0xFFFF_FFFF } else { n as u32 };
    let mut shares: Vec<Share> = Vec::new();
    let mut i: usize = 0;
    while i < n
        invariant
            i <= n,
            shares@.len() == i,
            denominator == vstd::math::min(n as int, u32::MAX as int),
            forall|j: int| 0 <= j < i ==> (#[trigger] shares@[j]) == equal_share(n as int),
        decreases n - i,
    {
        shares.push(Share::Ratio(1, denominator));
        i += 1;
    }
    shares
}

/// Cuts `area` along `axis` into `n` pieces that ask for equal shares of
/// it: the solver says how large each piece is to be, and the pieces are
/// laid one after the other from the start of the area to its end.
pub(crate) fn split_equally(area: Rect, axis: Axis, n: usize) -> (pieces: Vec<Rect>)
    requires
        area.fits(),
        n > 0,
    ensures
        pieces@.len() == n,
        cuts(pieces@, area, axis),
{
    let shares = equal_shares(n);
    let sizes = split(area, axis, &shares);
    pack_pieces(area, axis, &sizes)
}

/// Cuts `area` along `axis` into two pieces that ask for half of it each.
pub(crate) fn split_in_halves(area: Rect, axis: Axis) -> (halves: (Rect, Rect))
    requires
        area.fits(),
    ensures
        cuts(two(halves.0, halves.1), area, axis),
        halves.0.fits(),
        halves.1.fits(),
{
    let mut shares: Vec<Share> = Vec::new();
    shares.push(Share::Percentage(50));
    shares.push(Share::Percentage(50));
    let sizes = split(area, axis, &shares);
    let pieces = pack_pieces(area, axis, &sizes);
    proof {
        assert(pieces@ =~= two(pieces@[0], pieces@[1]));
        assert(is_slice(pieces@[0], area, axis));
        assert(is_slice(pieces@[1], area, axis));
        lemma_slice_fits(pieces@[0], area, axis);
        lemma_slice_fits(pieces@[1], area, axis);
    }
    (pieces[0], pieces[1])
}

/// Pairs each session with the piece of its place.
pub fn place_in_pieces(terminals: &Vec<TerminalId>, pieces: &Vec<Rect>) -> (positions: Vec<
    (TerminalId, Rect),
>)
    requires
        pieces@.len() == terminals@.len(),
    ensures
        positions@.len() == terminals@.len(),
        forall|i: int|
            0 <= i < positions@.len() ==> (#[trigger] positions@[i]) == (terminals@[i], pieces@[i]),
{
    let mut positions: Vec<(TerminalId, Rect)> = Vec::new();
    let mut i: usize = 0;
    while i < terminals.len()
        invariant
            i <= terminals.len(),
            pieces@.len() == terminals@.len(),
            positions@.len() == i,
            forall|j: int|
                0 <= j < i ==> (#[trigger] positions@[j]) == (terminals@[j], pieces@[j]),
        decreases terminals.len() - i,
    {
        positions.push((terminals[i], pieces[i]));
        i += 1;
    }
    positions
}

/// The rectangles of a grid of `cols` columns over the strips given: the
/// sessions of each row cut the strip of their row from left to right.
pub(crate) fn grid_pieces(strips: &Vec<Rect>, cols: usize, n: usize, Ghost(area): Ghost<Rect>) -> (pieces:
    Vec<Rect>)
    requires
        cols > 0,
        n > 0,
        area.fits(),
        strips@.len() * cols >= n,
        (strips@.len() - 1) * cols < n,
        cuts(strips@, area, Axis::Vertical),
    ensures
        pieces@.len() == n,
        forall|r: int|
            0 <= r < strips@.len() ==> cuts(
                grid_row(pieces@, cols as int, r),
                #[trigger] strips@[r],
                Axis::Horizontal,
            ),
{
    let mut pieces: Vec<Rect> = Vec::new();
    let mut r: usize = 0;
    while r < strips.len()
        invariant
            r <= strips@.len(),
            cols > 0,
            n > 0,
            area.fits(),
            strips@.len() * cols >= n,
            (strips@.len() - 1) * cols < n,
            cuts(strips@, area, Axis::Vertical),
            pieces@.len() == (if r * cols < n {
                r * cols
            } else {
                n as int
            }),
            rows_cut(pieces@, strips@, cols as int, r as int),
        decreases strips@.len() - r,
    {
        proof {
            lemma_row_start(r as int, cols as int, strips@.len() as int, n as int);
        }
        let ghost before = pieces@;
        let done = pieces.len();
        let left = n - done;
        let in_row = if left < cols { left } else { cols };
        let strip = strips[r];
        proof {
            assert(is_slice(strip, area, Axis::Vertical));
            lemma_slice_fits(strip, area, Axis::Vertical);
        }
        let mut row_pieces = split_equally(strip, Axis::Horizontal, in_row);
        let ghost row = row_pieces@;
        pieces.append(&mut row_pieces);
        proof {
            lemma_row_end(r as int, cols as int, n as int, in_row as int);
            assert(pieces@ =~= before + row);
            lemma_rows_extend(before, row, strips@, cols as int, r as int);
        }
        r += 1;
    }
    pieces
}

/// The rectangles of each of the first `rows` rows cut the strip of the row.
pub open spec fn rows_cut(rects: Seq<Rect>, strips: Seq<Rect>, cols: int, rows: int) -> bool {
    forall|q: int|
        0 <= q < rows ==> cuts(grid_row(rects, cols, q), #[trigger] strips[q], Axis::Horizontal)
}

/// One more row of rectangles that cut their strip leaves the rows before
/// it as they are.
proof fn lemma_rows_extend(before: Seq<Rect>, row: Seq<Rect>, strips: Seq<Rect>, cols: int, r: int)
    requires
        cols > 0,
        0 <= r < strips.len(),
        before.len() == r * cols,
        0 < row.len() <= cols,
        rows_cut(before, strips, cols, r),
        cuts(row, strips[r], Axis::Horizontal),
    ensures
        rows_cut(before + row, strips, cols, r + 1),
{
    let all = before + row;
    assert forall|q: int| 0 <= q < r + 1 implies cuts(
        grid_row(all, cols, q),
        #[trigger] strips[q],
        Axis::Horizontal,
    ) by {
        if q < r {
            lemma_rows_lie_before(q, r, cols);
            assert(grid_row(all, cols, q) =~= grid_row(before, cols, q));
        } else {
            assert((r + 1) * cols == r * cols + cols) by (nonlinear_arith);
            assert(grid_row(all, cols, r) =~= row);
        }
    }
}

/// The rows before row `r` end before it begins.
proof fn lemma_rows_lie_before(q: int, r: int, cols: int)
    requires
        0 <= q < r,
        cols > 0,
    ensures
        0 <= q * cols,
        (q + 1) * cols == q * cols + cols,
        (q + 1) * cols <= r * cols,
{
    assert((q + 1) * cols == q * cols + cols) by (nonlinear_arith);
    assert(q * cols >= 0) by (nonlinear_arith)
        requires
            0 <= q,
            cols > 0,
    ;
    assert((q + 1) * cols <= r * cols) by (nonlinear_arith)
        requires
            q + 1 <= r,
            cols > 0,
    ;
}

/// Every row of a grid begins before the last session.
proof fn lemma_row_start(r: int, cols: int, rows: int, n: int)
    requires
        0 <= r < rows,
        cols > 0,
        (rows - 1) * cols < n,
    ensures
        r * cols < n,
        r * cols >= 0,
{
    assert(r * cols <= (rows - 1) * cols) by (nonlinear_arith)
        requires
            0 <= r <= rows - 1,
            cols > 0,
    ;
    assert(r * cols >= 0) by (nonlinear_arith)
        requires
            0 <= r,
            cols > 0,
    ;
}

/// Where a row of a grid ends, the next begins, or the sessions end.
proof fn lemma_row_end(r: int, cols: int, n: int, in_row: int)
    requires
        0 <= r,
        cols > 0,
        r * cols < n,
        in_row == (if n - r * cols < cols {
            n - r * cols
        } else {
            cols
        }),
    ensures
        r * cols + in_row == (if (r + 1) * cols < n {
            (r + 1) * cols
        } else {
            n
        }),
{
    assert((r + 1) * cols == r * cols + cols) by (nonlinear_arith);
}

/// The ceiling of `n / cols`.
pub(crate) fn rows_needed(n: usize, cols: usize) -> (rows: usize)
    requires
        n > 0,
        0 < cols <= n,
    ensures
        rows > 0,
        rows * cols >= n,
        (rows - 1) * cols < n,
        rows <= n,
{
    let rows = (n - 1) / cols + 1;
    proof {
        let q = (n - 1) as int / (cols as int);
        let m = (n - 1) as int % (cols as int);
        vstd::arithmetic::div_mod::lemma_fundamental_div_mod((n - 1) as int, cols as int);
        assert(n - 1 == cols * q + m);
        assert(0 <= m < cols);
        assert(q >= 0) by (nonlinear_arith)
            requires
                n - 1 == cols * q + m,
                0 <= m < cols,
                cols > 0,
                n >= 1,
        ;
        assert((q + 1) * cols == cols * q + cols) by (nonlinear_arith);
        assert(q * cols == cols * q) by (nonlinear_arith);
        assert(q <= n - 1) by (nonlinear_arith)
            requires
                n - 1 == cols * q + m,
                0 <= m,
                cols >= 1,
                q >= 0,
        ;
    }
    rows
}

} // verus!
