//! Rectangles, layout modes, and what each mode owes.

use vstd::prelude::*;
use crate::layout::cuts::cuts;
use crate::workspace::{TerminalId, position};

verus! {


/// A rectangle of character cells.
#[derive(Clone, Copy, Debug, PartialEq, Eq, Structural)]
pub struct Rect {
    pub x: u16,
    pub y: u16,
    pub width: u16,
    pub height: u16,
}

/// A width and a height.
#[derive(Clone, Copy, Debug, PartialEq, Eq, Structural)]
pub struct Size {
    pub width: u16,
    pub height: u16,
}

/// How the tiles of a tiled layout are arranged.
#[derive(Clone, Copy, Debug, PartialEq, Eq, Structural)]
pub enum TileLayout {
    Vertical,
    Horizontal,
    Grid { cols: usize },
    Spiral,
}

/// The rule by which the viewport is shared among the sessions.
#[derive(Clone, Copy, Debug, PartialEq, Eq, Structural)]
pub enum LayoutMode {
    Tiled(TileLayout),
    Floating,
    Tabbed,
    Stacked,
}

/// A direction in which the focus moves.
#[derive(Clone, Copy, Debug, PartialEq, Eq, Structural)]
pub enum FocusDirection {
    Left,
    Right,
    Up,
    Down,
}

/// The axis along which the pieces of a split follow one another:
/// `Horizontal` puts them side by side, `Vertical` one below the other.
#[derive(Clone, Copy, Debug, PartialEq, Eq, Structural)]
pub enum Axis {
    Horizontal,
    Vertical,
}

/// The share of an area that one piece of a split asks for.
#[derive(Clone, Copy, Debug, PartialEq, Eq, Structural)]
pub enum Share {
    Ratio(u32, u32),
    Percentage(u16),
}

/// The name of a container.
pub type ContainerId = usize;

/// A node of a tree of nested splits.
#[derive(Debug)]
pub struct Container {
    pub id: ContainerId,
    pub content: ContainerContent,
    pub rect: Rect,
    pub resizable: bool,
    pub min_size: Size,
}

/// What a container holds: one session, or containers side by side or one
/// below the other, each with its share of the extent.
#[derive(Debug)]
pub enum ContainerContent {
    Terminal(TerminalId),
    Split { direction: Axis, children: Vec<ContainerId>, ratios: Vec<u16> },
}

/// Why the layout engine refused an operation.
#[derive(Clone, Copy, Debug, PartialEq, Eq, Structural)]
pub enum LayoutError {
    /// No layout has the name given.
    InvalidLayout,
}

impl Rect {
    /// The column after the last one of the rectangle.
    pub open spec fn right(self) -> int {
        self.x + self.width
    }

    /// The row after the last one of the rectangle.
    pub open spec fn bottom(self) -> int {
        self.y + self.height
    }

    /// The rectangle ends within the range of coordinates.
    pub open spec fn fits(self) -> bool {
        self.right() <= u16::MAX && self.bottom() <= u16::MAX
    }

    /// The rectangle holds no cell.
    pub open spec fn is_empty(self) -> bool {
        self.width == 0 || self.height == 0
    }

    /// The rectangle lies inside `outer`.
    pub open spec fn within(self, outer: Rect) -> bool {
        outer.x <= self.x && self.right() <= outer.right() && outer.y <= self.y && self.bottom()
            <= outer.bottom()
    }

    /// The cell at column `col` of row `row` belongs to the rectangle.
    pub open spec fn holds(self, col: int, row: int) -> bool {
        self.x <= col < self.right() && self.y <= row < self.bottom()
    }

    /// Twice the column of the centre.
    pub open spec fn centre_x2(self) -> int {
        2 * self.x + self.width
    }

    /// Twice the row of the centre.
    pub open spec fn centre_y2(self) -> int {
        2 * self.y + self.height
    }

    /// The rectangle at `(x, y)` of the size given.
    pub fn new(x: u16, y: u16, width: u16, height: u16) -> (rect: Rect)
        ensures
            rect == (Rect { x, y, width, height }),
    {
        Rect { x, y, width, height }
    }

    /// Whether the cell at column `col` of row `row` belongs to the rectangle.
    pub fn contains(&self, col: u16, row: u16) -> (inside: bool)
        ensures
            inside == self.holds(col as int, row as int),
    {
        col >= self.x && (col as u32) < self.x as u32 + self.width as u32 && row >= self.y && (
        row as u32) < self.y as u32 + self.height as u32
    }
}

/// The squared distance between the centres of two rectangles, in half cells.
pub open spec fn distance2(a: Rect, b: Rect) -> int {
    (a.centre_x2() - b.centre_x2()) * (a.centre_x2() - b.centre_x2()) + (a.centre_y2()
        - b.centre_y2()) * (a.centre_y2() - b.centre_y2())
}

/// The centre of `to` lies strictly on the side `direction` of the centre of `from`.
pub open spec fn in_direction(from: Rect, to: Rect, direction: FocusDirection) -> bool {
    match direction {
        FocusDirection::Left => to.centre_x2() < from.centre_x2(),
        FocusDirection::Right => to.centre_x2() > from.centre_x2(),
        FocusDirection::Up => to.centre_y2() < from.centre_y2(),
        FocusDirection::Down => to.centre_y2() > from.centre_y2(),
    }
}

/// The offset of the `i`-th floating window along one axis: two cells for
/// each window before it, modulo the quarter of the viewport's extent.
pub open spec fn cascade(i: int, extent: int) -> int {
    if extent / 4 == 0 {
        0
    } else {
        (2 * i) % (extent / 4)
    }
}

/// The rectangle of the `i`-th floating window: the viewport itself where
/// that is empty, else a window of at least 40 by 10 cells.
pub open spec fn floating_rect(area: Rect, i: int) -> Rect {
    let dx = cascade(i, area.width as int);
    let dy = cascade(i, area.height as int);
    if area.is_empty() {
        area
    } else {
        Rect {
            x: (area.x + dx) as u16,
            y: (area.y + dy) as u16,
            width: vstd::math::max(40, area.width - 2 * dx) as u16,
            height: vstd::math::max(10, area.height - 2 * dy) as u16,
        }
    }
}

/// The rows that the title bars of a stack of `n` sessions take.
pub open spec fn stacked_titles(area: Rect, n: int) -> int {
    vstd::math::min(2 * (n - 1), area.height as int)
}

/// The rectangle of session `i` in a stack of `n`: the last one has the
/// viewport below the title bars, the others a strip without height at the top.
pub open spec fn stacked_rect(area: Rect, n: int, i: int) -> Rect {
    if i == n - 1 {
        let titles = stacked_titles(area, n);
        Rect {
            x: area.x,
            y: (area.y + titles) as u16,
            width: area.width,
            height: (area.height - titles) as u16,
        }
    } else {
        Rect { x: area.x, y: area.y, width: area.width, height: 0 }
    }
}

/// The columns that a grid of `n` tiles has when `cols` are asked for.
pub open spec fn grid_columns(cols: int, n: int) -> int {
    vstd::math::max(1, vstd::math::min(cols, n))
}

/// The names of the sessions of a layout, in order.
pub open spec fn ids_of(positions: Seq<(TerminalId, Rect)>) -> Seq<TerminalId> {
    Seq::new(positions.len(), |i: int| positions[i].0)
}

/// The rectangles of a layout, in the order of its sessions.
pub open spec fn rects_of(positions: Seq<(TerminalId, Rect)>) -> Seq<Rect> {
    Seq::new(positions.len(), |i: int| positions[i].1)
}

/// The first and the second piece of a cut in two.
pub open spec fn two(first: Rect, second: Rect) -> Seq<Rect> {
    seq![first, second]
}

/// The residual areas of a spiral: the first is the viewport; each session
/// but the last has the first piece of a cut of its residual in two, along
/// alternating axes from `Horizontal` on, and the second piece is the next
/// residual; the last session has the last residual whole.
pub open spec fn spiral_of(area: Rect, rects: Seq<Rect>, residuals: Seq<Rect>) -> bool {
    &&& residuals.len() == rects.len()
    &&& rects.len() > 0 ==> residuals[0] == area
    &&& forall|i: int|
        0 <= i < rects.len() - 1 ==> cuts(
            two(#[trigger] rects[i], residuals[i + 1]),
            residuals[i],
            spiral_axis(i),
        )
    &&& rects.len() > 0 ==> rects[rects.len() - 1] == residuals[rects.len() - 1]
}

/// The axis of the `i`-th cut of a spiral.
pub open spec fn spiral_axis(i: int) -> Axis {
    if i % 2 == 0 {
        Axis::Horizontal
    } else {
        Axis::Vertical
    }
}

/// The rectangles of row `r` of a grid of `cols` columns.
pub open spec fn grid_row(rects: Seq<Rect>, cols: int, r: int) -> Seq<Rect> {
    rects.subrange(r * cols, vstd::math::min((r + 1) * cols, rects.len() as int))
}

/// A grid of `cols` columns: strips cut the viewport into as many rows as
/// the sessions need, and the sessions of each row, as many as the grid has
/// columns and fewer in the last row, cut the strip of their row from left
/// to right.
pub open spec fn grid_of(area: Rect, cols: int, rects: Seq<Rect>, strips: Seq<Rect>) -> bool {
    &&& cols > 0
    &&& strips.len() * cols >= rects.len()
    &&& (strips.len() - 1) * cols < rects.len()
    &&& cuts(strips, area, Axis::Vertical)
    &&& forall|r: int|
        0 <= r < strips.len() ==> cuts(
            grid_row(rects, cols, r),
            #[trigger] strips[r],
            Axis::Horizontal,
        )
}

/// What a layout in `mode` owes: one rectangle for each session, in the
/// order of the sessions, placed by the rule of the mode. The tiled modes
/// cut the viewport: along one axis, into a grid, or in a spiral.
pub open spec fn layout_of(
    mode: LayoutMode,
    area: Rect,
    ids: Seq<TerminalId>,
    positions: Seq<(TerminalId, Rect)>,
) -> bool {
    let n = ids.len() as int;
    &&& ids_of(positions) == ids
    &&& match mode {
        LayoutMode::Tiled(TileLayout::Vertical) => n > 0 ==> cuts(
            rects_of(positions),
            area,
            Axis::Vertical,
        ),
        LayoutMode::Tiled(TileLayout::Horizontal) => n > 0 ==> cuts(
            rects_of(positions),
            area,
            Axis::Horizontal,
        ),
        LayoutMode::Tiled(TileLayout::Grid { cols }) => n > 0 ==> exists|strips: Seq<Rect>| #[trigger]
            grid_of(area, grid_columns(cols as int, n), rects_of(positions), strips),
        LayoutMode::Tiled(TileLayout::Spiral) => n > 0 ==> exists|residuals: Seq<Rect>| #[trigger]
            spiral_of(area, rects_of(positions), residuals),
        LayoutMode::Floating => forall|i: int|
            0 <= i < n ==> (#[trigger] positions[i]).1 == floating_rect(area, i),
        LayoutMode::Tabbed => forall|i: int| 0 <= i < n ==> (#[trigger] positions[i]).1 == area,
        LayoutMode::Stacked => forall|i: int|
            0 <= i < n ==> (#[trigger] positions[i]).1 == stacked_rect(area, n, i),
    }
}

/// Session `k` of the layout is another session than `current`, on the side
/// `direction` of `from`.
pub open spec fn is_candidate(
    positions: Seq<(TerminalId, Rect)>,
    current: TerminalId,
    from: Rect,
    direction: FocusDirection,
    k: int,
) -> bool {
    0 <= k < positions.len() && positions[k].0 != current && in_direction(
        from,
        positions[k].1,
        direction,
    )
}

/// Session `j` is the candidate nearest to `from`, and the first of those
/// that are as near.
pub open spec fn is_nearest(
    positions: Seq<(TerminalId, Rect)>,
    current: TerminalId,
    from: Rect,
    direction: FocusDirection,
    j: int,
) -> bool {
    &&& is_candidate(positions, current, from, direction, j)
    &&& forall|k: int|
        is_candidate(positions, current, from, direction, k) ==> distance2(from, positions[j].1)
            < distance2(from, positions[k].1) || (distance2(from, positions[j].1) == distance2(
            from,
            positions[k].1,
        ) && j <= k)
}

/// The session that the focus moves to from `current`, whose rectangle is
/// `from`: the nearest candidate, if there is a candidate.
pub open spec fn focus_target(
    positions: Seq<(TerminalId, Rect)>,
    current: TerminalId,
    from: Rect,
    direction: FocusDirection,
) -> Option<TerminalId> {
    if exists|j: int| is_nearest(positions, current, from, direction, j) {
        Some(positions[choose|j: int| is_nearest(positions, current, from, direction, j)].0)
    } else {
        None
    }
}

/// At most one session is the nearest candidate.
pub proof fn lemma_nearest_is_unique(
    positions: Seq<(TerminalId, Rect)>,
    current: TerminalId,
    from: Rect,
    direction: FocusDirection,
    a: int,
    b: int,
)
    requires
        is_nearest(positions, current, from, direction, a),
        is_nearest(positions, current, from, direction, b),
    ensures
        a == b,
{
}

/// The rectangle that a layout gives the session named `id`.
pub open spec fn rect_of(positions: Seq<(TerminalId, Rect)>, id: TerminalId) -> Option<Rect> {
    let at = position(ids_of(positions), id);
    if at < positions.len() {
        Some(positions[at].1)
    } else {
        None
    }
}

/// The layout mode of the name given.
pub open spec fn mode_named(name: Seq<char>) -> Option<LayoutMode> {
    if name == "vertical"@ {
        Some(LayoutMode::Tiled(TileLayout::Vertical))
    } else if name == "horizontal"@ {
        Some(LayoutMode::Tiled(TileLayout::Horizontal))
    } else if name == "grid"@ {
        Some(LayoutMode::Tiled(TileLayout::Grid { cols: 2 }))
    } else if name == "spiral"@ {
        Some(LayoutMode::Tiled(TileLayout::Spiral))
    } else if name == "floating"@ {
        Some(LayoutMode::Floating)
    } else if name == "tabbed"@ {
        Some(LayoutMode::Tabbed)
    } else if name == "stacked"@ {
        Some(LayoutMode::Stacked)
    } else {
        None
    }
}

} // verus!
