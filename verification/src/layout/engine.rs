//! The layout engine.

use vstd::prelude::*;
use vstd::string::*;
use crate::layout::cuts::cuts;
use crate::layout::geometry::{
    Axis, FocusDirection, LayoutError, LayoutMode, Rect, TileLayout, distance2, floating_rect,
    focus_target, grid_columns, grid_of, ids_of, in_direction, is_candidate, is_nearest, layout_of,
    lemma_nearest_is_unique, mode_named, rect_of, rects_of, spiral_axis, spiral_of, stacked_rect,
    stacked_titles, two,
};
use crate::layout::tiles::{grid_pieces, place_in_pieces, rows_needed, split_equally, split_in_halves};
use crate::workspace::{TerminalId, WorkspaceManager};

verus! {

/// The layout engine: a mode, and the rectangles that the last layout gave.
pub struct LayoutEngine {
    mode: LayoutMode,
    terminal_positions: Vec<(TerminalId, Rect)>,
}

/// A copy of the rectangles of a layout.
fn copy_positions(positions: &Vec<(TerminalId, Rect)>) -> (copy: Vec<(TerminalId, Rect)>)
    ensures
        copy@ == positions@,
{
    let mut copy: Vec<(TerminalId, Rect)> = Vec::new();
    let mut i: usize = 0;
    while i < positions.len()
        invariant
            i <= positions.len(),
            copy@ == positions@.take(i as int),
        decreases positions.len() - i,
    {
        copy.push(positions[i]);
        assert(positions@.take(i + 1) =~= positions@.take(i as int).push(positions@[i as int]));
        i += 1;
    }
    assert(positions@.take(positions.len() as int) =~= positions@);
    copy
}

/// Twice the column of the centre.
fn centre_x2(rect: Rect) -> (v: i64)
    ensures
        v == rect.centre_x2(),
{
    2 * (rect.x as i64) + rect.width as i64
}

/// Twice the row of the centre.
fn centre_y2(rect: Rect) -> (v: i64)
    ensures
        v == rect.centre_y2(),
{
    2 * (rect.y as i64) + rect.height as i64
}

/// The squared distance between the centres of two rectangles, in half cells.
pub fn squared_distance(a: Rect, b: Rect) -> (d: u64)
    ensures
        d == distance2(a, b),
{
    let dx: i64 = centre_x2(a) - centre_x2(b);
    let dy: i64 = centre_y2(a) - centre_y2(b);
    assert(-196605 <= dx <= 196605);
    assert(-196605 <= dy <= 196605);
    assert(0 <= dx * dx <= 196605 * 196605) by (nonlinear_arith)
        requires
            -196605 <= dx <= 196605,
    ;
    assert(0 <= dy * dy <= 196605 * 196605) by (nonlinear_arith)
        requires
            -196605 <= dy <= 196605,
    ;
    (dx * dx + dy * dy) as u64
}

/// Whether the centre of `to` lies strictly on the side `direction` of the
/// centre of `from`.
pub fn is_in_direction(from: Rect, to: Rect, direction: FocusDirection) -> (yes: bool)
    ensures
        yes == in_direction(from, to, direction),
{
    match direction {
        FocusDirection::Left => centre_x2(to) < centre_x2(from),
        FocusDirection::Right => centre_x2(to) > centre_x2(from),
        FocusDirection::Up => centre_y2(to) < centre_y2(from),
        FocusDirection::Down => centre_y2(to) > centre_y2(from),
    }
}

impl LayoutEngine {
    /// The mode of the engine.
    pub closed spec fn mode(&self) -> LayoutMode {
        self.mode
    }

    /// The rectangles that the last layout gave, in the order of its sessions.
    pub closed spec fn positions(&self) -> Seq<(TerminalId, Rect)> {
        self.terminal_positions@
    }

    /// An engine that tiles in a grid of two columns and has laid out nothing.
    pub fn new() -> (engine: LayoutEngine)
        ensures
            engine.mode() == LayoutMode::Tiled(TileLayout::Grid { cols: 2 }),
            engine.positions() == Seq::<(TerminalId, Rect)>::empty(),
    {
        LayoutEngine {
            mode: LayoutMode::Tiled(TileLayout::Grid { cols: 2 }),
            terminal_positions: Vec::new(),
        }
    }

    /// The mode of the engine.
    pub fn get_mode(&self) -> (mode: LayoutMode)
        ensures
            mode == self.mode(),
    {
        self.mode
    }

    /// Sets the mode. The rectangles of the last layout stay until the next.
    pub fn set_mode(&mut self, mode: LayoutMode)
        ensures
            final(self).mode() == mode,
            final(self).positions() == old(self).positions(),
    {
        self.mode = mode;
    }

    /// Sets the mode by its name; an unknown name is refused and changes nothing.
    pub fn apply_layout(&mut self, layout_name: &str) -> (result: Result<(), LayoutError>)
        ensures
            final(self).positions() == old(self).positions(),
            result is Ok <==> mode_named(layout_name@) is Some,
            result is Err ==> result == Err::<(), LayoutError>(LayoutError::InvalidLayout),
            final(self).mode() == (match mode_named(layout_name@) {
                Some(mode) => mode,
                None => old(self).mode(),
            }),
    {
        let name = layout_name.to_owned();
        let mode = if name == "vertical".to_owned() {
            LayoutMode::Tiled(TileLayout::Vertical)
        } else if name == "horizontal".to_owned() {
            LayoutMode::Tiled(TileLayout::Horizontal)
        } else if name == "grid".to_owned() {
            LayoutMode::Tiled(TileLayout::Grid { cols: 2 })
        } else if name == "spiral".to_owned() {
            LayoutMode::Tiled(TileLayout::Spiral)
        } else if name == "floating".to_owned() {
            LayoutMode::Floating
        } else if name == "tabbed".to_owned() {
            LayoutMode::Tabbed
        } else if name == "stacked".to_owned() {
            LayoutMode::Stacked
        } else {
            return Err(LayoutError::InvalidLayout);
        };
        self.mode = mode;
        Ok(())
    }

    /// Tiles the viewport: slices one below the other, slices side by side,
    /// a grid, or a spiral.
    fn calculate_tiled_layout(area: Rect, terminals: &Vec<TerminalId>, tile_layout: TileLayout) -> (
    positions: Vec<(TerminalId, Rect)>)
        requires
            area.fits(),
            terminals@.len() > 0,
        ensures
            layout_of(LayoutMode::Tiled(tile_layout), area, terminals@, positions@),
    {
        let n = terminals.len();
        match tile_layout {
            TileLayout::Vertical => {
                let pieces = split_equally(area, Axis::Vertical, n);
                let positions = place_in_pieces(terminals, &pieces);
                assert(ids_of(positions@) =~= terminals@);
                assert(rects_of(positions@) =~= pieces@);
                positions
            },
            TileLayout::Horizontal => {
                let pieces = split_equally(area, Axis::Horizontal, n);
                let positions = place_in_pieces(terminals, &pieces);
                assert(ids_of(positions@) =~= terminals@);
                assert(rects_of(positions@) =~= pieces@);
                positions
            },
            TileLayout::Grid { cols } => {
                let columns: usize = if cols < 1 {
                    1
                } else if cols > n {
                    n
                } else {
                    cols
                };
                let rows = rows_needed(n, columns);
                let strips = split_equally(area, Axis::Vertical, rows);
                let pieces = grid_pieces(&strips, columns, n, Ghost(area));
                let positions = place_in_pieces(terminals, &pieces);
                assert(ids_of(positions@) =~= terminals@);
                assert(rects_of(positions@) =~= pieces@);
                assert(columns == grid_columns(cols as int, n as int));
                assert(grid_of(
                    area,
                    grid_columns(cols as int, n as int),
                    rects_of(positions@),
                    strips@,
                ));
                positions
            },
            TileLayout::Spiral => Self::calculate_spiral_layout(area, terminals),
        }
    }

    /// Cuts the residual in two for each session but the last, along
    /// alternating axes; the last session has what is left.
    fn calculate_spiral_layout(area: Rect, terminals: &Vec<TerminalId>) -> (positions: Vec<
        (TerminalId, Rect),
    >)
        requires
            area.fits(),
            terminals@.len() > 0,
        ensures
            layout_of(LayoutMode::Tiled(TileLayout::Spiral), area, terminals@, positions@),
    {
        let n = terminals.len();
        let mut pieces: Vec<Rect> = Vec::new();
        let mut remaining = area;
        let mut axis = Axis::Horizontal;
        let ghost mut residuals: Seq<Rect> = seq![area];
        let mut i: usize = 0;
        while i + 1 < n
            invariant
                i + 1 <= n,
                n == terminals@.len(),
                area.fits(),
                remaining.fits(),
                axis == spiral_axis(i as int),
                pieces@.len() == i,
                residuals.len() == i + 1,
                residuals[0] == area,
                residuals[i as int] == remaining,
                forall|j: int|
                    0 <= j < i ==> cuts(
                        two(#[trigger] pieces@[j], residuals[j + 1]),
                        residuals[j],
                        spiral_axis(j),
                    ),
            decreases n - i,
        {
            let halves = split_in_halves(remaining, axis);
            let ghost before = pieces@;
            let ghost before_residuals = residuals;
            pieces.push(halves.0);
            proof {
                residuals = residuals.push(halves.1);
                assert forall|j: int| 0 <= j < i + 1 implies cuts(
                    two(#[trigger] pieces@[j], residuals[j + 1]),
                    residuals[j],
                    spiral_axis(j),
                ) by {
                    if j < i {
                        assert(pieces@[j] == before[j]);
                        assert(residuals[j] == before_residuals[j]);
                        assert(residuals[j + 1] == before_residuals[j + 1]);
                    }
                }
            }
            remaining = halves.1;
            axis = match axis {
                Axis::Horizontal => Axis::Vertical,
                Axis::Vertical => Axis::Horizontal,
            };
            i += 1;
        }
        pieces.push(remaining);
        let positions = place_in_pieces(terminals, &pieces);
        proof {
            assert(ids_of(positions@) =~= terminals@);
            let rects = rects_of(positions@);
            assert(rects =~= pieces@);
            assert forall|j: int| 0 <= j < rects.len() - 1 implies cuts(
                two(#[trigger] rects[j], residuals[j + 1]),
                residuals[j],
                spiral_axis(j),
            ) by {
                assert(rects[j] == pieces@[j]);
            }
            assert(spiral_of(area, rects, residuals));
        }
        positions
    }

    /// Cascades the sessions from the corner of the viewport.
    fn calculate_floating_layout(area: Rect, terminals: &Vec<TerminalId>) -> (positions: Vec<
        (TerminalId, Rect),
    >)
        requires
            area.fits(),
        ensures
            layout_of(LayoutMode::Floating, area, terminals@, positions@),
    {
        let mut positions: Vec<(TerminalId, Rect)> = Vec::new();
        let qx: u16 = area.width / 4;
        let qy: u16 = area.height / 4;
        let mut i: usize = 0;
        while i < terminals.len()
            invariant
                i <= terminals.len(),
                area.fits(),
                qx == area.width / 4,
                qy == area.height / 4,
                positions@.len() == i,
                forall|j: int|
                    0 <= j < i ==> (#[trigger] positions@[j]) == (
                        terminals@[j],
                        floating_rect(area, j),
                    ),
            decreases terminals.len() - i,
        {
            let dx: u16 = if qx == 0 { 0 } else { ((2 * (i as u128)) % (qx as u128)) as u16 };
            let dy: u16 = if qy == 0 { 0 } else { ((2 * (i as u128)) % (qy as u128)) as u16 };
            let wide: u16 = area.width - 2 * dx;
            let high: u16 = area.height - 2 * dy;
            let rect = if area.width == 0 || area.height == 0 {
                area
            } else {
                Rect {
                    x: area.x + dx,
                    y: area.y + dy,
                    width: if wide < 40 { 40 } else { wide },
                    height: if high < 10 { 10 } else { high },
                }
            };
            positions.push((terminals[i], rect));
            i += 1;
        }
        assert(ids_of(positions@) =~= terminals@);
        positions
    }

    /// Gives every session the whole viewport.
    fn calculate_tabbed_layout(area: Rect, terminals: &Vec<TerminalId>) -> (positions: Vec<
        (TerminalId, Rect),
    >)
        ensures
            layout_of(LayoutMode::Tabbed, area, terminals@, positions@),
    {
        let mut positions: Vec<(TerminalId, Rect)> = Vec::new();
        let mut i: usize = 0;
        while i < terminals.len()
            invariant
                i <= terminals.len(),
                positions@.len() == i,
                forall|j: int| 0 <= j < i ==> (#[trigger] positions@[j]) == (terminals@[j], area),
            decreases terminals.len() - i,
        {
            positions.push((terminals[i], area));
            i += 1;
        }
        assert(ids_of(positions@) =~= terminals@);
        positions
    }

    /// Gives the last session the viewport below the title bars of the
    /// others.
    fn calculate_stacked_layout(area: Rect, terminals: &Vec<TerminalId>) -> (positions: Vec<
        (TerminalId, Rect),
    >)
        requires
            area.fits(),
        ensures
            layout_of(LayoutMode::Stacked, area, terminals@, positions@),
    {
        let n = terminals.len();
        let mut positions: Vec<(TerminalId, Rect)> = Vec::new();
        if n == 0 {
            assert(ids_of(positions@) =~= terminals@);
            return positions;
        }
        let wanted: u128 = 2 * ((n - 1) as u128);
        let titles: u16 = if wanted < area.height as u128 { wanted as u16 } else { area.height };
        let mut i: usize = 0;
        while i < n
            invariant
                i <= n,
                n == terminals@.len(),
                n > 0,
                area.fits(),
                titles == stacked_titles(area, n as int),
                positions@.len() == i,
                forall|j: int|
                    0 <= j < i ==> (#[trigger] positions@[j]) == (
                        terminals@[j],
                        stacked_rect(area, n as int, j),
                    ),
            decreases n - i,
        {
            let rect = if i == n - 1 {
                Rect {
                    x: area.x,
                    y: area.y + titles,
                    width: area.width,
                    height: area.height - titles,
                }
            } else {
                Rect { x: area.x, y: area.y, width: area.width, height: 0 }
            };
            positions.push((terminals[i], rect));
            i += 1;
        }
        assert(ids_of(positions@) =~= terminals@);
        positions
    }

    /// Lays the sessions out over `area` by the mode of the engine, keeps
    /// the rectangles and hands a copy of them out.
    pub fn calculate_layout(&mut self, area: Rect, terminals: &Vec<TerminalId>) -> (positions: Vec<
        (TerminalId, Rect),
    >)
        requires
            area.fits(),
        ensures
            final(self).mode() == old(self).mode(),
            final(self).positions() == positions@,
            positions@.len() == terminals@.len(),
            layout_of(old(self).mode(), area, terminals@, positions@),
    {
        let positions = if terminals.len() == 0 {
            let empty: Vec<(TerminalId, Rect)> = Vec::new();
            assert(ids_of(empty@) =~= terminals@);
            empty
        } else {
            match self.mode {
                LayoutMode::Tiled(tile_layout) => Self::calculate_tiled_layout(
                    area,
                    terminals,
                    tile_layout,
                ),
                LayoutMode::Floating => Self::calculate_floating_layout(area, terminals),
                LayoutMode::Tabbed => Self::calculate_tabbed_layout(area, terminals),
                LayoutMode::Stacked => Self::calculate_stacked_layout(area, terminals),
            }
        };
        assert(ids_of(positions@).len() == positions@.len());
        self.terminal_positions = copy_positions(&positions);
        positions
    }

    /// The rectangles that the last layout gave, in the order of its sessions.
    pub fn get_terminal_areas(&self) -> (positions: Vec<(TerminalId, Rect)>)
        ensures
            positions@ == self.positions(),
    {
        copy_positions(&self.terminal_positions)
    }

    /// The rectangle that the last layout gave the session named `id`.
    pub fn get_terminal_rect(&self, id: TerminalId) -> (rect: Option<Rect>)
        ensures
            rect == rect_of(self.positions(), id),
    {
        let mut i: usize = 0;
        while i < self.terminal_positions.len()
            invariant
                i <= self.terminal_positions.len(),
                forall|j: int| 0 <= j < i ==> ids_of(self.positions())[j] != id,
            decreases self.terminal_positions.len() - i,
        {
            if self.terminal_positions[i].0 == id {
                proof {
                    crate::workspace::lemma_position_is(ids_of(self.positions()), id, i as int);
                }
                return Some(self.terminal_positions[i].1);
            }
            i += 1;
        }
        proof {
            crate::workspace::lemma_position_is(ids_of(self.positions()), id, i as int);
        }
        None
    }

    /// The first session of the last layout whose rectangle holds the cell
    /// at column `col` of row `row`.
    pub fn terminal_at(&self, col: u16, row: u16) -> (hit: Option<TerminalId>)
        ensures
            match hit {
                Some(id) => exists|i: int|
                    0 <= i < self.positions().len() && (#[trigger] self.positions()[i]).0 == id
                        && self.positions()[i].1.holds(col as int, row as int) && forall|j: int|
                        0 <= j < i ==> !(#[trigger] self.positions()[j]).1.holds(
                            col as int,
                            row as int,
                        ),
                None => forall|j: int|
                    0 <= j < self.positions().len() ==> !(#[trigger] self.positions()[j]).1.holds(
                        col as int,
                        row as int,
                    ),
            },
    {
        let mut i: usize = 0;
        while i < self.terminal_positions.len()
            invariant
                i <= self.terminal_positions.len(),
                forall|j: int|
                    0 <= j < i ==> !(#[trigger] self.positions()[j]).1.holds(col as int, row as int),
            decreases self.terminal_positions.len() - i,
        {
            if self.terminal_positions[i].1.contains(col, row) {
                assert(self.positions()[i as int].1.holds(col as int, row as int));
                return Some(self.terminal_positions[i].0);
            }
            i += 1;
        }
        None
    }

    /// The session that the focus moves to from the session named
    /// `current_id`, whose rectangle is `current_rect`: among the other
    /// sessions whose centre lies strictly on that side, the one whose centre
    /// is nearest, and the first of those that are as near.
    pub fn find_best_terminal_in_direction(
        &self,
        current_id: TerminalId,
        current_rect: Rect,
        direction: FocusDirection,
    ) -> (best: Option<TerminalId>)
        ensures
            best == focus_target(self.positions(), current_id, current_rect, direction),
            best matches Some(id) ==> id != current_id,
    {
        let ghost positions = self.positions();
        let mut best: Option<usize> = None;
        let mut best_distance: u64 = 0;
        let mut i: usize = 0;
        while i < self.terminal_positions.len()
            invariant
                i <= self.terminal_positions.len(),
                positions == self.positions(),
                match best {
                    Some(j) => j < i && is_candidate(
                        positions,
                        current_id,
                        current_rect,
                        direction,
                        j as int,
                    ) && best_distance == distance2(current_rect, positions[j as int].1)
                        && forall|k: int|
                        0 <= k < i && is_candidate(positions, current_id, current_rect, direction, k)
                            ==> best_distance < distance2(current_rect, positions[k].1) || (
                        best_distance == distance2(current_rect, positions[k].1) && j <= k),
                    None => forall|k: int|
                        0 <= k < i ==> !is_candidate(
                            positions,
                            current_id,
                            current_rect,
                            direction,
                            k,
                        ),
                },
            decreases self.terminal_positions.len() - i,
        {
            let (id, rect) = self.terminal_positions[i];
            if id != current_id && is_in_direction(current_rect, rect, direction) {
                let distance = squared_distance(current_rect, rect);
                match best {
                    Some(_) => {
                        if distance < best_distance {
                            best = Some(i);
                            best_distance = distance;
                        }
                    },
                    None => {
                        best = Some(i);
                        best_distance = distance;
                    },
                }
            }
            i += 1;
        }
        match best {
            Some(j) => {
                proof {
                    assert(is_nearest(positions, current_id, current_rect, direction, j as int));
                    let chosen = choose|c: int|
                        is_nearest(positions, current_id, current_rect, direction, c);
                    lemma_nearest_is_unique(
                        positions,
                        current_id,
                        current_rect,
                        direction,
                        j as int,
                        chosen,
                    );
                }
                Some(self.terminal_positions[j].0)
            },
            None => {
                proof {
                    assert forall|c: int|
                        !is_nearest(positions, current_id, current_rect, direction, c) by {
                        if is_nearest(positions, current_id, current_rect, direction, c) {
                            assert(is_candidate(positions, current_id, current_rect, direction, c));
                        }
                    }
                }
                None
            },
        }
    }

    /// Where the focus goes from the active session of `workspace` in
    /// `direction`: nowhere if no session is active, if the last layout has
    /// no rectangle for it, or if no session lies on that side.
    pub open spec fn focus_move(
        &self,
        active: Option<TerminalId>,
        direction: FocusDirection,
    ) -> Option<TerminalId> {
        match active {
            Some(current) => match rect_of(self.positions(), current) {
                Some(rect) => focus_target(self.positions(), current, rect, direction),
                None => None,
            },
            None => None,
        }
    }

    /// Moves the focus of `workspace` in `direction`.
    pub fn focus_direction(&self, workspace: &mut WorkspaceManager, direction: FocusDirection)
        requires
            old(workspace).wf(),
        ensures
            final(workspace).wf(),
            final(workspace)@ == (match self.focus_move(old(workspace)@.active, direction) {
                Some(target) => old(workspace)@.with_active(target),
                None => old(workspace)@,
            }),
    {
        match workspace.active_terminal_id() {
            Some(current_id) => {
                match self.get_terminal_rect(current_id) {
                    Some(current_rect) => {
                        let best = self.find_best_terminal_in_direction(
                            current_id,
                            current_rect,
                            direction,
                        );
                        match best {
                            Some(new_id) => {
                                workspace.set_active_terminal(new_id);
                            },
                            None => {},
                        }
                    },
                    None => {},
                }
            },
            None => {},
        }
    }

    /// Moves the focus of `workspace` to the left.
    pub fn focus_left(&self, workspace: &mut WorkspaceManager)
        requires
            old(workspace).wf(),
        ensures
            final(workspace).wf(),
            final(workspace)@ == (match self.focus_move(
                old(workspace)@.active,
                FocusDirection::Left,
            ) {
                Some(target) => old(workspace)@.with_active(target),
                None => old(workspace)@,
            }),
    {
        self.focus_direction(workspace, FocusDirection::Left);
    }

    /// Moves the focus of `workspace` to the right.
    pub fn focus_right(&self, workspace: &mut WorkspaceManager)
        requires
            old(workspace).wf(),
        ensures
            final(workspace).wf(),
            final(workspace)@ == (match self.focus_move(
                old(workspace)@.active,
                FocusDirection::Right,
            ) {
                Some(target) => old(workspace)@.with_active(target),
                None => old(workspace)@,
            }),
    {
        self.focus_direction(workspace, FocusDirection::Right);
    }

    /// Moves the focus of `workspace` up.
    pub fn focus_up(&self, workspace: &mut WorkspaceManager)
        requires
            old(workspace).wf(),
        ensures
            final(workspace).wf(),
            final(workspace)@ == (match self.focus_move(old(workspace)@.active, FocusDirection::Up) {
                Some(target) => old(workspace)@.with_active(target),
                None => old(workspace)@,
            }),
    {
        self.focus_direction(workspace, FocusDirection::Up);
    }

    /// Moves the focus of `workspace` down.
    pub fn focus_down(&self, workspace: &mut WorkspaceManager)
        requires
            old(workspace).wf(),
        ensures
            final(workspace).wf(),
            final(workspace)@ == (match self.focus_move(
                old(workspace)@.active,
                FocusDirection::Down,
            ) {
                Some(target) => old(workspace)@.with_active(target),
                None => old(workspace)@,
            }),
    {
        self.focus_direction(workspace, FocusDirection::Down);
    }
}

} // verus!
