use rgb_workspace::layout::cuts::pack_pieces;
use rgb_workspace::layout::tiles::place_in_pieces;
use rgb_workspace::layout::{Axis, LayoutEngine, LayoutError, LayoutMode, Rect, TileLayout};

fn rect(x: u16, y: u16, width: u16, height: u16) -> Rect {
    Rect { x, y, width, height }
}

fn ids(n: u128) -> Vec<u128> {
    (1..=n).map(|i| i * 1000).collect()
}

fn laid_out(mode: LayoutMode, area: Rect, n: u128) -> Vec<(u128, Rect)> {
    let mut engine = LayoutEngine::new();
    engine.set_mode(mode);
    engine.calculate_layout(area, &ids(n))
}

fn rects(positions: &[(u128, Rect)]) -> Vec<Rect> {
    positions.iter().map(|p| p.1).collect()
}

fn overlap(a: Rect, b: Rect) -> bool {
    let (ax1, ay1) = (a.x as u32 + a.width as u32, a.y as u32 + a.height as u32);
    let (bx1, by1) = (b.x as u32 + b.width as u32, b.y as u32 + b.height as u32);
    (a.x as u32) < bx1 && (b.x as u32) < ax1 && (a.y as u32) < by1 && (b.y as u32) < ay1
}

fn inside(inner: Rect, outer: Rect) -> bool {
    inner.x >= outer.x
        && inner.y >= outer.y
        && inner.x as u32 + inner.width as u32 <= outer.x as u32 + outer.width as u32
        && inner.y as u32 + inner.height as u32 <= outer.y as u32 + outer.height as u32
}

fn area_of(r: Rect) -> u64 {
    r.width as u64 * r.height as u64
}

fn tiled_modes() -> Vec<LayoutMode> {
    vec![
        LayoutMode::Tiled(TileLayout::Vertical),
        LayoutMode::Tiled(TileLayout::Horizontal),
        LayoutMode::Tiled(TileLayout::Grid { cols: 2 }),
        LayoutMode::Tiled(TileLayout::Grid { cols: 3 }),
        LayoutMode::Tiled(TileLayout::Spiral),
    ]
}

#[test]
fn grid_two_by_two_scenario() {
    let positions = laid_out(LayoutMode::Tiled(TileLayout::Grid { cols: 2 }), rect(0, 0, 80, 24), 4);
    assert_eq!(
        positions,
        vec![
            (1000, rect(0, 0, 40, 12)),
            (2000, rect(40, 0, 40, 12)),
            (3000, rect(0, 12, 40, 12)),
            (4000, rect(40, 12, 40, 12)),
        ]
    );
}

#[test]
fn a_new_engine_tiles_in_a_grid_of_two_columns() {
    let mut engine = LayoutEngine::new();
    assert_eq!(engine.get_mode(), LayoutMode::Tiled(TileLayout::Grid { cols: 2 }));
    assert!(engine.get_terminal_areas().is_empty());
    let positions = engine.calculate_layout(rect(0, 0, 80, 24), &ids(2));
    assert_eq!(rects(&positions), vec![rect(0, 0, 40, 24), rect(40, 0, 40, 24)]);
}

#[test]
fn vertical_tiles_are_slices_one_below_the_other() {
    let positions = laid_out(LayoutMode::Tiled(TileLayout::Vertical), rect(0, 0, 80, 24), 3);
    assert_eq!(
        rects(&positions),
        vec![rect(0, 0, 80, 8), rect(0, 8, 80, 8), rect(0, 16, 80, 8)]
    );
    let positions = laid_out(LayoutMode::Tiled(TileLayout::Vertical), rect(5, 3, 40, 10), 1);
    assert_eq!(positions, vec![(1000, rect(5, 3, 40, 10))]);
}

#[test]
fn horizontal_tiles_are_slices_side_by_side() {
    let positions = laid_out(LayoutMode::Tiled(TileLayout::Horizontal), rect(0, 0, 80, 24), 4);
    assert_eq!(
        rects(&positions),
        vec![rect(0, 0, 20, 24), rect(20, 0, 20, 24), rect(40, 0, 20, 24), rect(60, 0, 20, 24)]
    );
    let positions = laid_out(LayoutMode::Tiled(TileLayout::Horizontal), rect(10, 2, 60, 20), 2);
    assert_eq!(rects(&positions), vec![rect(10, 2, 30, 20), rect(40, 2, 30, 20)]);
}

#[test]
fn the_last_row_of_a_grid_shares_the_width_among_fewer() {
    let positions = laid_out(LayoutMode::Tiled(TileLayout::Grid { cols: 2 }), rect(0, 0, 80, 24), 3);
    assert_eq!(
        rects(&positions),
        vec![rect(0, 0, 40, 12), rect(40, 0, 40, 12), rect(0, 12, 80, 12)]
    );
    let positions = laid_out(LayoutMode::Tiled(TileLayout::Grid { cols: 3 }), rect(0, 0, 90, 30), 7);
    assert_eq!(positions.len(), 7);
    assert_eq!(positions[0].1, rect(0, 0, 30, 10));
    assert_eq!(positions[5].1, rect(60, 10, 30, 10));
    assert_eq!(positions[6].1, rect(0, 20, 90, 10));
}

#[test]
fn the_columns_of_a_grid_are_clamped() {
    let positions = laid_out(LayoutMode::Tiled(TileLayout::Grid { cols: 0 }), rect(0, 0, 80, 24), 3);
    assert_eq!(
        rects(&positions),
        vec![rect(0, 0, 80, 8), rect(0, 8, 80, 8), rect(0, 16, 80, 8)]
    );
    let positions = laid_out(LayoutMode::Tiled(TileLayout::Grid { cols: 99 }), rect(0, 0, 90, 24), 3);
    assert_eq!(
        rects(&positions),
        vec![rect(0, 0, 30, 24), rect(30, 0, 30, 24), rect(60, 0, 30, 24)]
    );
}

#[test]
fn a_spiral_bisects_the_residual() {
    let positions = laid_out(LayoutMode::Tiled(TileLayout::Spiral), rect(0, 0, 80, 24), 1);
    assert_eq!(rects(&positions), vec![rect(0, 0, 80, 24)]);
    let positions = laid_out(LayoutMode::Tiled(TileLayout::Spiral), rect(0, 0, 80, 24), 2);
    assert_eq!(rects(&positions), vec![rect(0, 0, 40, 24), rect(40, 0, 40, 24)]);
    let positions = laid_out(LayoutMode::Tiled(TileLayout::Spiral), rect(0, 0, 80, 24), 4);
    assert_eq!(
        rects(&positions),
        vec![rect(0, 0, 40, 24), rect(40, 0, 40, 12), rect(40, 12, 20, 12), rect(60, 12, 20, 12)]
    );
}

#[test]
fn tiles_do_not_overlap_and_cover_the_viewport() {
    for area in [rect(0, 0, 80, 24), rect(3, 2, 81, 25), rect(0, 0, 7, 3), rect(10, 10, 100, 37), rect(0, 0, 120, 60)] {
        for mode in tiled_modes() {
            for n in 1..=6u128 {
                let positions = laid_out(mode, area, n);
                assert_eq!(positions.len(), n as usize);
                let all = rects(&positions);
                for (i, a) in all.iter().enumerate() {
                    assert!(inside(*a, area), "{:?} {:?} {}", mode, area, n);
                    for b in &all[..i] {
                        assert!(!overlap(*a, *b), "{:?} {:?} {}", mode, area, n);
                    }
                }
                let covered: u64 = all.iter().map(|r| area_of(*r)).sum();
                assert_eq!(covered, area_of(area), "{:?} {:?} {}", mode, area, n);
            }
        }
    }
}

#[test]
fn every_mode_names_the_sessions_in_order() {
    let modes = [
        LayoutMode::Tiled(TileLayout::Vertical),
        LayoutMode::Tiled(TileLayout::Horizontal),
        LayoutMode::Tiled(TileLayout::Grid { cols: 2 }),
        LayoutMode::Tiled(TileLayout::Spiral),
        LayoutMode::Floating,
        LayoutMode::Tabbed,
        LayoutMode::Stacked,
    ];
    for mode in modes {
        let positions = laid_out(mode, rect(0, 0, 80, 24), 5);
        let names: Vec<u128> = positions.iter().map(|p| p.0).collect();
        assert_eq!(names, ids(5));
        assert!(laid_out(mode, rect(0, 0, 80, 24), 0).is_empty());
    }
}

#[test]
fn floating_windows_cascade() {
    let positions = laid_out(LayoutMode::Floating, rect(0, 0, 80, 24), 6);
    assert_eq!(
        rects(&positions),
        vec![
            rect(0, 0, 80, 24),
            rect(2, 2, 76, 20),
            rect(4, 4, 72, 16),
            rect(6, 0, 68, 24),
            rect(8, 2, 64, 20),
            rect(10, 4, 60, 16),
        ]
    );
    let positions = laid_out(LayoutMode::Floating, rect(5, 3, 80, 24), 11);
    assert_eq!(positions[10].1, rect(5, 5, 80, 20));
}

#[test]
fn floating_windows_have_a_least_size() {
    let positions = laid_out(LayoutMode::Floating, rect(0, 0, 30, 8), 2);
    assert_eq!(rects(&positions), vec![rect(0, 0, 40, 10), rect(2, 0, 40, 10)]);
    let positions = laid_out(LayoutMode::Floating, rect(0, 0, 3, 3), 3);
    assert_eq!(rects(&positions), vec![rect(0, 0, 40, 10); 3]);
}

#[test]
fn floating_windows_of_an_empty_viewport_are_empty() {
    let positions = laid_out(LayoutMode::Floating, rect(7, 9, 0, 0), 2);
    assert_eq!(rects(&positions), vec![rect(7, 9, 0, 0); 2]);
    let positions = laid_out(LayoutMode::Floating, rect(0, 0, 80, 0), 3);
    assert_eq!(rects(&positions), vec![rect(0, 0, 80, 0); 3]);
    let positions = laid_out(LayoutMode::Floating, rect(0, 0, 0, 24), 3);
    assert_eq!(rects(&positions), vec![rect(0, 0, 0, 24); 3]);
}

#[test]
fn tabbed_sessions_have_the_whole_viewport() {
    let positions = laid_out(LayoutMode::Tabbed, rect(2, 1, 60, 20), 3);
    assert_eq!(rects(&positions), vec![rect(2, 1, 60, 20); 3]);
}

#[test]
fn stacked_sessions_leave_title_rows_above_the_last() {
    let positions = laid_out(LayoutMode::Stacked, rect(0, 0, 80, 24), 3);
    assert_eq!(
        rects(&positions),
        vec![rect(0, 0, 80, 0), rect(0, 0, 80, 0), rect(0, 4, 80, 20)]
    );
    let positions = laid_out(LayoutMode::Stacked, rect(4, 2, 80, 24), 1);
    assert_eq!(rects(&positions), vec![rect(4, 2, 80, 24)]);
    let positions = laid_out(LayoutMode::Stacked, rect(4, 2, 80, 24), 20);
    assert_eq!(positions[19].1, rect(4, 26, 80, 0));
    assert_eq!(positions[0].1, rect(4, 2, 80, 0));
}

#[test]
fn a_viewport_without_area_gives_rectangles_without_area() {
    let modes = [
        LayoutMode::Tiled(TileLayout::Vertical),
        LayoutMode::Tiled(TileLayout::Horizontal),
        LayoutMode::Tiled(TileLayout::Grid { cols: 2 }),
        LayoutMode::Tiled(TileLayout::Spiral),
        LayoutMode::Floating,
        LayoutMode::Tabbed,
        LayoutMode::Stacked,
    ];
    for area in [rect(0, 0, 0, 24), rect(0, 0, 80, 0), rect(5, 5, 0, 0)] {
        for mode in modes {
            for n in 1..=4 {
                for (_, r) in laid_out(mode, area, n) {
                    assert_eq!(area_of(r), 0);
                }
            }
        }
    }
}

#[test]
fn the_largest_viewport_is_laid_out() {
    let area = rect(0, 0, 65535, 65535);
    let positions = laid_out(LayoutMode::Tiled(TileLayout::Grid { cols: 2 }), area, 4);
    let covered: u64 = positions.iter().map(|p| area_of(p.1)).sum();
    assert_eq!(covered, area_of(area));
    let area = rect(65535, 65535, 0, 0);
    assert_eq!(laid_out(LayoutMode::Tabbed, area, 1), vec![(1000, area)]);
    assert_eq!(laid_out(LayoutMode::Stacked, area, 2)[1].1, area);
}

#[test]
fn layouts_are_set_by_name() {
    let mut engine = LayoutEngine::new();
    let names = [
        ("vertical", LayoutMode::Tiled(TileLayout::Vertical)),
        ("horizontal", LayoutMode::Tiled(TileLayout::Horizontal)),
        ("grid", LayoutMode::Tiled(TileLayout::Grid { cols: 2 })),
        ("spiral", LayoutMode::Tiled(TileLayout::Spiral)),
        ("floating", LayoutMode::Floating),
        ("tabbed", LayoutMode::Tabbed),
        ("stacked", LayoutMode::Stacked),
    ];
    for (name, mode) in names {
        assert_eq!(engine.apply_layout(name), Ok(()));
        assert_eq!(engine.get_mode(), mode);
    }
}

#[test]
fn an_unknown_layout_name_is_refused() {
    let mut engine = LayoutEngine::new();
    engine.set_mode(LayoutMode::Tabbed);
    for name in ["", "Grid", "grid ", "tiles", "verticals"] {
        assert_eq!(engine.apply_layout(name), Err(LayoutError::InvalidLayout));
        assert_eq!(engine.get_mode(), LayoutMode::Tabbed);
    }
}

#[test]
fn the_engine_keeps_the_last_layout() {
    let mut engine = LayoutEngine::new();
    let positions = engine.calculate_layout(rect(0, 0, 80, 24), &ids(4));
    assert_eq!(engine.get_terminal_areas(), positions);
    assert_eq!(engine.get_terminal_rect(3000), Some(rect(0, 12, 40, 12)));
    assert_eq!(engine.get_terminal_rect(5000), None);
    engine.set_mode(LayoutMode::Tabbed);
    assert_eq!(engine.get_terminal_rect(3000), Some(rect(0, 12, 40, 12)));
    engine.calculate_layout(rect(0, 0, 80, 24), &ids(2));
    assert_eq!(engine.get_terminal_rect(3000), None);
    assert_eq!(engine.get_terminal_rect(2000), Some(rect(0, 0, 80, 24)));
    engine.calculate_layout(rect(0, 0, 80, 24), &vec![7, 7]);
    assert_eq!(engine.get_terminal_areas().len(), 2);
    assert_eq!(engine.get_terminal_rect(7), Some(rect(0, 0, 80, 24)));
}

#[test]
fn a_cell_belongs_to_the_first_session_that_holds_it() {
    let mut engine = LayoutEngine::new();
    engine.calculate_layout(rect(0, 0, 80, 24), &ids(4));
    assert_eq!(engine.terminal_at(0, 0), Some(1000));
    assert_eq!(engine.terminal_at(39, 11), Some(1000));
    assert_eq!(engine.terminal_at(40, 11), Some(2000));
    assert_eq!(engine.terminal_at(39, 12), Some(3000));
    assert_eq!(engine.terminal_at(79, 23), Some(4000));
    assert_eq!(engine.terminal_at(80, 23), None);
    assert_eq!(engine.terminal_at(79, 24), None);
    engine.set_mode(LayoutMode::Tabbed);
    engine.calculate_layout(rect(0, 0, 80, 24), &ids(3));
    assert_eq!(engine.terminal_at(10, 10), Some(1000));
    assert!(rect(65535, 0, 1, 1).contains(65535, 0));
    assert!(!rect(2, 2, 0, 5).contains(2, 2));
}

#[test]
fn sessions_are_paired_with_pieces_in_order() {
    let pieces = vec![rect(0, 0, 1, 1), rect(1, 0, 2, 1)];
    assert_eq!(
        place_in_pieces(&vec![9, 8], &pieces),
        vec![(9, rect(0, 0, 1, 1)), (8, rect(1, 0, 2, 1))]
    );
}

#[test]
fn packing_keeps_pieces_that_cut_the_area() {
    let area = rect(2, 1, 30, 10);
    let pieces = vec![rect(2, 1, 10, 10), rect(12, 1, 15, 10), rect(27, 1, 5, 10)];
    assert_eq!(pack_pieces(area, Axis::Horizontal, &pieces), pieces);
    let pieces = vec![rect(2, 1, 30, 4), rect(2, 5, 30, 0), rect(2, 5, 30, 6)];
    assert_eq!(pack_pieces(area, Axis::Vertical, &pieces), pieces);
    assert_eq!(pack_pieces(area, Axis::Vertical, &vec![area]), vec![area]);
}

#[test]
fn packing_closes_gaps_and_overlaps() {
    let area = rect(2, 1, 30, 10);
    let loose = vec![rect(0, 0, 10, 3), rect(40, 7, 5, 1), rect(9, 9, 5, 2)];
    assert_eq!(
        pack_pieces(area, Axis::Horizontal, &loose),
        vec![rect(2, 1, 10, 10), rect(12, 1, 5, 10), rect(17, 1, 15, 10)]
    );
    assert_eq!(
        pack_pieces(area, Axis::Vertical, &loose),
        vec![rect(2, 1, 30, 3), rect(2, 4, 30, 1), rect(2, 5, 30, 6)]
    );
    let wide = vec![rect(0, 0, 20, 0), rect(0, 0, 20, 0), rect(0, 0, 20, 0)];
    assert_eq!(
        pack_pieces(area, Axis::Horizontal, &wide),
        vec![rect(2, 1, 20, 10), rect(22, 1, 10, 10), rect(32, 1, 0, 10)]
    );
    let none = vec![rect(0, 0, 0, 0), rect(0, 0, 0, 0)];
    assert_eq!(
        pack_pieces(area, Axis::Horizontal, &none),
        vec![rect(2, 1, 0, 10), rect(2, 1, 30, 10)]
    );
    let full = rect(0, 0, 65535, 65535);
    assert_eq!(
        pack_pieces(full, Axis::Vertical, &vec![full, full]),
        vec![full, rect(0, 65535, 65535, 0)]
    );
}
