use grid_spaces::Vec2Fx;
use grid_spaces::drag::{
    fr_track_value, handle_drag_border, handle_drag_end, handle_drag_start, handle_mouse_drag,
    handle_resize_drag, px_track_value, DragOutcome, DragState, DragType, ResizeCell, Track,
};
use grid_spaces::grid::CellGeom;
use grid_spaces::mouse::{
    find_cell_at_col_and_row, find_cell_at_position, get_cell_dimensions, handle_mouse_click,
    is_cursor_in_cell_bounds, toggle_at_cursor, toggle_color, CellColor, CellState,
    MouseInteraction,
};
use grid_spaces::resize::{
    apply_cell_scale, apply_weight_scale, cell_resized_observer, drag_scale_factor, resize_cells,
    resize_on_drag, resize_weights, CellResized, TileScale,
};
use grid_spaces::tiles::{cell_position, click_cell, line_grid_positions, SelectableCell};

fn cell(row: usize, col: usize, cx: i64, cy: i64, w: u64, h: u64) -> CellGeom {
    CellGeom { row, col, center_x: cx, center_y: cy, width: w, height: h }
}

#[test]
fn cursor_at_cell_center_is_inside() {
    let interaction = MouseInteraction::new(
        Vec2Fx { x: 7_000, y: -3_000 },
        Vec2Fx { x: 7_000, y: -3_000 },
        20_000,
        20_000,
    );
    assert!(interaction.is_within_bounds);
    assert_eq!(interaction.cell_bounds, (-3_000, 17_000, -13_000, 7_000));
}

#[test]
fn cell_border_counts_as_inside_and_beyond_does_not() {
    let center = Vec2Fx { x: 0, y: 0 };
    let on_edge = MouseInteraction::new(Vec2Fx { x: 10_000, y: 0 }, center, 20_000, 20_000);
    assert!(on_edge.is_within_bounds);
    let beyond = MouseInteraction::new(Vec2Fx { x: 10_001, y: 0 }, center, 20_000, 20_000);
    assert!(!beyond.is_within_bounds);
    assert!(is_cursor_in_cell_bounds(Vec2Fx { x: 9_999, y: -10_000 }, center, 10_000));
    assert!(!is_cursor_in_cell_bounds(Vec2Fx { x: 0, y: 10_001 }, center, 10_000));
}

#[test]
fn cell_dimensions_double_half_extents_or_fall_back() {
    assert_eq!(get_cell_dimensions(Some((5_000, 7_000))), (10_000, 14_000));
    assert_eq!(get_cell_dimensions(None), (20_000, 20_000));
}

#[test]
fn first_hit_cell_wins() {
    let cells = vec![
        cell(0, 0, 0, 0, 20_000, 20_000),
        cell(0, 1, 24_000, 0, 20_000, 20_000),
    ];
    assert_eq!(find_cell_at_position(Vec2Fx { x: 20_000, y: 0 }, &cells), Some((0, 1)));
    assert_eq!(find_cell_at_position(Vec2Fx { x: 5_000, y: 5_000 }, &cells), Some((0, 0)));
    assert_eq!(find_cell_at_position(Vec2Fx { x: 500_000, y: 0 }, &cells), None);
}

#[test]
fn clicks_toggle_hit_cells_and_nothing_else() {
    let mut cells = vec![
        CellState { pos: Vec2Fx { x: 0, y: 0 }, row: 0, col: 0, is_black: false },
        CellState { pos: Vec2Fx { x: 100_000, y: 0 }, row: 0, col: 1, is_black: true },
    ];
    toggle_at_cursor(Vec2Fx { x: 2_000, y: -2_000 }, &mut cells);
    assert!(cells[0].is_black);
    assert!(cells[1].is_black);

    // a cursor outside every cell toggles nothing
    let before = cells.clone();
    toggle_at_cursor(Vec2Fx { x: 50_000, y: 50_000 }, &mut cells);
    assert_eq!(cells, before);
}

#[test]
fn clicks_need_a_press_and_a_cursor() {
    let fresh = || vec![CellState { pos: Vec2Fx { x: 0, y: 0 }, row: 0, col: 0, is_black: false }];
    let mut cells = fresh();
    handle_mouse_click(true, Some(Vec2Fx { x: 0, y: 0 }), &mut cells);
    assert!(cells[0].is_black);
    let mut untouched = fresh();
    handle_mouse_click(false, Some(Vec2Fx { x: 0, y: 0 }), &mut untouched);
    assert!(!untouched[0].is_black);
    handle_mouse_click(true, None, &mut untouched);
    assert!(!untouched[0].is_black);
}

#[test]
fn toggle_color_follows_the_flag() {
    assert_eq!(toggle_color(true), CellColor::Black);
    assert_eq!(toggle_color(false), CellColor::White);
}

#[test]
fn cells_are_found_by_their_indices() {
    let cells = vec![
        CellState { pos: Vec2Fx { x: 0, y: 0 }, row: 0, col: 0, is_black: false },
        CellState { pos: Vec2Fx { x: 1, y: 2 }, row: 3, col: 4, is_black: true },
    ];
    let found = find_cell_at_col_and_row(&cells, 4, 3).unwrap();
    assert_eq!(found.pos, Vec2Fx { x: 1, y: 2 });
    assert!(find_cell_at_col_and_row(&cells, 9, 9).is_none());
}

#[test]
fn scale_factor_is_clamped_for_any_displacement() {
    assert_eq!(drag_scale_factor(0), 1_000);
    assert_eq!(drag_scale_factor(100_000), 1_300);
    assert_eq!(drag_scale_factor(-100_000), 700);
    assert_eq!(drag_scale_factor(i64::MAX), 10_000);
    assert_eq!(drag_scale_factor(i64::MIN), 100);
    assert_eq!(drag_scale_factor(-400_000), 100);
    assert_eq!(drag_scale_factor(3_000_001), 10_000);
}

#[test]
fn weights_scale_but_stay_positive() {
    assert_eq!(apply_weight_scale(1_000, 1_300), 1_300);
    assert_eq!(apply_weight_scale(1_000, 100), 100);
    assert_eq!(apply_weight_scale(5, 100), 1);
}

#[test]
fn cell_scales_stay_in_their_bounds() {
    assert_eq!(apply_cell_scale(1_000, 10_000), 10_000);
    assert_eq!(apply_cell_scale(64_000, 10_000), 64_000);
    assert_eq!(apply_cell_scale(1_000, 100), 100);
}

#[test]
fn a_drag_resizes_one_column_and_one_row() {
    let mut cols: Vec<u64> = vec![1_000, 1_000, 2_000];
    let mut rows: Vec<u64> = vec![1_000, 1_000];
    resize_weights(&mut cols, &mut rows, 1, 0, 100_000, -100_000);
    assert_eq!(cols, vec![1_000, 1_300, 2_000]);
    assert_eq!(rows, vec![700, 1_000]);

    // out-of-range indices change nothing
    resize_weights(&mut cols, &mut rows, 10, 10, 500_000, 500_000);
    assert_eq!(cols, vec![1_000, 1_300, 2_000]);
    assert_eq!(rows, vec![700, 1_000]);
}

#[test]
fn a_drag_rescales_every_cell_of_its_column_and_row() {
    let mut tiles = vec![
        TileScale { row: 0, col: 0, scale_x: 1_000, scale_y: 1_000 },
        TileScale { row: 0, col: 1, scale_x: 1_000, scale_y: 2_000 },
        TileScale { row: 1, col: 1, scale_x: 4_000, scale_y: 1_000 },
        TileScale { row: 1, col: 2, scale_x: 1_000, scale_y: 1_000 },
    ];
    // 100 pixels right gives factor 1.3; 100 pixels the other way 0.7
    resize_cells(&mut tiles, 0, 1, 100_000, -100_000);
    assert_eq!(tiles[0], TileScale { row: 0, col: 0, scale_x: 1_000, scale_y: 700 });
    assert_eq!(tiles[1], TileScale { row: 0, col: 1, scale_x: 1_300, scale_y: 1_400 });
    assert_eq!(tiles[2], TileScale { row: 1, col: 1, scale_x: 5_200, scale_y: 1_000 });
    assert_eq!(tiles[3], TileScale { row: 1, col: 2, scale_x: 1_000, scale_y: 1_000 });

    // the per-cell scale clamps at its upper bound
    let mut big = vec![TileScale { row: 5, col: 7, scale_x: 60_000, scale_y: 100 }];
    resize_cells(&mut big, 9, 7, i64::MAX, i64::MIN);
    assert_eq!(big[0].scale_x, 64_000);
    assert_eq!(big[0].scale_y, 100);
}

#[test]
fn resize_falloff_scales_the_neighbours() {
    let mut tiles: Vec<TileScale> = (0..10).map(|c| TileScale {
        row: 0,
        col: c,
        scale_x: 1_000,
        scale_y: 1_000,
    }).collect();
    let event = CellResized { width: 2_000, height: 4_000, row: 0, col: 5 };
    cell_resized_observer(&mut tiles, event);
    assert_eq!(tiles[5].scale_x, 2_000);
    assert_eq!(tiles[4].scale_x, 500);
    assert_eq!(tiles[6].scale_x, 500);
    assert_eq!(tiles[3].scale_x, 1_500);
    assert_eq!(tiles[7].scale_x, 1_500);
    assert_eq!(tiles[0].scale_x, 1_000);
    // every tile sits in row 0, the dragged row
    assert!(tiles.iter().all(|t| t.scale_y == 4_000));
}

#[test]
fn sprite_drag_resize_clamps_both_axes() {
    // a two-pixel drag on a twenty-pixel tile grows the scale by a tenth
    let (sx, sy) = resize_on_drag(1_000, 1_000, 20_000, 20_000, Vec2Fx { x: 2_000, y: 0 });
    assert_eq!(sx, 1_100);
    assert_eq!(sy, 1_000);
    // the vertical axis is flipped: dragging down (positive y) shrinks
    let (_, dy) = resize_on_drag(1_000, 1_000, 20_000, 20_000, Vec2Fx { x: 0, y: 2_000 });
    assert_eq!(dy, 900);
    let (gx, gy) = resize_on_drag(1_000, 1_000, 20_000, 20_000, Vec2Fx {
        x: i64::MAX,
        y: -i64::MAX,
    });
    assert_eq!(gx, 15_000);
    assert_eq!(gy, 15_000);
    let (tx, ty) = resize_on_drag(1_000, 1_000, 20_000, 20_000, Vec2Fx {
        x: -i64::MAX,
        y: i64::MAX,
    });
    assert_eq!(tx, 100);
    assert_eq!(ty, 100);
    let (mx, my) = resize_on_drag(1_000, 1_000, 20_000, 20_000, Vec2Fx {
        x: i64::MIN,
        y: i64::MIN,
    });
    assert_eq!(mx, 100);
    assert_eq!(my, 15_000);
}

#[test]
fn drag_starts_and_ends_update_the_state() {
    let mut state = DragState::default();
    assert!(!state.is_dragging);
    let started = handle_drag_start(true, &mut state, Vec2Fx { x: 3, y: 4 });
    assert!(started && state.is_dragging);
    assert_eq!(state.start_position, Vec2Fx { x: 3, y: 4 });
    let ended = handle_drag_end(true, &mut state);
    assert!(ended && !state.is_dragging && state.drag_type.is_none());
}

#[test]
fn resize_drag_skips_the_top_left_cell() {
    let cells = vec![
        cell(0, 0, 0, 0, 20_000, 20_000),
        cell(1, 2, 100_000, 0, 20_000, 20_000),
    ];
    let mut state = DragState::default();
    handle_drag_start(true, &mut state, Vec2Fx { x: 100_000, y: 5_000 });
    let event = handle_resize_drag(&state, Vec2Fx { x: 90_000, y: 1_000 }, &cells).unwrap();
    assert_eq!(
        event,
        ResizeCell { row: 1, col: 2, delta_x: 10_000, delta_y: 4_000 },
    );

    // a drag that started on cell (0, 0) resizes nothing
    let mut origin_state = DragState::default();
    handle_drag_start(true, &mut origin_state, Vec2Fx { x: 0, y: 0 });
    assert!(handle_resize_drag(&origin_state, Vec2Fx { x: 50, y: 50 }, &cells).is_none());
}

#[test]
fn toggle_drag_flips_cells_under_the_cursor() {
    let geometry = vec![cell(0, 0, 0, 0, 20_000, 20_000)];
    let mut cells = vec![CellState {
        pos: Vec2Fx { x: 0, y: 0 },
        row: 0,
        col: 0,
        is_black: false,
    }];
    let mut state = DragState::default();
    let r1 = handle_mouse_drag(
        true, false, false, &mut state, Vec2Fx { x: 0, y: 0 }, &geometry, &mut cells,
    );
    assert_eq!(r1, DragOutcome::Started);
    let r2 = handle_mouse_drag(
        false, false, false, &mut state, Vec2Fx { x: 1_000, y: 0 }, &geometry, &mut cells,
    );
    assert_eq!(r2, DragOutcome::ToggleDragged);
    assert!(cells[0].is_black);
    let r3 = handle_mouse_drag(
        false, true, false, &mut state, Vec2Fx { x: 1_000, y: 0 }, &geometry, &mut cells,
    );
    assert_eq!(r3, DragOutcome::Ended);
    assert!(!state.is_dragging);
}

#[test]
fn border_drag_reshapes_the_first_column_track() {
    let mut state = DragState::default();
    let mut cols = vec![Track::Fr(1_000), Track::Fr(1_000)];
    let mut rows = vec![Track::Fr(1_000)];
    handle_drag_border(
        true, false, true, &mut state, Vec2Fx { x: 10_000, y: 0 }, &mut cols, &mut rows,
    );
    assert!(state.is_dragging);
    assert_eq!(state.drag_type, Some(DragType::ColumnBorder(0)));
    handle_drag_border(
        false, false, true, &mut state, Vec2Fx { x: 110_000, y: 0 }, &mut cols, &mut rows,
    );
    // displacement of 100 pixels: 2.0 + 100 * 0.01 = 3.0
    assert_eq!(cols[0], Track::Fr(3_000));
    assert_eq!(cols[1], Track::Fr(1_000));
    handle_drag_border(
        false, true, true, &mut state, Vec2Fx { x: 110_000, y: 0 }, &mut cols, &mut rows,
    );
    assert!(!state.is_dragging);
}

#[test]
fn track_values_have_floors() {
    assert_eq!(fr_track_value(0), 2_000);
    assert_eq!(fr_track_value(-250_000), 100);
    assert_eq!(fr_track_value(-50_000), 1_500);
    assert_eq!(px_track_value(0), 80_000);
    assert_eq!(px_track_value(-60_000), 30_000);
    assert_eq!(px_track_value(20_000), 100_000);
}

#[test]
fn tile_positions_step_by_cell_size() {
    let p = cell_position(2, 3);
    assert_eq!(p, Vec2Fx { x: 40_000, y: 60_000 });
}

#[test]
fn line_grid_is_centered() {
    let tiles = line_grid_positions(2);
    assert_eq!(tiles.len(), 4);
    assert_eq!(tiles[0], (0, 0, Vec2Fx { x: -20_000, y: -20_000 }));
    assert_eq!(tiles[1], (0, 1, Vec2Fx { x: -20_000, y: 0 }));
    assert_eq!(tiles[2], (1, 0, Vec2Fx { x: 0, y: -20_000 }));
    assert_eq!(tiles[3], (1, 1, Vec2Fx { x: 0, y: 0 }));
}

#[test]
fn clicking_selects_then_deselects() {
    let mut cells = vec![
        SelectableCell { id: 11, row: 0, col: 0, selected: false, color: CellColor::White },
        SelectableCell { id: 22, row: 1, col: 1, selected: true, color: CellColor::Black },
    ];
    let marker = click_cell(&mut cells, 11);
    assert_eq!(marker, Some((0, 0)));
    assert!(cells[0].selected);
    assert_eq!(cells[0].color, CellColor::Black);
    assert!(!cells[1].selected);

    // clicking the selected cell again only deselects
    let again = click_cell(&mut cells, 11);
    assert_eq!(again, None);
    assert!(!cells[0].selected);

    // an unknown id changes nothing
    let before = cells.clone();
    assert_eq!(click_cell(&mut cells, 99), None);
    assert_eq!(cells, before);
}
