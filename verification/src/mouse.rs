//! Cursor hit-testing against grid cells, and click-to-toggle behaviour.
//!
//! A cell covers an axis-aligned rectangle around its center; a cursor
//! position hits the cell when it lies inside that rectangle, borders
//! included.

use vstd::prelude::*;
use crate::Vec2Fx;
use crate::grid::CellGeom;

verus! {

/// Coordinates and sizes the geometry functions accept, in thousandths of
/// a pixel: large enough for any real window, small enough that no bound
/// computation can overflow.
pub const GEOM_LIMIT: i64 = 10_000_000_000_000;

/// Half-size of the square used by click and drag toggling: 10 pixels.
pub const CLICK_BOUND: i64 = 10_000;

/// A position within the coordinate limits.
pub open spec fn pos_bounded(v: Vec2Fx) -> bool {
    &&& -GEOM_LIMIT <= v.x <= GEOM_LIMIT
    &&& -GEOM_LIMIT <= v.y <= GEOM_LIMIT
}

/// The cursor lies inside the closed rectangle `[x_min, x_max] x [y_min, y_max]`.
pub open spec fn within(cursor: Vec2Fx, x_min: int, x_max: int, y_min: int, y_max: int) -> bool {
    &&& x_min <= cursor.x <= x_max
    &&& y_min <= cursor.y <= y_max
}

/// The cursor lies inside the cell's rectangle: within half the cell's
/// width and height of its center.
pub open spec fn inside_cell(cursor: Vec2Fx, cell: CellGeom) -> bool {
    within(
        cursor,
        cell.center_x - cell.width / 2,
        cell.center_x + cell.width / 2,
        cell.center_y - cell.height / 2,
        cell.center_y + cell.height / 2,
    )
}

/// A cell geometry within the coordinate limits.
pub open spec fn cell_bounded(cell: CellGeom) -> bool {
    &&& -GEOM_LIMIT <= cell.center_x <= GEOM_LIMIT
    &&& -GEOM_LIMIT <= cell.center_y <= GEOM_LIMIT
    &&& cell.width <= 2 * GEOM_LIMIT
    &&& cell.height <= 2 * GEOM_LIMIT
}

/// One mouse interaction with a cell rectangle: the cursor position, the
/// rectangle's bounds as (left, right, bottom, top), and whether the
/// cursor fell inside.
#[derive(Clone, Copy, Debug)]
pub struct MouseInteraction {
    pub cursor_pos: Vec2Fx,
    pub is_within_bounds: bool,
    pub cell_bounds: (i64, i64, i64, i64),
}

impl MouseInteraction {
    /// Computes the rectangle of a cell centered at `grid_pos` and tests
    /// the cursor against it.
    pub fn new(cursor_pos: Vec2Fx, grid_pos: Vec2Fx, width: u64, height: u64) -> (r: Self)
        requires
            pos_bounded(grid_pos),
            width <= 2 * GEOM_LIMIT,
            height <= 2 * GEOM_LIMIT,
        ensures
            r.cursor_pos == cursor_pos,
            r.cell_bounds.0 == grid_pos.x - width / 2,
            r.cell_bounds.1 == grid_pos.x + width / 2,
            r.cell_bounds.2 == grid_pos.y - height / 2,
            r.cell_bounds.3 == grid_pos.y + height / 2,
            r.is_within_bounds == within(
                cursor_pos,
                grid_pos.x - width / 2,
                grid_pos.x + width / 2,
                grid_pos.y - height / 2,
                grid_pos.y + height / 2,
            ),
    {
        let half_width = (width / 2) as i64;
        let half_height = (height / 2) as i64;
        let x_min = grid_pos.x - half_width;
        let x_max = grid_pos.x + half_width;
        let y_min = grid_pos.y - half_height;
        let y_max = grid_pos.y + half_height;
        let is_within_bounds = x_min <= cursor_pos.x && cursor_pos.x <= x_max && y_min
            <= cursor_pos.y && cursor_pos.y <= y_max;
        MouseInteraction { cursor_pos, is_within_bounds, cell_bounds: (x_min, x_max, y_min, y_max) }
    }
}

/// Tests the cursor against a square of half-size `bound_size` around
/// `grid_pos`, as click and drag toggling do.
pub fn is_cursor_in_cell_bounds(cursor_pos: Vec2Fx, grid_pos: Vec2Fx, bound_size: i64) -> (r: bool)
    requires
        pos_bounded(grid_pos),
        0 <= bound_size <= GEOM_LIMIT,
    ensures
        r == within(
            cursor_pos,
            grid_pos.x - bound_size,
            grid_pos.x + bound_size,
            grid_pos.y - bound_size,
            grid_pos.y + bound_size,
        ),
{
    grid_pos.x - bound_size <= cursor_pos.x && cursor_pos.x <= grid_pos.x + bound_size
        && grid_pos.y - bound_size <= cursor_pos.y && cursor_pos.y <= grid_pos.y + bound_size
}

/// The fallback cell size reported when a cell's mesh has no bounding
/// box: 20 pixels a side.
pub const FALLBACK_CELL_SIZE: u64 = 20_000;

/// Turns a cell mesh's half-extents into a full width and height, falling
/// back to a fixed square when the mesh has no bounding box.
pub fn get_cell_dimensions(half_extents: Option<(u64, u64)>) -> (r: (u64, u64))
    requires
        half_extents matches Some(he) ==> he.0 <= GEOM_LIMIT && he.1 <= GEOM_LIMIT,
    ensures
        half_extents matches Some(he) ==> r.0 == 2 * he.0 && r.1 == 2 * he.1,
        half_extents is None ==> r == (FALLBACK_CELL_SIZE, FALLBACK_CELL_SIZE),
{
    match half_extents {
        Some((hw, hh)) => (2 * hw, 2 * hh),
        None => (FALLBACK_CELL_SIZE, FALLBACK_CELL_SIZE),
    }
}

/// Every cell of a layout lies within the coordinate limits.
pub open spec fn cells_bounded(cells: Seq<CellGeom>) -> bool {
    forall|i: int| 0 <= i < cells.len() ==> cell_bounded(#[trigger] cells[i])
}

/// Finds the first cell whose rectangle contains the cursor and returns
/// its (row, column); returns nothing when the cursor misses every cell.
pub fn find_cell_at_position(cursor_pos: Vec2Fx, cells: &Vec<CellGeom>) -> (r: Option<
    (usize, usize),
>)
    requires
        cells_bounded(cells@),
    ensures
        r is None ==> forall|i: int| 0 <= i < cells@.len() ==> !inside_cell(
            cursor_pos,
            #[trigger] cells@[i],
        ),
        r matches Some(rc) ==> exists|i: int|
            {
                &&& 0 <= i < cells@.len()
                &&& inside_cell(cursor_pos, #[trigger] cells@[i])
                &&& rc == (cells@[i].row, cells@[i].col)
                &&& forall|j: int| 0 <= j < i ==> !inside_cell(cursor_pos, #[trigger] cells@[j])
            },
{
    let mut i: usize = 0;
    while i < cells.len()
        invariant
            i <= cells@.len(),
            cells_bounded(cells@),
            forall|j: int| 0 <= j < i ==> !inside_cell(cursor_pos, #[trigger] cells@[j]),
        decreases cells@.len() - i,
    {
        let cell = cells[i];
        let grid_pos = Vec2Fx { x: cell.center_x, y: cell.center_y };
        let interaction = MouseInteraction::new(cursor_pos, grid_pos, cell.width, cell.height);
        if interaction.is_within_bounds {
            return Some((cell.row, cell.col));
        }
        i += 1;
    }
    None
}

/// A cursor position exactly at a cell's center always hits the cell.
pub proof fn lemma_center_always_inside(cursor: Vec2Fx, cell: CellGeom)
    requires
        cursor.x == cell.center_x,
        cursor.y == cell.center_y,
    ensures
        inside_cell(cursor, cell),
{
}

/// One toggleable grid cell with its screen position.
#[derive(Clone, Copy, PartialEq, Eq, Structural, Debug)]
pub struct CellState {
    pub pos: Vec2Fx,
    pub row: usize,
    pub col: usize,
    pub is_black: bool,
}

impl Default for CellState {
    /// The top-left cell at the origin, untoggled.
    fn default() -> (r: Self)
        ensures
            r == (CellState { pos: Vec2Fx { x: 0, y: 0 }, row: 0, col: 0, is_black: false }),
    {
        CellState { pos: Vec2Fx { x: 0, y: 0 }, row: 0, col: 0, is_black: false }
    }
}

/// The cursor lies within the fixed click square of a cell.
pub open spec fn click_hits(cursor: Vec2Fx, cell: CellState) -> bool {
    within(
        cursor,
        cell.pos.x - CLICK_BOUND,
        cell.pos.x + CLICK_BOUND,
        cell.pos.y - CLICK_BOUND,
        cell.pos.y + CLICK_BOUND,
    )
}

/// What a click or toggle-drag at `cursor` does to the grid: every cell
/// whose click square contains the cursor has its flag flipped, every
/// other cell is untouched. In particular, a cursor outside every cell's
/// square toggles nothing.
pub fn toggle_at_cursor(cursor: Vec2Fx, cells: &mut Vec<CellState>)
    requires
        forall|i: int| 0 <= i < old(cells)@.len() ==> pos_bounded(#[trigger] old(cells)@[i].pos),
    ensures
        final(cells)@.len() == old(cells)@.len(),
        forall|i: int|
            0 <= i < old(cells)@.len() ==> #[trigger] final(cells)@[i] == if click_hits(
                cursor,
                old(cells)@[i],
            ) {
                CellState { is_black: !old(cells)@[i].is_black, ..old(cells)@[i] }
            } else {
                old(cells)@[i]
            },
        (forall|i: int| 0 <= i < old(cells)@.len() ==> !click_hits(cursor, #[trigger] old(
            cells,
        )@[i])) ==> final(cells)@ == old(cells)@,
{
    let ghost orig = cells@;
    let n = cells.len();
    let mut out: Vec<CellState> = Vec::new();
    let mut i: usize = 0;
    while i < n
        invariant
            n == orig.len(),
            cells@ == orig,
            forall|k: int| 0 <= k < orig.len() ==> pos_bounded(#[trigger] orig[k].pos),
            i <= n,
            out@.len() == i,
            forall|j: int|
                0 <= j < i ==> #[trigger] out@[j] == if click_hits(cursor, orig[j]) {
                    CellState { is_black: !orig[j].is_black, ..orig[j] }
                } else {
                    orig[j]
                },
        decreases n - i,
    {
        let mut cell = cells[i];
        if is_cursor_in_cell_bounds(cursor, cell.pos, CLICK_BOUND) {
            cell.is_black = !cell.is_black;
        }
        out.push(cell);
        i += 1;
    }
    proof {
        if forall|k: int| 0 <= k < orig.len() ==> !click_hits(cursor, #[trigger] orig[k]) {
            assert(out@ =~= orig);
        }
    }
    *cells = out;
}

/// One frame of click handling: on a fresh press with the cursor over the
/// window and a grid present, every cell whose click square contains the
/// cursor has its flag flipped; otherwise nothing changes.
pub fn handle_mouse_click(just_pressed: bool, cursor: Option<Vec2Fx>, cells: &mut Vec<CellState>)
    requires
        forall|i: int| 0 <= i < old(cells)@.len() ==> pos_bounded(#[trigger] old(cells)@[i].pos),
    ensures
        final(cells)@.len() == old(cells)@.len(),
        !just_pressed || cursor is None ==> final(cells)@ == old(cells)@,
        cursor matches Some(c) ==> just_pressed ==> forall|i: int|
            0 <= i < old(cells)@.len() ==> #[trigger] final(cells)@[i] == if click_hits(
                c,
                old(cells)@[i],
            ) {
                CellState { is_black: !old(cells)@[i].is_black, ..old(cells)@[i] }
            } else {
                old(cells)@[i]
            },
{
    if just_pressed {
        match cursor {
            Some(c) => {
                if cells.len() == 0 {
                    return ;
                }
                toggle_at_cursor(c, cells);
            },
            None => {},
        }
    }
}

/// The two colors a toggleable cell is drawn with.
#[derive(Clone, Copy, PartialEq, Eq, Structural, Debug)]
pub enum CellColor {
    Black,
    White,
}

/// The color a cell is repainted with when its toggle event fires, as the
/// toggle observer chooses it from the flag already flipped.
pub fn toggle_color(is_black: bool) -> (r: CellColor)
    ensures
        r == if is_black {
            CellColor::Black
        } else {
            CellColor::White
        },
{
    if is_black {
        CellColor::Black
    } else {
        CellColor::White
    }
}

/// Finds a cell by its column and row.
pub fn find_cell_at_col_and_row(cells: &Vec<CellState>, col: usize, row: usize) -> (r: Option<
    CellState,
>)
    ensures
        r matches Some(c) ==> exists|i: int|
            {
                &&& 0 <= i < cells@.len()
                &&& #[trigger] cells@[i] == c
                &&& c.col == col
                &&& c.row == row
                &&& forall|j: int|
                    0 <= j < i ==> !(cells@[j].col == col && #[trigger] cells@[j].row == row)
            },
        r is None ==> forall|i: int|
            0 <= i < cells@.len() ==> !(cells@[i].col == col && #[trigger] cells@[i].row == row),
{
    let mut i: usize = 0;
    while i < cells.len()
        invariant
            i <= cells@.len(),
            forall|j: int|
                0 <= j < i ==> !(cells@[j].col == col && #[trigger] cells@[j].row == row),
        decreases cells@.len() - i,
    {
        let c = cells[i];
        if c.col == col && c.row == row {
            return Some(c);
        }
        i += 1;
    }
    None
}

} // verus!
