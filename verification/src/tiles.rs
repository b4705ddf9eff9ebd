//! The fixed-size tile grids: where their cells stand on screen, and the
//! click-to-select behaviour of the selectable variant.

use vstd::prelude::*;
use crate::Vec2Fx;
use crate::mouse::CellColor;

verus! {

/// Tile side length and gap, in thousandths of a pixel.
pub const CELL_SIZE: u64 = 20_000;
pub const GAP_SIZE: u64 = 0;

/// How many tiles the demo grids have along each axis.
pub const GRID_N: usize = 20;

/// Where tile `(col, row)` of the tile-map grid stands: each index steps
/// one cell size plus one gap away from the origin.
pub fn cell_position(col: usize, row: usize) -> (r: Vec2Fx)
    requires
        col <= 1_000_000,
        row <= 1_000_000,
    ensures
        r.x == col as int * (CELL_SIZE + GAP_SIZE),
        r.y == row as int * (CELL_SIZE + GAP_SIZE),
{
    let step = (CELL_SIZE + GAP_SIZE) as i64;
    Vec2Fx { x: (col as i64) * step, y: (row as i64) * step }
}

/// Where tile index `i` of the line grid stands along one axis: the grid
/// is centered, so index `i` lies `i - n/2` steps from the middle. The
/// position is exact in half-steps.
pub open spec fn line_grid_coord(i: int, n: int) -> int {
    if 2 * i - n >= 0 {
        (2 * i - n) * (CELL_SIZE + GAP_SIZE) / 2
    } else {
        -((n - 2 * i) * (CELL_SIZE + GAP_SIZE) / 2)
    }
}

/// The tiles of the centered line grid, row-major: tile `(i, j)` carries
/// `row i, col j` and stands `i - n/2` steps right and `j - n/2` steps up
/// of the center.
pub fn line_grid_positions(n: usize) -> (r: Vec<(usize, usize, Vec2Fx)>)
    requires
        n <= 1_000_000,
    ensures
        r@.len() == n * n,
        forall|i: int, j: int|
            0 <= i < n && 0 <= j < n ==> #[trigger] r@[i * n + j] == (
                i as usize,
                j as usize,
                Vec2Fx { x: line_grid_coord(i, n as int) as i64, y: line_grid_coord(j, n as int) as i64 },
            ),
{
    let mut r: Vec<(usize, usize, Vec2Fx)> = Vec::new();
    let mut i: usize = 0;
    while i < n
        invariant
            n <= 1_000_000,
            i <= n,
            r@.len() == i * n,
            forall|a: int, b: int|
                0 <= a < i && 0 <= b < n ==> #[trigger] r@[a * n + b] == (
                    a as usize,
                    b as usize,
                    Vec2Fx {
                        x: line_grid_coord(a, n as int) as i64,
                        y: line_grid_coord(b, n as int) as i64,
                    },
                ),
        decreases n - i,
    {
        let x = line_coord(i, n);
        let mut j: usize = 0;
        while j < n
            invariant
                n <= 1_000_000,
                i < n,
                j <= n,
                x == line_grid_coord(i as int, n as int),
                r@.len() == i * n + j,
                forall|a: int, b: int|
                    0 <= a < i && 0 <= b < n ==> #[trigger] r@[a * n + b] == (
                        a as usize,
                        b as usize,
                        Vec2Fx {
                            x: line_grid_coord(a, n as int) as i64,
                            y: line_grid_coord(b, n as int) as i64,
                        },
                    ),
                forall|b: int|
                    0 <= b < j ==> #[trigger] r@[i * n + b] == (
                        i,
                        b as usize,
                        Vec2Fx {
                            x: line_grid_coord(i as int, n as int) as i64,
                            y: line_grid_coord(b, n as int) as i64,
                        },
                    ),
            decreases n - j,
        {
            let y = line_coord(j, n);
            r.push((i, j, Vec2Fx { x, y }));
            proof {
                assert forall|a: int, b: int| 0 <= a < i && 0 <= b < n implies #[trigger] r@[a * n
                    + b] == (
                    a as usize,
                    b as usize,
                    Vec2Fx {
                        x: line_grid_coord(a, n as int) as i64,
                        y: line_grid_coord(b, n as int) as i64,
                    },
                ) by {
                    assert(a * n + b < i * n) by (nonlinear_arith)
                        requires
                            0 <= a < i,
                            0 <= b < n,
                    ;
                }
            }
            j += 1;
        }
        proof {
            assert((i as int + 1) * n == i as int * n + n) by (nonlinear_arith);
        }
        i += 1;
    }
    r
}

/// One axis of the line grid position.
fn line_coord(i: usize, n: usize) -> (r: i64)
    requires
        i < n,
        n <= 1_000_000,
    ensures
        r == line_grid_coord(i as int, n as int),
{
    let step = (CELL_SIZE + GAP_SIZE) as i64;
    let doubled = 2 * (i as i64) - (n as i64);
    if doubled >= 0 {
        (doubled * step) / 2
    } else {
        -(((-doubled) * step) / 2)
    }
}

/// One selectable tile: its entity id, its grid indices, whether it is
/// selected, and its current color.
#[derive(Clone, Copy, PartialEq, Eq, Structural, Debug)]
pub struct SelectableCell {
    pub id: u64,
    pub row: usize,
    pub col: usize,
    pub selected: bool,
    pub color: CellColor,
}

/// What clicking tile `clicked` does to the selection: every tile is
/// deselected; when the clicked tile was not selected before, it becomes
/// the selection, turns black, and its indices are returned so that a
/// selector marker can be drawn under it. Clicking a selected tile, or an
/// id that is no tile, selects nothing.
pub fn click_cell(cells: &mut Vec<SelectableCell>, clicked: u64) -> (r: Option<(usize, usize)>)
    ensures
        final(cells)@.len() == old(cells)@.len(),
        (forall|i: int| 0 <= i < old(cells)@.len() ==> (#[trigger] old(cells)@[i]).id != clicked)
            ==> final(cells)@ == old(cells)@ && r is None,
        forall|k: int|
            {
                &&& 0 <= k < old(cells)@.len()
                &&& (#[trigger] old(cells)@[k]).id == clicked
                &&& (forall|j: int| 0 <= j < k ==> (#[trigger] old(cells)@[j]).id != clicked)
            } ==> if old(cells)@[k].selected {
                r is None && (forall|i: int|
                    0 <= i < old(cells)@.len() ==> #[trigger] final(cells)@[i] == (SelectableCell {
                        selected: false,
                        ..old(cells)@[i]
                    }))
            } else {
                r == Some((old(cells)@[k].row, old(cells)@[k].col)) && (forall|i: int|
                    0 <= i < old(cells)@.len() ==> #[trigger] final(cells)@[i] == if i == k {
                        SelectableCell {
                            selected: true,
                            color: CellColor::Black,
                            ..old(cells)@[i]
                        }
                    } else {
                        SelectableCell { selected: false, ..old(cells)@[i] }
                    })
            },
{
    let ghost orig = cells@;
    let clicked_index = find_by_id(cells, clicked);
    match clicked_index {
        None => None,
        Some(k) => {
            let was_selected = cells[k].selected;
            deselect_all(cells);
            if !was_selected {
                let row = cells[k].row;
                let col = cells[k].col;
                let current = cells[k];
                let slot = vstd::std_specs::vec::vec_index_mut(cells, k);
                *slot = SelectableCell { selected: true, color: CellColor::Black, ..current };
                Some((row, col))
            } else {
                None
            }
        },
    }
}

/// The index of the first cell carrying the id, if any.
fn find_by_id(cells: &Vec<SelectableCell>, id: u64) -> (r: Option<usize>)
    ensures
        r is None ==> forall|i: int| 0 <= i < cells@.len() ==> (#[trigger] cells@[i]).id != id,
        r matches Some(k) ==> 0 <= k < cells@.len() && cells@[k as int].id == id && (forall|j: int|
            0 <= j < k ==> (#[trigger] cells@[j]).id != id),
{
    let mut i: usize = 0;
    while i < cells.len()
        invariant
            i <= cells@.len(),
            forall|j: int| 0 <= j < i ==> (#[trigger] cells@[j]).id != id,
        decreases cells@.len() - i,
    {
        if cells[i].id == id {
            return Some(i);
        }
        i += 1;
    }
    None
}

/// Clears the selection flag of every cell, leaving everything else.
fn deselect_all(cells: &mut Vec<SelectableCell>)
    ensures
        final(cells)@.len() == old(cells)@.len(),
        forall|i: int|
            0 <= i < old(cells)@.len() ==> #[trigger] final(cells)@[i] == (SelectableCell {
                selected: false,
                ..old(cells)@[i]
            }),
{
    let ghost orig = cells@;
    let n = cells.len();
    let mut out: Vec<SelectableCell> = Vec::new();
    let mut i: usize = 0;
    while i < n
        invariant
            n == orig.len(),
            cells@ == orig,
            i <= n,
            out@.len() == i,
            forall|j: int|
                0 <= j < i ==> #[trigger] out@[j] == (SelectableCell {
                    selected: false,
                    ..orig[j]
                }),
        decreases n - i,
    {
        let c = cells[i];
        out.push(SelectableCell { selected: false, ..c });
        i += 1;
    }
    *cells = out;
}

} // verus!
