//! Drag-to-resize arithmetic: scale factors derived from cursor
//! displacement, always clamped to configured bounds, and the fixed
//! falloff rule that scales a resized cell's neighbours.
//!
//! Scale factors are fixed-point thousandths: 1000 stands for 1.0.

use vstd::prelude::*;
use vstd::arithmetic::div_mod::lemma_div_pos_is_pos;
use crate::Vec2Fx;

verus! {

/// Clamp bounds for a drag scale factor: 0.1 to 10.0.
pub const SCALE_MIN: u32 = 100;
pub const SCALE_MAX: u32 = 10_000;

/// Clamp bounds for a cell transform's accumulated scale: 0.1 to 64.0.
pub const CELL_SCALE_MIN: u64 = 100;
pub const CELL_SCALE_MAX: u64 = 64_000;

/// Clamp bounds for the direct sprite drag-resize: 0.1 to 15.0.
pub const SPRITE_SCALE_MIN: u32 = 100;
pub const SPRITE_SCALE_MAX: u32 = 15_000;

/// `v` forced into `[lo, hi]`.
pub open spec fn clamped(v: int, lo: int, hi: int) -> int {
    if v < lo {
        lo
    } else if v > hi {
        hi
    } else {
        v
    }
}

/// The raw scale factor a drag displacement asks for: one plus 0.003 of
/// the displacement, rounded toward zero.
pub open spec fn scale_factor_raw(delta: int) -> int {
    if delta >= 0 {
        1000 + delta * 3 / 1000
    } else {
        1000 - (-delta) * 3 / 1000
    }
}

/// The scale factor actually applied: the raw factor clamped to
/// `[SCALE_MIN, SCALE_MAX]`.
pub open spec fn drag_scale_spec(delta: int) -> int {
    clamped(scale_factor_raw(delta), SCALE_MIN as int, SCALE_MAX as int)
}

/// However large the drag displacement, the applied scale factor stays
/// within the configured bounds.
pub proof fn lemma_drag_scale_clamped(delta: int)
    ensures
        SCALE_MIN <= drag_scale_spec(delta) <= SCALE_MAX,
{
    if delta >= 0 {
        if delta > 0 {
            lemma_div_pos_is_pos(delta * 3, 1000);
        }
    } else {
        if -delta > 0 {
            lemma_div_pos_is_pos((-delta) * 3, 1000);
        }
    }
}

/// Turns a drag displacement into a clamped scale factor, for any
/// displacement whatsoever.
pub fn drag_scale_factor(delta: i64) -> (r: u32)
    ensures
        r == drag_scale_spec(delta as int),
        SCALE_MIN <= r <= SCALE_MAX,
{
    proof {
        lemma_drag_scale_clamped(delta as int);
    }
    if delta >= 0 {
        let grow = (delta as u128) * 3 / 1000;
        if grow >= 9000 {
            SCALE_MAX
        } else {
            (1000 + grow) as u32
        }
    } else {
        let mag = (-(delta as i128)) as u128;
        let shrink = mag * 3 / 1000;
        if shrink >= 900 {
            SCALE_MIN
        } else {
            (1000 - shrink) as u32
        }
    }
}

/// A resized weight: the old weight times the scale factor, kept positive
/// by a floor of one thousandth.
pub open spec fn scaled_weight(w: int, factor: int) -> int {
    let scaled = w * factor / 1000;
    if scaled < 1 {
        1
    } else {
        scaled
    }
}

/// Applies a clamped scale factor to one proportional weight. The weight
/// stays positive whatever the drag was.
pub fn apply_weight_scale(w: u64, factor: u32) -> (r: u64)
    requires
        w <= u64::MAX / 10,
        SCALE_MIN <= factor <= SCALE_MAX,
    ensures
        r == scaled_weight(w as int, factor as int),
        r >= 1,
{
    proof {
        assert((w as int) * (factor as int) <= (w as int) * (SCALE_MAX as int)) by (nonlinear_arith)
            requires
                factor <= SCALE_MAX,
                w >= 0,
        ;
        assert((w as int) * (factor as int) >= 0) by (nonlinear_arith)
            requires
                w >= 0,
                factor >= 0,
        ;
        vstd::arithmetic::div_mod::lemma_div_is_ordered(
            (w as int) * (factor as int),
            (w as int) * (SCALE_MAX as int),
            1000,
        );
        assert((w as int) * (SCALE_MAX as int) / 1000 == (w as int) * 10) by (nonlinear_arith);
    }
    let scaled = ((w as u128) * (factor as u128) / 1000) as u64;
    if scaled < 1 {
        1
    } else {
        scaled
    }
}

/// A cell transform's scale after a resize: the accumulated scale times
/// the factor, clamped to `[CELL_SCALE_MIN, CELL_SCALE_MAX]`.
pub open spec fn scaled_cell_scale(s: int, factor: int) -> int {
    clamped(s * factor / 1000, CELL_SCALE_MIN as int, CELL_SCALE_MAX as int)
}

/// Applies a clamped scale factor to a cell transform's accumulated
/// scale; the result always stays within the cell scale bounds.
pub fn apply_cell_scale(s: u64, factor: u32) -> (r: u64)
    requires
        s <= CELL_SCALE_MAX,
        SCALE_MIN <= factor <= SCALE_MAX,
    ensures
        r == scaled_cell_scale(s as int, factor as int),
        CELL_SCALE_MIN <= r <= CELL_SCALE_MAX,
{
    proof {
        assert(0 <= (s as int) * (factor as int) <= 64_000int * 10_000int) by (nonlinear_arith)
            requires
                0 <= s <= 64_000,
                0 <= factor <= 10_000,
        ;
        lemma_div_pos_is_pos((s as int) * (factor as int), 1000);
    }
    let scaled = (s as u128) * (factor as u128) / 1000;
    if scaled < CELL_SCALE_MIN as u128 {
        CELL_SCALE_MIN
    } else if scaled > CELL_SCALE_MAX as u128 {
        CELL_SCALE_MAX
    } else {
        scaled as u64
    }
}

/// What one drag does to the grid proportions: the dragged cell's column
/// and row weights are multiplied by the clamped scale factors derived
/// from the displacement; out-of-range indices leave the weights alone.
pub fn resize_weights(
    cols: &mut Vec<u64>,
    rows: &mut Vec<u64>,
    col: usize,
    row: usize,
    delta_x: i64,
    delta_y: i64,
)
    requires
        forall|i: int| 0 <= i < old(cols)@.len() ==> #[trigger] old(cols)@[i] <= u64::MAX / 10,
        forall|i: int| 0 <= i < old(rows)@.len() ==> #[trigger] old(rows)@[i] <= u64::MAX / 10,
    ensures
        final(cols)@ == if col < old(cols)@.len() {
            old(cols)@.update(
                col as int,
                scaled_weight(old(cols)@[col as int] as int, drag_scale_spec(delta_x as int)) as u64,
            )
        } else {
            old(cols)@
        },
        final(rows)@ == if row < old(rows)@.len() {
            old(rows)@.update(
                row as int,
                scaled_weight(old(rows)@[row as int] as int, drag_scale_spec(delta_y as int)) as u64,
            )
        } else {
            old(rows)@
        },
{
    let factor_x = drag_scale_factor(delta_x);
    let factor_y = drag_scale_factor(delta_y);
    if col < cols.len() {
        let w = cols[col];
        let new_w = apply_weight_scale(w, factor_x);
        let slot = vstd::std_specs::vec::vec_index_mut(cols, col);
        *slot = new_w;
    }
    if row < rows.len() {
        let h = rows[row];
        let new_h = apply_weight_scale(h, factor_y);
        let slot = vstd::std_specs::vec::vec_index_mut(rows, row);
        *slot = new_h;
    }
}

/// What one mesh-grid drag does to every cell transform: the clamped
/// scale factors derived from the displacement multiply the horizontal
/// scale of every cell in the dragged column and the vertical scale of
/// every cell in the dragged row, each clamped to the cell scale bounds;
/// every other cell keeps its scale.
pub fn resize_cells(tiles: &mut Vec<TileScale>, row: usize, col: usize, delta_x: i64, delta_y: i64)
    requires
        forall|i: int|
            0 <= i < old(tiles)@.len() ==> (#[trigger] old(tiles)@[i]).scale_x <= CELL_SCALE_MAX
                && old(tiles)@[i].scale_y <= CELL_SCALE_MAX,
    ensures
        final(tiles)@.len() == old(tiles)@.len(),
        forall|i: int|
            0 <= i < old(tiles)@.len() ==> #[trigger] final(tiles)@[i] == (TileScale {
                scale_x: if old(tiles)@[i].col == col {
                    scaled_cell_scale(
                        old(tiles)@[i].scale_x as int,
                        drag_scale_spec(delta_x as int),
                    ) as u32
                } else {
                    old(tiles)@[i].scale_x
                },
                scale_y: if old(tiles)@[i].row == row {
                    scaled_cell_scale(
                        old(tiles)@[i].scale_y as int,
                        drag_scale_spec(delta_y as int),
                    ) as u32
                } else {
                    old(tiles)@[i].scale_y
                },
                ..old(tiles)@[i]
            }),
{
    let factor_x = drag_scale_factor(delta_x);
    let factor_y = drag_scale_factor(delta_y);
    let ghost orig = tiles@;
    let n = tiles.len();
    let mut out: Vec<TileScale> = Vec::new();
    let mut i: usize = 0;
    while i < n
        invariant
            n == orig.len(),
            tiles@ == orig,
            SCALE_MIN <= factor_x <= SCALE_MAX,
            SCALE_MIN <= factor_y <= SCALE_MAX,
            factor_x == drag_scale_spec(delta_x as int),
            factor_y == drag_scale_spec(delta_y as int),
            forall|k: int|
                0 <= k < n ==> (#[trigger] orig[k]).scale_x <= CELL_SCALE_MAX && orig[k].scale_y
                    <= CELL_SCALE_MAX,
            i <= n,
            out@.len() == i,
            forall|j: int|
                0 <= j < i ==> #[trigger] out@[j] == (TileScale {
                    scale_x: if orig[j].col == col {
                        scaled_cell_scale(
                            orig[j].scale_x as int,
                            drag_scale_spec(delta_x as int),
                        ) as u32
                    } else {
                        orig[j].scale_x
                    },
                    scale_y: if orig[j].row == row {
                        scaled_cell_scale(
                            orig[j].scale_y as int,
                            drag_scale_spec(delta_y as int),
                        ) as u32
                    } else {
                        orig[j].scale_y
                    },
                    ..orig[j]
                }),
        decreases n - i,
    {
        let t = tiles[i];
        let scale_x = if t.col == col {
            apply_cell_scale(t.scale_x as u64, factor_x) as u32
        } else {
            t.scale_x
        };
        let scale_y = if t.row == row {
            apply_cell_scale(t.scale_y as u64, factor_y) as u32
        } else {
            t.scale_y
        };
        out.push(TileScale { scale_x, scale_y, ..t });
        i += 1;
    }
    *tiles = out;
}

/// A sprite scale axis after a direct drag-resize: the current scale times
/// the sprite size plus the displacement, divided back by the size and
/// clamped to `[SPRITE_SCALE_MIN, SPRITE_SCALE_MAX]`. Scale and size are
/// both in thousandths, so their product carries a factor of a thousand
/// more than the displacement, which enters scaled up to match. A
/// displacement that drives the numerator to zero or below pins the scale
/// at the minimum.
pub open spec fn drag_resize_axis(scale: int, size: int, d: int) -> int {
    let num = scale * size + 1000 * d;
    if num <= 0 {
        SPRITE_SCALE_MIN as int
    } else {
        clamped(num / size, SPRITE_SCALE_MIN as int, SPRITE_SCALE_MAX as int)
    }
}

/// Resizes a sprite by a drag: the horizontal displacement grows the
/// width, the vertical displacement is flipped (screen y points down) and
/// grows the height; both axes stay within the sprite scale bounds.
pub fn resize_on_drag(scale_x: u32, scale_y: u32, size_x: u64, size_y: u64, delta: Vec2Fx) -> (r: (
    u32,
    u32,
))
    requires
        1 <= size_x <= 100_000_000_000,
        1 <= size_y <= 100_000_000_000,
    ensures
        r.0 == drag_resize_axis(scale_x as int, size_x as int, delta.x as int),
        r.1 == drag_resize_axis(scale_y as int, size_y as int, -(delta.y as int)),
        SPRITE_SCALE_MIN <= r.0 <= SPRITE_SCALE_MAX,
        SPRITE_SCALE_MIN <= r.1 <= SPRITE_SCALE_MAX,
{
    let rx = drag_resize_one(scale_x, size_x, delta.x as i128);
    let ry = drag_resize_one(scale_y, size_y, -(delta.y as i128));
    (rx, ry)
}

/// A cell-resized event: the new scale of the dragged cell, in
/// thousandths, and which cell was dragged.
#[derive(Clone, Copy, PartialEq, Eq, Structural, Debug)]
pub struct CellResized {
    pub width: u32,
    pub height: u32,
    pub row: usize,
    pub col: usize,
}

/// One tile's accumulated scale, by axis, in thousandths.
#[derive(Clone, Copy, PartialEq, Eq, Structural, Debug)]
pub struct TileScale {
    pub row: usize,
    pub col: usize,
    pub scale_x: u32,
    pub scale_y: u32,
}

/// The falloff rule along one axis when a cell is resized to
/// `event_scale`: the dragged line takes the new scale itself, the two
/// adjacent lines take its reciprocal, the lines two away take three
/// quarters of it, and everything further keeps its current scale.
pub open spec fn falloff_axis(idx: int, event_idx: int, event_scale: int, current: int) -> int {
    if idx == event_idx {
        event_scale
    } else if idx == event_idx + 1 || idx + 1 == event_idx {
        1_000_000int / event_scale
    } else if idx == event_idx + 2 || idx + 2 == event_idx {
        event_scale * 3int / 4
    } else {
        current
    }
}

/// One axis of the falloff rule.
fn falloff_one(idx: usize, event_idx: usize, event_scale: u32, current: u32) -> (r: u32)
    requires
        1 <= event_scale,
    ensures
        r == falloff_axis(idx as int, event_idx as int, event_scale as int, current as int),
{
    if idx == event_idx {
        event_scale
    } else if (idx >= 1 && idx - 1 == event_idx) || (event_idx >= 1 && event_idx - 1 == idx) {
        (1_000_000u64 / (event_scale as u64)) as u32
    } else if (idx >= 2 && idx - 2 == event_idx) || (event_idx >= 2 && event_idx - 2 == idx) {
        ((event_scale as u64) * 3 / 4) as u32
    } else {
        current
    }
}

/// What a cell-resized event does to every tile of the grid: each tile's
/// horizontal scale follows the falloff rule along the columns, and its
/// vertical scale follows it along the rows.
pub fn cell_resized_observer(tiles: &mut Vec<TileScale>, event: CellResized)
    requires
        1 <= event.width,
        1 <= event.height,
    ensures
        final(tiles)@.len() == old(tiles)@.len(),
        forall|i: int|
            0 <= i < old(tiles)@.len() ==> #[trigger] final(tiles)@[i] == (TileScale {
                scale_x: falloff_axis(
                    old(tiles)@[i].col as int,
                    event.col as int,
                    event.width as int,
                    old(tiles)@[i].scale_x as int,
                ) as u32,
                scale_y: falloff_axis(
                    old(tiles)@[i].row as int,
                    event.row as int,
                    event.height as int,
                    old(tiles)@[i].scale_y as int,
                ) as u32,
                ..old(tiles)@[i]
            }),
{
    let ghost orig = tiles@;
    let n = tiles.len();
    let mut out: Vec<TileScale> = Vec::new();
    let mut i: usize = 0;
    while i < n
        invariant
            n == orig.len(),
            tiles@ == orig,
            1 <= event.width,
            1 <= event.height,
            i <= n,
            out@.len() == i,
            forall|j: int|
                0 <= j < i ==> #[trigger] out@[j] == (TileScale {
                    scale_x: falloff_axis(
                        orig[j].col as int,
                        event.col as int,
                        event.width as int,
                        orig[j].scale_x as int,
                    ) as u32,
                    scale_y: falloff_axis(
                        orig[j].row as int,
                        event.row as int,
                        event.height as int,
                        orig[j].scale_y as int,
                    ) as u32,
                    ..orig[j]
                }),
        decreases n - i,
    {
        let t = tiles[i];
        let scale_x = falloff_one(t.col, event.col, event.width, t.scale_x);
        let scale_y = falloff_one(t.row, event.row, event.height, t.scale_y);
        out.push(TileScale { scale_x, scale_y, ..t });
        i += 1;
    }
    *tiles = out;
}

/// One axis of the sprite drag-resize.
fn drag_resize_one(scale: u32, size: u64, d: i128) -> (r: u32)
    requires
        1 <= size <= 100_000_000_000,
        -0x8000_0000_0000_0000 <= d <= 0x8000_0000_0000_0000,
    ensures
        r == drag_resize_axis(scale as int, size as int, d as int),
        SPRITE_SCALE_MIN <= r <= SPRITE_SCALE_MAX,
{
    proof {
        assert(0 <= (scale as int) * (size as int) <= 0x100000000int * 100_000_000_000int)
            by (nonlinear_arith)
            requires
                0 <= scale <= 0x100000000int,
                1 <= size <= 100_000_000_000,
        ;
    }
    let num: i128 = (scale as i128) * (size as i128) + 1000 * d;
    if num <= 0 {
        SPRITE_SCALE_MIN
    } else {
        let q = (num as u128) / (size as u128);
        proof {
            lemma_div_pos_is_pos(num as int, size as int);
        }
        if q < SPRITE_SCALE_MIN as u128 {
            SPRITE_SCALE_MIN
        } else if q > SPRITE_SCALE_MAX as u128 {
            SPRITE_SCALE_MAX
        } else {
            q as u32
        }
    }
}

} // verus!
