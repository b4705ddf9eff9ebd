//! Proportional grid layout: per-column and per-row weights are turned
//! into pixel sizes by normalizing each weight against the weight sum and
//! multiplying by the available space.
//!
//! Sizes are computed as differences of rounded prefix allocations, so the
//! computed widths always sum to exactly the available space.

use vstd::prelude::*;
use vstd::arithmetic::div_mod::{lemma_div_is_ordered, lemma_div_multiples_vanish};
use vstd::arithmetic::mul::lemma_mul_inequality;

verus! {

/// How many equal-weight columns and rows the mesh grid starts with; one
/// extra, double-weight column is appended to the columns.
pub const INIT_N_COLS: usize = 63;
pub const INIT_N_ROWS: usize = 64;

/// Gap between grid cells, in thousandths of a pixel.
pub const GRID_GAP: u64 = 4_000;

/// The relative weight standing for 1.0, and for 2.0.
pub const UNIT_WEIGHT: u64 = 1_000;
pub const DOUBLE_WEIGHT: u64 = 2_000;

/// Proportional column and row weights of the resizable mesh grid.
#[derive(Clone, PartialEq, Eq, Debug)]
pub struct MeshGridState {
    pub cols: Vec<u64>,
    pub rows: Vec<u64>,
}

/// Every weight is positive.
pub open spec fn weights_positive(s: Seq<u64>) -> bool {
    forall|i: int| 0 <= i < s.len() ==> #[trigger] s[i] > 0
}

/// The sum of a sequence of weights.
pub open spec fn sum_of(s: Seq<u64>) -> int
    decreases s.len(),
{
    if s.len() == 0 {
        0
    } else {
        sum_of(s.drop_last()) + s.last()
    }
}

/// A sum of weights is never negative.
pub proof fn lemma_sum_nonneg(s: Seq<u64>)
    ensures
        sum_of(s) >= 0,
    decreases s.len(),
{
    if s.len() != 0 {
        lemma_sum_nonneg(s.drop_last());
    }
}

/// With positive weights, a nonempty sum is positive.
pub proof fn lemma_sum_pos(s: Seq<u64>)
    requires
        weights_positive(s),
        s.len() >= 1,
    ensures
        sum_of(s) >= 1,
    decreases s.len(),
{
    lemma_sum_nonneg(s.drop_last());
    assert(s.last() == s[s.len() - 1]);
}

/// Taking one more element adds that element to the prefix sum.
pub proof fn lemma_sum_take_step(s: Seq<u64>, i: int)
    requires
        0 <= i < s.len(),
    ensures
        sum_of(s.take(i + 1)) == sum_of(s.take(i)) + s[i],
{
    let t = s.take(i + 1);
    assert(t.drop_last() =~= s.take(i));
    assert(t.last() == s[i]);
}

/// A prefix sum never exceeds the whole sum.
pub proof fn lemma_sum_take_le(s: Seq<u64>, i: int)
    requires
        0 <= i <= s.len(),
    ensures
        sum_of(s.take(i)) <= sum_of(s),
    decreases s.len() - i,
{
    if i == s.len() {
        assert(s.take(i) =~= s);
    } else {
        lemma_sum_take_step(s, i);
        lemma_sum_take_le(s, i + 1);
    }
}

/// How much space the first `i` weights are allotted together: their share
/// of `avail`, rounded down.
pub open spec fn alloc_upto(weights: Seq<u64>, avail: int, i: int) -> int {
    sum_of(weights.take(i)) * avail / sum_of(weights)
}

/// The space allotted to weight `i` alone: the difference between two
/// consecutive prefix allocations.
pub open spec fn width_of(weights: Seq<u64>, avail: int, i: int) -> int {
    alloc_upto(weights, avail, i + 1) - alloc_upto(weights, avail, i)
}

/// Widths defined as differences of prefix allocations telescope: the
/// first `k` of them sum to the `k`-th prefix allocation.
pub proof fn lemma_widths_telescope(weights: Seq<u64>, avail: int, r: Seq<u64>, k: int)
    requires
        0 <= k <= r.len(),
        weights.len() >= 1,
        weights_positive(weights),
        avail >= 0,
        forall|j: int| 0 <= j < r.len() ==> #[trigger] r[j] == width_of(weights, avail, j),
    ensures
        sum_of(r.take(k)) == alloc_upto(weights, avail, k),
    decreases k,
{
    lemma_sum_pos(weights);
    if k == 0 {
        assert(r.take(0) =~= Seq::<u64>::empty());
        assert(weights.take(0) =~= Seq::<u64>::empty());
        assert(sum_of(Seq::<u64>::empty()) == 0);
        assert(0int * avail == 0) by (nonlinear_arith);
        assert(0int / sum_of(weights) == 0) by {
            lemma_div_multiples_vanish(0, sum_of(weights));
            assert(sum_of(weights) * 0 == 0) by (nonlinear_arith);
        }
    } else {
        lemma_widths_telescope(weights, avail, r, k - 1);
        lemma_sum_take_step(r, k - 1);
    }
}

/// The whole space is allotted once every weight is counted.
pub proof fn lemma_alloc_all(weights: Seq<u64>, avail: int)
    requires
        weights.len() >= 1,
        weights_positive(weights),
        avail >= 0,
    ensures
        alloc_upto(weights, avail, weights.len() as int) == avail,
{
    lemma_sum_pos(weights);
    assert(weights.take(weights.len() as int) =~= weights);
    let total = sum_of(weights);
    assert(total * avail == avail * total) by (nonlinear_arith);
    lemma_div_multiples_vanish(avail, total);
    assert(total * avail / total == avail);
}

/// Turns positive proportional weights into sizes that sum to exactly the
/// available space: each weight's size is its share of `avail`, computed
/// as the difference of consecutive rounded prefix allocations.
pub fn proportional_sizes(weights: &Vec<u64>, avail: u64) -> (r: Vec<u64>)
    requires
        weights@.len() >= 1,
        weights_positive(weights@),
        sum_of(weights@) <= u64::MAX,
    ensures
        r@.len() == weights@.len(),
        forall|i: int| 0 <= i < r@.len() ==> #[trigger] r@[i] == width_of(
            weights@,
            avail as int,
            i,
        ),
        sum_of(r@) == avail,
{
    proof {
        lemma_sum_pos(weights@);
    }
    let total = weight_total(weights);
    let ghost w = weights@;
    let ghost a = avail as int;
    let n = weights.len();
    let mut r: Vec<u64> = Vec::new();
    let mut prefix: u64 = 0;
    let mut prev: u64 = 0;
    let mut i: usize = 0;
    proof {
        assert(w.take(0) =~= Seq::<u64>::empty());
        assert(0int * a == 0) by (nonlinear_arith);
        assert(sum_of(w.take(0)) * a / sum_of(w) == 0) by {
            lemma_div_multiples_vanish(0, sum_of(w));
            assert(sum_of(w) * 0 == 0) by (nonlinear_arith);
        }
    }
    while i < n
        invariant
            n == w.len(),
            weights@ == w,
            1 <= sum_of(w) <= u64::MAX,
            weights_positive(w),
            a == avail as int,
            total == sum_of(w),
            i <= n,
            prefix == sum_of(w.take(i as int)),
            prev == alloc_upto(w, a, i as int),
            prev <= avail,
            r@.len() == i,
            forall|j: int| 0 <= j < i ==> #[trigger] r@[j] == width_of(w, a, j),
        decreases n - i,
    {
        proof {
            lemma_sum_take_step(w, i as int);
            lemma_sum_take_le(w, i as int + 1);
            lemma_sum_nonneg(w.take(i as int));
        }
        let next_prefix = prefix + weights[i];
        proof {
            assert((next_prefix as u128) * (avail as u128) <= u128::MAX) by (nonlinear_arith)
                requires
                    next_prefix <= u64::MAX,
                    avail <= u64::MAX,
            ;
        }
        let wide = (next_prefix as u128) * (avail as u128) / (total as u128);
        proof {
            let p1 = sum_of(w.take(i as int + 1));
            lemma_mul_inequality(p1, sum_of(w), a);
            lemma_div_is_ordered(p1 * a, sum_of(w) * a, sum_of(w));
            lemma_div_multiples_vanish(a, sum_of(w));
            assert(sum_of(w) * a == a * sum_of(w)) by (nonlinear_arith);
            assert(alloc_upto(w, a, i as int + 1) <= a);
            // the allocation grows with the prefix
            lemma_sum_nonneg(w.take(i as int));
            lemma_mul_inequality(sum_of(w.take(i as int)), p1, a);
            lemma_div_is_ordered(sum_of(w.take(i as int)) * a, p1 * a, sum_of(w));
            assert(alloc_upto(w, a, i as int) <= alloc_upto(w, a, i as int + 1));
        }
        let alloc = wide as u64;
        let width = alloc - prev;
        r.push(width);
        prefix = next_prefix;
        prev = alloc;
        i += 1;
    }
    proof {
        lemma_widths_telescope(w, a, r@, n as int);
        assert(r@.take(n as int) =~= r@);
        lemma_alloc_all(w, a);
    }
    r
}

/// Sums a weight vector.
pub fn weight_total(weights: &Vec<u64>) -> (r: u64)
    requires
        sum_of(weights@) <= u64::MAX,
    ensures
        r == sum_of(weights@),
{
    let mut acc: u64 = 0;
    let mut i: usize = 0;
    proof {
        assert(weights@.take(0) =~= Seq::<u64>::empty());
    }
    while i < weights.len()
        invariant
            i <= weights@.len(),
            sum_of(weights@) <= u64::MAX,
            acc == sum_of(weights@.take(i as int)),
        decreases weights@.len() - i,
    {
        proof {
            lemma_sum_take_step(weights@, i as int);
            lemma_sum_take_le(weights@, i as int + 1);
            lemma_sum_nonneg(weights@.take(i as int));
        }
        acc = acc + weights[i];
        i += 1;
    }
    proof {
        assert(weights@.take(weights@.len() as int) =~= weights@);
    }
    acc
}

/// Screen-space geometry of one grid cell: indices, the center of its
/// rectangle, and its size, all in thousandths of a pixel.
#[derive(Clone, Copy, PartialEq, Eq, Structural, Debug)]
pub struct CellGeom {
    pub row: usize,
    pub col: usize,
    pub center_x: i64,
    pub center_y: i64,
    pub width: u64,
    pub height: u64,
}

/// How far the left edge of cell `i` lies from the grid's origin: the
/// sizes of the cells before it plus one gap per crossed border.
pub open spec fn advance(sizes: Seq<u64>, gap: int, i: int) -> int {
    sum_of(sizes.take(i)) + i * gap
}

/// The `x` of the center of column `i`, when the grid starts at the left
/// window edge.
pub open spec fn center_x_of(widths: Seq<u64>, window_w: int, i: int) -> int {
    -(window_w / 2) + advance(widths, GRID_GAP as int, i) + widths[i] / 2
}

/// The `y` of the center of row `i`, when the grid starts at the top
/// window edge and grows downward.
pub open spec fn center_y_of(heights: Seq<u64>, window_h: int, i: int) -> int {
    window_h / 2 - advance(heights, GRID_GAP as int, i) - heights[i] / 2
}

/// Lays the grid out in row-major order: cell `(row, col)` is centered at
/// the column's and row's center lines and carries that column's width and
/// that row's height.
pub fn grid_cell_geometry(
    col_widths: &Vec<u64>,
    row_heights: &Vec<u64>,
    window_w: u64,
    window_h: u64,
) -> (r: Vec<CellGeom>)
    requires
        col_widths@.len() <= 1_000_000,
        row_heights@.len() <= 1_000_000,
        sum_of(col_widths@) <= 4_000_000_000_000,
        sum_of(row_heights@) <= 4_000_000_000_000,
        window_w <= 4_000_000_000_000,
        window_h <= 4_000_000_000_000,
    ensures
        r@.len() == row_heights@.len() * col_widths@.len(),
        forall|ri: int, ci: int|
            0 <= ri < row_heights@.len() && 0 <= ci < col_widths@.len() ==> #[trigger] r@[ri
                * col_widths@.len() + ci] == (CellGeom {
                row: ri as usize,
                col: ci as usize,
                center_x: center_x_of(col_widths@, window_w as int, ci) as i64,
                center_y: center_y_of(row_heights@, window_h as int, ri) as i64,
                width: col_widths@[ci],
                height: row_heights@[ri],
            }),
{
    let ncols = col_widths.len();
    let nrows = row_heights.len();
    let ghost ws = col_widths@;
    let ghost hs = row_heights@;
    let start_x: i64 = -((window_w / 2) as i64);
    let start_y: i64 = (window_h / 2) as i64;
    let mut r: Vec<CellGeom> = Vec::new();
    let mut cursor_y: i64 = start_y;
    let mut ri: usize = 0;
    proof {
        assert(hs.take(0) =~= Seq::<u64>::empty());
        assert(0int * (GRID_GAP as int) == 0) by (nonlinear_arith);
    }
    while ri < nrows
        invariant
            ncols == ws.len(),
            nrows == hs.len(),
            col_widths@ == ws,
            row_heights@ == hs,
            ncols <= 1_000_000,
            nrows <= 1_000_000,
            sum_of(ws) <= 4_000_000_000_000,
            sum_of(hs) <= 4_000_000_000_000,
            window_w <= 4_000_000_000_000,
            window_h <= 4_000_000_000_000,
            start_x == -((window_w as int) / 2),
            start_y == (window_h as int) / 2,
            ri <= nrows,
            cursor_y == start_y - advance(hs, GRID_GAP as int, ri as int),
            r@.len() == ri * ncols,
            forall|rj: int, cj: int|
                0 <= rj < ri && 0 <= cj < ncols ==> #[trigger] r@[rj * ncols + cj] == (CellGeom {
                    row: rj as usize,
                    col: cj as usize,
                    center_x: center_x_of(ws, window_w as int, cj) as i64,
                    center_y: center_y_of(hs, window_h as int, rj) as i64,
                    width: ws[cj],
                    height: hs[rj],
                }),
        decreases nrows - ri,
    {
        proof {
            lemma_sum_take_step(hs, ri as int);
            lemma_sum_take_le(hs, ri as int + 1);
            lemma_sum_nonneg(hs.take(ri as int));
            lemma_advance_bounds(hs, ri as int);
            lemma_advance_bounds(hs, ri as int + 1);
        }
        let height = row_heights[ri];
        let center_y = cursor_y - ((height / 2) as i64);
        let ghost row_start_len = r@.len();
        let mut cursor_x: i64 = start_x;
        let mut ci: usize = 0;
        proof {
            assert(ws.take(0) =~= Seq::<u64>::empty());
            assert(0int * (GRID_GAP as int) == 0) by (nonlinear_arith);
        }
        while ci < ncols
            invariant
                ncols == ws.len(),
                nrows == hs.len(),
                col_widths@ == ws,
                row_heights@ == hs,
                ncols <= 1_000_000,
                nrows <= 1_000_000,
                sum_of(ws) <= 4_000_000_000_000,
                sum_of(hs) <= 4_000_000_000_000,
                window_w <= 4_000_000_000_000,
                window_h <= 4_000_000_000_000,
                start_x == -((window_w as int) / 2),
                ri < nrows,
                ci <= ncols,
                height == hs[ri as int],
                center_y == center_y_of(hs, window_h as int, ri as int),
                cursor_x == start_x + advance(ws, GRID_GAP as int, ci as int),
                row_start_len == ri * ncols,
                r@.len() == ri * ncols + ci,
                forall|rj: int, cj: int|
                    0 <= rj < ri && 0 <= cj < ncols ==> #[trigger] r@[rj * ncols + cj]
                        == (CellGeom {
                        row: rj as usize,
                        col: cj as usize,
                        center_x: center_x_of(ws, window_w as int, cj) as i64,
                        center_y: center_y_of(hs, window_h as int, rj) as i64,
                        width: ws[cj],
                        height: hs[rj],
                    }),
                forall|cj: int|
                    0 <= cj < ci ==> #[trigger] r@[ri * ncols + cj] == (CellGeom {
                        row: ri as usize,
                        col: cj as usize,
                        center_x: center_x_of(ws, window_w as int, cj) as i64,
                        center_y: center_y_of(hs, window_h as int, ri as int) as i64,
                        width: ws[cj],
                        height: hs[ri as int],
                    }),
            decreases ncols - ci,
        {
            proof {
                lemma_sum_take_step(ws, ci as int);
                lemma_sum_take_le(ws, ci as int + 1);
                lemma_sum_nonneg(ws.take(ci as int));
                lemma_advance_bounds(ws, ci as int);
                lemma_advance_bounds(ws, ci as int + 1);
            }
            let width = col_widths[ci];
            let center_x = cursor_x + ((width / 2) as i64);
            proof {
                assert(center_x == center_x_of(ws, window_w as int, ci as int));
            }
            r.push(
                CellGeom {
                    row: ri,
                    col: ci,
                    center_x,
                    center_y,
                    width,
                    height,
                },
            );
            proof {
                assert forall|rj: int, cj: int| 0 <= rj < ri && 0 <= cj < ncols implies #[trigger] r@[rj
                    * ncols + cj] == (CellGeom {
                    row: rj as usize,
                    col: cj as usize,
                    center_x: center_x_of(ws, window_w as int, cj) as i64,
                    center_y: center_y_of(hs, window_h as int, rj) as i64,
                    width: ws[cj],
                    height: hs[rj],
                }) by {
                    assert(rj * ncols + cj < ri * ncols) by (nonlinear_arith)
                        requires
                            0 <= rj < ri,
                            0 <= cj < ncols,
                    ;
                }
            }
            cursor_x = cursor_x + (width as i64) + (GRID_GAP as i64);
            ci += 1;
        }
        cursor_y = cursor_y - (height as i64) - (GRID_GAP as i64);
        proof {
            assert((ri as int + 1) * ncols == ri as int * ncols + ncols) by (nonlinear_arith);
        }
        ri += 1;
    }
    r
}

/// The advance of `i` sizes is between 0 and the sum of all sizes plus one
/// gap per size.
pub proof fn lemma_advance_bounds(sizes: Seq<u64>, i: int)
    requires
        0 <= i <= sizes.len(),
    ensures
        0 <= advance(sizes, GRID_GAP as int, i) <= sum_of(sizes) + sizes.len() * GRID_GAP,
{
    lemma_sum_nonneg(sizes.take(i));
    lemma_sum_take_le(sizes, i);
    lemma_sum_nonneg(sizes);
    lemma_mul_inequality(i, sizes.len() as int, GRID_GAP as int);
    assert(i * GRID_GAP as int >= 0) by (nonlinear_arith)
        requires
            i >= 0,
    ;
}

/// The initial mesh grid proportions: equal columns with one double-width
/// column appended, and equal rows.
pub fn setup_grid(state: &mut MeshGridState)
    ensures
        final(state).cols@.len() == INIT_N_COLS + 1,
        forall|i: int| 0 <= i < INIT_N_COLS ==> final(state).cols@[i] == UNIT_WEIGHT,
        final(state).cols@[INIT_N_COLS as int] == DOUBLE_WEIGHT,
        final(state).rows@.len() == INIT_N_ROWS,
        forall|i: int| 0 <= i < INIT_N_ROWS ==> final(state).rows@[i] == UNIT_WEIGHT,
        weights_positive(final(state).cols@),
        weights_positive(final(state).rows@),
{
    let mut cols: Vec<u64> = Vec::new();
    let mut i: usize = 0;
    while i < INIT_N_COLS
        invariant
            i <= INIT_N_COLS,
            cols@.len() == i,
            forall|j: int| 0 <= j < i ==> cols@[j] == UNIT_WEIGHT,
        decreases INIT_N_COLS - i,
    {
        cols.push(UNIT_WEIGHT);
        i += 1;
    }
    cols.push(DOUBLE_WEIGHT);
    let mut rows: Vec<u64> = Vec::new();
    let mut j: usize = 0;
    while j < INIT_N_ROWS
        invariant
            j <= INIT_N_ROWS,
            rows@.len() == j,
            forall|k: int| 0 <= k < j ==> rows@[k] == UNIT_WEIGHT,
        decreases INIT_N_ROWS - j,
    {
        rows.push(UNIT_WEIGHT);
        j += 1;
    }
    state.cols = cols;
    state.rows = rows;
}

} // verus!
