//! The element indices of the UV sphere drawn by the PBR samples: one triangle strip that
//! zig-zags over a grid of `(x_segments + 1)` columns by `(y_segments + 1)` rows of vertices.

use vstd::prelude::*;
use vstd::arithmetic::mul::{lemma_mul_inequality, lemma_mul_is_distributive_add_other_way};

verus! {

/// The index of the vertex in row `row` and column `col` of a grid `columns` wide.
pub open spec fn grid_index(row: int, col: int, columns: int) -> int {
    row * columns + col
}

/// The indices of strip row `y`: on even rows, left to right, each column's vertex of row
/// `y` then of row `y + 1`; on odd rows, right to left, each column's vertex of row `y + 1`
/// then of row `y`.
pub open spec fn strip_row(y: int, x_segments: int) -> Seq<int> {
    Seq::new(
        (2 * (x_segments + 1)) as nat,
        |j: int|
            {
                let p = j / 2;
                if y % 2 == 0 {
                    if j % 2 == 0 {
                        grid_index(y, p, x_segments + 1)
                    } else {
                        grid_index(y + 1, p, x_segments + 1)
                    }
                } else {
                    let x = x_segments - p;
                    if j % 2 == 0 {
                        grid_index(y + 1, x, x_segments + 1)
                    } else {
                        grid_index(y, x, x_segments + 1)
                    }
                }
            },
    )
}

/// The strip rows `0 .. rows`, one after the other.
pub open spec fn strip_indices(x_segments: int, rows: int) -> Seq<int>
    decreases rows,
{
    if rows <= 0 {
        Seq::empty()
    } else {
        strip_indices(x_segments, rows - 1) + strip_row(rows - 1, x_segments)
    }
}

proof fn lemma_index_bound(y: int, x: int, x_segments: int, y_segments: int)
    requires
        0 <= y < y_segments,
        0 <= x <= x_segments,
    ensures
        0 <= grid_index(y, x, x_segments + 1) < grid_index(y + 1, x, x_segments + 1),
        grid_index(y + 1, x, x_segments + 1) < (x_segments + 1) * (y_segments + 1),
{
    lemma_mul_inequality(y + 1, y_segments, x_segments + 1);
    lemma_mul_is_distributive_add_other_way(x_segments + 1, y, 1);
    lemma_mul_is_distributive_add_other_way(x_segments + 1, y_segments, 1);
    assert(0 <= y * (x_segments + 1)) by (nonlinear_arith)
        requires
            0 <= y,
            0 <= x_segments,
    ;
}

/// Every index of the strip names a vertex of the grid, and the strip has two indices per
/// column of each of its rows.
pub proof fn lemma_strip_in_grid(x_segments: int, rows: int)
    requires
        0 <= x_segments,
        0 <= rows,
    ensures
        strip_indices(x_segments, rows).len() == 2 * (x_segments + 1) * rows,
        forall|k: int|
            0 <= k < strip_indices(x_segments, rows).len() ==> 0 <= #[trigger] strip_indices(x_segments, rows)[k]
                < (x_segments + 1) * (rows + 1),
    decreases rows,
{
    if rows > 0 {
        let prev = strip_indices(x_segments, rows - 1);
        let row = strip_row(rows - 1, x_segments);
        lemma_strip_in_grid(x_segments, rows - 1);
        lemma_mul_is_distributive_add_other_way(2 * (x_segments + 1), rows - 1, 1);
        lemma_mul_inequality(rows, rows + 1, x_segments + 1);
        assert forall|k: int| 0 <= k < (prev + row).len() implies 0 <= #[trigger] (prev + row)[k] < (x_segments
            + 1) * (rows + 1) by {
            if k < prev.len() {
                assert((prev + row)[k] == prev[k]);
            } else {
                let j = k - prev.len();
                assert((prev + row)[k] == row[j]);
                let p = j / 2;
                if (rows - 1) % 2 == 0 {
                    lemma_index_bound(rows - 1, p, x_segments, rows);
                } else {
                    lemma_index_bound(rows - 1, x_segments - p, x_segments, rows);
                }
            }
        }
    }
}

/// Strip row `y` starts after `2 * (x_segments + 1) * y` indices of the earlier rows.
proof fn lemma_strip_row_at(x_segments: int, rows: int, y: int, j: int)
    requires
        0 <= x_segments,
        0 <= y < rows,
        0 <= j < 2 * (x_segments + 1),
    ensures
        strip_indices(x_segments, rows)[2 * (x_segments + 1) * y + j] == strip_row(y, x_segments)[j],
    decreases rows,
{
    let prev = strip_indices(x_segments, rows - 1);
    let row = strip_row(rows - 1, x_segments);
    lemma_strip_in_grid(x_segments, rows - 1);
    assert(strip_indices(x_segments, rows) == prev + row);
    if y < rows - 1 {
        lemma_strip_row_at(x_segments, rows - 1, y, j);
        assert(2 * (x_segments + 1) * y + j < 2 * (x_segments + 1) * (rows - 1)) by (nonlinear_arith)
            requires
                0 <= y < rows - 1,
                0 <= j < 2 * (x_segments + 1),
        ;
    } else {
        assert(prev.len() == 2 * (x_segments + 1) * y);
    }
}

/// The sphere's strip zig-zags over the vertex grid: in row `y` the pair of indices at
/// position `p` joins the vertex of row `y` and the one below it in row `y + 1`, going left
/// to right (column `p`, row `y` first) on even rows and right to left (column
/// `x_segments - p`, row `y + 1` first) on odd rows; rows are laid out one after another.
pub proof fn lemma_strip_zig_zag(x_segments: int, rows: int, y: int, p: int)
    requires
        0 <= x_segments,
        0 <= y < rows,
        0 <= p <= x_segments,
    ensures
        y % 2 == 0 ==> strip_indices(x_segments, rows)[2 * (x_segments + 1) * y + 2 * p] == y * (x_segments
            + 1) + p,
        y % 2 == 0 ==> strip_indices(x_segments, rows)[2 * (x_segments + 1) * y + 2 * p + 1] == (y + 1) * (
        x_segments + 1) + p,
        y % 2 == 1 ==> strip_indices(x_segments, rows)[2 * (x_segments + 1) * y + 2 * p] == (y + 1) * (
        x_segments + 1) + (x_segments - p),
        y % 2 == 1 ==> strip_indices(x_segments, rows)[2 * (x_segments + 1) * y + 2 * p + 1] == y * (x_segments
            + 1) + (x_segments - p),
{
    lemma_strip_row_at(x_segments, rows, y, 2 * p);
    lemma_strip_row_at(x_segments, rows, y, 2 * p + 1);
    assert((2 * p) / 2 == p && (2 * p) % 2 == 0) by (nonlinear_arith);
    assert((2 * p + 1) / 2 == p && (2 * p + 1) % 2 == 1) by (nonlinear_arith);
}

/// The element indices of a UV sphere with the given numbers of segments.
pub fn sphere_strip_indices(x_segments: u32, y_segments: u32) -> (r: Vec<u32>)
    requires
        (x_segments + 1) * (y_segments + 1) <= u32::MAX,
        2 * (x_segments + 1) * y_segments <= usize::MAX,
    ensures
        r@.len() == strip_indices(x_segments as int, y_segments as int).len(),
        forall|k: int| 0 <= k < r@.len() ==> #[trigger] r@[k] as int == strip_indices(x_segments as int, y_segments as int)[k],
{
    proof {
        lemma_strip_in_grid(x_segments as int, y_segments as int);
    }
    let ghost xs = x_segments as int;
    let mut indices: Vec<u32> = Vec::new();
    let mut odd_row = false;
    let mut y: u32 = 0;
    while y < y_segments
        invariant
            0 <= y <= y_segments,
            xs == x_segments,
            (x_segments + 1) * (y_segments + 1) <= u32::MAX,
            2 * (x_segments + 1) * y_segments <= usize::MAX,
            odd_row == (y % 2 == 1),
            indices@.len() == strip_indices(xs, y as int).len(),
            forall|k: int| 0 <= k < indices@.len() ==> #[trigger] indices@[k] as int == strip_indices(xs, y as int)[k],
        decreases y_segments - y,
    {
        let ghost before = indices@;
        let ghost row = strip_row(y as int, xs);
        proof {
            lemma_strip_in_grid(xs, y as int);
            lemma_mul_inequality(y as int + 1, y_segments as int, 2 * (xs + 1));
            lemma_index_bound(y as int, xs, xs, y_segments as int);
            assert(2 * (xs + 1) * (y + 1) == 2 * (xs + 1) * y + 2 * (xs + 1)) by (nonlinear_arith);
            assert(2 * (xs + 1) * (y + 1) <= 2 * (xs + 1) * y_segments) by (nonlinear_arith)
                requires
                    y + 1 <= y_segments,
                    0 <= xs,
            ;
        }
        let columns = x_segments + 1;
        let mut n: u32 = 0;
        while n < columns
            invariant
                0 <= n <= columns,
                columns == x_segments + 1,
                xs == x_segments,
                y < y_segments,
                (x_segments + 1) * (y_segments + 1) <= u32::MAX,
                2 * (x_segments + 1) * y_segments <= usize::MAX,
                odd_row == (y % 2 == 1),
                row == strip_row(y as int, xs),
                before.len() == 2 * (xs + 1) * y,
                2 * (xs + 1) * y + 2 * (xs + 1) <= usize::MAX,
                indices@.len() == before.len() + 2 * n,
                forall|k: int| 0 <= k < before.len() ==> #[trigger] indices@[k] == before[k],
                forall|j: int| 0 <= j < 2 * n ==> #[trigger] indices@[before.len() + j] as int == row[j],
            decreases columns - n,
        {
            let x = if odd_row { x_segments - n } else { n };
            proof {
                lemma_index_bound(y as int, x as int, xs, y_segments as int);
            }
            let lower = y * columns + x;
            let upper = (y + 1) * columns + x;
            let ghost len0 = indices@.len();
            if odd_row {
                indices.push(upper);
                indices.push(lower);
            } else {
                indices.push(lower);
                indices.push(upper);
            }
            proof {
                assert(indices@[len0 as int] as int == row[2 * n]) by {
                    assert((2 * n) / 2 == n && (2 * n) % 2 == 0) by (nonlinear_arith);
                }
                assert(indices@[len0 as int + 1] as int == row[2 * n + 1]) by {
                    assert((2 * n + 1) / 2 == n && (2 * n + 1) % 2 == 1) by (nonlinear_arith);
                }
                assert forall|j: int| 0 <= j < 2 * (n + 1) implies #[trigger] indices@[before.len() + j] as int
                    == row[j] by {
                    if j < 2 * n {
                    } else if j == 2 * n {
                    } else {
                    }
                }
            }
            n = n + 1;
        }
        proof {
            assert forall|k: int| 0 <= k < indices@.len() implies #[trigger] indices@[k] as int == strip_indices(
                xs,
                y as int + 1,
            )[k] by {
                let prev = strip_indices(xs, y as int);
                assert(strip_indices(xs, y as int + 1) == prev + row);
                if k < before.len() {
                    assert((prev + row)[k] == prev[k]);
                } else {
                    let j = k - before.len();
                    assert(indices@[before.len() + j] as int == row[j]);
                    assert((prev + row)[k] == row[j]);
                }
            }
        }
        odd_row = !odd_row;
        y = y + 1;
    }
    indices
}

} // verus!
