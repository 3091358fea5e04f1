//! What holds of the cells of a grid taken together: they stay inside the
//! window, no two of them share a pixel, their areas add up to no more than
//! the window's, and they leave out only a strip at the right and bottom edge.

use vstd::prelude::*;
use crate::config::{lemma_index_splits, SplitscreenConfig};
use crate::layout::{all_retiled, is_retiled, CameraView};
use crate::viewport::{
    cell_extent, grid_rects, lemma_cell_span_within, tile_rect, Rect, ViewportRect,
};

verus! {

/// The sum of the areas of the rectangles in `rects`.
pub open spec fn total_area(rects: Seq<Rect>) -> int
    decreases rects.len(),
{
    if rects.len() == 0 {
        0
    } else {
        total_area(rects.drop_last()) + rects.last().area()
    }
}

/// Every cell of the grid lies inside the window.
pub proof fn lemma_tile_within(
    window_width: int,
    window_height: int,
    rows: int,
    cols: int,
    row: int,
    col: int,
)
    requires
        0 <= window_width,
        0 <= window_height,
        0 < rows,
        0 < cols,
        0 <= row < rows,
        0 <= col < cols,
    ensures
        tile_rect(window_width, window_height, rows, cols, row, col).within(
            window_width,
            window_height,
        ),
{
    lemma_cell_span_within(window_width, cols, col);
    lemma_cell_span_within(window_height, rows, row);
}

/// Along one axis, a cell with a smaller index ends where a cell with a
/// larger index begins, or before.
proof fn lemma_spans_ordered(size: int, low: int, high: int)
    requires
        0 <= size,
        0 <= low < high,
    ensures
        low * size + size <= high * size,
{
    assert(low * size + size <= high * size) by (nonlinear_arith)
        requires
            0 <= size,
            low + 1 <= high,
    ;
}

/// Two different cells of one grid have no pixel in common.
pub proof fn lemma_tiles_disjoint(
    window_width: int,
    window_height: int,
    rows: int,
    cols: int,
    row_a: int,
    col_a: int,
    row_b: int,
    col_b: int,
)
    requires
        0 <= window_width,
        0 <= window_height,
        0 < rows,
        0 < cols,
        0 <= row_a < rows,
        0 <= col_a < cols,
        0 <= row_b < rows,
        0 <= col_b < cols,
        row_a != row_b || col_a != col_b,
    ensures
        tile_rect(window_width, window_height, rows, cols, row_a, col_a).disjoint(
            tile_rect(window_width, window_height, rows, cols, row_b, col_b),
        ),
{
    let a = tile_rect(window_width, window_height, rows, cols, row_a, col_a);
    let b = tile_rect(window_width, window_height, rows, cols, row_b, col_b);
    let w = cell_extent(window_width, cols);
    let h = cell_extent(window_height, rows);
    lemma_cell_span_within(window_width, cols, col_a);
    lemma_cell_span_within(window_height, rows, row_a);
    if col_a < col_b {
        lemma_spans_ordered(w, col_a, col_b);
    } else if col_b < col_a {
        lemma_spans_ordered(w, col_b, col_a);
    } else if row_a < row_b {
        lemma_spans_ordered(h, row_a, row_b);
    } else {
        lemma_spans_ordered(h, row_b, row_a);
    }
    assert forall|px: int, py: int| !(#[trigger] a.contains(px, py) && b.contains(px, py)) by {}
}

/// Any two cells of `grid_rects` at different indices have no pixel in
/// common.
pub proof fn lemma_grid_rects_disjoint(
    window_width: int,
    window_height: int,
    rows: int,
    cols: int,
    i: int,
    j: int,
)
    requires
        0 <= window_width,
        0 <= window_height,
        0 < rows,
        0 < cols,
        0 <= i < rows * cols,
        0 <= j < rows * cols,
        i != j,
    ensures
        grid_rects(window_width, window_height, rows, cols)[i].disjoint(
            grid_rects(window_width, window_height, rows, cols)[j],
        ),
{
    lemma_index_splits(rows, cols, i);
    lemma_index_splits(rows, cols, j);
    lemma_tiles_disjoint(
        window_width,
        window_height,
        rows,
        cols,
        i / cols,
        i % cols,
        j / cols,
        j % cols,
    );
}

/// A sequence of `rects` that all have the area `each` has the total area
/// `rects.len() * each`.
proof fn lemma_total_area_uniform(rects: Seq<Rect>, each: int)
    requires
        forall|i: int| 0 <= i < rects.len() ==> (#[trigger] rects[i]).area() == each,
    ensures
        total_area(rects) == rects.len() * each,
    decreases rects.len(),
{
    if rects.len() == 0 {
        assert(rects.len() * each == 0) by (nonlinear_arith)
            requires
                rects.len() == 0,
        ;
    } else {
        let front = rects.drop_last();
        assert forall|i: int| 0 <= i < front.len() implies (#[trigger] front[i]).area() == each by {
            assert(front[i] == rects[i]);
        }
        lemma_total_area_uniform(front, each);
        assert(rects.last() == rects[rects.len() - 1]);
        assert(front.len() * each + each == rects.len() * each) by (nonlinear_arith)
            requires
                front.len() + 1 == rects.len(),
        ;
    }
}

/// The areas of all cells of a grid add up to `rows * cols` times the area of
/// one cell, which is no more than the area of the window.
pub proof fn lemma_total_area_bounded(window_width: int, window_height: int, rows: int, cols: int)
    requires
        0 <= window_width,
        0 <= window_height,
        0 < rows,
        0 < cols,
    ensures
        total_area(grid_rects(window_width, window_height, rows, cols)) == (rows * cols) * (
        cell_extent(window_width, cols) * cell_extent(window_height, rows)),
        0 <= total_area(grid_rects(window_width, window_height, rows, cols)) <= window_width
            * window_height,
{
    let rects = grid_rects(window_width, window_height, rows, cols);
    let w = cell_extent(window_width, cols);
    let h = cell_extent(window_height, rows);
    assert(0 < rows * cols) by (nonlinear_arith)
        requires
            0 < rows,
            0 < cols,
    ;
    assert(rects.len() == rows * cols);
    assert forall|i: int| 0 <= i < rects.len() implies (#[trigger] rects[i]).area() == w * h by {}
    lemma_total_area_uniform(rects, w * h);
    assert(0 <= w && cols * w <= window_width) by (nonlinear_arith)
        requires
            0 <= window_width,
            0 < cols,
            w == window_width / cols,
    ;
    assert(0 <= h && rows * h <= window_height) by (nonlinear_arith)
        requires
            0 <= window_height,
            0 < rows,
            h == window_height / rows,
    ;
    assert((rows * cols) * (w * h) == (cols * w) * (rows * h)) by (nonlinear_arith);
    assert(0 <= (cols * w) * (rows * h) <= window_width * window_height) by (nonlinear_arith)
        requires
            0 <= w,
            0 <= h,
            0 < rows,
            0 < cols,
            cols * w <= window_width,
            rows * h <= window_height,
    ;
}

/// The cells cover the window up to a strip at the right edge that is
/// narrower than `cols` pixels and a strip at the bottom edge that is lower
/// than `rows` pixels: every pixel left of and above these strips lies in the
/// cell whose row and column are the pixel's coordinates divided by the cell
/// size. When a dimension is divisible by its count, its strip is empty.
pub proof fn lemma_cells_cover(
    window_width: int,
    window_height: int,
    rows: int,
    cols: int,
    px: int,
    py: int,
)
    requires
        0 <= window_width,
        0 <= window_height,
        0 < rows,
        0 < cols,
        0 <= px < window_width - window_width % cols,
        0 <= py < window_height - window_height % rows,
    ensures
        cell_extent(window_width, cols) > 0,
        cell_extent(window_height, rows) > 0,
        0 <= px / cell_extent(window_width, cols) < cols,
        0 <= py / cell_extent(window_height, rows) < rows,
        tile_rect(
            window_width,
            window_height,
            rows,
            cols,
            py / cell_extent(window_height, rows),
            px / cell_extent(window_width, cols),
        ).contains(px, py),
{
    lemma_axis_covered(window_width, cols, px);
    lemma_axis_covered(window_height, rows, py);
}

/// Along one axis, a pixel before the uncovered strip lies in the cell whose
/// index is the pixel's coordinate divided by the cell size.
proof fn lemma_axis_covered(extent: int, count: int, p: int)
    requires
        0 <= extent,
        0 < count,
        0 <= p < extent - extent % count,
    ensures
        cell_extent(extent, count) > 0,
        0 <= p / cell_extent(extent, count) < count,
        (p / cell_extent(extent, count)) * cell_extent(extent, count) <= p,
        p < (p / cell_extent(extent, count)) * cell_extent(extent, count) + cell_extent(
            extent,
            count,
        ),
{
    let size = extent / count;
    assert(extent - extent % count == count * size && 0 <= size) by (nonlinear_arith)
        requires
            0 <= extent,
            0 < count,
            size == extent / count,
    ;
    assert(size > 0) by (nonlinear_arith)
        requires
            0 <= size,
            0 < count,
            0 <= p < count * size,
    ;
    let k = p / size;
    let r = p % size;
    assert(0 <= r < size && p == size * k + r && 0 <= k) by (nonlinear_arith)
        requires
            0 < size,
            0 <= p,
            k == p / size,
            r == p % size,
    ;
    assert(k < count) by (nonlinear_arith)
        requires
            0 < size,
            0 <= r,
            p == size * k + r,
            p < count * size,
    ;
    assert(k * size == size * k) by (nonlinear_arith);
}

/// What is left of one axis when the uncovered strip is taken away is
/// `count` whole cells: the cell size is rounded down, never up, and the strip
/// is as wide as the remainder of the division.
pub proof fn lemma_covered_extent(extent: int, count: int)
    requires
        0 <= extent,
        0 < count,
    ensures
        count * cell_extent(extent, count) == extent - extent % count,
        0 <= extent % count < count,
        extent % count == 0 ==> count * cell_extent(extent, count) == extent,
{
    let size = extent / count;
    let rest = extent % count;
    assert(extent == count * size + rest && 0 <= rest < count) by (nonlinear_arith)
        requires
            0 < count,
            size == extent / count,
            rest == extent % count,
    ;
}

/// The viewport of a cell is a function of the window's size, the grid and
/// the cell alone: two viewports that both cover the rectangle of one cell
/// are equal in every field.
pub proof fn lemma_tile_deterministic(
    first: ViewportRect,
    second: ViewportRect,
    window_width: int,
    window_height: int,
    rows: int,
    cols: int,
    row: int,
    col: int,
)
    requires
        first@ == tile_rect(window_width, window_height, rows, cols, row, col),
        second@ == tile_rect(window_width, window_height, rows, cols, row, col),
    ensures
        first == second,
{
    lemma_same_rect(first, second);
}

/// Retiling the same cameras for the same window always gives the same
/// cameras.
pub proof fn lemma_retile_deterministic(
    config: SplitscreenConfig,
    window_width: int,
    window_height: int,
    before: Seq<CameraView>,
    first: Seq<CameraView>,
    second: Seq<CameraView>,
)
    requires
        all_retiled(config, window_width, window_height, before, first),
        all_retiled(config, window_width, window_height, before, second),
    ensures
        first == second,
{
    assert forall|i: int| 0 <= i < first.len() implies first[i] == second[i] by {
        assert(is_retiled(config, window_width, window_height, before[i], first[i]));
        assert(is_retiled(config, window_width, window_height, before[i], second[i]));
        lemma_same_rect(first[i].viewport->0, second[i].viewport->0);
    }
    assert(first =~= second);
}

/// Retiling for the same window a second time changes nothing: the cameras
/// after the second time are those after the first.
pub proof fn lemma_retile_idempotent(
    config: SplitscreenConfig,
    window_width: int,
    window_height: int,
    before: Seq<CameraView>,
    once: Seq<CameraView>,
    twice: Seq<CameraView>,
)
    requires
        all_retiled(config, window_width, window_height, before, once),
        all_retiled(config, window_width, window_height, once, twice),
    ensures
        twice == once,
{
    assert forall|i: int| 0 <= i < once.len() implies twice[i] == once[i] by {
        assert(is_retiled(config, window_width, window_height, before[i], once[i]));
        assert(is_retiled(config, window_width, window_height, once[i], twice[i]));
        lemma_same_rect(once[i].viewport->0, twice[i].viewport->0);
    }
    assert(twice =~= once);
}

/// Two viewports that cover the same rectangle are equal in every field.
proof fn lemma_same_rect(first: ViewportRect, second: ViewportRect)
    requires
        first@ == second@,
    ensures
        first == second,
{
    assert(first@.x == second@.x && first@.y == second@.y);
    assert(first@.width == second@.width && first@.height == second@.height);
}

} // verus!
