//! Rectangles of pixels and the cell that a camera draws into.

use vstd::prelude::*;

verus! {

/// A rectangle of pixels as a mathematical object: its top-left corner and
/// its extent, in unbounded integers.
pub struct Rect {
    pub x: int,
    pub y: int,
    pub width: int,
    pub height: int,
}

impl Rect {
    /// Whether the pixel `(px, py)` belongs to the rectangle. The right and
    /// bottom edges are exclusive.
    pub open spec fn contains(self, px: int, py: int) -> bool {
        &&& self.x <= px < self.x + self.width
        &&& self.y <= py < self.y + self.height
    }

    /// The number of pixels of a rectangle with a non-negative extent.
    pub open spec fn area(self) -> int {
        self.width * self.height
    }

    /// Whether the rectangle lies inside a window of `width × height` pixels
    /// whose top-left pixel is `(0, 0)`.
    pub open spec fn within(self, width: int, height: int) -> bool {
        &&& 0 <= self.x
        &&& 0 <= self.y
        &&& 0 <= self.width
        &&& 0 <= self.height
        &&& self.x + self.width <= width
        &&& self.y + self.height <= height
    }

    /// Whether two rectangles have no pixel in common.
    pub open spec fn disjoint(self, other: Rect) -> bool {
        forall|px: int, py: int| !(#[trigger] self.contains(px, py) && other.contains(px, py))
    }
}

/// The region of a render target, in physical pixels, that one camera draws
/// into.
#[derive(Clone, Copy, Debug, PartialEq, Eq, Structural)]
pub struct ViewportRect {
    pub offset_x: u32,
    pub offset_y: u32,
    pub width: u32,
    pub height: u32,
}

impl View for ViewportRect {
    type V = Rect;

    open spec fn view(&self) -> Rect {
        Rect {
            x: self.offset_x as int,
            y: self.offset_y as int,
            width: self.width as int,
            height: self.height as int,
        }
    }
}

/// The width (or height) of one cell when `extent` pixels are shared among
/// `count` columns (or rows): the quotient, rounded down.
pub open spec fn cell_extent(extent: int, count: int) -> int {
    extent / count
}

/// The cell at `(row, col)` of a window of `window_width × window_height`
/// pixels divided into `rows × cols` cells. Cells are laid out left to right
/// and top to bottom.
pub open spec fn tile_rect(
    window_width: int,
    window_height: int,
    rows: int,
    cols: int,
    row: int,
    col: int,
) -> Rect {
    Rect {
        x: col * cell_extent(window_width, cols),
        y: row * cell_extent(window_height, rows),
        width: cell_extent(window_width, cols),
        height: cell_extent(window_height, rows),
    }
}

/// The rectangles of all cells of the grid, row by row and left to right
/// within a row.
pub open spec fn grid_rects(window_width: int, window_height: int, rows: int, cols: int) -> Seq<
    Rect,
> {
    Seq::new(
        (rows * cols) as nat,
        |i: int| tile_rect(window_width, window_height, rows, cols, i / cols, i % cols),
    )
}

/// Along one axis, the cell with index `index` starts at or after pixel 0 and
/// ends at or before pixel `extent`.
pub proof fn lemma_cell_span_within(extent: int, count: int, index: int)
    requires
        0 <= extent,
        0 < count,
        0 <= index < count,
    ensures
        0 <= cell_extent(extent, count),
        0 <= index * cell_extent(extent, count),
        index * cell_extent(extent, count) + cell_extent(extent, count) <= extent,
{
    let q = extent / count;
    assert(0 <= q && count * q <= extent) by (nonlinear_arith)
        requires
            0 <= extent,
            0 < count,
            q == extent / count,
    ;
    assert(0 <= index * q && index * q + q <= count * q) by (nonlinear_arith)
        requires
            0 <= q,
            0 <= index < count,
    ;
}

/// Computes the viewport of the camera at `(row, col)`.
///
/// The cell size is the window size divided by the grid size, rounded down;
/// the offset is the cell size times the cell's index. The result always lies
/// inside the window.
pub fn tile(
    window_width: u32,
    window_height: u32,
    rows: u32,
    cols: u32,
    row: u32,
    col: u32,
) -> (r: ViewportRect)
    requires
        rows > 0,
        cols > 0,
        row < rows,
        col < cols,
    ensures
        r@ == tile_rect(
            window_width as int,
            window_height as int,
            rows as int,
            cols as int,
            row as int,
            col as int,
        ),
        r@.within(window_width as int, window_height as int),
{
    let width: u32 = window_width / cols;
    let height: u32 = window_height / rows;
    proof {
        lemma_cell_span_within(window_width as int, cols as int, col as int);
        lemma_cell_span_within(window_height as int, rows as int, row as int);
    }
    let offset_x: u32 = col * width;
    let offset_y: u32 = row * height;
    ViewportRect { offset_x, offset_y, width, height }
}

} // verus!
