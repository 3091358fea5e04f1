//! The grid that a window is divided into, and the tag that ties a camera to
//! one cell of it.

use vstd::prelude::*;

verus! {

/// The number of rows and columns of the splitscreen grid. It is fixed when
/// the cameras are created and only read afterwards.
#[derive(Clone, Copy, Debug, PartialEq, Eq, Structural)]
pub struct SplitscreenConfig {
    pub rows: u32,
    pub cols: u32,
}

/// The cell of the grid that a camera occupies.
#[derive(Clone, Copy, Debug, PartialEq, Eq, Structural)]
pub struct SplitscreenCamera {
    pub row: u32,
    pub col: u32,
}

impl SplitscreenConfig {
    /// A grid is well formed when it has at least one row and one column.
    pub open spec fn wf(&self) -> bool {
        self.rows > 0 && self.cols > 0
    }

    /// The number of cells of the grid.
    pub open spec fn cells(&self) -> int {
        self.rows * self.cols
    }

    /// Whether `camera` names a cell of this grid.
    pub open spec fn has_cell(&self, camera: SplitscreenCamera) -> bool {
        camera.row < self.rows && camera.col < self.cols
    }

    /// The cell with the given index when the cells are counted row by row,
    /// left to right within a row.
    pub open spec fn cell_at(&self, index: int) -> (int, int) {
        (index / (self.cols as int), index % (self.cols as int))
    }

    /// Makes the grid of `rows × cols` cells.
    pub fn new(rows: u32, cols: u32) -> (config: SplitscreenConfig)
        requires
            rows > 0,
            cols > 0,
        ensures
            config.wf(),
            config.rows == rows,
            config.cols == cols,
    {
        SplitscreenConfig { rows, cols }
    }

    /// Tells whether `camera` names a cell of this grid.
    pub fn contains(&self, camera: &SplitscreenCamera) -> (inside: bool)
        ensures
            inside == self.has_cell(*camera),
    {
        camera.row < self.rows && camera.col < self.cols
    }

    /// The number of cells, or `None` when it does not fit in 32 bits.
    pub fn cell_count(&self) -> (count: Option<u32>)
        ensures
            match count {
                Some(n) => n == self.cells(),
                None => self.cells() > u32::MAX,
            },
    {
        self.rows.checked_mul(self.cols)
    }
}

/// An index below `rows * cols` splits into a row below `rows` and a column
/// below `cols`, and these two give the index back.
pub proof fn lemma_index_splits(rows: int, cols: int, index: int)
    requires
        0 < rows,
        0 < cols,
        0 <= index < rows * cols,
    ensures
        0 <= index / cols < rows,
        0 <= index % cols < cols,
        (index / cols) * cols + index % cols == index,
{
    let q = index / cols;
    let r = index % cols;
    assert(0 <= r < cols && index == cols * q + r && 0 <= q) by (nonlinear_arith)
        requires
            0 < cols,
            0 <= index,
            q == index / cols,
            r == index % cols,
    ;
    assert(q < rows) by (nonlinear_arith)
        requires
            0 < cols,
            0 <= r,
            index == cols * q + r,
            index < rows * cols,
    ;
    assert(q * cols == cols * q) by (nonlinear_arith);
}

} // verus!
