//! Placing one camera in every cell of the grid, and giving the cameras new
//! viewports when the window changes size.

use vstd::prelude::*;
use crate::config::{lemma_index_splits, SplitscreenCamera, SplitscreenConfig};
use crate::viewport::{grid_rects, tile, tile_rect, Rect, ViewportRect};

verus! {

/// What the tiler knows of one camera: the cell it occupies, which never
/// changes, and the viewport it currently draws into, if it has one.
#[derive(Clone, Copy, Debug, PartialEq, Eq)]
pub struct CameraView {
    pub cell: SplitscreenCamera,
    pub viewport: Option<ViewportRect>,
}

/// How one camera is created at startup.
#[derive(Clone, Copy, Debug, PartialEq, Eq)]
pub struct CameraPlacement {
    /// The camera's cell and its first viewport.
    pub view: CameraView,
    /// The order in which the cameras are drawn: the cell's index, counted
    /// row by row.
    pub priority: u32,
    /// Whether this camera clears the render target before it draws. Only
    /// the camera that is drawn first does.
    pub clears: bool,
}

/// The rectangle that the camera in `cell` draws into.
pub open spec fn cell_rect(
    config: SplitscreenConfig,
    window_width: int,
    window_height: int,
    cell: SplitscreenCamera,
) -> Rect {
    tile_rect(
        window_width,
        window_height,
        config.rows as int,
        config.cols as int,
        cell.row as int,
        cell.col as int,
    )
}

/// Whether `placement` is the one that belongs to the cell with index `index`.
pub open spec fn is_placement(
    config: SplitscreenConfig,
    window_width: int,
    window_height: int,
    index: int,
    placement: CameraPlacement,
) -> bool {
    &&& placement.view.cell.row == config.cell_at(index).0
    &&& placement.view.cell.col == config.cell_at(index).1
    &&& placement.view.viewport is Some
    &&& placement.view.viewport->0@ == cell_rect(
        config,
        window_width,
        window_height,
        placement.view.cell,
    )
    &&& placement.priority == index
    &&& placement.clears == (index == 0)
}

/// The rectangles that the cameras in `placements` draw into, in the same
/// order.
pub open spec fn placement_rects(placements: Seq<CameraPlacement>) -> Seq<Rect> {
    Seq::new(placements.len(), |i: int| placements[i].view.viewport->0@)
}

/// Whether `after` is `before` with the viewport replaced by the camera's
/// cell of a window of the given size.
pub open spec fn is_retiled(
    config: SplitscreenConfig,
    window_width: int,
    window_height: int,
    before: CameraView,
    after: CameraView,
) -> bool {
    &&& after.cell == before.cell
    &&& after.viewport is Some
    &&& after.viewport->0@ == cell_rect(config, window_width, window_height, before.cell)
}

/// Whether `after` holds the cameras of `before`, in the same order, each
/// with the viewport of its cell in a window of the given size.
pub open spec fn all_retiled(
    config: SplitscreenConfig,
    window_width: int,
    window_height: int,
    before: Seq<CameraView>,
    after: Seq<CameraView>,
) -> bool {
    &&& after.len() == before.len()
    &&& forall|i: int|
        0 <= i < before.len() ==> is_retiled(
            config,
            window_width,
            window_height,
            before[i],
            #[trigger] after[i],
        )
}

/// Lays out the cameras of the grid for a window of the given size: one
/// camera per cell, row by row and left to right within a row.
///
/// The camera with index `i` sits in row `i / cols` and column `i % cols`,
/// draws into that cell of the window, has priority `i`, and clears the
/// render target only if `i` is 0.
pub fn camera_placements(
    config: &SplitscreenConfig,
    window_width: u32,
    window_height: u32,
) -> (placements: Vec<CameraPlacement>)
    requires
        config.wf(),
        config.cells() <= u32::MAX,
    ensures
        placements@.len() == config.cells(),
        forall|i: int|
            0 <= i < placements@.len() ==> is_placement(
                *config,
                window_width as int,
                window_height as int,
                i,
                #[trigger] placements@[i],
            ),
        placement_rects(placements@) == grid_rects(
            window_width as int,
            window_height as int,
            config.rows as int,
            config.cols as int,
        ),
{
    proof {
        assert(0 <= config.rows * config.cols) by (nonlinear_arith);
    }
    let count: u32 = config.rows * config.cols;
    let mut placements: Vec<CameraPlacement> = Vec::new();
    let mut i: u32 = 0;
    while i < count
        invariant
            config.wf(),
            count == config.cells(),
            i <= count,
            placements@.len() == i,
            forall|k: int|
                0 <= k < placements@.len() ==> is_placement(
                    *config,
                    window_width as int,
                    window_height as int,
                    k,
                    #[trigger] placements@[k],
                ),
        decreases count - i,
    {
        proof {
            lemma_index_splits(config.rows as int, config.cols as int, i as int);
        }
        let row: u32 = i / config.cols;
        let col: u32 = i % config.cols;
        let viewport = tile(window_width, window_height, config.rows, config.cols, row, col);
        let placement = CameraPlacement {
            view: CameraView { cell: SplitscreenCamera { row, col }, viewport: Some(viewport) },
            priority: i,
            clears: i == 0,
        };
        placements.push(placement);
        i = i + 1;
    }
    proof {
        let rects = grid_rects(
            window_width as int,
            window_height as int,
            config.rows as int,
            config.cols as int,
        );
        assert(placement_rects(placements@).len() == rects.len());
        assert forall|k: int| 0 <= k < rects.len() implies placement_rects(placements@)[k]
            == rects[k] by {
            assert(is_placement(
                *config,
                window_width as int,
                window_height as int,
                k,
                placements@[k],
            ));
        }
        assert(placement_rects(placements@) =~= rects);
    }
    placements
}

/// Gives every camera the viewport of its cell in a window that now measures
/// `window_width × window_height` pixels.
///
/// The cameras keep their order and their cells; only the viewports change.
pub fn set_camera_viewports(
    config: &SplitscreenConfig,
    window_width: u32,
    window_height: u32,
    cameras: &mut Vec<CameraView>,
)
    requires
        config.wf(),
        forall|i: int| 0 <= i < old(cameras)@.len() ==> config.has_cell(#[trigger] old(cameras)@[i].cell),
    ensures
        all_retiled(
            *config,
            window_width as int,
            window_height as int,
            old(cameras)@,
            final(cameras)@,
        ),
{
    let n: usize = cameras.len();
    let mut i: usize = 0;
    while i < n
        invariant
            config.wf(),
            i <= n,
            n == old(cameras)@.len(),
            cameras@.len() == n,
            forall|k: int| 0 <= k < n ==> cameras@[k].cell == old(cameras)@[k].cell,
            forall|k: int| 0 <= k < n ==> config.has_cell(#[trigger] old(cameras)@[k].cell),
            forall|k: int|
                0 <= k < i ==> is_retiled(
                    *config,
                    window_width as int,
                    window_height as int,
                    old(cameras)@[k],
                    #[trigger] cameras@[k],
                ),
        decreases n - i,
    {
        let cell: SplitscreenCamera = cameras[i].cell;
        assert(config.has_cell(old(cameras)@[i as int].cell));
        let viewport = tile(
            window_width,
            window_height,
            config.rows,
            config.cols,
            cell.row,
            cell.col,
        );
        cameras.set(i, CameraView { cell, viewport: Some(viewport) });
        i = i + 1;
    }
}

} // verus!
