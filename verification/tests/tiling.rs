use splitscreen::config::{SplitscreenCamera, SplitscreenConfig};
use splitscreen::layout::{camera_placements, set_camera_viewports, CameraView};
use splitscreen::viewport::{tile, ViewportRect};

fn rect(offset_x: u32, offset_y: u32, width: u32, height: u32) -> ViewportRect {
    ViewportRect { offset_x, offset_y, width, height }
}

fn overlap(a: &ViewportRect, b: &ViewportRect) -> bool {
    let (ax, ay, aw, ah) = (a.offset_x as u64, a.offset_y as u64, a.width as u64, a.height as u64);
    let (bx, by, bw, bh) = (b.offset_x as u64, b.offset_y as u64, b.width as u64, b.height as u64);
    aw > 0 && ah > 0 && bw > 0 && bh > 0 && ax < bx + bw && bx < ax + aw && ay < by + bh
        && by < ay + ah
}

#[test]
fn two_by_two_grid_of_800_by_600() {
    assert_eq!(tile(800, 600, 2, 2, 0, 0), rect(0, 0, 400, 300));
    assert_eq!(tile(800, 600, 2, 2, 0, 1), rect(400, 0, 400, 300));
    assert_eq!(tile(800, 600, 2, 2, 1, 0), rect(0, 300, 400, 300));
    assert_eq!(tile(800, 600, 2, 2, 1, 1), rect(400, 300, 400, 300));
}

#[test]
fn odd_width_truncates_and_leaves_a_strip() {
    let left = tile(801, 600, 2, 2, 0, 0);
    let right = tile(801, 600, 2, 2, 0, 1);
    assert_eq!(left.width, 400);
    assert_eq!(right.width, 400);
    assert_eq!(left.offset_x, 0);
    assert_eq!(right.offset_x, 400);
    assert_eq!(right.offset_x + right.width, 800);
}

#[test]
fn odd_height_truncates_and_leaves_a_strip() {
    let top = tile(800, 601, 2, 2, 0, 0);
    let bottom = tile(800, 601, 2, 2, 1, 0);
    assert_eq!(top.height, 300);
    assert_eq!(bottom.height, 300);
    assert_eq!(bottom.offset_y, 300);
    assert_eq!(bottom.offset_y + bottom.height, 600);
}

#[test]
fn tile_is_a_function_of_its_inputs() {
    let first = tile(1283, 719, 3, 5, 2, 4);
    let second = tile(1283, 719, 3, 5, 2, 4);
    assert_eq!(first, second);
    assert_eq!(first, rect(1024, 478, 256, 239));
}

#[test]
fn single_cell_covers_the_window() {
    assert_eq!(tile(1920, 1080, 1, 1, 0, 0), rect(0, 0, 1920, 1080));
}

#[test]
fn window_smaller_than_grid_gives_empty_cells() {
    assert_eq!(tile(3, 2, 4, 5, 3, 4), rect(0, 0, 0, 0));
    assert_eq!(tile(0, 0, 2, 2, 1, 1), rect(0, 0, 0, 0));
}

#[test]
fn largest_window_does_not_overflow() {
    let max = u32::MAX;
    assert_eq!(tile(max, max, 1, 1, 0, 0), rect(0, 0, max, max));
    let last = tile(max, max, 2, 2, 1, 1);
    assert_eq!(last, rect(2147483647, 2147483647, 2147483647, 2147483647));
    let corner = tile(max, max, max, max, max - 1, max - 1);
    assert_eq!(corner, rect(max - 1, max - 1, 1, 1));
}

#[test]
fn cells_stay_inside_the_window_and_never_overlap() {
    let sizes = [(800u32, 600u32), (801, 601), (7, 5), (1, 1), (0, 0), (1023, 767)];
    let grids = [(1u32, 1u32), (2, 2), (3, 4), (5, 2), (1, 7)];
    for (w, h) in sizes {
        for (rows, cols) in grids {
            let mut cells = Vec::new();
            for row in 0..rows {
                for col in 0..cols {
                    let cell = tile(w, h, rows, cols, row, col);
                    assert!(cell.offset_x as u64 + cell.width as u64 <= w as u64);
                    assert!(cell.offset_y as u64 + cell.height as u64 <= h as u64);
                    cells.push(cell);
                }
            }
            let mut area: u64 = 0;
            for (i, a) in cells.iter().enumerate() {
                area += a.width as u64 * a.height as u64;
                for b in cells.iter().skip(i + 1) {
                    assert!(!overlap(a, b));
                }
            }
            assert!(area <= w as u64 * h as u64);
            assert_eq!(area, (rows * cols) as u64 * (w / cols) as u64 * (h / rows) as u64);
        }
    }
}

#[test]
fn every_covered_pixel_lies_in_exactly_one_cell() {
    let (w, h, rows, cols) = (11u32, 7u32, 2u32, 3u32);
    for py in 0..h {
        for px in 0..w {
            let mut owners = 0;
            for row in 0..rows {
                for col in 0..cols {
                    let c = tile(w, h, rows, cols, row, col);
                    if c.offset_x <= px && px < c.offset_x + c.width && c.offset_y <= py
                        && py < c.offset_y + c.height
                    {
                        owners += 1;
                        assert_eq!(row, py / (h / rows));
                        assert_eq!(col, px / (w / cols));
                    }
                }
            }
            let covered = px < w - w % cols && py < h - h % rows;
            assert_eq!(owners, if covered { 1 } else { 0 });
        }
    }
}

#[test]
fn config_new_keeps_rows_and_cols() {
    let config = SplitscreenConfig::new(2, 3);
    assert_eq!(config.rows, 2);
    assert_eq!(config.cols, 3);
    assert_eq!(config, SplitscreenConfig { rows: 2, cols: 3 });
}

#[test]
fn config_contains_only_cells_of_the_grid() {
    let config = SplitscreenConfig::new(2, 3);
    assert!(config.contains(&SplitscreenCamera { row: 0, col: 0 }));
    assert!(config.contains(&SplitscreenCamera { row: 1, col: 2 }));
    assert!(!config.contains(&SplitscreenCamera { row: 2, col: 0 }));
    assert!(!config.contains(&SplitscreenCamera { row: 0, col: 3 }));
}

#[test]
fn cell_count_is_the_product_or_none() {
    assert_eq!(SplitscreenConfig::new(2, 2).cell_count(), Some(4));
    assert_eq!(SplitscreenConfig::new(3, 5).cell_count(), Some(15));
    assert_eq!(SplitscreenConfig::new(65536, 65535).cell_count(), Some(4294901760));
    assert_eq!(SplitscreenConfig::new(65536, 65536).cell_count(), None);
    assert_eq!(SplitscreenConfig::new(u32::MAX, 2).cell_count(), None);
}

#[test]
fn placements_of_a_two_by_two_grid() {
    let config = SplitscreenConfig::new(2, 2);
    let placements = camera_placements(&config, 800, 600);
    assert_eq!(placements.len(), 4);
    let cells = [(0u32, 0u32), (0, 1), (1, 0), (1, 1)];
    let rects =
        [rect(0, 0, 400, 300), rect(400, 0, 400, 300), rect(0, 300, 400, 300), rect(400, 300, 400, 300)];
    for i in 0..4 {
        let p = placements[i];
        assert_eq!(p.view.cell, SplitscreenCamera { row: cells[i].0, col: cells[i].1 });
        assert_eq!(p.view.viewport, Some(rects[i]));
        assert_eq!(p.priority, i as u32);
        assert_eq!(p.clears, i == 0);
    }
}

#[test]
fn placements_count_row_by_row() {
    let config = SplitscreenConfig::new(2, 3);
    let placements = camera_placements(&config, 900, 400);
    assert_eq!(placements.len(), 6);
    for (i, p) in placements.iter().enumerate() {
        let i = i as u32;
        assert_eq!(p.view.cell, SplitscreenCamera { row: i / 3, col: i % 3 });
        assert_eq!(p.view.viewport, Some(tile(900, 400, 2, 3, i / 3, i % 3)));
        assert_eq!(p.priority, i);
    }
    assert_eq!(placements[4].view.viewport, Some(rect(300, 200, 300, 200)));
    assert!(placements[0].clears);
    assert!(placements[1..].iter().all(|p| !p.clears));
}

#[test]
fn resize_gives_every_camera_its_cell() {
    let config = SplitscreenConfig::new(2, 2);
    let mut cameras: Vec<CameraView> =
        camera_placements(&config, 800, 600).iter().map(|p| p.view).collect();
    set_camera_viewports(&config, 1024, 768, &mut cameras);
    assert_eq!(cameras.len(), 4);
    assert_eq!(cameras[0].viewport, Some(rect(0, 0, 512, 384)));
    assert_eq!(cameras[1].viewport, Some(rect(512, 0, 512, 384)));
    assert_eq!(cameras[2].viewport, Some(rect(0, 384, 512, 384)));
    assert_eq!(cameras[3].viewport, Some(rect(512, 384, 512, 384)));
    assert_eq!(cameras[2].cell, SplitscreenCamera { row: 1, col: 0 });
}

#[test]
fn resize_fills_missing_viewports_in_any_order() {
    let config = SplitscreenConfig::new(2, 2);
    let mut cameras = vec![
        CameraView { cell: SplitscreenCamera { row: 1, col: 1 }, viewport: None },
        CameraView { cell: SplitscreenCamera { row: 0, col: 0 }, viewport: Some(rect(9, 9, 9, 9)) },
        CameraView { cell: SplitscreenCamera { row: 1, col: 1 }, viewport: None },
    ];
    set_camera_viewports(&config, 801, 600, &mut cameras);
    assert_eq!(cameras[0], CameraView {
        cell: SplitscreenCamera { row: 1, col: 1 },
        viewport: Some(rect(400, 300, 400, 300)),
    });
    assert_eq!(cameras[1].viewport, Some(rect(0, 0, 400, 300)));
    assert_eq!(cameras[2], cameras[0]);
}

#[test]
fn resize_twice_with_the_same_size_changes_nothing() {
    let config = SplitscreenConfig::new(3, 2);
    let mut cameras: Vec<CameraView> =
        camera_placements(&config, 640, 480).iter().map(|p| p.view).collect();
    set_camera_viewports(&config, 1001, 997, &mut cameras);
    let once = cameras.clone();
    set_camera_viewports(&config, 1001, 997, &mut cameras);
    assert_eq!(cameras, once);
}

#[test]
fn resize_of_no_cameras_is_empty() {
    let config = SplitscreenConfig::new(2, 2);
    let mut cameras: Vec<CameraView> = Vec::new();
    set_camera_viewports(&config, 800, 600, &mut cameras);
    assert!(cameras.is_empty());
}
