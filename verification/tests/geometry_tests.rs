use llava_core::geometry::{anyres_grid_shape, best_resolution, unpad_crop, CropWindow};

#[test]
fn best_resolution_picks_exact_fit() {
    let pinpoints = vec![(336, 672), (672, 336), (672, 672), (1008, 336), (336, 1008)];
    let r = best_resolution((672, 336), &pinpoints);
    assert_eq!(r, Some((672, 336)));
}

#[test]
fn best_resolution_empty_pinpoints() {
    let pinpoints: Vec<(u32, u32)> = Vec::new();
    assert_eq!(best_resolution((640, 480), &pinpoints), None);
}

#[test]
fn best_resolution_first_best_wins_on_tie() {
    // Two identical pinpoints: the earlier one must win.
    let pinpoints = vec![(672, 336), (672, 336)];
    let r = best_resolution((672, 336), &pinpoints);
    assert_eq!(r, Some((672, 336)));
}

#[test]
fn grid_shape_for_wide_image() {
    let pinpoints = vec![(336, 672), (672, 336), (672, 672)];
    let g = anyres_grid_shape((672, 336), &pinpoints, 336);
    assert_eq!(g, Some((2, 1)));
}

#[test]
fn unpad_crop_wide_image_crops_rows() {
    // A 48x48 patch grid for an originally 672x336 (2:1) image: the height
    // carried the letterbox padding; 24 content rows remain, centred.
    let crop = unpad_crop(48, 48, (672, 336));
    assert_eq!(
        crop,
        CropWindow { row_start: 12, row_end: 36, col_start: 0, col_end: 48 }
    );
}

#[test]
fn unpad_crop_tall_image_crops_cols() {
    let crop = unpad_crop(48, 48, (336, 672));
    assert_eq!(
        crop,
        CropWindow { row_start: 0, row_end: 48, col_start: 12, col_end: 36 }
    );
}

#[test]
fn unpad_crop_uses_floor_scaling() {
    // 8x4 original on a 5x4 grid: scaled rows = floor(4*4/8) = 2, so one
    // padding row is cropped from each end.
    let crop = unpad_crop(5, 4, (8, 4));
    assert_eq!(
        crop,
        CropWindow { row_start: 1, row_end: 4, col_start: 0, col_end: 4 }
    );
}

#[test]
fn unpad_crop_square_on_square_keeps_all() {
    let crop = unpad_crop(24, 24, (500, 500));
    assert_eq!(
        crop,
        CropWindow { row_start: 0, row_end: 24, col_start: 0, col_end: 24 }
    );
}
