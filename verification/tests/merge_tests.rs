use llava_core::errors::MergeError;
use llava_core::merge::{merge_plan, MergePolicy, PlanSlot};

fn cell(entry: usize, cell: usize) -> PlanSlot {
    PlanSlot::Cell { entry, cell }
}

#[test]
fn flat_plan_flattens_all_entries() {
    let plan = merge_plan(MergePolicy::Flat, 2, 3, 1, (0, 0), (10, 10)).unwrap();
    assert_eq!(
        plan,
        vec![cell(0, 0), cell(0, 1), cell(0, 2), cell(1, 0), cell(1, 1), cell(1, 2)]
    );
}

#[test]
fn single_tile_spatial_is_unchanged() {
    let plan = merge_plan(MergePolicy::Spatial, 1, 7, 24, (0, 0), (336, 336)).unwrap();
    assert_eq!(plan.len(), 7);
    assert_eq!(plan[0], cell(0, 0));
    assert_eq!(plan[6], cell(0, 6));
}

#[test]
fn single_tile_unpad_appends_one_separator() {
    // A single-tile image under spatial_unpad: the base feature plus one
    // separator embedding, length = base_length + 1.
    let plan = merge_plan(MergePolicy::SpatialUnpad, 1, 7, 24, (0, 0), (336, 336)).unwrap();
    assert_eq!(plan.len(), 8);
    assert_eq!(plan[6], cell(0, 6));
    assert_eq!(plan[7], PlanSlot::Separator);
}

#[test]
fn spatial_plan_interleaves_tile_rows() {
    // 2x2 tiles of side 2: the grid rows run across tile boundaries.
    let plan = merge_plan(MergePolicy::Spatial, 5, 4, 2, (2, 2), (100, 100)).unwrap();
    assert_eq!(plan.len(), 4 + 16);
    // Base feature first.
    assert_eq!(&plan[0..4], &[cell(0, 0), cell(0, 1), cell(0, 2), cell(0, 3)]);
    // Grid row 0: tiles 1 and 2, their cells 0 and 1.
    assert_eq!(&plan[4..8], &[cell(1, 0), cell(1, 1), cell(2, 0), cell(2, 1)]);
    // Grid row 1: tiles 1 and 2, cells 2 and 3.
    assert_eq!(&plan[8..12], &[cell(1, 2), cell(1, 3), cell(2, 2), cell(2, 3)]);
    // Grid row 2: tiles 3 and 4 begin.
    assert_eq!(&plan[12..16], &[cell(3, 0), cell(3, 1), cell(4, 0), cell(4, 1)]);
}

#[test]
fn unpad_plan_crops_rows_and_adds_separators() {
    // Tile grid 2x2, side 24 => 48x48 grid; original 672x336 is twice as
    // wide as tall, so 12 padded rows are cropped from each end and every
    // kept row gains one separator: 576 + 24 * 49 tokens.
    let plan = merge_plan(MergePolicy::SpatialUnpad, 5, 576, 24, (2, 2), (672, 336)).unwrap();
    assert_eq!(plan.len(), 576 + 24 * 49);
    // First grid slot: row 12, column 0 => tile row 0, tile column 0,
    // within-tile row 12, column 0.
    assert_eq!(plan[576], cell(1, 12 * 24));
    // Each kept row ends with a separator.
    assert_eq!(plan[576 + 48], PlanSlot::Separator);
    assert_eq!(plan[576 + 97], PlanSlot::Separator);
    // Column 24 of row 12 lives in the second tile of the row.
    assert_eq!(plan[576 + 24], cell(2, 12 * 24));
}

#[test]
fn unpad_plan_single_column_counts() {
    // 2x2 tiles of side 2, original twice as wide as tall: grid 4x4, kept
    // rows = floor(1*4/2) = 2, centred; 5 slots per kept row.
    let plan = merge_plan(MergePolicy::SpatialUnpad, 5, 4, 2, (2, 2), (2, 1)).unwrap();
    assert_eq!(plan.len(), 4 + 2 * 5);
    assert_eq!(
        &plan[4..9],
        &[cell(1, 2), cell(1, 3), cell(2, 2), cell(2, 3), PlanSlot::Separator]
    );
    assert_eq!(
        &plan[9..14],
        &[cell(3, 0), cell(3, 1), cell(4, 0), cell(4, 1), PlanSlot::Separator]
    );
}

#[test]
fn bad_tile_shape_is_reported() {
    let r = merge_plan(MergePolicy::Spatial, 5, 5, 2, (2, 2), (100, 100));
    assert_eq!(r, Err(MergeError::BadFeatureShape));
}

#[test]
fn grid_tile_mismatch_is_reported() {
    let r = merge_plan(MergePolicy::Spatial, 4, 4, 2, (2, 2), (100, 100));
    assert_eq!(r, Err(MergeError::GridTileMismatch { expected: 4, found: 3 }));
}
