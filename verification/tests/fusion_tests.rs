use llava_core::errors::FusionError;
use llava_core::fusion::{find_unique_placeholder, fuse_plan, strip_placeholder, FusedSlot};

const IMG: i64 = -200;

#[test]
fn finds_single_placeholder() {
    let tokens = vec![1, 2, IMG, 3];
    assert_eq!(find_unique_placeholder(&tokens, IMG), Ok(2));
}

#[test]
fn missing_placeholder_is_an_error() {
    let tokens = vec![1, 2, 3];
    assert_eq!(
        find_unique_placeholder(&tokens, IMG),
        Err(FusionError::PlaceholderCountMismatch { found: 0 })
    );
}

#[test]
fn double_placeholder_is_an_error() {
    let tokens = vec![IMG, 5, IMG];
    assert_eq!(
        find_unique_placeholder(&tokens, IMG),
        Err(FusionError::PlaceholderCountMismatch { found: 2 })
    );
}

#[test]
fn fuse_plan_replaces_placeholder_with_image_rows() {
    // One placeholder among 4 tokens and a 3-row image block: the fused
    // sequence has (4 - 1) + 3 positions.
    let tokens = vec![5, 6, IMG, 7];
    let plan = fuse_plan(&tokens, IMG, 3, None).unwrap();
    assert_eq!(
        plan,
        vec![
            FusedSlot::Text { token: 5 },
            FusedSlot::Text { token: 6 },
            FusedSlot::Image { row: 0 },
            FusedSlot::Image { row: 1 },
            FusedSlot::Image { row: 2 },
            FusedSlot::Text { token: 7 },
        ]
    );
}

#[test]
fn fuse_plan_truncates_to_max_length() {
    let tokens = vec![5, 6, IMG, 7];
    let full = fuse_plan(&tokens, IMG, 3, None).unwrap();
    let cut = fuse_plan(&tokens, IMG, 3, Some(4)).unwrap();
    assert_eq!(cut.len(), 4);
    assert_eq!(&full[0..4], &cut[..]);
}

#[test]
fn fuse_plan_with_generous_max_length_is_untouched() {
    let tokens = vec![5, IMG];
    let plan = fuse_plan(&tokens, IMG, 2, Some(100)).unwrap();
    assert_eq!(plan.len(), 3);
}

#[test]
fn fuse_plan_rejects_placeholder_mismatch() {
    let tokens = vec![5, 6];
    assert_eq!(
        fuse_plan(&tokens, IMG, 3, None),
        Err(FusionError::PlaceholderCountMismatch { found: 0 })
    );
}

#[test]
fn strip_placeholder_removes_exactly_one_token() {
    let tokens = vec![5, 6, IMG, 7];
    assert_eq!(strip_placeholder(&tokens, 2), vec![5, 6, 7]);
}

#[test]
fn strip_placeholder_at_either_end() {
    let tokens = vec![IMG, 8, 9];
    assert_eq!(strip_placeholder(&tokens, 0), vec![8, 9]);
    let tokens = vec![8, 9, IMG];
    assert_eq!(strip_placeholder(&tokens, 2), vec![8, 9]);
}
