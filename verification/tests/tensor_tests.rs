use candle_core::{Device, Tensor};
use llava_core::features::{
    merge_image_feature, prepare_fused_embeddings, select_features, splice_image_embeddings,
    IdentityMap,
};
use llava_core::merge::MergePolicy;

fn t3(data: Vec<f32>, shape: (usize, usize, usize)) -> Tensor {
    Tensor::from_vec(data, shape, &Device::Cpu).unwrap()
}

fn t2(data: Vec<f32>, shape: (usize, usize)) -> Tensor {
    Tensor::from_vec(data, shape, &Device::Cpu).unwrap()
}

fn t1(data: Vec<f32>) -> Tensor {
    let n = data.len();
    Tensor::from_vec(data, n, &Device::Cpu).unwrap()
}

#[test]
fn selector_takes_last_layer_and_drops_class_token() {
    let layer0 = t3(vec![0.0; 6], (1, 3, 2));
    let layer1 = t3(vec![1.0, 2.0, 3.0, 4.0, 5.0, 6.0], (1, 3, 2));
    let hidden = vec![layer0, layer1];
    let out = select_features(&hidden, -1, false).unwrap();
    assert_eq!(out.dims(), &[1, 2, 2]);
    assert_eq!(
        out.to_vec3::<f32>().unwrap(),
        vec![vec![vec![3.0, 4.0], vec![5.0, 6.0]]]
    );
}

#[test]
fn selector_second_to_last_keeps_class_token() {
    let layer0 = t3(vec![9.0, 8.0], (1, 1, 2));
    let layer1 = t3(vec![0.0, 0.0], (1, 1, 2));
    let hidden = vec![layer0, layer1];
    let out = select_features(&hidden, -2, true).unwrap();
    assert_eq!(out.to_vec3::<f32>().unwrap(), vec![vec![vec![9.0, 8.0]]]);
}

#[test]
fn selector_rejects_other_offsets() {
    let hidden = vec![t3(vec![0.0; 2], (1, 1, 2)), t3(vec![0.0; 2], (1, 1, 2))];
    assert!(select_features(&hidden, -3, true).is_err());
}

#[test]
fn single_tile_unpad_appends_separator_row() {
    // Single-tile image under spatial_unpad: output is the base feature
    // with the separator embedding appended, length = base_length + 1.
    let feature = t3(vec![1.0, 2.0, 3.0, 4.0], (1, 2, 2));
    let separator = t1(vec![9.0, 9.0]);
    let pinpoints = vec![(4, 4)];
    let out = merge_image_feature(
        &feature,
        &separator,
        MergePolicy::SpatialUnpad,
        (8, 8),
        &pinpoints,
        2,
        1,
    )
    .unwrap();
    assert_eq!(
        out.to_vec2::<f32>().unwrap(),
        vec![vec![1.0, 2.0], vec![3.0, 4.0], vec![9.0, 9.0]]
    );
}

#[test]
fn multi_tile_unpad_gathers_rows_in_grid_order() {
    // Four tiles of side 2 (grid 2x2, so an 4x4 patch grid) over an image
    // twice as wide as tall: rows 1..3 survive, each closed by the
    // separator. Entry e, cell c carries the value 100*e + c.
    let mut data: Vec<f32> = Vec::new();
    for e in 0..5 {
        for c in 0..4 {
            data.push((100 * e + c) as f32);
        }
    }
    let feature = t3(data, (5, 4, 1));
    let separator = t1(vec![999.0]);
    // One pinpoint of 2x2 tiles at tile_px = 10.
    let pinpoints = vec![(20, 20)];
    let out = merge_image_feature(
        &feature,
        &separator,
        MergePolicy::SpatialUnpad,
        (2, 1),
        &pinpoints,
        10,
        2,
    )
    .unwrap();
    let rows: Vec<f32> = out.to_vec2::<f32>().unwrap().into_iter().map(|r| r[0]).collect();
    assert_eq!(
        rows,
        vec![
            // base feature
            0.0, 1.0, 2.0, 3.0,
            // grid row 1: tiles 1 and 2, their lower cells
            102.0, 103.0, 202.0, 203.0, 999.0,
            // grid row 2: tiles 3 and 4, their upper cells
            300.0, 301.0, 400.0, 401.0, 999.0,
        ]
    );
}

#[test]
fn multi_tile_spatial_keeps_every_patch() {
    let mut data: Vec<f32> = Vec::new();
    for e in 0..5 {
        for c in 0..4 {
            data.push((100 * e + c) as f32);
        }
    }
    let feature = t3(data, (5, 4, 1));
    let separator = t1(vec![999.0]);
    let pinpoints = vec![(20, 20)];
    let out = merge_image_feature(
        &feature,
        &separator,
        MergePolicy::Spatial,
        (2, 1),
        &pinpoints,
        10,
        2,
    )
    .unwrap();
    let rows: Vec<f32> = out.to_vec2::<f32>().unwrap().into_iter().map(|r| r[0]).collect();
    assert_eq!(
        rows,
        vec![
            0.0, 1.0, 2.0, 3.0, // base
            100.0, 101.0, 200.0, 201.0, // grid row 0
            102.0, 103.0, 202.0, 203.0, // grid row 1
            300.0, 301.0, 400.0, 401.0, // grid row 2
            302.0, 303.0, 402.0, 403.0, // grid row 3
        ]
    );
}

#[test]
fn splice_replaces_placeholder_position() {
    let text = t2(vec![10.0, 20.0], (2, 1));
    let image = t2(vec![77.0, 88.0], (2, 1));
    let out = splice_image_embeddings(&text, &image, 1, None).unwrap();
    assert_eq!(out.dims(), &[1, 4, 1]);
    assert_eq!(
        out.to_vec3::<f32>().unwrap(),
        vec![vec![vec![10.0], vec![77.0], vec![88.0], vec![20.0]]]
    );
}

#[test]
fn splice_truncates_to_max_length() {
    let text = t2(vec![10.0, 20.0], (2, 1));
    let image = t2(vec![77.0, 88.0], (2, 1));
    let out = splice_image_embeddings(&text, &image, 1, Some(3)).unwrap();
    assert_eq!(
        out.to_vec3::<f32>().unwrap(),
        vec![vec![vec![10.0], vec![77.0], vec![88.0]]]
    );
}

#[test]
fn splice_rejects_out_of_range_position() {
    let text = t2(vec![10.0, 20.0], (2, 1));
    let image = t2(vec![77.0], (1, 1));
    assert!(splice_image_embeddings(&text, &image, 3, None).is_err());
}

#[test]
fn prepare_fused_embeddings_matches_the_plan() {
    let tokens = vec![10, -200, 20];
    let text = t2(vec![1.5, 2.5], (2, 1));
    let image = t2(vec![77.0, 88.0], (2, 1));
    let out = prepare_fused_embeddings(&tokens, -200, &text, &image, None).unwrap();
    assert_eq!(
        out.to_vec3::<f32>().unwrap(),
        vec![vec![vec![1.5], vec![77.0], vec![88.0], vec![2.5]]]
    );
}

#[test]
fn prepare_fused_embeddings_checks_text_rows() {
    let tokens = vec![10, -200, 20, 30];
    let text = t2(vec![1.5, 2.5], (2, 1));
    let image = t2(vec![77.0], (1, 1));
    assert!(prepare_fused_embeddings(&tokens, -200, &text, &image, None).is_err());
}

#[test]
fn identity_projector_is_identity() {
    let x = t2(vec![1.0, 2.0, 3.0, 4.0], (2, 2));
    let y = IdentityMap {}.forward(&x);
    assert_eq!(x.to_vec2::<f32>().unwrap(), y.to_vec2::<f32>().unwrap());
}
