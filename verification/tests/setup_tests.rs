use llava_core::errors::ConfigError;
use llava_core::merge::MergePolicy;
use llava_core::select_layer_index;
use llava_core::setup::{
    get_model_name, merge_policy_from_config, mlp_gelu_match, projector_kind, validate_select_layer,
    ProjectorKind,
};

#[test]
fn mlp_gelu_grammar() {
    assert_eq!(mlp_gelu_match("mlp2x_gelu"), Some(2));
    assert_eq!(mlp_gelu_match("mlp10x_gelu"), Some(10));
    assert_eq!(mlp_gelu_match("mlp_gelu"), None);
    assert_eq!(mlp_gelu_match("linear"), None);
    assert_eq!(mlp_gelu_match("mlp2x_gelu "), None);
    assert_eq!(mlp_gelu_match("xmlp2x_gelu"), None);
    assert_eq!(mlp_gelu_match("mlp2y_gelu"), None);
}

#[test]
fn mlp_gelu_overflow_is_no_match() {
    assert_eq!(mlp_gelu_match("mlp99999999999999999999x_gelu"), None);
}

#[test]
fn projector_kinds() {
    assert_eq!(projector_kind("linear"), Ok(ProjectorKind::Linear));
    assert_eq!(projector_kind("identity"), Ok(ProjectorKind::Identity));
    assert_eq!(projector_kind("mlp3x_gelu"), Ok(ProjectorKind::MlpGelu { depth: 3 }));
    assert_eq!(projector_kind("conv"), Err(ConfigError::UnsupportedProjectorType));
}

#[test]
fn merge_policy_names() {
    assert_eq!(merge_policy_from_config("flat"), Ok(MergePolicy::Flat));
    assert_eq!(merge_policy_from_config("spatial"), Ok(MergePolicy::Spatial));
    assert_eq!(merge_policy_from_config("spatial_unpad"), Ok(MergePolicy::SpatialUnpad));
    assert_eq!(
        merge_policy_from_config("mosaic"),
        Err(ConfigError::UnsupportedMergePolicy)
    );
}

#[test]
fn select_layer_offsets() {
    // The selector index law: -1 resolves to the last layer, -2 to the one
    // before it, anything else is a configuration error.
    assert_eq!(select_layer_index(24, -1), Some(23));
    assert_eq!(select_layer_index(24, -2), Some(22));
    assert_eq!(select_layer_index(24, 0), None);
    assert_eq!(select_layer_index(24, -3), None);
    assert_eq!(validate_select_layer(-1), Ok(-1));
    assert_eq!(validate_select_layer(-2), Ok(-2));
    assert_eq!(
        validate_select_layer(1),
        Err(ConfigError::UnsupportedSelectLayer { offset: 1 })
    );
}

#[test]
fn model_name_from_path() {
    assert_eq!(get_model_name("liuhaotian/llava-v1.6-vicuna-7b"), "llava-v1.6-vicuna-7b");
    assert_eq!(get_model_name("plain-name"), "plain-name");
    assert_eq!(get_model_name("a/b/"), "");
}
