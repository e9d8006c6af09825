use weathergraph::checkpoint::inspect_safetensors_bytes;
use weathergraph::model::{
    candidate_layer_norm_keys, candidate_param_keys, encoder_edge_input_dim,
    enforce_strict_weight_report, expected_weight_entries, inspect_weight_keys,
    inspect_weight_metadata, TensorMetadata,
};
use weathergraph::ModelConfig;

fn test_config() -> ModelConfig {
    ModelConfig {
        input_channels: 2,
        output_channels: 2,
        hidden_dim: 2,
        processor_blocks: 1,
        use_layer_norm: true,
        ..ModelConfig::default()
    }
}

#[test]
fn inspect_weights_reports_alias_hits_and_missing_keys() {
    let config = ModelConfig { ..test_config() };
    let report = inspect_weight_keys(
        &[
            "encoder_edge_mlp.layers.0.w".to_owned(),
            "encoder_edge_mlp.layers.1.w".to_owned(),
            "encoder_edge_mlp.layer_norm.scale".to_owned(),
            "encoder_edge_mlp.layer_norm.offset".to_owned(),
            "unused.tensor".to_owned(),
        ],
        &config,
    );

    assert!(report.matched_required.iter().any(|entry| entry.canonical_key
        == "encoder_edge_mlp.layers.0.weight"
        && entry.matched_key == "encoder_edge_mlp.layers.0.w"));
    assert!(report
        .missing_required
        .contains(&"encoder_node_mlp.layers.0.weight".to_owned()));
    assert!(report.shape_mismatches.is_empty());
    assert!(report.unused_keys.contains(&"unused.tensor".to_owned()));
}

#[test]
fn inspect_weights_reports_shape_mismatches() {
    let config = ModelConfig {
        hidden_dim: 3,
        ..test_config()
    };
    let report = inspect_weight_metadata(
        &vec![(
            "encoder_edge_mlp.layers.0.w".to_owned(),
            TensorMetadata {
                shape: vec![2, 2],
                dtype: "F32".to_owned(),
            },
        )],
        &config,
    );

    assert!(report.shape_mismatches.iter().any(|mismatch| {
        mismatch.canonical_key == "encoder_edge_mlp.layers.0.weight"
            && mismatch.expected_shape == vec![3, encoder_edge_input_dim(&config)]
            && mismatch.actual_shape == vec![2, 2]
    }));
}

#[test]
fn encoder_edge_width_counts_every_feature_block() {
    let config = ModelConfig::default();
    // 3 coordinates + 78 channels + 11 solar samples + 2 surface fields + 2 + 2 + 1.
    assert_eq!(encoder_edge_input_dim(&config), 99);
    let plain = ModelConfig {
        use_lat: false,
        use_lon: false,
        use_doy: false,
        ..ModelConfig::default()
    };
    assert_eq!(encoder_edge_input_dim(&plain), 94);
}

#[test]
fn candidate_keys_list_full_name_then_alias_per_prefix() {
    let keys = candidate_param_keys(&["a", "b"], "layers.1", "weight");
    assert_eq!(
        keys,
        vec![
            "a.layers.1.weight".to_owned(),
            "a.layers.1.w".to_owned(),
            "b.layers.1.weight".to_owned(),
            "b.layers.1.w".to_owned(),
        ]
    );
    let bias = candidate_param_keys(&["p"], "layers.0", "bias");
    assert_eq!(bias, vec!["p.layers.0.bias".to_owned(), "p.layers.0.b".to_owned()]);
    let norm = candidate_layer_norm_keys(&["p"], "weight");
    assert_eq!(
        norm,
        vec!["p.layer_norm.weight".to_owned(), "p.layer_norm.scale".to_owned()]
    );
    let offset = candidate_layer_norm_keys(&["p"], "bias");
    assert_eq!(
        offset,
        vec!["p.layer_norm.bias".to_owned(), "p.layer_norm.offset".to_owned()]
    );
}

#[test]
fn contract_starts_with_canonical_keys_and_f32() {
    let entries = expected_weight_entries(&test_config());
    assert!(!entries.is_empty());
    for entry in &entries {
        assert_eq!(entry.candidate_keys[0], entry.canonical_key);
        assert_eq!(entry.expected_dtype, "F32");
    }
    assert!(entries
        .iter()
        .any(|e| e.canonical_key == "encoder_edge_mlp.layers.0.weight" && e.required));
}

#[test]
fn complete_checkpoint_is_clean() {
    let config = test_config();
    let metadata: Vec<(String, TensorMetadata)> = expected_weight_entries(&config)
        .into_iter()
        .map(|e| {
            (
                e.canonical_key.clone(),
                TensorMetadata {
                    shape: e.expected_shape.clone(),
                    dtype: "F32".to_owned(),
                },
            )
        })
        .collect();
    let report = inspect_weight_metadata(&metadata, &config);
    assert!(report.missing_required.is_empty());
    assert!(report.missing_optional.is_empty());
    assert!(report.shape_mismatches.is_empty());
    assert!(report.dtype_mismatches.is_empty());
    assert!(report.unused_keys.is_empty());
    assert_eq!(
        report.required_coverage(),
        format!("{}/{}", report.matched_required.len(), report.matched_required.len())
    );
    assert!(enforce_strict_weight_report(&report, true).is_ok());
}

#[test]
fn strict_mode_reports_counts() {
    let config = test_config();
    let report = inspect_weight_keys(&["unused.tensor".to_owned()], &config);
    assert!(enforce_strict_weight_report(&report, false).is_ok());
    let error = enforce_strict_weight_report(&report, true).unwrap_err();
    assert_eq!(
        error,
        format!(
            "strict weight inspection failed: {} missing required, 0 shape mismatches, 0 dtype mismatches",
            report.missing_required.len()
        )
    );
    assert!(error.contains("missing required"));
}

#[test]
fn dtype_mismatch_is_reported() {
    let config = test_config();
    let report = inspect_weight_metadata(
        &vec![(
            "encoder_edge_mlp.layers.0.weight".to_owned(),
            TensorMetadata {
                shape: vec![2, encoder_edge_input_dim(&config)],
                dtype: "F16".to_owned(),
            },
        )],
        &config,
    );
    assert_eq!(report.dtype_mismatches.len(), 1);
    assert_eq!(report.dtype_mismatches[0].expected_dtype, "F32");
    assert_eq!(report.dtype_mismatches[0].actual_dtype, "F16");
    assert!(report.shape_mismatches.is_empty());
}

#[test]
fn inspects_a_serialized_checkpoint() {
    let data = vec![0u8; 4 * 2 * 2];
    let view = safetensors::tensor::TensorView::new(safetensors::Dtype::F32, vec![2, 2], &data)
        .expect("view");
    let bytes = safetensors::tensor::serialize(
        vec![("encoder_edge_mlp.layers.0.w".to_owned(), view)],
        None,
    )
    .expect("serialize");
    let config = ModelConfig {
        hidden_dim: 3,
        ..test_config()
    };
    let report = inspect_safetensors_bytes(&bytes, &config).expect("inspect");
    assert_eq!(report.available_keys, vec!["encoder_edge_mlp.layers.0.w".to_owned()]);
    assert!(report.shape_mismatches.iter().any(|m| m.actual_shape == vec![2, 2]));
    assert!(inspect_safetensors_bytes(&[1, 2, 3], &config).is_err());
}

#[test]
fn coverage_counts_every_required_tensor_once() {
    let config = test_config();
    let required = expected_weight_entries(&config).iter().filter(|e| e.required).count();
    let report = inspect_weight_keys(
        &["encoder_edge_mlp.layers.0.weight".to_owned(), "encoder_edge_mlp.layers.0.weight".to_owned()],
        &config,
    );
    assert_eq!(report.matched_required.len() + report.missing_required.len(), required);
    assert_eq!(report.required_coverage(), format!("1/{required}"));
    assert_eq!(report.available_keys.len(), 1);
    assert!(report.shape_mismatches.is_empty());
    assert!(report.dtype_mismatches.is_empty());
}

#[test]
fn model_dimensions_must_fit_machine_words() {
    assert!(weathergraph::model::model_dims_fit(&ModelConfig::default()));
    let huge = ModelConfig {
        hidden_dim: usize::MAX / 2,
        ..ModelConfig::default()
    };
    assert!(!weathergraph::model::model_dims_fit(&huge));
    let deep = ModelConfig {
        n_mlp_layers_decoder: usize::MAX,
        ..ModelConfig::default()
    };
    assert!(!weathergraph::model::model_dims_fit(&deep));
}
