use std::collections::HashSet;

use weathergraph::model::{
    expected_mlp_entries, expected_weight_entries, inspect_weight_metadata, TensorMetadata,
};
use weathergraph::ModelConfig;

fn small_config(use_layer_norm: bool, le: usize, lp: usize, ld: usize) -> ModelConfig {
    ModelConfig {
        input_channels: 2,
        output_channels: 2,
        hidden_dim: 2,
        processor_blocks: 1,
        use_layer_norm,
        n_mlp_layers_encoder: le,
        n_mlp_layers_processor: lp,
        n_mlp_layers_decoder: ld,
        ..ModelConfig::default()
    }
}

#[test]
fn contract_entry_count_follows_the_layer_counts() {
    assert_eq!(expected_weight_entries(&small_config(true, 2, 2, 2)).len(), 54);
    assert_eq!(expected_weight_entries(&small_config(false, 1, 0, 3)).len(), 36);
}

#[test]
fn contract_canonical_keys_are_distinct() {
    for config in [small_config(true, 2, 2, 2), small_config(false, 12, 0, 10)] {
        let entries = expected_weight_entries(&config);
        let keys: HashSet<&str> = entries.iter().map(|e| e.canonical_key.as_str()).collect();
        assert_eq!(keys.len(), entries.len());
    }
}

fn is_layer_bias(key: &str) -> bool {
    match key.strip_suffix(".bias") {
        Some(head) => match head.rsplit_once(".layers.") {
            Some((_, index)) => !index.is_empty() && index.chars().all(|c| c.is_ascii_digit()),
            None => false,
        },
        None => false,
    }
}

#[test]
fn contract_required_flags_follow_the_rule() {
    let entries = expected_weight_entries(&small_config(true, 2, 2, 2));
    for entry in &entries {
        let key = entry.canonical_key.as_str();
        let optional_group = key.starts_with("input_projection.")
            || key.starts_with("output_projection.")
            || key.starts_with("processor_edge_init_mlp.");
        assert_eq!(entry.required, !optional_group && !is_layer_bias(key), "{key}");
        assert_ne!(key, "decoder_node_mlp.layer_norm.weight");
        assert_ne!(key, "decoder_node_mlp.layer_norm.bias");
    }
    assert!(entries.iter().any(|e| e.canonical_key == "encoder_edge_mlp.layer_norm.bias" && e.required));
}

#[test]
fn mlp_entries_are_laid_out_layer_by_layer() {
    let entries = expected_mlp_entries("p", 5, 3, 4, true, true, 1, &["p"]);
    let keys: Vec<&str> = entries.iter().map(|e| e.canonical_key.as_str()).collect();
    assert_eq!(
        keys,
        vec![
            "p.layers.0.weight",
            "p.layers.0.bias",
            "p.layers.1.weight",
            "p.layers.1.bias",
            "p.layer_norm.weight",
            "p.layer_norm.bias",
        ]
    );
    let shapes: Vec<Vec<usize>> = entries.iter().map(|e| e.expected_shape.clone()).collect();
    assert_eq!(shapes, vec![vec![3, 5], vec![3], vec![4, 3], vec![4], vec![3], vec![3]]);
    let required: Vec<bool> = entries.iter().map(|e| e.required).collect();
    assert_eq!(required, vec![true, false, true, false, true, true]);
}

#[test]
fn edge_perceptrons_read_three_local_coordinates() {
    let config = small_config(true, 2, 2, 2);
    let entries = expected_weight_entries(&config);
    let first_layer = |name: &str| {
        entries
            .iter()
            .find(|e| e.canonical_key == format!("{name}.layers.0.weight"))
            .expect("first layer")
            .expected_shape
            .clone()
    };
    assert_eq!(first_layer("encoder_edge_mlp"), vec![2, 23]);
    assert_eq!(first_layer("processor_edge_init_mlp"), vec![2, 3]);
    assert_eq!(first_layer("decoder_edge_mlp"), vec![2, 7]);
    assert_eq!(first_layer("decoder_node_mlp"), vec![2, 4]);
}

#[test]
fn inspection_reports_each_contract_tensor_once() {
    let config = small_config(true, 2, 2, 2);
    let meta = vec![
        (
            "encoder_edge_mlp.layers.0.w".to_owned(),
            TensorMetadata { shape: vec![2, 23], dtype: "F32".to_owned() },
        ),
        (
            "input_projection.bias".to_owned(),
            TensorMetadata { shape: vec![2], dtype: "F32".to_owned() },
        ),
        (
            "encoder_node_mlp.layer_norm.scale".to_owned(),
            TensorMetadata { shape: vec![5], dtype: "F16".to_owned() },
        ),
    ];
    let report = inspect_weight_metadata(&meta, &config);
    for entry in expected_weight_entries(&config) {
        let key = &entry.canonical_key;
        let places = report.matched_required.iter().filter(|m| &m.canonical_key == key).count()
            + report.matched_optional.iter().filter(|m| &m.canonical_key == key).count()
            + report.missing_required.iter().filter(|k| *k == key).count()
            + report.missing_optional.iter().filter(|k| *k == key).count();
        assert_eq!(places, 1, "{key}");
    }
    assert_eq!(report.matched_required.len(), 2);
    assert_eq!(report.matched_optional.len(), 1);
    assert_eq!(report.dtype_mismatches.len(), 1);
    assert_eq!(report.shape_mismatches.len(), 1);
    assert_eq!(report.shape_mismatches[0].canonical_key, "encoder_node_mlp.layer_norm.weight");
}
