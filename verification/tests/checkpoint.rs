use safetensors::tensor::TensorView;
use safetensors::Dtype;
use weathergraph::checkpoint::{checkpoint_f32_metadata, inspect_safetensors_bytes};
use weathergraph::{ModelConfig, WeatherGraphError};

fn serialize(tensors: &[(&str, Dtype, Vec<usize>, usize)]) -> Vec<u8> {
    let buffers: Vec<Vec<u8>> = tensors.iter().map(|t| vec![0u8; t.3]).collect();
    let views: Vec<(String, TensorView<'_>)> = tensors
        .iter()
        .zip(&buffers)
        .map(|(t, data)| {
            (
                t.0.to_owned(),
                TensorView::new(t.1, t.2.clone(), data).expect("view"),
            )
        })
        .collect();
    safetensors::tensor::serialize(views, None).expect("serialize")
}

fn small_config(hidden_dim: usize) -> ModelConfig {
    ModelConfig {
        input_channels: 2,
        output_channels: 2,
        hidden_dim,
        processor_blocks: 1,
        use_layer_norm: true,
        ..ModelConfig::default()
    }
}

#[test]
fn inspection_reports_the_buffers_tensors() {
    let bytes = serialize(&[
        ("encoder_edge_mlp.layers.0.w", Dtype::F32, vec![2, 23], 184),
        ("encoder_edge_mlp.layers.1.w", Dtype::F32, vec![2, 2], 16),
        ("encoder_edge_mlp.layers.2.w", Dtype::F32, vec![2, 2], 16),
        ("encoder_edge_mlp.layer_norm.scale", Dtype::F32, vec![2], 8),
        ("encoder_edge_mlp.layer_norm.offset", Dtype::F32, vec![2], 8),
        ("unused.tensor", Dtype::F32, vec![1], 4),
    ]);
    let report = inspect_safetensors_bytes(&bytes, &small_config(2)).expect("inspect");
    assert_eq!(report.available_keys.len(), 6);
    assert_eq!(report.missing_required[0], "encoder_node_mlp.layers.0.weight");
    assert!(report.shape_mismatches.is_empty());
    assert_eq!(report.unused_keys, vec!["unused.tensor".to_owned()]);

    let wider = inspect_safetensors_bytes(&bytes, &small_config(3)).expect("inspect");
    assert!(wider.shape_mismatches.iter().any(|m| m.canonical_key
        == "encoder_edge_mlp.layers.1.weight"
        && m.expected_shape == vec![3, 3]
        && m.actual_shape == vec![2, 2]));
    assert!(wider.shape_mismatches.iter().any(|m| m.canonical_key
        == "encoder_edge_mlp.layers.0.weight"
        && m.expected_shape == vec![3, 23]
        && m.actual_shape == vec![2, 23]));
}

#[test]
fn unparsable_buffer_is_a_safetensors_error() {
    assert!(matches!(
        inspect_safetensors_bytes(&[1, 2, 3], &small_config(2)),
        Err(WeatherGraphError::SafeTensors(_))
    ));
    assert!(matches!(
        checkpoint_f32_metadata(&[0; 4]),
        Err(WeatherGraphError::SafeTensors(_))
    ));
}

#[test]
fn loading_metadata_requires_f32_tensors() {
    let good = serialize(&[("a.w", Dtype::F32, vec![2, 3], 24), ("a.b", Dtype::F32, vec![2], 8)]);
    let meta = checkpoint_f32_metadata(&good).expect("metadata");
    assert_eq!(meta.len(), 2);
    for (name, m) in &meta {
        assert_eq!(m.dtype, "F32");
        assert_eq!(m.shape, if name == "a.w" { vec![2, 3] } else { vec![2] });
    }
    let mixed = serialize(&[("a.w", Dtype::F32, vec![2], 8), ("a.i", Dtype::I64, vec![2], 16)]);
    assert!(matches!(
        checkpoint_f32_metadata(&mixed).unwrap_err(),
        WeatherGraphError::UnsupportedDtype { ref name, ref dtype } if name == "a.i" && dtype == "I64"
    ));
}
