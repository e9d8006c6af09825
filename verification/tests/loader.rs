use weathergraph::loader::{
    has_any_tensor_key, identity_mlp_plan, placeholder_plan, plan_linear_or_identity,
    plan_mlp_optional, plan_mlp_with_aliases, plan_model, LayerNormSource, LinearSource, MlpDims,
};
use weathergraph::model::{
    encoder_edge_input_dim, enforce_strict_weight_report, inspect_weight_metadata, TensorMetadata,
};
use weathergraph::{ModelConfig, WeatherGraphError};

fn test_config() -> ModelConfig {
    ModelConfig {
        input_channels: 2,
        output_channels: 2,
        hidden_dim: 2,
        processor_blocks: 1,
        use_layer_norm: true,
        ..ModelConfig::default()
    }
}

fn tensor(meta: &mut Vec<(String, TensorMetadata)>, key: String, shape: Vec<usize>) {
    meta.push((
        key,
        TensorMetadata {
            shape,
            dtype: "F32".to_owned(),
        },
    ));
}

#[allow(clippy::too_many_arguments)]
fn insert_mlp(
    meta: &mut Vec<(String, TensorMetadata)>,
    prefix: &str,
    input_dim: usize,
    hidden_dim: usize,
    output_dim: usize,
    hidden_layers: usize,
    with_layer_norm: bool,
    alias_style: bool,
) {
    let total_layers = hidden_layers + 1;
    for layer_index in 0..total_layers {
        let layer_input = if layer_index == 0 { input_dim } else { hidden_dim };
        let layer_output = if layer_index + 1 == total_layers { output_dim } else { hidden_dim };
        let suffix_w = if alias_style { "w" } else { "weight" };
        let suffix_b = if alias_style { "b" } else { "bias" };
        tensor(meta, format!("{prefix}.layers.{layer_index}.{suffix_w}"), vec![layer_output, layer_input]);
        tensor(meta, format!("{prefix}.layers.{layer_index}.{suffix_b}"), vec![layer_output]);
    }
    if with_layer_norm {
        let suffix_w = if alias_style { "scale" } else { "weight" };
        let suffix_b = if alias_style { "offset" } else { "bias" };
        tensor(meta, format!("{prefix}.layer_norm.{suffix_w}"), vec![output_dim]);
        tensor(meta, format!("{prefix}.layer_norm.{suffix_b}"), vec![output_dim]);
    }
}

fn full_checkpoint(config: &ModelConfig, alias_style: bool) -> Vec<(String, TensorMetadata)> {
    let h = config.hidden_dim;
    let mut meta = Vec::new();
    let (w, b) = if alias_style { ("w", "b") } else { ("weight", "bias") };
    tensor(&mut meta, format!("input_projection.{w}"), vec![h, config.input_channels]);
    tensor(&mut meta, format!("input_projection.{b}"), vec![h]);
    tensor(&mut meta, format!("output_projection.{w}"), vec![config.output_channels, h]);
    tensor(&mut meta, format!("output_projection.{b}"), vec![config.output_channels]);
    insert_mlp(&mut meta, "encoder_edge_mlp", encoder_edge_input_dim(config), h, h, config.n_mlp_layers_encoder, true, alias_style);
    insert_mlp(&mut meta, "encoder_node_mlp", h, h, h, config.n_mlp_layers_encoder, true, alias_style);
    insert_mlp(&mut meta, "processor_edge_mlp", 3 * h, h, h, config.n_mlp_layers_processor, true, alias_style);
    insert_mlp(&mut meta, "processor_node_mlp", 3 * h + 4, h, h, config.n_mlp_layers_processor, true, alias_style);
    insert_mlp(&mut meta, "decoder_edge_mlp", 3 + h + config.input_channels, h, h, config.n_mlp_layers_decoder, true, alias_style);
    insert_mlp(&mut meta, "decoder_node_mlp", config.input_channels + h, h, config.output_channels, config.n_mlp_layers_decoder, false, alias_style);
    meta
}

fn checkpoint_weight(source: &LinearSource) -> &str {
    match source {
        LinearSource::Checkpoint { weight, .. } => weight,
        LinearSource::Identity { .. } => panic!("expected a checkpoint layer"),
    }
}

#[test]
fn plans_a_full_checkpoint() {
    let config = test_config();
    let plan = plan_model(&full_checkpoint(&config, false), &config).expect("weight map");
    assert_eq!(checkpoint_weight(&plan.input_projection), "input_projection.weight");
    assert_eq!(plan.encoder_edge_mlp.layers.len(), config.n_mlp_layers_encoder + 1);
    assert_eq!(checkpoint_weight(&plan.encoder_edge_mlp.layers[0]), "encoder_edge_mlp.layers.0.weight");
    assert_eq!(
        plan.encoder_edge_mlp.layer_norm,
        Some(LayerNormSource::Checkpoint {
            weight: "encoder_edge_mlp.layer_norm.weight".to_owned(),
            bias: "encoder_edge_mlp.layer_norm.bias".to_owned(),
        })
    );
    assert_eq!(plan.decoder_node_mlp.layer_norm, None);
    // Without an edge initialisation perceptron the processor's edge perceptron is reused.
    assert_eq!(plan.processor_edge_init_mlp.layers, plan.processor_edge_mlp.layers);
    assert_eq!(plan.n_processor_blocks, 1);
}

#[test]
fn plans_an_alias_style_checkpoint() {
    let config = test_config();
    let mut meta = full_checkpoint(&config, true);
    insert_mlp(&mut meta, "net_edges", 3, 2, 2, 0, true, true);
    let plan = plan_model(&meta, &config).expect("alias weight map");
    assert_eq!(
        plan.input_projection,
        LinearSource::Checkpoint {
            weight: "input_projection.w".to_owned(),
            bias: Some("input_projection.b".to_owned()),
        }
    );
    assert_eq!(plan.processor_edge_init_mlp.layers.len(), 1);
    assert_eq!(checkpoint_weight(&plan.processor_edge_init_mlp.layers[0]), "net_edges.layers.0.w");
    assert_eq!(
        plan.processor_edge_init_mlp.layer_norm,
        Some(LayerNormSource::Checkpoint {
            weight: "net_edges.layer_norm.scale".to_owned(),
            bias: "net_edges.layer_norm.offset".to_owned(),
        })
    );
}

#[test]
fn absent_projections_become_identity_layers() {
    let config = test_config();
    let mut meta = full_checkpoint(&config, false);
    meta.retain(|(k, _)| !k.starts_with("input_projection") && !k.starts_with("output_projection"));
    let plan = plan_model(&meta, &config).expect("plan");
    assert_eq!(plan.input_projection, LinearSource::Identity { input_dim: 2, output_dim: 2 });
    assert_eq!(plan.output_projection, LinearSource::Identity { input_dim: 2, output_dim: 2 });
}

#[test]
fn missing_layer_weight_names_all_accepted_keys() {
    let config = test_config();
    let mut meta = full_checkpoint(&config, false);
    meta.retain(|(k, _)| k != "encoder_node_mlp.layers.1.weight");
    let error = plan_model(&meta, &config).unwrap_err();
    assert!(matches!(
        error,
        WeatherGraphError::MissingArtifact { ref name, ref path }
            if name == "encoder_node_mlp.layers.1.weight | encoder_node_mlp.layers.1.w"
                && path == "weights.safetensors"
    ));
}

#[test]
fn wrong_layer_shape_is_reported_with_its_key() {
    let mut meta = Vec::new();
    insert_mlp(&mut meta, "m", 3, 4, 5, 1, false, false);
    meta[2].1.shape = vec![4, 2];
    let dims = MlpDims { input_dim: 3, hidden_dim: 4, output_dim: 5, hidden_layers: 1, with_layer_norm: false };
    let error = plan_mlp_with_aliases(&["m"], &meta, dims).unwrap_err();
    assert!(matches!(
        error,
        WeatherGraphError::ShapeMismatch { ref name, ref expected, ref actual }
            if name == "m.layers.1.weight" && expected == "[5, 4]" && actual == "[4, 2]"
    ));
    meta[2].1.shape = vec![20];
    assert!(matches!(
        plan_mlp_with_aliases(&["m"], &meta, dims).unwrap_err(),
        WeatherGraphError::UnexpectedRank { rank: 2, ref shape } if shape == &vec![20]
    ));
}

#[test]
fn layer_norm_width_is_checked() {
    let mut meta = Vec::new();
    insert_mlp(&mut meta, "m", 3, 4, 4, 0, true, false);
    let dims = MlpDims { input_dim: 3, hidden_dim: 4, output_dim: 4, hidden_layers: 0, with_layer_norm: true };
    assert!(plan_mlp_with_aliases(&["m"], &meta, dims).is_ok());
    meta.retain(|(k, _)| k != "m.layer_norm.bias");
    assert!(matches!(
        plan_mlp_with_aliases(&["m"], &meta, dims).unwrap_err(),
        WeatherGraphError::MissingArtifact { ref name, .. }
            if name == "m.layer_norm.bias | m.layer_norm.offset"
    ));
    tensor(&mut meta, "m.layer_norm.offset".to_owned(), vec![3]);
    assert!(matches!(
        plan_mlp_with_aliases(&["m"], &meta, dims).unwrap_err(),
        WeatherGraphError::ShapeMismatch { ref name, ref expected, ref actual }
            if name == "m.layer_norm.bias" && expected == "[4]" && actual == "[3]"
    ));
}

#[test]
fn projection_shapes_are_checked() {
    let mut meta = Vec::new();
    tensor(&mut meta, "p.w".to_owned(), vec![3, 2]);
    assert_eq!(
        plan_linear_or_identity("p", &meta, 2, 3).expect("projection"),
        LinearSource::Checkpoint { weight: "p.w".to_owned(), bias: None }
    );
    assert!(matches!(
        plan_linear_or_identity("p", &meta, 3, 2).unwrap_err(),
        WeatherGraphError::ShapeMismatch { ref name, ref expected, ref actual }
            if name == "p.weight" && expected == "[2, 3]" && actual == "[3, 2]"
    ));
    tensor(&mut meta, "p.bias".to_owned(), vec![4]);
    assert!(matches!(
        plan_linear_or_identity("p", &meta, 2, 3).unwrap_err(),
        WeatherGraphError::ShapeMismatch { ref name, ref expected, ref actual }
            if name == "p.bias" && expected == "[3]" && actual == "[4]"
    ));
}

#[test]
fn optional_perceptron_is_absent_without_tensors() {
    let meta = Vec::new();
    let dims = MlpDims { input_dim: 2, hidden_dim: 2, output_dim: 2, hidden_layers: 0, with_layer_norm: true };
    assert!(plan_mlp_optional(&["net_edges"], &meta, dims).expect("plan").is_none());
    let mut with_w = Vec::new();
    tensor(&mut with_w, "net_edges.w".to_owned(), vec![2, 2]);
    assert!(has_any_tensor_key("net_edges", &with_w));
    assert!(!has_any_tensor_key("other", &with_w));
    assert!(plan_mlp_optional(&["net_edges"], &with_w, dims).is_err());
}

#[test]
fn placeholder_is_built_of_identity_layers() {
    let config = test_config();
    let plan = placeholder_plan(&config);
    assert_eq!(plan.input_projection, LinearSource::Identity { input_dim: 2, output_dim: 2 });
    assert_eq!(
        plan.encoder_edge_mlp.layers[0],
        LinearSource::Identity { input_dim: encoder_edge_input_dim(&config), output_dim: 2 }
    );
    assert_eq!(plan.encoder_edge_mlp.layers.len(), 3);
    assert_eq!(plan.processor_edge_init_mlp.layers.len(), 1);
    assert_eq!(plan.decoder_node_mlp.layer_norm, None);
    assert_eq!(plan.encoder_node_mlp.layer_norm, Some(LayerNormSource::Identity { width: 2 }));
    let mlp = identity_mlp_plan(MlpDims { input_dim: 5, hidden_dim: 4, output_dim: 3, hidden_layers: 2, with_layer_norm: false });
    assert_eq!(
        mlp.layers,
        vec![
            LinearSource::Identity { input_dim: 5, output_dim: 4 },
            LinearSource::Identity { input_dim: 4, output_dim: 4 },
            LinearSource::Identity { input_dim: 4, output_dim: 3 },
        ]
    );
}

#[test]
fn checkpoint_passing_the_strict_gate_can_be_planned() {
    let config = test_config();
    let meta = full_checkpoint(&config, false);
    let report = inspect_weight_metadata(&meta, &config);
    assert!(enforce_strict_weight_report(&report, true).is_ok());
    assert!(plan_model(&meta, &config).is_ok());
}

#[test]
fn misshaped_alias_layer_is_reported_under_its_canonical_name() {
    let config = test_config();
    let mut meta = full_checkpoint(&config, true);
    for entry in meta.iter_mut() {
        if entry.0 == "decoder_edge_mlp.layers.0.w" {
            entry.1.shape = vec![2, 6];
        }
    }
    assert!(matches!(
        plan_model(&meta, &config).unwrap_err(),
        WeatherGraphError::ShapeMismatch { ref name, ref expected, ref actual }
            if name == "decoder_edge_mlp.layers.0.weight" && expected == "[2, 7]" && actual == "[2, 6]"
    ));
}

#[test]
fn missing_required_layer_refuses_the_model() {
    let config = test_config();
    let meta: Vec<(String, TensorMetadata)> = full_checkpoint(&config, false)
        .into_iter()
        .filter(|(key, _)| key != "encoder_node_mlp.layers.1.weight")
        .collect();
    assert!(matches!(
        plan_model(&meta, &config).unwrap_err(),
        WeatherGraphError::MissingArtifact { ref name, .. }
            if name == "encoder_node_mlp.layers.1.weight | encoder_node_mlp.layers.1.w"
    ));
}
