use weathergraph::features::{ArrayDtype, FeatureBundle, IndexValues, NamedArray};
use weathergraph::graph::{
    assemble_graph, fallback_feature_file, graph_node_count, preferred_feature_file,
    select_named_array, senders_receivers_file, GraphKind, GraphSet,
};
use weathergraph::geometry::{ERA5_NODE_COUNT, H3_NODE_COUNT, TOTAL_NODE_COUNT};
use weathergraph::WeatherGraphError;

fn array(name: &str) -> NamedArray {
    NamedArray {
        name: name.to_owned(),
        dtype: ArrayDtype::I64,
        shape: vec![2],
    }
}

fn bundle(names: &[&str]) -> FeatureBundle {
    FeatureBundle {
        source: "dir/senders_receivers_encoder.npz.gz".to_owned(),
        arrays: names.iter().map(|n| array(n)).collect(),
    }
}

fn empty_bundle(source: &str) -> FeatureBundle {
    FeatureBundle {
        source: source.to_owned(),
        arrays: Vec::new(),
    }
}

#[test]
fn graph_kind_names_and_files() {
    assert_eq!(GraphKind::Encoder.as_str(), "encoder");
    assert_eq!(GraphKind::Processor.as_str(), "processor");
    assert_eq!(GraphKind::Decoder.as_str(), "decoder");
    assert_eq!(
        senders_receivers_file(GraphKind::Processor),
        "senders_receivers_processor.npz.gz"
    );
    assert_eq!(
        preferred_feature_file("data", GraphKind::Decoder, "node_features"),
        "data/node_features_decoder.npz.gz"
    );
    assert_eq!(graph_node_count(GraphKind::Encoder), TOTAL_NODE_COUNT);
    assert_eq!(graph_node_count(GraphKind::Processor), H3_NODE_COUNT);
    assert_eq!(graph_node_count(GraphKind::Decoder), TOTAL_NODE_COUNT);
}

#[test]
fn named_array_selection_prefers_candidates_then_first() {
    let b = bundle(&["receivers.npy", "Senders.npy"]);
    assert_eq!(select_named_array(&b, &["senders"]).expect("senders").name, "Senders.npy");
    assert_eq!(
        select_named_array(&b, &["missing", "receivers"]).expect("receivers").name,
        "receivers.npy"
    );
    assert_eq!(
        select_named_array(&b, &["missing"]).expect("first").name,
        "receivers.npy"
    );
    let error = select_named_array(&empty_bundle("dir/x.npz.gz"), &["senders", "s"]).unwrap_err();
    assert!(matches!(
        error,
        WeatherGraphError::MissingArtifact { ref name, ref path }
            if name == "array senders/s" && path == "dir/x.npz.gz"
    ));
}

fn entries() -> Vec<String> {
    vec![
        "d/node_features_n71042_b.npz.gz".to_owned(),
        "d/edge_features_x.npz.gz".to_owned(),
        "d/node_features_processor_n5882.npz.gz".to_owned(),
        "d/node_features_n71042_a.npz.gz".to_owned(),
        "d/node_features_n71042_c.npz".to_owned(),
    ]
}

#[test]
fn fallback_feature_files_follow_graph_kind() {
    let e = entries();
    assert_eq!(
        fallback_feature_file("d", GraphKind::Processor, "node_features", &e).expect("processor"),
        "d/node_features_processor_n5882.npz.gz"
    );
    assert_eq!(
        fallback_feature_file("d", GraphKind::Encoder, "node_features", &e).expect("encoder"),
        "d/node_features_n71042_a.npz.gz"
    );
    assert_eq!(
        fallback_feature_file("d", GraphKind::Decoder, "node_features", &e).expect("decoder"),
        "d/node_features_n71042_b.npz.gz"
    );
    let single = vec!["d/edge_features_n5882.npz.gz".to_owned()];
    assert_eq!(
        fallback_feature_file("d", GraphKind::Processor, "edge_features", &single).expect("n5882"),
        "d/edge_features_n5882.npz.gz"
    );
    assert_eq!(
        fallback_feature_file("d", GraphKind::Decoder, "edge_features", &single).expect("only one"),
        "d/edge_features_n5882.npz.gz"
    );
    let error = fallback_feature_file("d", GraphKind::Encoder, "missing", &e).unwrap_err();
    assert!(matches!(
        error,
        WeatherGraphError::MissingArtifact { ref name, ref path }
            if name == "missing_encoder" && path == "d"
    ));
}

#[test]
fn graphs_are_assembled_from_index_arrays() {
    let graph = assemble_graph(
        GraphKind::Encoder,
        TOTAL_NODE_COUNT,
        &IndexValues::I64(vec![0, 1]),
        &IndexValues::I32(vec![1, 0]),
        empty_bundle("n"),
        empty_bundle("e"),
    )
    .expect("graph");
    assert_eq!(graph.name, "encoder");
    assert_eq!(graph.n_edges, 2);
    assert_eq!(graph.senders, vec![0, 1]);
    assert_eq!(graph.receivers, vec![1, 0]);
    let set = GraphSet::from_graphs(graph.clone(), graph.clone(), graph);
    assert_eq!(set.n_era5_nodes, ERA5_NODE_COUNT);
    assert_eq!(set.n_h3_nodes, H3_NODE_COUNT);
    assert_eq!(set.n_total_nodes, TOTAL_NODE_COUNT);
}

#[test]
fn graph_assembly_reports_bad_index_arrays() {
    let mismatch = assemble_graph(
        GraphKind::Processor,
        H3_NODE_COUNT,
        &IndexValues::U32(vec![0, 1, 2]),
        &IndexValues::U32(vec![1]),
        empty_bundle("n"),
        empty_bundle("e"),
    )
    .unwrap_err();
    assert!(matches!(
        mismatch,
        WeatherGraphError::ShapeMismatch { ref name, ref expected, ref actual }
            if name == "processor senders/receivers" && expected == "3" && actual == "1"
    ));
    let negative = assemble_graph(
        GraphKind::Decoder,
        TOTAL_NODE_COUNT,
        &IndexValues::I32(vec![-1]),
        &IndexValues::U32(vec![1]),
        empty_bundle("n"),
        empty_bundle("e"),
    )
    .unwrap_err();
    assert!(matches!(
        negative,
        WeatherGraphError::InvalidConfig(ref m)
            if m == "negative value in `senders` cannot be converted to u32"
    ));
    let float = assemble_graph(
        GraphKind::Decoder,
        TOTAL_NODE_COUNT,
        &IndexValues::U32(vec![1]),
        &IndexValues::Other(ArrayDtype::F32),
        empty_bundle("n"),
        empty_bundle("e"),
    )
    .unwrap_err();
    assert!(matches!(
        float,
        WeatherGraphError::UnsupportedDtype { ref name, ref dtype }
            if name == "receivers" && dtype == "f32"
    ));
}

#[test]
fn fallback_choice_ignores_listing_order() {
    let mut reversed = entries();
    reversed.reverse();
    for kind in [GraphKind::Encoder, GraphKind::Processor, GraphKind::Decoder] {
        assert_eq!(
            fallback_feature_file("d", kind, "node_features", &entries()).expect("listed"),
            fallback_feature_file("d", kind, "node_features", &reversed).expect("reversed")
        );
    }
}
