use weathergraph::features::{npz_artifact_paths, ArrayDtype, FeatureBundle, IndexValues, NamedArray};
use weathergraph::WeatherGraphError;

fn named(name: &str, dtype: ArrayDtype, shape: Vec<usize>) -> NamedArray {
    NamedArray { name: name.to_owned(), dtype, shape }
}

fn fixture() -> FeatureBundle {
    FeatureBundle {
        source: "data/fixture.npz.gz".to_owned(),
        arrays: vec![
            named("values.npy", ArrayDtype::F32, vec![2, 2]),
            named("Senders.npy", ArrayDtype::I64, vec![2]),
        ],
    }
}

#[test]
fn stems_drop_npy_suffixes() {
    assert_eq!(named("values.npy", ArrayDtype::F32, vec![]).stem(), "values");
    assert_eq!(named("x.npy.npy", ArrayDtype::F32, vec![]).stem(), "x");
    assert_eq!(named("plain", ArrayDtype::U8, vec![1]).shape(), vec![1]);
}

#[test]
fn summary_lists_stems_dtypes_and_shapes() {
    let summary = fixture().summary();
    assert_eq!(summary.file_name, "fixture.npz.gz");
    assert_eq!(summary.path, "data/fixture.npz.gz");
    assert_eq!(summary.arrays.len(), 2);
    assert_eq!(summary.arrays[0].name, "values");
    assert_eq!(summary.arrays[0].dtype, "f32");
    assert_eq!(summary.arrays[0].shape, vec![2, 2]);
    assert_eq!(summary.arrays[1].name, "Senders");
    assert_eq!(summary.arrays[1].dtype, "i64");
}

#[test]
fn lookup_ignores_ascii_case() {
    let bundle = fixture();
    assert_eq!(bundle.get("senders").expect("senders"), 1);
    assert_eq!(bundle.get_any(&["missing", "VALUES"]).expect("values"), 0);
    assert_eq!(bundle.first_array().map(|a| a.name.clone()), Some("values.npy".to_owned()));
    assert!(matches!(
        bundle.get("receivers").unwrap_err(),
        WeatherGraphError::MissingArtifact { ref name, ref path }
            if name == "receivers" && path == "data/fixture.npz.gz"
    ));
    assert!(matches!(
        bundle.get_any(&["a", "b"]).unwrap_err(),
        WeatherGraphError::MissingArtifact { ref name, .. } if name == "a/b"
    ));
}

#[test]
fn index_values_convert_to_u32() {
    assert_eq!(IndexValues::I64(vec![0, 4_294_967_295]).to_u32_vec("x").expect("i64"), vec![0, u32::MAX]);
    assert_eq!(IndexValues::I32(vec![3, 1]).to_u32_vec("x").expect("i32"), vec![3, 1]);
    assert!(matches!(
        IndexValues::I64(vec![4_294_967_296]).to_u32_vec("senders").unwrap_err(),
        WeatherGraphError::InvalidConfig(ref m) if m == "value in `senders` cannot be converted to u32"
    ));
    assert!(matches!(
        IndexValues::Other(ArrayDtype::F64).to_u32_vec("senders").unwrap_err(),
        WeatherGraphError::UnsupportedDtype { ref name, ref dtype } if name == "senders" && dtype == "f64"
    ));
}

#[test]
fn artifact_listing_keeps_sorted_npz_gz_files() {
    let paths = vec![
        "d/b.npz.gz".to_owned(),
        "d/readme.txt".to_owned(),
        "d/a.npz.gz".to_owned(),
        "d/c.npz".to_owned(),
    ];
    assert_eq!(npz_artifact_paths(&paths), vec!["d/a.npz.gz".to_owned(), "d/b.npz.gz".to_owned()]);
}

#[test]
fn unfound_artifact_lists_candidates_and_directory() {
    let error = weathergraph::features::artifact_not_found(
        &["a.npz.gz", "b.npz.gz"],
        &vec!["x".to_owned(), "y".to_owned()],
    );
    assert!(matches!(
        error,
        WeatherGraphError::MissingArtifact { ref name, ref path }
            if name == "one of a.npz.gz, b.npz.gz" && path == "x, y"
    ));
}
