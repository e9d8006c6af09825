use weathergraph::normalizer::{channel_statistics, pad_to_length};
use weathergraph::WeatherGraphError;

#[test]
fn statistics_are_trimmed_to_the_channel_count() {
    let (means, stds) = channel_statistics(&vec![1, 2, 3], &vec![4, 5, 6], 2).expect("stats");
    assert_eq!(means, vec![1, 2]);
    assert_eq!(stds, vec![4, 5]);
}

#[test]
fn short_statistics_are_a_shape_mismatch() {
    let error = channel_statistics(&vec![1, 2, 3], &vec![4], 2).unwrap_err();
    assert!(matches!(
        error,
        WeatherGraphError::ShapeMismatch { ref name, ref expected, ref actual }
            if name == "temporal normalizer" && expected == "2" && actual == "2/1"
    ));
}

#[test]
fn surface_fields_are_padded_for_mesh_nodes() {
    assert_eq!(pad_to_length(&vec![7, 8], 5, 0), vec![7, 8, 0, 0, 0]);
    assert_eq!(pad_to_length(&Vec::<u8>::new(), 2, 1), vec![1, 1]);
}
