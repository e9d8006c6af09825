use weathergraph::tensor::{check_gather_indices, check_receivers, shape_string};
use weathergraph::text::{sort_texts, usize_to_text};
use weathergraph::WeatherGraphError;

#[test]
fn shapes_render_as_lists() {
    assert_eq!(shape_string(&[]), "[]");
    assert_eq!(shape_string(&[3]), "[3]");
    assert_eq!(shape_string(&[2, 10, 360]), "[2, 10, 360]");
}

#[test]
fn gather_indices_must_select_rows() {
    assert!(check_gather_indices(3, &[0, 2, 1]).is_ok());
    assert!(matches!(
        check_gather_indices(3, &[0, 5, 9]).unwrap_err(),
        WeatherGraphError::ShapeMismatch { ref name, ref expected, ref actual }
            if name == "gather_rows" && expected == "index < 3" && actual == "5"
    ));
}

#[test]
fn receivers_must_match_edges_and_nodes() {
    assert!(check_receivers(2, &[0, 1], 2).is_ok());
    assert!(matches!(
        check_receivers(3, &[0, 1], 2).unwrap_err(),
        WeatherGraphError::ShapeMismatch { ref name, ref expected, ref actual }
            if name == "aggregate_receivers" && expected == "3" && actual == "2"
    ));
    assert!(matches!(
        check_receivers(2, &[0, 2], 2).unwrap_err(),
        WeatherGraphError::ShapeMismatch { ref expected, ref actual, .. }
            if expected == "receiver < 2" && actual == "2"
    ));
}

#[test]
fn numbers_render_in_decimal() {
    assert_eq!(usize_to_text(0), "0");
    assert_eq!(usize_to_text(71042), "71042");
}

#[test]
fn texts_sort_by_code_point() {
    let sorted = sort_texts(&vec!["b".to_owned(), "B".to_owned(), "a".to_owned(), "ab".to_owned()]);
    assert_eq!(sorted, vec!["B".to_owned(), "a".to_owned(), "ab".to_owned(), "b".to_owned()]);
}
