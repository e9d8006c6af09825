use weathergraph::matrix::{
    check_linear_input, check_norm_widths, check_same_shape, check_scale_shape, concat_columns,
    pad_rows, slice_rows, Matrix,
};
use weathergraph::WeatherGraphError;

fn m(rows: usize, cols: usize, data: Vec<i32>) -> Matrix<i32> {
    Matrix { rows, cols, data }
}

#[test]
fn columns_are_joined_row_by_row() {
    let a = m(2, 1, vec![1, 2]);
    let b = m(2, 2, vec![10, 11, 20, 21]);
    let joined = concat_columns(&vec![a, b]).expect("joined");
    assert_eq!(joined.rows, 2);
    assert_eq!(joined.cols, 3);
    assert_eq!(joined.data, vec![1, 10, 11, 2, 20, 21]);
    let empty = concat_columns(&Vec::<Matrix<i32>>::new()).expect("empty");
    assert_eq!((empty.rows, empty.cols, empty.data.len()), (0, 0, 0));
}

#[test]
fn joining_matrices_of_different_heights_fails() {
    let error = concat_columns(&vec![m(2, 1, vec![1, 2]), m(1, 1, vec![3])]).unwrap_err();
    assert!(matches!(
        error,
        WeatherGraphError::ShapeMismatch { ref name, ref expected, ref actual }
            if name == "concat_tensors" && expected == "2" && actual == "1"
    ));
}

#[test]
fn rows_are_cut_out_and_placed_back() {
    let table = m(4, 2, vec![0, 1, 2, 3, 4, 5, 6, 7]);
    let middle = slice_rows(&table, 1, 2).expect("rows 1 and 2");
    assert_eq!((middle.rows, middle.cols), (2, 2));
    assert_eq!(middle.data, vec![2, 3, 4, 5]);
    let padded = pad_rows(&middle, 4, 1, 0);
    assert_eq!(padded.data, vec![0, 0, 2, 3, 4, 5, 0, 0]);
    assert_eq!(slice_rows(&padded, 1, 2).expect("rows 1 and 2").data, middle.data);
    let none = slice_rows(&m(0, 3, vec![]), 0, 0).expect("empty cut");
    assert_eq!((none.rows, none.cols), (0, 0));
}

#[test]
fn cutting_past_the_last_row_is_refused_unless_empty() {
    let table = m(4, 2, vec![0, 1, 2, 3, 4, 5, 6, 7]);
    assert!(matches!(
        slice_rows(&table, 3, 2),
        Err(WeatherGraphError::ShapeMismatch { ref name, ref expected, ref actual })
            if name == "slice_rows" && expected == "2 rows from row 3" && actual == "4"
    ));
    let empty = slice_rows(&table, 9, 0).expect("no rows asked for");
    assert_eq!((empty.rows, empty.cols, empty.data.len()), (0, 2, 0));
    let no_rows = slice_rows(&m(0, 3, vec![]), 1, 2).expect("rows without columns");
    assert_eq!((no_rows.rows, no_rows.cols, no_rows.data.len()), (2, 0, 0));
}

#[test]
fn element_wise_shapes_are_checked() {
    assert!(check_same_shape(2, 3, 2, 3).is_ok());
    assert!(check_same_shape(0, 3, 0, 5).is_ok());
    assert!(matches!(
        check_same_shape(2, 3, 2, 4).unwrap_err(),
        WeatherGraphError::ShapeMismatch { ref name, ref expected, ref actual }
            if name == "add_tensors" && expected == "[2, 3]" && actual == "[2, 4]"
    ));
    assert!(check_scale_shape(2, 3, 2, 1).is_ok());
    assert!(check_scale_shape(2, 3, 2, 3).is_ok());
    assert!(matches!(
        check_scale_shape(2, 3, 1, 1).unwrap_err(),
        WeatherGraphError::ShapeMismatch { ref expected, ref actual, .. }
            if expected == "2" && actual == "1"
    ));
    assert!(matches!(
        check_scale_shape(2, 3, 2, 2).unwrap_err(),
        WeatherGraphError::ShapeMismatch { ref expected, ref actual, .. }
            if expected == "rhs width 1 or 3" && actual == "2"
    ));
}

#[test]
fn kernel_widths_are_checked() {
    assert!(check_linear_input(4, 4).is_ok());
    assert!(matches!(
        check_linear_input(3, 4).unwrap_err(),
        WeatherGraphError::ShapeMismatch { ref name, ref expected, ref actual }
            if name == "linear layer" && expected == "input width 4" && actual == "3"
    ));
    assert!(check_norm_widths(2, 2, 2).is_ok());
    assert!(matches!(
        check_norm_widths(2, 2, 3).unwrap_err(),
        WeatherGraphError::ShapeMismatch { ref name, ref expected, ref actual }
            if name == "layer norm" && expected == "gamma/beta width 2" && actual == "2/3"
    ));
}
