use weathergraph::layout::{
    check_level_field_dims, pack_variable_levels, variable_output_values, LEVELS, LEVEL_COUNT,
};
use weathergraph::WeatherGraphError;

#[test]
fn unpacks_levels_node_by_node_with_fill() {
    // Two nodes with three channels each: channel c of node n holds 10 * n + c.
    let state = vec![0, 1, 2, 10, 11, 12];
    let values = variable_output_values(&vec![state.clone(), state], 0, 2, 3, -1).expect("values");
    assert_eq!(values.len(), 2 * LEVEL_COUNT * 2);
    assert_eq!(&values[0..6], &[0, 10, 1, 11, 2, 12]);
    assert!(values[6..26].iter().all(|v| *v == -1));
    assert_eq!(&values[26..32], &[0, 10, 1, 11, 2, 12]);
}

#[test]
fn second_variable_reads_its_own_channel_block() {
    let width = 2 * LEVEL_COUNT;
    let state: Vec<usize> = (0..width).collect();
    let values = variable_output_values(&vec![state], 1, 1, width, 0).expect("values");
    let expected: Vec<usize> = (LEVEL_COUNT..width).collect();
    assert_eq!(values, expected);
}

#[test]
fn state_of_wrong_length_is_reported() {
    let error = variable_output_values(&vec![vec![1, 2, 3], vec![1, 2]], 0, 1, 3, 0).unwrap_err();
    assert!(matches!(
        error,
        WeatherGraphError::ShapeMismatch { ref name, ref expected, ref actual }
            if name == "forecast state buffer" && expected == "3" && actual == "2"
    ));
}

#[test]
fn packing_then_unpacking_gives_the_level_fields_back() {
    let grid_nodes = 3;
    let width = 2 * LEVEL_COUNT + 1;
    let fields: Vec<i64> = (0..(LEVEL_COUNT * grid_nodes) as i64).map(|v| v + 100).collect();
    let mut padded = vec![-7i64; grid_nodes * width];
    pack_variable_levels(&mut padded, &fields, 1, grid_nodes, width);
    // Channels outside the variable's block are untouched.
    for node in 0..grid_nodes {
        for channel in 0..LEVEL_COUNT {
            assert_eq!(padded[node * width + channel], -7);
        }
        assert_eq!(padded[node * width + 2 * LEVEL_COUNT], -7);
    }
    let unpacked = variable_output_values(&vec![padded], 1, grid_nodes, width, 0).expect("values");
    assert_eq!(unpacked, fields);
}

#[test]
fn packing_stops_at_the_buffer_width() {
    let mut padded = vec![0u8; 4];
    let fields: Vec<u8> = (1..=(2 * LEVEL_COUNT) as u8).collect();
    pack_variable_levels(&mut padded, &fields, 0, 2, 2);
    // Node 0 gets levels 0 and 1 of node 0; node 1 those of node 1.
    assert_eq!(padded, vec![1, 3, 2, 4]);
}

#[test]
fn level_field_dimensions_are_checked() {
    assert!(check_level_field_dims("temperature", &vec![1, 13, 181, 360]).is_ok());
    let error = check_level_field_dims("temperature", &vec![2, 13, 181, 360]).unwrap_err();
    assert!(matches!(
        error,
        WeatherGraphError::ShapeMismatch { ref name, ref expected, ref actual }
            if name == "temperature" && expected == "[1, 13, 181, 360]" && actual == "[2, 13, 181, 360]"
    ));
    let longer = check_level_field_dims("geopotential", &vec![1, 13, 181, 360, 1]).unwrap_err();
    assert!(matches!(
        longer,
        WeatherGraphError::ShapeMismatch { ref actual, .. } if actual == "[1, 13, 181, 360]"
    ));
    assert_eq!(LEVELS[0], 50);
    assert_eq!(LEVELS[LEVEL_COUNT - 1], 1000);
}
