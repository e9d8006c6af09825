use weathergraph::forecast::{
    check_runner_state, check_state_width, lead_hours, time_offsets, STEP_HOURS, VARIABLE_NAMES,
};
use weathergraph::WeatherGraphError;

#[test]
fn lead_time_is_six_hours_per_step() {
    assert_eq!(STEP_HOURS, 6);
    assert_eq!(lead_hours(0), 0);
    assert_eq!(lead_hours(1), 6);
    assert_eq!(lead_hours(40), 240);
    assert_eq!(lead_hours(usize::MAX), (i64::MAX / 6) * 6);
    assert_eq!(lead_hours((i64::MAX / 6) as usize + 1), i64::MAX);
}

#[test]
fn output_times_are_six_hourly_offsets() {
    assert_eq!(time_offsets(0), Vec::<i64>::new());
    assert_eq!(time_offsets(3), vec![0, 6, 12]);
}

#[test]
fn forecast_variables_are_listed_in_channel_order() {
    assert_eq!(VARIABLE_NAMES.len(), 6);
    assert_eq!(VARIABLE_NAMES[0], "specific_humidity");
    assert_eq!(VARIABLE_NAMES[5], "geopotential");
}

#[test]
fn runner_state_checks_width_then_rows() {
    assert!(check_runner_state(10, 4, 4, 10).is_ok());
    assert!(matches!(
        check_runner_state(9, 3, 4, 10).unwrap_err(),
        WeatherGraphError::ShapeMismatch { ref name, ref expected, ref actual }
            if name == "runner state" && expected == "4" && actual == "3"
    ));
    assert!(matches!(
        check_runner_state(9, 4, 4, 10).unwrap_err(),
        WeatherGraphError::ShapeMismatch { ref name, ref expected, ref actual }
            if name == "runner state nodes" && expected == "10" && actual == "9"
    ));
    assert!(check_state_width(78, 78).is_ok());
    assert!(matches!(
        check_state_width(77, 78).unwrap_err(),
        WeatherGraphError::ShapeMismatch { ref name, ref expected, ref actual }
            if name == "era5_state_rows" && expected == "78" && actual == "77"
    ));
}

#[test]
fn output_time_of_each_state_is_its_lead_time() {
    let offsets = time_offsets(5);
    for (k, offset) in offsets.iter().enumerate() {
        assert_eq!(*offset, lead_hours(k));
    }
}
