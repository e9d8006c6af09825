//! The decisions of a forecast rollout: the forecast variables, the lead
//! time of each step, the time axis of the output, and the checks of the
//! state passed from one step to the next.

use vstd::prelude::*;

use crate::error::{is_shape_mismatch, Result, WeatherGraphError};
use crate::text::{decimal, usize_to_text};

verus! {

/// The forecast variables, in channel-block order.
pub const VARIABLE_NAMES: [&'static str; 6] = [
    "specific_humidity",
    "temperature",
    "u_component_of_wind",
    "v_component_of_wind",
    "vertical_velocity",
    "geopotential",
];

/// Hours between two forecast steps.
pub const STEP_HOURS: i64 = 6;

/// Lead time in hours of step `step`: six hours per step, saturating at
/// `i64::MAX`; a step number beyond `i64` counts as `i64::MAX / 6`.
pub open spec fn lead_hours_spec(step: nat) -> int {
    let s: int = if step <= i64::MAX {
        step as int
    } else {
        i64::MAX / 6
    };
    if s * 6 > i64::MAX {
        i64::MAX as int
    } else {
        s * 6
    }
}

/// Lead time in hours of the forecast step numbered `step_index`.
pub fn lead_hours(step_index: usize) -> (r: i64)
    ensures
        r == lead_hours_spec(step_index as nat),
{
    let s: i64 = if (step_index as u128) <= (i64::MAX as u128) {
        step_index as i64
    } else {
        i64::MAX / 6
    };
    if s > i64::MAX / 6 {
        i64::MAX
    } else {
        s * STEP_HOURS
    }
}

/// Offset in hours of output time `i`: six hours per index, saturating at
/// `i64::MAX`.
pub open spec fn time_offset_spec(i: nat) -> int {
    if i * 6 > i64::MAX {
        i64::MAX as int
    } else {
        (i * 6) as int
    }
}

/// The time axis of a forecast output with `n_states` states: the offset in
/// hours of each state from the start time.
pub fn time_offsets(n_states: usize) -> (r: Vec<i64>)
    ensures
        r@.len() == n_states,
        forall|i: int| 0 <= i < n_states ==> r@[i] == #[trigger] time_offset_spec(i as nat),
{
    let mut r: Vec<i64> = Vec::new();
    for i in 0..n_states
        invariant
            r@.len() == i,
            forall|k: int| 0 <= k < i ==> r@[k] == #[trigger] time_offset_spec(k as nat),
    {
        let v: i64 = if (i as u128) <= ((i64::MAX / 6) as u128) {
            (i as i64) * STEP_HOURS
        } else {
            i64::MAX
        };
        r.push(v);
    }
    r
}

/// Checks the state handed to a forecast step: one row of `input_channels`
/// values per node of the full graph. The width is checked first
/// (`runner state`), then the number of rows (`runner state nodes`).
pub fn check_runner_state(n_rows: usize, width: usize, input_channels: usize, n_nodes: usize) -> (r:
    Result<()>)
    ensures
        r is Ok <==> width == input_channels && n_rows == n_nodes,
        r matches Err(e) ==> if width != input_channels {
            is_shape_mismatch(
                e,
                "runner state"@,
                decimal(input_channels as nat),
                decimal(width as nat),
            )
        } else {
            is_shape_mismatch(e, "runner state nodes"@, decimal(n_nodes as nat), decimal(n_rows as nat))
        },
{
    if width != input_channels {
        return Err(
            WeatherGraphError::ShapeMismatch {
                name: "runner state".to_owned(),
                expected: usize_to_text(input_channels),
                actual: usize_to_text(width),
            },
        );
    }
    if n_rows != n_nodes {
        return Err(
            WeatherGraphError::ShapeMismatch {
                name: "runner state nodes".to_owned(),
                expected: usize_to_text(n_nodes),
                actual: usize_to_text(n_rows),
            },
        );
    }
    Ok(())
}

/// Checks that a model output has `output_channels` values per node before
/// its grid rows are kept for the output file.
pub fn check_state_width(width: usize, output_channels: usize) -> (r: Result<()>)
    ensures
        r is Ok <==> width == output_channels,
        r matches Err(e) ==> is_shape_mismatch(
            e,
            "era5_state_rows"@,
            decimal(output_channels as nat),
            decimal(width as nat),
        ),
{
    if width != output_channels {
        return Err(
            WeatherGraphError::ShapeMismatch {
                name: "era5_state_rows".to_owned(),
                expected: usize_to_text(output_channels),
                actual: usize_to_text(width),
            },
        );
    }
    Ok(())
}

/// The output file's time axis agrees with the rollout: the offset recorded
/// for state `k` is the lead time of step `k`, the time at which the step
/// that starts from state `k` is forced.
pub proof fn lemma_time_axis_matches_lead_times(k: nat)
    requires
        k <= i64::MAX,
    ensures
        time_offset_spec(k) == lead_hours_spec(k),
{
}

} // verus!
