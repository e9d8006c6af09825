use weathergraph::geometry::{
    era5_grid_latlon, h3_cell_indices, verify_geometry_counts, ERA5_NODE_COUNT, H3_NODE_COUNT,
    H3_RESOLUTION, TOTAL_NODE_COUNT,
};

#[test]
fn era5_count_matches_expected() {
    assert_eq!(era5_grid_latlon().len(), ERA5_NODE_COUNT);
}

#[test]
fn h3_count_matches_expected() {
    assert_eq!(
        h3_cell_indices(H3_RESOLUTION).expect("h3 geometry").len(),
        H3_NODE_COUNT
    );
}

#[test]
fn combined_counts_match_expected() {
    verify_geometry_counts().expect("verify counts");
    let total = era5_grid_latlon().len() + h3_cell_indices(H3_RESOLUTION).expect("h3 geometry").len();
    assert_eq!(total, TOTAL_NODE_COUNT);
}

#[test]
fn grid_rows_run_from_north_pole_and_longitudes_from_zero() {
    let grid = era5_grid_latlon();
    assert_eq!(grid[0], (90, 0));
    assert_eq!(grid[359], (90, 359));
    assert_eq!(grid[360], (89, 0));
    assert_eq!(grid[ERA5_NODE_COUNT - 1], (-90, 359));
    assert_eq!(ERA5_NODE_COUNT, 65160);
    assert_eq!(TOTAL_NODE_COUNT, 71042);
}

#[test]
fn mesh_cells_are_ascending_and_distinct() {
    let cells = h3_cell_indices(H3_RESOLUTION).expect("h3 geometry");
    assert!(cells.windows(2).all(|w| w[0] < w[1]));
}

#[test]
fn coarse_mesh_has_another_count() {
    let error = h3_cell_indices(0).unwrap_err();
    assert!(matches!(
        error,
        weathergraph::WeatherGraphError::ShapeMismatch { ref name, ref expected, ref actual }
            if name == "h3 geometry" && expected == "5882" && actual == "122"
    ));
    assert!(matches!(
        h3_cell_indices(16),
        Err(weathergraph::WeatherGraphError::InvalidConfig(_))
    ));
}
