use weathergraph::config::check_input_supported;
use weathergraph::{ArtifactPaths, Config, ForecastInputKind, ForecastRequest, ModelConfig, WeatherGraphError};

fn invalid_message(result: weathergraph::Result<()>) -> String {
    match result {
        Err(WeatherGraphError::InvalidConfig(message)) => message,
        other => panic!("expected an invalid configuration, got {other:?}"),
    }
}

#[test]
fn config_defaults_for_a_data_directory() {
    let config = Config::from_data_dir("data".to_owned());
    assert_eq!(config.artifacts.data_dir, "data");
    assert!(config.artifacts.weights_file.is_none());
    assert_eq!(config.model, ModelConfig::default());
    assert_eq!(config.model.input_channels, 78);
    assert_eq!(config.model.hidden_dim, 256);
    assert_eq!(config.model.processor_blocks, 9);
    assert_eq!(config.data.orography_landsea_file, "orography_landsea.npz.gz");
    assert_eq!(config.data.era5_input_file, "era5_input.nc");
    assert!(config.data.normalizer_file.starts_with("temporal_normalizer_"));
    assert_eq!(config.artifact_file("x.npz.gz"), "data/x.npz.gz");
    assert_eq!(config.artifact_file("/abs/x.npz.gz"), "/abs/x.npz.gz");
}

#[test]
fn artifact_paths_take_weights() {
    let paths = ArtifactPaths::new("dir".to_owned()).with_weights("w.safetensors".to_owned());
    assert_eq!(paths.data_dir, "dir");
    assert_eq!(paths.weights_file.as_deref(), Some("w.safetensors"));
}

fn request(steps: usize, out: &str) -> ForecastRequest {
    ForecastRequest {
        init: 1_577_836_800,
        steps,
        input: ForecastInputKind::Era5,
        out: out.to_owned(),
    }
}

#[test]
fn request_validation_reports_each_reason() {
    assert_eq!(
        invalid_message(request(0, "out/f.nc").validate(true)),
        "forecast steps must be greater than zero"
    );
    assert_eq!(
        invalid_message(request(1, "/").validate(true)),
        "forecast output path `/` must have a parent directory"
    );
    assert_eq!(
        invalid_message(request(1, "missing/f.nc").validate(false)),
        "forecast output directory `missing` does not exist"
    );
    assert!(request(1, "f.nc").validate(false).is_ok());
    assert!(request(1, "out/f.nc").validate(true).is_ok());
}

#[test]
fn forecast_requires_weights_and_nc_output() {
    let config = Config::from_data_dir("data".to_owned());
    assert_eq!(
        invalid_message(config.validate_request(&request(1, "f.nc"), true)),
        "forecast requires --weights with an exported safetensors file"
    );
    let mut with_weights = Config::from_data_dir("data".to_owned());
    with_weights.artifacts = with_weights.artifacts.with_weights("w.safetensors".to_owned());
    assert_eq!(
        invalid_message(with_weights.validate_request(&request(1, "f.txt"), true)),
        "forecast output must use a .nc extension"
    );
    assert!(with_weights.validate_request(&request(2, "f.nc"), true).is_ok());
    assert_eq!(
        invalid_message(with_weights.validate_request(&request(0, "f.nc"), true)),
        "forecast steps must be greater than zero"
    );
}

#[test]
fn opendata_input_is_not_yet_supported() {
    assert!(check_input_supported(ForecastInputKind::Era5).is_ok());
    assert!(matches!(
        check_input_supported(ForecastInputKind::Opendata),
        Err(WeatherGraphError::NotYetImplemented(ref m)) if m.starts_with("opendata input is not yet supported")
    ));
}
