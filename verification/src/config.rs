//! Run configuration: artifact locations, model dimensions and forecast
//! requests.

use vstd::prelude::*;

use crate::error::{is_invalid_config, Result, WeatherGraphError};
use crate::paths::{extension_of, join_path, parent_of, path_extension, path_join, path_parent};
use crate::text::concat3;

verus! {

/// Everything a run needs to know: where the artifacts are, the model
/// dimensions and the artifact file names.
#[derive(Debug, Clone)]
pub struct Config {
    pub artifacts: ArtifactPaths,
    pub model: ModelConfig,
    pub data: DataConfig,
}

/// The data directory and the optional exported checkpoint.
#[derive(Debug, Clone)]
pub struct ArtifactPaths {
    pub data_dir: String,
    pub weights_file: Option<String>,
}

/// Model dimensions and feature switches.
#[derive(Debug, Clone, Copy, PartialEq, Eq, Structural)]
pub struct ModelConfig {
    pub input_channels: usize,
    pub output_channels: usize,
    pub hidden_dim: usize,
    pub processor_blocks: usize,
    pub use_layer_norm: bool,
    pub n_mlp_layers_encoder: usize,
    pub n_mlp_layers_processor: usize,
    pub n_mlp_layers_decoder: usize,
    pub use_lat: bool,
    pub use_lon: bool,
    pub use_doy: bool,
}

/// File names of the normalisation, surface and initial-state artifacts.
#[derive(Debug, Clone)]
pub struct DataConfig {
    pub normalizer_file: String,
    pub orography_landsea_file: String,
    pub era5_input_file: String,
}

/// Where the initial state of a forecast comes from.
#[derive(Debug, Clone, Copy, PartialEq, Eq, Structural)]
pub enum ForecastInputKind {
    Era5,
    Opendata,
}

/// A forecast to run: start time (seconds since the Unix epoch, UTC),
/// number of six-hour steps, input kind and output path.
#[derive(Debug, Clone)]
pub struct ForecastRequest {
    pub init: i64,
    pub steps: usize,
    pub input: ForecastInputKind,
    pub out: String,
}

/// The default model dimensions.
pub open spec fn default_model_config() -> ModelConfig {
    ModelConfig {
        input_channels: 78,
        output_channels: 78,
        hidden_dim: 256,
        processor_blocks: 9,
        use_layer_norm: true,
        n_mlp_layers_encoder: 2,
        n_mlp_layers_processor: 2,
        n_mlp_layers_decoder: 2,
        use_lat: true,
        use_lon: true,
        use_doy: true,
    }
}

impl Default for ModelConfig {
    fn default() -> (r: Self)
        ensures
            r == default_model_config(),
    {
        ModelConfig {
            input_channels: 78,
            output_channels: 78,
            hidden_dim: 256,
            processor_blocks: 9,
            use_layer_norm: true,
            n_mlp_layers_encoder: 2,
            n_mlp_layers_processor: 2,
            n_mlp_layers_decoder: 2,
            use_lat: true,
            use_lon: true,
            use_doy: true,
        }
    }
}

impl Default for DataConfig {
    fn default() -> (r: Self)
        ensures
            r.normalizer_file@
                == "temporal_normalizer_rk-era5-data_zarr-era5_1979begin_2020end_03hr_6phys_181lat_360lon_13levels_blosc1comp_Corder_monolith.npz.gz"@,
            r.orography_landsea_file@ == "orography_landsea.npz.gz"@,
            r.era5_input_file@ == "era5_input.nc"@,
    {
        DataConfig {
            normalizer_file: "temporal_normalizer_rk-era5-data_zarr-era5_1979begin_2020end_03hr_6phys_181lat_360lon_13levels_blosc1comp_Corder_monolith.npz.gz".to_owned(),
            orography_landsea_file: "orography_landsea.npz.gz".to_owned(),
            era5_input_file: "era5_input.nc".to_owned(),
        }
    }
}

impl Config {
    /// The configuration for a data directory: no checkpoint, default model
    /// dimensions and default artifact names.
    pub fn from_data_dir(data_dir: String) -> (r: Self)
        ensures
            r.artifacts.data_dir@ == data_dir@,
            r.artifacts.weights_file is None,
            r.model == default_model_config(),
            r.data.normalizer_file@
                == "temporal_normalizer_rk-era5-data_zarr-era5_1979begin_2020end_03hr_6phys_181lat_360lon_13levels_blosc1comp_Corder_monolith.npz.gz"@,
            r.data.orography_landsea_file@ == "orography_landsea.npz.gz"@,
            r.data.era5_input_file@ == "era5_input.nc"@,
    {
        Config {
            artifacts: ArtifactPaths::new(data_dir),
            model: ModelConfig::default(),
            data: DataConfig::default(),
        }
    }

    /// The path of the artifact `name` inside the data directory.
    pub fn artifact_file(&self, name: &str) -> (r: String)
        ensures
            r@ == path_join(self.artifacts.data_dir@, name@),
    {
        join_path(self.artifacts.data_dir.as_str(), name)
    }

    /// Checks that `request` can be run with this configuration: the request
    /// itself is valid (see `ForecastRequest::validate`), a checkpoint is
    /// configured, and the output path has the extension `nc`.
    /// `parent_exists` tells whether the output's parent directory exists.
    pub fn validate_request(&self, request: &ForecastRequest, parent_exists: bool) -> (r: Result<
        (),
    >)
        ensures
            request_error(request, parent_exists) is Some ==> (r matches Err(e) && is_invalid_config(
                e,
                request_error(request, parent_exists)->0,
            )),
            request_error(request, parent_exists) is None && self.artifacts.weights_file is None
                ==> (r matches Err(e) && is_invalid_config(
                e,
                "forecast requires --weights with an exported safetensors file"@,
            )),
            request_error(request, parent_exists) is None && self.artifacts.weights_file is Some
                && path_extension(request.out@) != Some("nc"@) ==> (r matches Err(e)
                && is_invalid_config(e, "forecast output must use a .nc extension"@)),
            r is Ok <==> request_error(request, parent_exists) is None
                && self.artifacts.weights_file is Some && path_extension(request.out@) == Some(
                "nc"@,
            ),
    {
        request.validate(parent_exists)?;
        if self.artifacts.weights_file.is_none() {
            return Err(
                WeatherGraphError::InvalidConfig(
                    "forecast requires --weights with an exported safetensors file".to_owned(),
                ),
            );
        }
        let is_nc = match extension_of(request.out.as_str()) {
            Some(ext) => ext == "nc".to_owned(),
            None => false,
        };
        if !is_nc {
            return Err(
                WeatherGraphError::InvalidConfig("forecast output must use a .nc extension".to_owned()),
            );
        }
        Ok(())
    }
}

impl ArtifactPaths {
    /// Paths for a data directory without a checkpoint.
    pub fn new(data_dir: String) -> (r: Self)
        ensures
            r.data_dir == data_dir,
            r.weights_file is None,
    {
        ArtifactPaths { data_dir, weights_file: None }
    }

    /// The same paths with `weights_file` as the checkpoint.
    pub fn with_weights(self, weights_file: String) -> (r: Self)
        ensures
            r.data_dir == self.data_dir,
            r.weights_file == Some(weights_file),
    {
        let mut r = self;
        r.weights_file = Some(weights_file);
        r
    }
}

/// The message of the first reason why a forecast request is invalid, if
/// any: no steps; an output path without a parent; a non-empty parent
/// directory that does not exist.
pub open spec fn request_error(request: &ForecastRequest, parent_exists: bool) -> Option<
    Seq<char>,
> {
    if request.steps == 0 {
        Some("forecast steps must be greater than zero"@)
    } else {
        match path_parent(request.out@) {
            None => Some(
                "forecast output path `"@ + request.out@ + "` must have a parent directory"@,
            ),
            Some(parent) => if parent.len() > 0 && !parent_exists {
                Some("forecast output directory `"@ + parent + "` does not exist"@)
            } else {
                None
            },
        }
    }
}

impl ForecastRequest {
    /// Checks the request on its own. `parent_exists` tells whether the
    /// parent directory of `out` exists on disk.
    pub fn validate(&self, parent_exists: bool) -> (r: Result<()>)
        ensures
            r is Ok <==> request_error(self, parent_exists) is None,
            r matches Err(e) ==> is_invalid_config(e, request_error(self, parent_exists)->0),
    {
        if self.steps == 0 {
            return Err(
                WeatherGraphError::InvalidConfig(
                    "forecast steps must be greater than zero".to_owned(),
                ),
            );
        }
        match parent_of(self.out.as_str()) {
            None => Err(
                WeatherGraphError::InvalidConfig(
                    concat3(
                        "forecast output path `",
                        self.out.as_str(),
                        "` must have a parent directory",
                    ),
                ),
            ),
            Some(parent) => {
                if !parent.as_str().is_empty() && !parent_exists {
                    Err(
                        WeatherGraphError::InvalidConfig(
                            concat3(
                                "forecast output directory `",
                                parent.as_str(),
                                "` does not exist",
                            ),
                        ),
                    )
                } else {
                    Ok(())
                }
            },
        }
    }
}

/// The forecast input kinds that can be loaded; the others are refused with
/// `NotYetImplemented`.
pub fn check_input_supported(kind: ForecastInputKind) -> (r: Result<()>)
    ensures
        r is Ok <==> kind == ForecastInputKind::Era5,
        r matches Err(e) ==> e matches WeatherGraphError::NotYetImplemented(m) && m@
            == "opendata input is not yet supported in the Rust runner; use a prepared local ERA5-style NetCDF file"@,
{
    match kind {
        ForecastInputKind::Era5 => Ok(()),
        ForecastInputKind::Opendata => Err(
            WeatherGraphError::NotYetImplemented(
                "opendata input is not yet supported in the Rust runner; use a prepared local ERA5-style NetCDF file".to_owned(),
            ),
        ),
    }
}

} // verus!
