//! Graph-based weather forecasting support library: configuration, artifact
//! bookkeeping, checkpoint inspection and data layout, with their contracts.

pub mod checkpoint;
pub mod config;
pub mod contract;
pub mod error;
pub mod features;
pub mod forecast;
pub mod geometry;
pub mod graph;
pub mod layout;
pub mod loader;
pub mod matrix;
pub mod model;
pub mod normalizer;
pub mod npz;
pub mod paths;
pub mod solar;
pub mod tensor;
pub mod text;

pub use config::{ArtifactPaths, Config, DataConfig, ForecastInputKind, ForecastRequest, ModelConfig};
pub use error::{Result, WeatherGraphError};
