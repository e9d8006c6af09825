//! The library's error type.

use vstd::prelude::*;

verus! {

#[verifier::external_type_specification]
#[verifier::external_body]
pub struct ExSafeTensorError(safetensors::SafeTensorError);

#[verifier::external_type_specification]
#[verifier::external_body]
pub struct ExIoError(std::io::Error);

#[verifier::external_type_specification]
#[verifier::external_body]
pub struct ExReadNpzError(ndarray_npy::ReadNpzError);

/// Failure of an operation on the forecasting artifacts, checkpoints or
/// requests.
#[derive(Debug)]
pub enum WeatherGraphError {
    /// A named artifact (array, file, tensor) could not be found.
    MissingArtifact { name: String, path: String },
    /// An array or tensor has an element type that the operation cannot use.
    UnsupportedDtype { name: String, dtype: String },
    /// A size or shape differs from the one the operation requires.
    ShapeMismatch { name: String, expected: String, actual: String },
    /// A tensor has another number of dimensions than the `rank` that the
    /// operation needs.
    UnexpectedRank { rank: usize, shape: Vec<usize> },
    /// A configuration or request is not acceptable.
    InvalidConfig(String),
    /// The requested feature is not available.
    NotYetImplemented(String),
    /// A byte stream could not be read (a broken gzip stream).
    Io(std::io::Error),
    /// An `.npz` archive could not be read.
    ReadNpz(ndarray_npy::ReadNpzError),
    /// A checkpoint buffer could not be parsed.
    SafeTensors(safetensors::SafeTensorError),
}

/// Result of the library's fallible operations.
pub type Result<T> = core::result::Result<T, WeatherGraphError>;

/// `e` is an `InvalidConfig` error whose message is `msg`.
pub open spec fn is_invalid_config(e: WeatherGraphError, msg: Seq<char>) -> bool {
    e matches WeatherGraphError::InvalidConfig(m) && m@ == msg
}

/// `e` is a `ShapeMismatch` error with the given name, expected and actual texts.
pub open spec fn is_shape_mismatch(
    e: WeatherGraphError,
    name: Seq<char>,
    expected: Seq<char>,
    actual: Seq<char>,
) -> bool {
    e matches WeatherGraphError::ShapeMismatch { name: n, expected: x, actual: a } && n@ == name
        && x@ == expected && a@ == actual
}

/// `e` is a `MissingArtifact` error with the given name and path texts.
pub open spec fn is_missing_artifact(e: WeatherGraphError, name: Seq<char>, path: Seq<char>) -> bool {
    e matches WeatherGraphError::MissingArtifact { name: n, path: p } && n@ == name && p@ == path
}

/// `e` is an `UnexpectedRank` error for the given rank and shape.
pub open spec fn is_unexpected_rank(e: WeatherGraphError, expected: nat, shape: Seq<usize>) -> bool {
    e matches WeatherGraphError::UnexpectedRank { rank: x, shape: s } && x == expected && s@
        == shape
}

/// `e` is an `UnsupportedDtype` error with the given name and dtype texts.
pub open spec fn is_unsupported_dtype(e: WeatherGraphError, name: Seq<char>, dtype: Seq<char>) -> bool {
    e matches WeatherGraphError::UnsupportedDtype { name: n, dtype: d } && n@ == name && d@ == dtype
}

} // verus!
