//! The error taxonomy of the request pipeline.
//!
//! Every error is terminal for its request and maps to one HTTP status:
//! `404` when the path does not resolve to a file, `400` for an unsupported
//! source or output format, and `500` for read, decode, resample or encode
//! failures.

use vstd::prelude::*;

verus! {

/// What can go wrong while resolving and transforming one request.
#[derive(Debug, Clone, PartialEq, Eq)]
pub enum ImageError {
    /// The path does not resolve to an existing regular file under the root.
    NotFound,
    /// No recognizable image format could be determined for the source file.
    UnsupportedFileType,
    /// The `output` override names no known image format; carries the
    /// unrecognized value.
    UnsupportedOutputFormat(String),
    /// The source file could not be read.
    ReadFailed,
    /// The codec layer could not decode the source bytes; carries its report.
    DecodeFailed(String),
    /// A destination dimension does not fit the pixel geometry's limits.
    OversizedDimensions,
    /// The requested output format is recognized but cannot be encoded:
    /// only JPEG, PNG and lossless WebP are encode targets.
    UnsupportedEncodeTarget,
    /// The resampler failed on the decoded buffer.
    ResizeFailed,
    /// The encoder failed on the destination buffer; carries its report.
    EncodeFailed(String),
}

impl ImageError {
    /// The HTTP status this error surfaces as.
    pub open spec fn spec_status_code(&self) -> u16 {
        match self {
            ImageError::NotFound => 404,
            ImageError::UnsupportedFileType => 400,
            ImageError::UnsupportedOutputFormat(_) => 400,
            ImageError::UnsupportedEncodeTarget => 400,
            _ => 500,
        }
    }

    /// Maps the error to its HTTP status code: `404` for a missing file,
    /// `400` for format errors, `500` for pipeline failures.
    pub fn status_code(&self) -> (r: u16)
        ensures
            r == self.spec_status_code(),
    {
        match self {
            ImageError::NotFound => 404,
            ImageError::UnsupportedFileType => 400,
            ImageError::UnsupportedOutputFormat(_) => 400,
            ImageError::UnsupportedEncodeTarget => 400,
            ImageError::ReadFailed => 500,
            ImageError::DecodeFailed(_) => 500,
            ImageError::OversizedDimensions => 500,
            ImageError::ResizeFailed => 500,
            ImageError::EncodeFailed(_) => 500,
        }
    }
}

} // verus!
