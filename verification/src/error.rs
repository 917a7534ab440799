//! Error taxonomy of the pipeline.
//!
//! Every failure is detected synchronously and reported as one of four
//! kinds; no partial output is ever produced.
use vstd::prelude::*;

verus! {

/// The ways a pipeline request can fail.
#[derive(Clone, Copy, Debug, PartialEq, Eq, Structural)]
pub enum ImgError {
    /// The input bytes are truncated, corrupt, or not a recognized
    /// image container.
    DecodeError,
    /// A crop rectangle with zero size, or with its origin entirely
    /// outside the source bounds.
    InvalidRegion,
    /// Zero target dimensions, a malformed quadrilateral point list,
    /// no bounding dimension supplied, or bounds too large to address.
    InvalidParameters,
    /// The underlying format writer rejected well-formed data
    /// (defensive; not expected to occur).
    EncodeError,
}

impl ImgError {
    /// A human-readable description, for callers that surface errors
    /// as plain strings.
    pub fn message(&self) -> (r: &'static str)
        ensures
            *self is DecodeError ==> r@ == "failed to decode image"@,
            *self is InvalidRegion ==> r@ == "invalid crop region"@,
            *self is InvalidParameters ==> r@ == "invalid parameters"@,
            *self is EncodeError ==> r@ == "failed to encode image"@,
    {
        match self {
            ImgError::DecodeError => "failed to decode image",
            ImgError::InvalidRegion => "invalid crop region",
            ImgError::InvalidParameters => "invalid parameters",
            ImgError::EncodeError => "failed to encode image",
        }
    }
}

} // verus!
