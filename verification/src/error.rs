//! The failures a resize can report.

use vstd::prelude::*;

verus! {

/// Why a raster could not be built or resized.
#[derive(Clone, Copy, Debug, PartialEq, Eq, Structural)]
pub enum ResizeError {
    /// A source or target width or height is zero, or the sample buffer does
    /// not hold exactly `width * height * channels` samples.
    InvalidDimension,
    /// Some output sample has a window whose weights sum to zero.
    DegenerateWindow,
    /// The channel count lies outside `1..=4`.
    UnsupportedPixelFormat,
}

impl ResizeError {
    /// A short description for messages.
    pub fn describe(&self) -> (text: &'static str)
        ensures
            text@ == match *self {
                ResizeError::InvalidDimension => "invalid dimension"@,
                ResizeError::DegenerateWindow => "degenerate sample window"@,
                ResizeError::UnsupportedPixelFormat => "unsupported pixel format"@,
            },
    {
        match self {
            ResizeError::InvalidDimension => "invalid dimension",
            ResizeError::DegenerateWindow => "degenerate sample window",
            ResizeError::UnsupportedPixelFormat => "unsupported pixel format",
        }
    }
}

} // verus!
