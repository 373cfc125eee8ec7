//! Error kinds of the pipeline core.

use vstd::prelude::*;

verus! {

/// Failures of the processing core. Every failure is surfaced to the caller
/// at once; there is no retry logic anywhere in the core.
#[derive(Clone, Copy, Debug, PartialEq, Eq, Structural)]
pub enum AudioError {
    /// The interleaved stream's length is not a multiple of the channel
    /// count, or a source header could not be understood.
    MalformedInput,
    /// The source bit depth exceeds the engine's internal precision.
    UnsupportedBitDepth,
    /// A source could not be read or a destination could not be written.
    IoFailure,
    /// A caller-supplied selector or parameter was not recognized.
    InvalidParameter,
}

impl AudioError {
    /// A short stable description, for callers that report failures.
    pub fn describe(&self) -> (r: &'static str)
        ensures
            r@ == match *self {
                AudioError::MalformedInput => "malformed input stream"@,
                AudioError::UnsupportedBitDepth => "unsupported bit depth"@,
                AudioError::IoFailure => "i/o failure"@,
                AudioError::InvalidParameter => "invalid parameter"@,
            },
    {
        match *self {
            AudioError::MalformedInput => "malformed input stream",
            AudioError::UnsupportedBitDepth => "unsupported bit depth",
            AudioError::IoFailure => "i/o failure",
            AudioError::InvalidParameter => "invalid parameter",
        }
    }
}

} // verus!
