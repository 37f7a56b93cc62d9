//! The ways in which the pipeline's operations fail.

use vstd::prelude::*;

verus! {

/// Why a start or a process operation did not succeed.
#[derive(Debug, PartialEq, Eq)]
pub enum PipelineError {
    /// No input device exists.
    DeviceUnavailable,
    /// The system refused the stream's configuration, or the stream did not
    /// start.
    StreamConstructionFailed,
    /// The device delivers samples in an encoding that is not handled.
    UnsupportedSampleFormat,
    /// Nothing has been recorded since the buffer was last emptied.
    EmptyBuffer,
    /// The samples cannot be described by a container header.
    EncodingFailed,
    /// The request did not reach the service, or no reply came back.
    NetworkError,
    /// The service answered with a status other than success.
    ServiceError { status: u16, body: String },
    /// The service's reply did not hold a transcript.
    ParseError,
}

} // verus!
