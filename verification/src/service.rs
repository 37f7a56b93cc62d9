//! How a reply of a service is read: a request that got no reply is a network
//! error, a reply with a status other than success is a service error that
//! keeps the body's text, and the body of a successful reply is decoded.
//! Nothing is tried twice.

use crate::error::PipelineError;
use vstd::prelude::*;

verus! {

/// Whether a status is one of success: 200 to 299.
pub open spec fn is_success(status: u16) -> bool {
    200 <= status <= 299
}

/// What is to be done with a reply once the request has been sent.
#[derive(Debug, PartialEq, Eq)]
pub enum AfterSend {
    /// There is no reply: the exchange has failed.
    Fail(PipelineError),
    /// The service refused: the body is wanted as text.
    ReadFailureBody { status: u16 },
    /// The service accepted: the body is to be decoded.
    DecodeBody,
}

/// Decides what to do once the request has been sent, from the status of the
/// reply, if one came.
pub fn after_send(status: Option<u16>) -> (next: AfterSend)
    ensures
        match status {
            None => next == AfterSend::Fail(PipelineError::NetworkError),
            Some(s) => if is_success(s) {
                next == AfterSend::DecodeBody
            } else {
                next == (AfterSend::ReadFailureBody { status: s })
            },
        },
{
    match status {
        None => AfterSend::Fail(PipelineError::NetworkError),
        Some(s) => {
            if 200 <= s && s <= 299 {
                AfterSend::DecodeBody
            } else {
                AfterSend::ReadFailureBody { status: s }
            }
        },
    }
}

/// The error for a refusal: it keeps the status and the body's text, and an
/// empty text where the body could not be read.
pub fn after_failure_body(status: u16, body: Option<String>) -> (e: PipelineError)
    ensures
        match body {
            Some(text) => e == (PipelineError::ServiceError { status, body: text }),
            None => e matches PipelineError::ServiceError { status: s, body: text } && s == status
                && text@.len() == 0,
        },
{
    match body {
        Some(text) => PipelineError::ServiceError { status, body: text },
        None => PipelineError::ServiceError { status, body: String::new() },
    }
}

/// The transcript of a successful reply: the text that was decoded from its
/// body. A body that could not be decoded, and an empty text, are failures.
pub fn after_decode(text: Option<String>) -> (r: Result<String, PipelineError>)
    ensures
        match text {
            Some(t) => if t@.len() > 0 {
                r == Ok::<String, PipelineError>(t)
            } else {
                r == Err::<String, PipelineError>(PipelineError::ParseError)
            },
            None => r == Err::<String, PipelineError>(PipelineError::ParseError),
        },
{
    match text {
        Some(t) => {
            if t.as_str().is_empty() {
                Err(PipelineError::ParseError)
            } else {
                Ok(t)
            }
        },
        None => Err(PipelineError::ParseError),
    }
}

} // verus!
