//! Errors and the status code a response to each of them carries.

use vstd::prelude::*;
use crate::http_types::StatusCode;

verus! {

/// An error that knows the status code of the response it should produce.
pub trait ResponseError {
    /// The number of the status code this error maps to.
    spec fn status_of(&self) -> u16;

    fn status_code(&self) -> (r: StatusCode)
        ensures
            r@ == self.status_of(),
    ;
}

/// A set of errors that can occur during payload parsing.
///
/// An I/O error is kept as the text of its message.
#[derive(Debug, Clone, PartialEq, Eq)]
pub enum PayloadError {
    /// A payload reached EOF, but is not complete.
    Incomplete(Option<String>),
    /// Content encoding stream corruption.
    EncodingCorrupted,
    /// A payload reached size limit.
    Overflow,
    /// A payload length is unknown.
    UnknownLength,
    /// Io error.
    Io(String),
}

/// `Overflow` maps to 413 (payload too large), every other payload error to
/// 400 (bad request).
impl ResponseError for PayloadError {
    open spec fn status_of(&self) -> u16 {
        match self {
            PayloadError::Overflow => 413,
            _ => 400,
        }
    }

    fn status_code(&self) -> (r: StatusCode) {
        match self {
            PayloadError::Overflow => StatusCode::from_code(413),
            _ => StatusCode::from_code(400),
        }
    }
}

/// Errors of url-encoded form extraction.
#[derive(Debug, Clone, PartialEq, Eq)]
pub enum UrlencodedError {
    /// The declared or received body is larger than the limit.
    Overflow { size: usize, limit: usize },
    /// The content length header cannot be read as a number.
    UnknownLength,
    /// The content type is not `application/x-www-form-urlencoded`, or its
    /// charset is unknown.
    ContentType,
    /// The body cannot be decoded or parsed.
    Parse,
    /// Reading the body failed.
    Payload(PayloadError),
}

/// `Overflow` maps to 413, `UnknownLength` to 411 (length required), every
/// other error to 400.
impl ResponseError for UrlencodedError {
    open spec fn status_of(&self) -> u16 {
        match self {
            UrlencodedError::Overflow { .. } => 413,
            UrlencodedError::UnknownLength => 411,
            _ => 400,
        }
    }

    fn status_code(&self) -> (r: StatusCode) {
        match self {
            UrlencodedError::Overflow { .. } => StatusCode::from_code(413),
            UrlencodedError::UnknownLength => StatusCode::from_code(411),
            _ => StatusCode::from_code(400),
        }
    }
}

/// Any error that can become a response.
pub struct Error {
    err: Box<dyn ResponseError>,
}

impl Error {
    /// The status code of the response for this error.
    pub closed spec fn status_of(&self) -> u16 {
        self.err.status_of()
    }

    /// Wraps a payload error.
    pub fn from_payload(e: PayloadError) -> (r: Error)
        ensures
            r.status_of() == e.status_of(),
    {
        Error { err: Box::new(e) }
    }

    /// Wraps an error of url-encoded form extraction.
    pub fn from_urlencoded(e: UrlencodedError) -> (r: Error)
        ensures
            r.status_of() == e.status_of(),
    {
        Error { err: Box::new(e) }
    }

    /// The status code of the response for this error.
    pub fn status_code(&self) -> (r: StatusCode)
        ensures
            r@ == self.status_of(),
    {
        self.err.status_code()
    }
}

} // verus!
