//! Errors of the API client and the speed test.
use vstd::prelude::*;

verus! {

/// What is known of a failed HTTP exchange: whether it timed out, whether
/// the connection could not be made, and the status code the server sent,
/// if it sent one.
#[derive(Debug, Clone)]
pub struct HttpFailure {
    pub timeout: bool,
    pub connect: bool,
    pub status: Option<u16>,
    pub message: String,
}

/// Errors of the API client and the speed test.
#[derive(Debug, Clone)]
pub enum BbmError {
    /// The HTTP exchange failed.
    Http(HttpFailure),
    /// A socket or other I/O operation failed.
    Io(String),
    /// The API answered with something other than the expected JSON.
    Api(String),
    /// The JSON body could not be decoded.
    Json(String),
    /// A speed test measurement failed.
    TestFailed(String),
}

/// An HTTP status in `200..=299`.
pub open spec fn is_success_status(status: u16) -> bool {
    200 <= status <= 299
}

/// An HTTP status in `500..=599`.
pub open spec fn is_server_error_status(status: u16) -> bool {
    500 <= status <= 599
}

} // verus!
