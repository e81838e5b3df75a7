//! Error types for the remote boundary, the local store and the backend.

use vstd::prelude::*;

verus! {

/// JSON error payload returned by the remote HTTP API on authentication
/// failures.
#[derive(Debug)]
pub struct ResponseError {
    pub error: String,
    pub error_description: String,
}

/// JSON error payload returned by the remote HTTP API on forbidden or
/// not-found responses.
#[derive(Debug)]
pub struct ResponseCodeMessageError {
    pub error: CodeMessage,
}

#[derive(Debug)]
pub struct CodeMessage {
    pub code: u32,
    pub message: String,
}

/// Everything a remote call can fail with, as the sync engine sees it.
/// An expired token is refreshed and retried by the remote client itself,
/// so the engine only ever sees the other variants.
#[derive(Debug)]
pub enum ClientError {
    Unauthorized(ResponseError),
    Forbidden(ResponseCodeMessageError),
    ExpiredToken,
    UnexpectedJsonStructure,
    NotFound(ResponseCodeMessageError),
    NotModified,
    Transport(String),
    Other(u16, String),
}

/// How the remote client treats one HTTP response status.
#[derive(Debug, Clone, Copy, PartialEq, Eq, Structural)]
pub enum ResponseKind {
    /// A success status; the body carries the requested data.
    Success,
    /// Unauthorized; the body says whether the token merely expired.
    AuthFailure,
    Forbidden,
    NotFound,
    /// Returned when a reload found no changes, or failed to reload.
    NotModified,
    /// Any other status is surfaced verbatim.
    Other,
}

/// The disposition of an HTTP status code, exactly as the remote client
/// dispatches on it.
pub open spec fn spec_classify_status(status: u16) -> ResponseKind {
    if status == 401 {
        ResponseKind::AuthFailure
    } else if status == 403 {
        ResponseKind::Forbidden
    } else if status == 404 {
        ResponseKind::NotFound
    } else if status == 304 {
        ResponseKind::NotModified
    } else if 200 <= status && status < 300 {
        ResponseKind::Success
    } else {
        ResponseKind::Other
    }
}

/// Sort an HTTP response status into the remote client's cases.
pub fn classify_status(status: u16) -> (r: ResponseKind)
    ensures
        r == spec_classify_status(status),
{
    if status == 401 {
        ResponseKind::AuthFailure
    } else if status == 403 {
        ResponseKind::Forbidden
    } else if status == 404 {
        ResponseKind::NotFound
    } else if status == 304 {
        ResponseKind::NotModified
    } else if 200 <= status && status < 300 {
        ResponseKind::Success
    } else {
        ResponseKind::Other
    }
}

/// Read an unauthorized response's payload: a description that speaks of
/// an expired token is the benign case the client retries after a token
/// refresh; anything else is a real authorization failure.
pub fn auth_error_of(info: ResponseError) -> (r: ClientError)
    ensures
        r == (if crate::strutil::spec_str_contains(info.error_description@, "expired"@) {
            ClientError::ExpiredToken
        } else {
            ClientError::Unauthorized(info)
        }),
{
    if crate::strutil::str_contains(info.error_description.as_str(), "expired") {
        ClientError::ExpiredToken
    } else {
        ClientError::Unauthorized(info)
    }
}

/// Possible errors building a `TagString`.
#[derive(Debug, PartialEq, Eq, Structural)]
pub enum TagStringError {
    ContainsComma,
}

/// Errors of the local store itself.
#[derive(Debug, PartialEq, Eq, Structural)]
pub enum DBClientError {
    /// The store already holds data, so initializing it anew would lose it.
    DBExists,
}

/// Errors raised while evaluating backend configuration values.
#[derive(Debug, PartialEq, Eq, Structural)]
pub enum BackendError {
    EmptyCommand,
    FailedCommand,
    InvalidUrl,
}

/// A plain message carried as an error by the command-line front ends.
#[derive(Debug)]
pub struct MessageError(pub String);

impl MessageError {
    /// The message carried by this error.
    pub fn message(&self) -> (r: &String)
        ensures
            r == &self.0,
    {
        &self.0
    }
}

/// A sync session was fed an event it was not waiting for.
#[derive(Debug, PartialEq, Eq, Structural)]
pub enum SyncError {
    UnexpectedEvent,
}

} // verus!
