//! The error of a management request: a failure class, mapped to its HTTP
//! status code, and a message.
use vstd::prelude::*;

verus! {

/// A control-plane failure.
#[derive(Debug)]
pub enum ApiError {
    /// 400: the request was malformed or failed validation.
    BadRequest(String),
    /// 401: authentication is required or failed.
    Unauthorized(String),
    /// 403: the caller is authenticated but not permitted.
    Forbidden(String),
    /// 404: the addressed resource does not exist.
    NotFound(String),
    /// 422: the request was well-formed but semantically invalid.
    Unprocessable(String),
    /// 500: an unexpected server-side failure.
    Internal(String),
}

impl ApiError {
    /// The status code a failure class maps to.
    pub open spec fn status_spec(&self) -> u16 {
        match self {
            ApiError::BadRequest(_) => 400,
            ApiError::Unauthorized(_) => 401,
            ApiError::Forbidden(_) => 403,
            ApiError::NotFound(_) => 404,
            ApiError::Unprocessable(_) => 422,
            ApiError::Internal(_) => 500,
        }
    }

    /// The message of the failure.
    pub open spec fn message_spec(&self) -> Seq<char> {
        match self {
            ApiError::BadRequest(m) => m@,
            ApiError::Unauthorized(m) => m@,
            ApiError::Forbidden(m) => m@,
            ApiError::NotFound(m) => m@,
            ApiError::Unprocessable(m) => m@,
            ApiError::Internal(m) => m@,
        }
    }

    /// The status code and message of the response (its body is
    /// `{"error": message}`).
    pub fn parts(&self) -> (r: (u16, &str))
        ensures
            r.0 == self.status_spec(),
            r.1@ == self.message_spec(),
    {
        match self {
            ApiError::BadRequest(m) => (400, m.as_str()),
            ApiError::Unauthorized(m) => (401, m.as_str()),
            ApiError::Forbidden(m) => (403, m.as_str()),
            ApiError::NotFound(m) => (404, m.as_str()),
            ApiError::Unprocessable(m) => (422, m.as_str()),
            ApiError::Internal(m) => (500, m.as_str()),
        }
    }
}

} // verus!
