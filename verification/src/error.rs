//! The error every operation of the gateway can end in, and how it is
//! answered over HTTP.

use vstd::prelude::*;
use crate::dto::ErrorResponse;

verus! {

/// An error of the gateway, with a human-readable message.
pub enum AppError {
    /// Something failed inside the gateway (process start, directory read).
    Internal(String),
    /// A requested model file does not exist.
    NotFound(String),
    /// The request cannot be served as given.
    BadRequest(String),
    /// `llama-server` failed, answered badly or did not come up.
    Upstream(String),
}

impl AppError {
    /// The message carried by the error.
    pub open spec fn message_view(&self) -> Seq<char> {
        match self {
            AppError::Internal(m) => m@,
            AppError::NotFound(m) => m@,
            AppError::BadRequest(m) => m@,
            AppError::Upstream(m) => m@,
        }
    }

    /// The HTTP status code of each kind of error.
    pub open spec fn spec_status(&self) -> u16 {
        match self {
            AppError::Internal(_) => 500,
            AppError::NotFound(_) => 404,
            AppError::BadRequest(_) => 400,
            AppError::Upstream(_) => 502,
        }
    }

    /// The machine-readable name of each kind of error.
    pub open spec fn kind_name(&self) -> Seq<char> {
        match self {
            AppError::Internal(_) => "internal_error"@,
            AppError::NotFound(_) => "not_found"@,
            AppError::BadRequest(_) => "bad_request"@,
            AppError::Upstream(_) => "upstream_error"@,
        }
    }

    /// The HTTP status code the error is answered with.
    pub fn status_code(&self) -> (r: u16)
        ensures
            r == self.spec_status(),
    {
        match self {
            AppError::Internal(_) => 500,
            AppError::NotFound(_) => 404,
            AppError::BadRequest(_) => 400,
            AppError::Upstream(_) => 502,
        }
    }

    /// The JSON body the error is answered with.
    pub fn to_error_response(&self) -> (r: ErrorResponse)
        ensures
            r.error@ == self.kind_name(),
            r.message@ == self.message_view(),
    {
        match self {
            AppError::Internal(m) => ErrorResponse {
                error: "internal_error".to_owned(),
                message: m.clone(),
            },
            AppError::NotFound(m) => ErrorResponse {
                error: "not_found".to_owned(),
                message: m.clone(),
            },
            AppError::BadRequest(m) => ErrorResponse {
                error: "bad_request".to_owned(),
                message: m.clone(),
            },
            AppError::Upstream(m) => ErrorResponse {
                error: "upstream_error".to_owned(),
                message: m.clone(),
            },
        }
    }
}

} // verus!
