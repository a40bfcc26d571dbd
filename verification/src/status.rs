//! HTTP status codes that the proxy answers with.

use vstd::prelude::*;

verus! {

#[derive(Clone, Copy, Debug, PartialEq, Eq, Structural)]
pub enum StatusCode {
    Success,
    BadRequest,
    Unauthorized,
    Forbidden,
    NotFound,
    Conflict,
    TooManyRequests,
    InternalServerError,
}

impl StatusCode {
    pub open spec fn code(self) -> u16 {
        match self {
            StatusCode::Success => 200,
            StatusCode::BadRequest => 400,
            StatusCode::Unauthorized => 401,
            StatusCode::Forbidden => 403,
            StatusCode::NotFound => 404,
            StatusCode::Conflict => 409,
            StatusCode::TooManyRequests => 429,
            StatusCode::InternalServerError => 500,
        }
    }

    /// The code as a number.
    pub fn as_u16(self) -> (r: u16)
        ensures
            r == self.code(),
    {
        match self {
            StatusCode::Success => 200,
            StatusCode::BadRequest => 400,
            StatusCode::Unauthorized => 401,
            StatusCode::Forbidden => 403,
            StatusCode::NotFound => 404,
            StatusCode::Conflict => 409,
            StatusCode::TooManyRequests => 429,
            StatusCode::InternalServerError => 500,
        }
    }
}

/// Each status has its number in HTTP.
pub proof fn codes_are_those_of_http()
    ensures
        StatusCode::Success.code() == 200,
        StatusCode::BadRequest.code() == 400,
        StatusCode::Unauthorized.code() == 401,
        StatusCode::Forbidden.code() == 403,
        StatusCode::NotFound.code() == 404,
        StatusCode::Conflict.code() == 409,
        StatusCode::TooManyRequests.code() == 429,
        StatusCode::InternalServerError.code() == 500,
{
}

} // verus!
