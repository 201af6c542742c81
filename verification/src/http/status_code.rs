//! Response status codes.

use vstd::prelude::*;
use crate::http::text::{decimal, decimal_string};

verus! {

/// The status of a response: a numeric code paired with its reason phrase.
#[derive(Clone, Copy, Debug, PartialEq, Eq, Structural)]
pub enum StatusCode {
    OK,
    BadRequest,
    NotFound,
    MethodNotSupported,
    InternalServerError,
}

impl StatusCode {
    /// The numeric code of this status.
    pub open spec fn code(self) -> nat {
        match self {
            StatusCode::OK => 200,
            StatusCode::BadRequest => 400,
            StatusCode::NotFound => 404,
            StatusCode::MethodNotSupported => 405,
            StatusCode::InternalServerError => 500,
        }
    }

    /// The reason phrase of this status.
    pub open spec fn phrase(self) -> Seq<char> {
        match self {
            StatusCode::OK => "Ok"@,
            StatusCode::BadRequest => "Bad Request"@,
            StatusCode::NotFound => "Not Found"@,
            StatusCode::MethodNotSupported => "Method Not Supported"@,
            StatusCode::InternalServerError => "Internal Server Error"@,
        }
    }

    pub fn numeric_code(&self) -> (r: u16)
        ensures
            r == self.code(),
    {
        match self {
            StatusCode::OK => 200,
            StatusCode::BadRequest => 400,
            StatusCode::NotFound => 404,
            StatusCode::MethodNotSupported => 405,
            StatusCode::InternalServerError => 500,
        }
    }

    pub fn reason_phrase(&self) -> (r: &'static str)
        ensures
            r@ == self.phrase(),
    {
        match self {
            StatusCode::OK => "Ok",
            StatusCode::BadRequest => "Bad Request",
            StatusCode::NotFound => "Not Found",
            StatusCode::MethodNotSupported => "Method Not Supported",
            StatusCode::InternalServerError => "Internal Server Error",
        }
    }

    /// The numeric code as text, the form in which a status line shows it.
    pub fn to_string(&self) -> (r: String)
        ensures
            r@ == decimal(self.code()),
    {
        decimal_string(self.numeric_code())
    }
}

} // verus!
