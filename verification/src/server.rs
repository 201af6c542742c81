//! What the protocol layer asks of the code that answers requests.

use vstd::prelude::*;
use crate::http::request::{ParseError, Request};
use crate::http::response::Response;
use crate::http::status_code::StatusCode;

verus! {

/// The answer to a buffer that could not be read as a request: status 400,
/// with the error's message as body.
pub fn default_bad_request_response(e: &ParseError) -> (r: Response)
    ensures
        r@.status_code == StatusCode::BadRequest,
        r@.body == Some(e@.message()),
{
    Response::new(StatusCode::BadRequest, Some(e.to_string()))
}

/// A handler turns each request into a response. It answers every request;
/// what it answers is its own affair.
pub trait RequestHandler {
    fn handle_request(&self, request: &Request) -> Response;

    /// Answers a buffer that was no request: always with status 400, and
    /// with the error's message as body unless the handler has its own.
    fn handle_bad_request(&self, e: &ParseError) -> (r: Response)
        ensures
            r@.status_code == StatusCode::BadRequest,
            !self.has_own_error_body() ==> r@.body == Some(e@.message()),
    {
        default_bad_request_response(e)
    }

    /// Whether this handler answers a buffer that was no request with a
    /// body of its own, in place of the error's message. A handler that
    /// keeps `handle_bad_request` as it is given here has none.
    open spec fn has_own_error_body(&self) -> bool {
        false
    }
}

} // verus!
