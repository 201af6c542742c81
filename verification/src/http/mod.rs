//! The protocol layer proper.

pub mod method;
pub mod query_params;
pub mod request;
pub mod response;
pub mod status_code;
pub mod text;

pub use method::{Method, MethodError};
pub use query_params::{QueryParams, Value as QueryParamsValue};
pub use request::{ParseError, Request};
pub use response::Response;
pub use status_code::StatusCode;
