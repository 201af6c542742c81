//! A small HTTP/1.1 protocol layer: request-line parsing, query strings,
//! status codes and response rendering, each with a verified contract.

pub mod http;
pub mod server;
pub mod website_handler;
