//! A typed client for the Elasticsearch HTTP/JSON API.
//!
//! Every operation is a builder bound to a [`Client`]: it is configured,
//! then `send` formats a path and an optional JSON body, hands one request
//! to the client's transport, and reads the answer into a typed result.
//! The transport itself is supplied by the caller as a function from
//! [`Request`] to an answer, so that everything up to and after the wire
//! is stated and proved here.

pub mod client;
pub mod error;
pub mod json;
pub mod operations;

pub use client::{Client, EsResponse, Exchange, Method, Request, RequestView};
pub use error::{EsError, TransportError};
