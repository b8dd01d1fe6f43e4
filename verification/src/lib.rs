//! A verified core for an AMQP-backed request/response API framework.
//!
//! The library models the protocol layer of a message-broker API surface:
//! request sanitization and authorization, token permission checks, the
//! acknowledgement/reply protocol of the ingress dispatcher, bounded-
//! concurrency admission control, and the egress router that fans values
//! out to per-element publishers. Broker and network I/O live outside the
//! library; the functions here decide, and their contracts say what they
//! decide.

pub mod authorizer;
pub mod config;
pub mod dispatch;
pub mod error;
pub mod input_element;
pub mod json;
pub mod json_laws;
pub mod json_parse;
pub mod json_read;
pub mod json_write;
pub mod jwt;
pub mod openid;
pub mod output;
pub mod replier;
pub mod request;
pub mod request_header;
pub mod request_result;
pub mod router;
pub mod sanitizer;
pub mod text;
pub mod token;
pub mod token_validator;

pub use error::{Error, ErrorKind};
