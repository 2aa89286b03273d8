//! A small HTTP/1.1 server library with machine-checked contracts.
//!
//! The library holds what the server decides: how the lines and bytes of a connection
//! become a request, which endpoint a request target leads to, which file a target may
//! name, what the response is, and how a response is written out. It touches no socket
//! and no disk. Where something has to happen outside, the router names it as an
//! [`files::Effect`], and builds the response from the [`files::Outcome`] reported back.
pub mod config;
pub mod decimal;
pub mod encoding;
pub mod endpoints;
pub mod files;
pub mod headers;
pub mod http_commons;
pub mod http_request;
pub mod http_response;
pub mod server;
pub mod text;
