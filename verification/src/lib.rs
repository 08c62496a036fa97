//! A minimal single-threaded HTTP/1.1 server core: request-line parsing,
//! response serialization and the per-connection decision logic.

pub mod http;
pub mod server;
