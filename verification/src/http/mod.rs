//! HTTP message types: methods, requests, status codes and responses.

pub mod encoding;
pub mod method;
pub mod query_string;
pub mod request;
pub mod response;
pub mod status_code;
pub mod text;

pub use method::{Method, MethodError};
pub use query_string::{QueryString, Value, ValueView};
pub use request::{ParseReqError, Request, RequestView};
pub use response::{Response, ResponseView};
pub use status_code::StatusCode;
