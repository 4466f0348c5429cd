//! A client-side HTTP/1.1 protocol engine for fixed-capacity buffers.
//!
//! The crate turns a method, an endpoint string, a header set and an optional
//! body into wire bytes, decides when an accumulated response is complete, and
//! reconstructs a structured response from the accumulated bytes, borrowing
//! header and body text directly from the caller's buffer.  Name resolution,
//! connection establishment and the byte transport itself are collaborators
//! that a surrounding driver supplies; the engine only computes.

pub mod accumulate;
pub mod complete;
pub mod error;
pub mod header;
pub mod method;
pub mod options;
pub mod parse;
pub mod request;
pub mod response;
pub mod scan;
pub mod status_code;
pub mod url;

pub use error::Error;
pub use header::HttpHeader;
pub use method::HttpMethod;
pub use options::{BufferSize, HttpClientOptions};
pub use response::{HttpResponse, ResponseBody};
pub use status_code::StatusCode;
pub use url::Endpoint;
