//! Engine that translates a structured HTTP request description into an exact
//! transfer configuration, supervises its execution with cooperative
//! cancellation, and rebuilds a structured response with content sniffing and
//! timing metadata.
pub mod auth;
pub mod codec;
pub mod encoding;
pub mod error;
pub mod header;
pub mod interop;
pub mod json;
pub mod registry;
pub mod request;
pub mod response;
pub mod security;
pub mod strutil;

pub use interop::{Request, Response};
pub use registry::cancel;
