//! Serving the entries of a read-only ZIM archive over HTTP: the URL index,
//! the resolution of a request path to a content block, and the reply that
//! each request method receives.

pub mod archive;
pub mod dispatch;
pub mod logger;
