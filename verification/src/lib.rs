//! A subdomain-based URL redirector library.
//!
//! An HTTP request's `Host` header is split on `.`; the leftmost label is the
//! subdomain, which is looked up in a mapping of short names to destination
//! URLs. The request either redirects to the destination, returns the whole
//! mapping as JSON (subdomain `list`), or reports an error. The modules here
//! hold the whole decision: host parsing, mapping validation, lookup, JSON
//! rendering, and dispatch to an HTTP outcome. The surrounding binary only
//! reads the mapping source and speaks HTTP.

pub mod dispatch;
pub mod host;
pub mod json;
pub mod shorthand;

pub use dispatch::{HttpOutcome, dispatch, handle_request};
pub use host::{HostParse, parse_host};
pub use shorthand::{LoadError, Shorthand, lookup, validate_entries};
