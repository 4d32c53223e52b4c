//! A small HTTP/1.1 request engine: a line-oriented parser that extracts the
//! method, path and a fixed set of headers from a raw byte buffer, a router
//! that matches the path against a fixed rule set, and a response encoder
//! that applies content negotiation (gzip/deflate) and exact wire framing.
//!
//! The engine is pure: it maps request bytes to either finished response
//! bytes or a filesystem action. The surrounding program owns the sockets
//! and the served directory, performs the actions, and hands the outcomes
//! back to the engine's response builders.
use vstd::prelude::*;

pub mod bytes_util;
pub mod request;
pub mod response;
pub mod router;
pub mod laws;

verus! {

/// Startup configuration: the directory under which the file routes
/// read and write. An empty string means no usable directory; file
/// routes then fail for every request.
#[derive(Debug, Clone)]
pub struct Opt {
    pub _directory: String,
}

} // verus!
