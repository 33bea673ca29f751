//! A small library for serving locally rendered Markdown over HTTP.
//!
//! The crate holds the verified core of the server: the HTTP/1.1
//! request/response codec, the request-path resolution and response
//! rules, the Markdown metadata extraction and HTML document assembly,
//! a planning pass for the static-site builder, and state-machine
//! models of the worker pool and of the shutdown-aware connection
//! acceptor. Sockets, threads and the file system live outside; every
//! decision about what they carry is made — and proved — here.

use vstd::prelude::*;

pub mod assoc;
pub mod builder;
pub mod document;
pub mod http;
pub mod listener;
pub mod metadata;
pub mod parser;
pub mod paths;
pub mod pool;
pub mod server;
pub mod strutil;

verus! {

} // verus!
