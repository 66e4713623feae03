//! Request-level rules of the HTTP API: rate limiting, origin checks, chat
//! request handling and stream framing.
pub mod rate_limit;
pub mod chat;
pub mod cors;
pub mod auth;
pub mod admin;

use vstd::prelude::*;

verus! {

/// Where the server listens and keeps its data.
#[derive(Debug)]
pub struct ServerConfig {
    pub addr: String,
    pub data_dir: String,
}

} // verus!
