//! Verified core of the Saelora chat service: configuration, account lists,
//! authentication decisions, rate limiting, chat request handling, SSE framing
//! and memory summarisation planning.
pub mod text;
pub mod arith;
pub mod uri;
pub mod clock;
pub mod crypto;
pub mod config;
pub mod openrouter;
pub mod agents;
pub mod db;
pub mod api;
pub mod cli;
pub mod email;
pub mod httpui;
pub mod memory;
pub mod tui;
