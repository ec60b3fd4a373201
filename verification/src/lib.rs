//! Chat Café: a small terminal chat system.
//!
//! This crate holds the verified core of the chat server and of its terminal
//! client: the wire framing, the request handling of the server core, the
//! per-connection session rules, and the client's input, autocomplete and
//! word-wrapping logic.
pub mod text;
pub mod tui;
pub mod protocol;
pub mod server;
pub mod remote;
pub mod client;
pub mod config;
