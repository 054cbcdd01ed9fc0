//! Verified core of a language-server bridge between Emacs and LSP servers.

pub mod text;
pub mod float;
pub mod sexp;
pub mod sexp_laws;
pub mod json;
pub mod members;
pub mod convert;
pub mod message;
pub mod buffer;
pub mod concurrent;
pub mod wire;
pub mod transport;
pub mod jsonrpc;
pub mod uri;
pub mod handlers;
pub mod capabilities;
pub mod capability_laws;
pub mod session;
pub mod session_laws;
pub mod epc;
pub mod bridge;
pub mod bridge_laws;
pub mod config;
pub mod config_laws;
pub mod table;
pub mod search;
pub mod remote;
pub mod protocol_laws;
