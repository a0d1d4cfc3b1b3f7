//! Transport and session core of a JSON-RPC tool server.
//!
//! The crate verifies the protocol logic of an MCP-style agent: a JSON
//! codec for the wire envelopes, the JSON-RPC dispatcher with its method
//! routing and error codes, the tool-call argument validation, the session
//! store with its broadcast handles, and the origin rules and per-request
//! decisions of the HTTP surface.

pub mod containers;
pub mod dispatch;
pub mod json;
pub mod parse;
pub mod rpc;
pub mod session;
pub mod tools;
pub mod text;
pub mod transport;
