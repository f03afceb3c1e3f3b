//! Model Context Protocol: JSON-RPC framing decisions, the server's tool registry
//! and method routing, elicitation bookkeeping, transport admission and the
//! client's reply handling.
pub mod client;
pub mod elicit;
pub mod error;
pub mod jsonrpc;
pub mod protocol;
pub mod registry;
pub mod server;
pub mod transport;
pub mod utilities;
pub mod laws;
