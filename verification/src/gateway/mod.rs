//! Gateway protocol v1: framing, negotiation, flow control and validation.
pub mod binding;
pub mod client;
pub mod debug;
pub mod error;
pub mod flow;
pub mod framing;
pub mod limits;
pub mod negotiation;
pub mod scheduler;
pub mod server;
pub mod session;
pub mod validation;
pub mod varint;
pub mod wire;
