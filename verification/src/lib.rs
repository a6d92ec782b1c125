//! OnionRoute private-gateway logic: the gateway wire framing, version and
//! capability negotiation, flow control and fair scheduling, the exit daemon's
//! policy and bounded parsers, the multi-hop route and relay logic, and the
//! mobile client state machine.
pub mod address;
pub mod crypto;
pub mod daemon;
pub mod fair_queue;
pub mod gateway;
pub mod mobile;
pub mod multihop;
pub mod text;
