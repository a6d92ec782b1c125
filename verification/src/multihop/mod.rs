//! Multi-hop gateway logic: route selection, fail-closed recovery, the
//! inter-gateway protocol's bounded state and the relay multiplexer.
pub mod error;
pub mod mux;
pub mod route;
pub mod recovery;
pub mod identity;
pub mod protocol;
pub mod handshake;
pub mod quota;
pub mod exit;
pub mod tls;
pub mod entry;
