//! The exit gateway daemon's logic: its error taxonomy, wire checks, limits,
//! circuit breaker, metrics and bounded parsers.
pub mod auth;
pub mod error;
pub mod wire;
pub mod rate_limit;
pub mod config;
pub mod health;
pub mod management;
pub mod dns;
pub mod resolver;
pub mod egress;
pub mod protocol;
pub mod acl;
pub mod session;
pub mod streams;
