//! Downlink relay core: a broadcast hub that fans opaque payloads out to
//! streaming subscribers, an authorization gate that admits subscribers from
//! signed registration requests, and the per-subscriber session lifecycle.
//!
//! The surrounding process (listeners, transports, configuration loading)
//! lives outside this crate; everything here is verified logic over plain
//! values, with the cryptographic primitives specified at their boundary.

pub mod auth;
pub mod codec;
pub mod crypto;
pub mod hub;
pub mod session;
pub mod settings;
