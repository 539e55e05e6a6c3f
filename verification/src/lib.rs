//! A remote signing oracle for validator nodes.
//!
//! The oracle holds signing keys and answers signing requests, so that a
//! validator never touches private key material. It dials out to the
//! validator and, once connected, acts as the responder. This library holds
//! the decisions of that service: the wire format, the keyring, the session
//! that serves one connection and the supervisor that decides whether to
//! reconnect. Sockets, threads and clocks stay with the caller.

pub mod error;
pub mod ed25519;
pub mod config;
pub mod client;
pub mod rpc;
pub mod session;
