//! Connection-brokering core of a WebRTC signaling server.
//!
//! Web clients establish peer-to-peer sessions with long-lived, NAT-hidden
//! host agents by exchanging an offer and an answer through this broker.
//! The library holds the verified core of that exchange: a registry that
//! keeps at most one live signaling channel per host, a correlation table
//! that matches a client's pending connection request to the host's eventual
//! answer (with a timeout and guaranteed cleanup), the orchestration that
//! ties them together, and the invite codec with its base-58 public-key
//! fingerprint.
//!
//! Transport (GraphQL over HTTP and websockets), persistence and credential
//! cryptography stay outside; the broker works on plain values handed in by
//! that outer layer.

pub mod auth_context;
pub mod b58_fingerprint;
pub mod base58;
pub mod connector;
pub mod errors;
pub mod host;
pub mod ice_server;
pub mod invite;
pub mod machine;
pub mod pending;
pub mod protocol;
pub mod registry;
pub mod sessions;
pub mod signal;
pub mod user;
pub mod user_jwt;
pub mod varint;
