//! Core of an interchain-account controller: a contract on a local chain
//! drives an account on a remote chain over an asynchronous, unordered
//! message channel. This crate holds the verified protocol core: the
//! handshake check, the wire codec for packets and acknowledgements, the
//! per-channel account registry, the dispatch preconditions, and the
//! acknowledgement processing that keeps account state consistent and
//! routes callbacks back to callers.
//!
//! All I/O, persistence and host plumbing stay outside; the core works on
//! plain values and is verified with Verus.

pub mod checks;
pub mod client_ibc_msg;
pub mod codec;
pub mod ibc_msg;
pub mod state;
pub mod msg;
pub mod callback;
pub mod contract;
