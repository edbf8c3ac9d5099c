//! Conformance probe for a smart-contract virtual machine's host capabilities.
//!
//! The crate models the capability surface a sandboxed module sees from its
//! host: a byte-keyed ordered key/value store with cursor-based range scans,
//! an address codec, signature verifiers, a debug sink and a chain-query
//! relay.  A dispatcher routes each typed request to exactly one capability
//! and wraps the result in a uniform success/failure envelope.

pub mod bytes;
pub mod store;
pub mod engine;
pub mod addr;
pub mod hexdata;
pub mod crypto;
pub mod msg;
pub mod envelope;
pub mod dispatch;
pub mod counter;
