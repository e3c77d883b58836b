//! Client-side transaction lifecycle orchestrator for a wallet SDK.
//!
//! The library prepares ledger transactions offline, decides who must sign
//! them, injects the one-time reveal-public-key prerequisite when an address
//! has never transacted, attaches externally produced signatures in the
//! protocol-mandated order, and tracks the submission pipeline as an explicit
//! state machine.  Network transport, the host runtime, and the cryptographic
//! primitives of the signature scheme live outside this crate; the library
//! works on the plain values they exchange.

pub mod args;
pub mod builder;
pub mod codec;
pub mod error;
pub mod flow;
pub mod sdk;
pub mod shielded;
pub mod tx;
pub mod txtype;
pub mod wallet;
