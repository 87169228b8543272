//! An on-chain configuration store with a single owner-gated record and a
//! pure aggregation of decimal-formatted price strings.
//!
//! The record holds a data-source identifier, a test-case identifier and
//! the canonical address of its owner; only the owner may mutate the two
//! identifiers, and the owner is bound once at initialization. The
//! aggregation averages the integer parts and the two-digit fractional
//! parts of its inputs independently, with truncating division, and
//! writes the two quotients around a dot. Every operation's behaviour is
//! stated in its contract and proved; only the host's JSON encoder is
//! called on trust.

pub mod aggregate;
pub mod contract;
pub mod decimal;
pub mod encode;
pub mod error;
pub mod laws;
pub mod msg;
pub mod state;
