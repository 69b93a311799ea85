//! State-commitment and fraud-proof core of an optimistic-rollup ledger.
//!
//! The chain module appends batch commitments under strict ordering rules and
//! keeps a bounded history of prior Merkle roots; the merkle module recomputes
//! a Merkle root from a leaf and a sibling path; the fraud module turns that
//! inclusion check into a verdict on a submitted fraud claim.

mod bytes;
pub mod chain;
pub mod fraud;
pub mod merkle;
pub mod state;
