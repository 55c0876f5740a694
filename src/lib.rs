//! Vote casting and private-tally coordination for a funding round.
//!
//! The library models the round's records, turns a proposal into a ledger
//! voting instruction, counts public votes, drives the per-vote-plan tally
//! protocol, writes and reads the RFC 3339 time fields of records, and reads
//! the initial entries of a ledger snapshot.

pub mod data;
pub mod instruction;
pub mod tally;
pub mod vote;
pub mod snapshot;
pub mod timestamp;
