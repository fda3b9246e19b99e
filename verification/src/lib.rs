//! The per-block core of a ledger that rewards algorithms for their
//! adoption: exact fixed-point numbers, the cache of a block, the update
//! that tallies votes, computes adoption and merges, and the checks that
//! submissions must pass.
//!
//! Every function is verified against its contract, and none reads a clock,
//! a file or a random number: every node that starts from the same cache
//! reaches the same one.

pub mod adoption;
pub mod cache;
pub mod laws;
pub mod merge;
pub mod number;
pub mod solver;
pub mod submission;
pub mod sums;
pub mod table;
pub mod types;
pub mod update;
pub mod validate;
pub mod votes;
pub mod wide;
