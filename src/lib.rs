//! Ballot registry: a registry counter, ballots at derived addresses, and
//! one receipt per (ballot, participant) pair guarding against double votes.

pub mod address;
pub mod state;
pub mod program;
pub mod laws;
