//! Replay detection and session tally engine.
//!
//! The crate turns a noisy stream of filesystem notifications into one
//! "replay ready" signal per file, reads per-player statistics out of a
//! decoded replay header, folds them into a running session tally and renders
//! a ranked leaderboard. Every function is verified against the contract it
//! carries.

pub mod debounce;
pub mod header;
pub mod record;
pub mod report;
pub mod session;
pub mod tally;
