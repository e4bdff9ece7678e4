//! A deterministic escrow-and-voting state machine.
//!
//! A group of token-funded voters back one of several choices of a trial, a
//! fixed jury must reach unanimous agreement to finalize a winner, and the
//! collected stake is then distributed: either as a full refund (if the trial
//! was dismissed or the jury hung) or as a weighted prize and reward split
//! (if a verdict was reached).
//!
//! The library holds the state machine and the payout computation over plain
//! values; the host boundary (message decoding, persistent storage, payment
//! queries and the actual movement of funds) stays outside and hands the
//! engines plain arguments.

pub mod error;
pub mod execute;
pub mod laws;
pub mod models;
pub mod msg;
pub mod query;
pub mod response;
pub mod state;
pub mod util;
