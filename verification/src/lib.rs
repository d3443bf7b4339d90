//! Gradual Dutch Auction pricing and settlement core.
//!
//! A seller lists a fixed quantity of an asset; the quoted price decays
//! exponentially with elapsed time and rises with cumulative quantity sold.
//! This crate holds the deterministic parts of that engine: the scale-tagged
//! fixed-point decimal arithmetic, the auction ledger entry with its pricing
//! formula, the lifecycle and authorization guards, and the order-intake
//! decision logic. Host-platform concerns (clock reads, fund transfers,
//! account allocation) stay outside: callers pass the current time and the
//! observed balances in as plain values and carry the decided actions out.

pub mod math;
pub mod util;
pub mod listing;
pub mod order;
