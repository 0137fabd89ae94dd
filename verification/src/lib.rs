//! A binary-outcome parimutuel prediction market.
//!
//! Bettors stake currency on "yes" or "no" while a market is open. After the
//! deadline the resolution authority declares the outcome, and every winner
//! may claim a share of the combined pool, less a fee, in proportion to the
//! stake. All monetary arithmetic is checked; every transition either
//! succeeds or leaves the records as they were.

pub mod accounting;
pub mod address;
pub mod arith;
pub mod codec;
pub mod digest;
pub mod error;
pub mod exchange;
pub mod identity;
pub mod instructions;
pub mod laws;
pub mod payout;
pub mod record;
