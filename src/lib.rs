//! Replays a log of client transactions (deposits, withdrawals, disputes,
//! resolves and chargebacks) against an in-memory ledger of accounts.
//!
//! Amounts are fixed-point numbers: an `i64` counting ten-thousandths of a
//! currency unit.

pub mod record;
pub mod ledger;
pub mod text;
pub mod laws;
