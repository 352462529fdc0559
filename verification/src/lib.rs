//! A transaction replay engine for client payment accounts.
//!
//! The library replays a sequential log of payment events (deposit,
//! withdrawal, dispute, resolve, chargeback) against per-client accounts,
//! producing a final balance snapshot. Monetary amounts are fixed-point
//! values with four fractional decimal digits, held in an `i64` count of
//! ten-thousandths.

pub mod account;
pub mod engine;
pub mod laws;
pub mod numbers;
pub mod seed;
pub mod text;
pub mod transaction;
