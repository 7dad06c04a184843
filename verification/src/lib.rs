//! Core of a pool-based lending protocol: a deterministic state machine
//! over isolated per-asset banks, share-based deposit and debt ledgers,
//! an utilization-driven interest and fee model, oracle-priced health
//! evaluation, liquidation and bankruptcy handling, flash-loan
//! bracketing, and emissions accrual. Everything the host environment
//! supplies — storage, signatures, token transfers, oracle bytes, the
//! clock — enters through plain values at the edges.

pub mod errors;
pub mod fixed_point;
pub mod account;
pub mod rate;
pub mod price;
pub mod bank;
pub mod ops;
pub mod risk;
pub mod group;
pub mod flashloan;
pub mod instructions;
pub mod emissions;
pub mod liquidation;
pub mod laws;
