//! A collateralized-debt-position (CDP) risk engine: a deterministic
//! financial state machine that tracks per-account collateralized debt,
//! enforces solvency invariants, and liquidates unsafe positions through
//! either a constant-product exchange swap or a collateral auction, while
//! reconciling balances through a shared treasury pool.
//!
//! All state is explicit: every entry point takes the assembled [`Runtime`]
//! by reference, so two replicas fed the same calls compute bit-identical
//! results.

pub mod arith;
pub mod auction;
pub mod engine;
pub mod exchange;
pub mod fixed;
pub mod ledger;
pub mod lend;
pub mod oracle;
pub mod table;
pub mod treasury;
pub mod types;
pub mod world;
