//! A collateralized-debt-position ledger.
//!
//! A singleton pool record ([`state::TroveManager`]) tracks aggregate
//! collateral and debt for one collateral asset; many position records
//! ([`state::Trove`]) each track the collateral locked and debt owed by one
//! owner. Five operations mutate this state: opening a pool, opening a
//! position, depositing collateral, withdrawing collateral, borrowing, and
//! repaying. Every operation is a single atomic transition: it validates,
//! then either mutates pool and position in lockstep or fails with a
//! specific error and no state change.
//!
//! Actual asset movement is delegated to an external custody collaborator.
//! The core only decides which transfer is required ([`transfer::TransferRequest`])
//! and consumes its reported outcome ([`transfer::TransferOutcome`]); no state
//! is mutated unless the required transfer completed.

pub mod accounting;
pub mod error;
pub mod handlers;
pub mod ledger;
pub mod state;
pub mod transfer;
