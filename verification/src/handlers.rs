//! The state transitions, one module per operation.
//!
//! Each `process` function is the whole transition on the records it
//! names: it validates, consumes the outcome of any required asset
//! transfer, and either mutates position and pool in lockstep or returns
//! a specific error leaving both untouched.

pub mod handler_borrow;
pub mod handler_deposit;
pub mod handler_init_trove;
pub mod handler_init_trove_manager;
pub mod handler_repay;
pub mod handler_withdraw;
pub mod handler_withdraw_collateral;
