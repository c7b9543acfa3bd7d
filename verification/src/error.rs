//! Error taxonomy of the ledger.
//!
//! Every error aborts the whole operation with zero state mutation; the
//! caller sees the specific kind and the pre-operation state unchanged.

use vstd::prelude::*;

verus! {

/// The ways an operation can fail.
#[derive(Clone, Copy, Debug, PartialEq, Eq, Structural)]
pub enum ErrorCode {
    /// Attempted creation of a pool or position that already exists.
    AlreadyExists,
    /// Withdrawal exceeds the locked collateral.
    InsufficientFunds,
    /// Requested borrow exceeds the collateral-ratio-derived ceiling.
    OverBorrowableAmount,
    /// Requested repayment exceeds the outstanding debt.
    OverRepay,
    /// The asset-transfer collaborator rejected the requested transfer.
    TransferFailed,
}

} // verus!
