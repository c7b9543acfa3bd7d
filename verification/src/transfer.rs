//! The boundary to the asset-transfer collaborator.
//!
//! The core never moves assets itself. An operation that needs a transfer
//! first describes it as a [`TransferRequest`]; the caller hands that
//! request to the external custody backend and reports back a
//! [`TransferOutcome`]. The core mutates state only on a completed
//! transfer, so a failed transfer leaves every record unchanged.

use vstd::prelude::*;

verus! {

/// A custody account: the location holding an asset balance on behalf of
/// an owner or of the pool itself.
#[derive(Clone, Copy, Debug, PartialEq, Eq, Hash, Structural)]
pub enum Custody {
    /// The external custody account of the given owner identity.
    Owner(u64),
    /// The pool's own treasury custody for the given collateral asset.
    Treasury(u64),
}

/// A transfer the core requires before it will commit a state change:
/// move `amount` units of asset `mint_address` from `from` to `to`,
/// signed by `authority`.
///
/// For withdrawals the authority is the pool's treasury itself: the
/// pool's delegated signing power over its own custody, passed to the
/// collaborator as an explicit capability.
#[derive(Clone, Copy, Debug, PartialEq, Eq, Structural)]
pub struct TransferRequest {
    /// Custody the assets leave.
    pub from: Custody,
    /// Custody the assets enter.
    pub to: Custody,
    /// Custody whose signing authority the collaborator must verify
    /// before moving anything.
    pub authority: Custody,
    /// Identifier of the asset being moved.
    pub mint_address: u64,
    /// Number of units to move.
    pub amount: u64,
}

/// What the asset-transfer collaborator reported for a requested transfer.
#[derive(Clone, Copy, Debug, PartialEq, Eq, Structural)]
pub enum TransferOutcome {
    /// The collaborator performed the transfer.
    Completed,
    /// The collaborator rejected or could not perform the transfer.
    Failed,
}

} // verus!
