//! Persistent records: the per-asset pool and the per-owner position.

use vstd::prelude::*;

verus! {

/// A position: the collateral locked and the debt owed by one owner,
/// scoped to a single pool.
#[derive(Clone, Copy, Debug, PartialEq, Eq, Structural)]
pub struct Trove {
    /// Identity that exclusively controls this position.
    pub owner: u64,
    /// Amount of the collateral asset currently locked.
    pub collateral: u64,
    /// Amount of the debt asset currently owed.
    pub debt: u64,
    /// Reserved for a future stake-weighted liquidation mechanism;
    /// never mutated by any operation in scope.
    pub stake: u64,
}

/// The pool: one record per supported collateral asset, holding the
/// aggregate counters over all positions of that asset and the pool's
/// risk parameters.
#[derive(Clone, Copy, Debug, PartialEq, Eq, Structural)]
pub struct TroveManager {
    /// Identity that created the pool (informational; not used for
    /// authorization by any operation in scope).
    pub owner: u64,
    /// Identifier of the collateral asset this pool accepts.
    pub mint_address: u64,
    /// Sum of all positions' `collateral` in this pool.
    pub total_collateral: u64,
    /// Sum of all positions' `debt` in this pool.
    pub total_debt: u64,
    /// Sum of all positions' `stake` in this pool (inert in scope).
    pub total_stakes: u64,
    /// Set at creation, never read by any operation in scope (reserved
    /// for a liquidation subsystem).
    pub is_recovery_mode: bool,
    /// Percentage (e.g. 110 = 110%) below which a borrow is rejected.
    pub minimum_collateral_ratio: u64,
    /// Percentage threshold for system-wide recovery mode (unused in scope).
    pub critical_collateral_ratio: u64,
    /// Minimum allowed debt per position (declared, not enforced in scope).
    pub minimum_debt: u64,
    /// Borrow fee rate (declared, not applied in scope).
    pub fee: u64,
}

/// A position as the keyed store holds it: the record itself together
/// with the asset identifier that scopes it, so that the pair
/// `(trove.owner, mint_address)` is the record's key.
#[derive(Clone, Copy, Debug, PartialEq, Eq, Structural)]
pub struct TroveEntry {
    /// Identifier of the collateral asset whose pool the position
    /// belongs to.
    pub mint_address: u64,
    /// The position record.
    pub trove: Trove,
}

impl TroveManager {
    /// Well-formedness: the minimum collateral ratio is a positive
    /// percentage, so the borrow ceiling's division is defined.
    /// Established at pool creation and preserved by every operation.
    pub open spec fn wf(self) -> bool {
        self.minimum_collateral_ratio >= 1
    }
}

} // verus!
