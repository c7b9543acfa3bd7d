//! Pool creation: one pool per collateral asset, with zeroed counters
//! and fixed initial risk parameters.

use vstd::prelude::*;

use crate::state::TroveManager;

verus! {

/// The pool record a creation yields: every aggregate counter at zero,
/// recovery mode off, and the fixed initial risk parameters (minimum
/// collateral ratio 110%, critical collateral ratio 150%, minimum debt
/// 1000, fee 1).
pub open spec fn initial_trove_manager(owner: u64, mint_address: u64) -> TroveManager {
    TroveManager {
        owner,
        mint_address,
        total_collateral: 0,
        total_debt: 0,
        total_stakes: 0,
        is_recovery_mode: false,
        minimum_collateral_ratio: 110,
        critical_collateral_ratio: 150,
        minimum_debt: 1000,
        fee: 1,
    }
}

/// Build the pool record for the asset `mint_address`, created by
/// `owner`; see [`initial_trove_manager`] for the initial values.
///
/// Rejecting a second pool for the same asset is the keyed store's job.
pub fn process(owner: u64, mint_address: u64) -> (trove_manager: TroveManager)
    ensures
        trove_manager == initial_trove_manager(owner, mint_address),
        trove_manager.wf(),
{
    TroveManager {
        owner,
        mint_address,
        total_collateral: 0,
        total_debt: 0,
        total_stakes: 0,
        is_recovery_mode: false,
        minimum_collateral_ratio: 110,
        critical_collateral_ratio: 150,
        minimum_debt: 1000,
        fee: 1,
    }
}

} // verus!
