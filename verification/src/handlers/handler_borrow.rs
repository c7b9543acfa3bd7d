//! Borrowing: mint debt against locked collateral, bounded by the
//! collateral-ratio-derived ceiling.

use vstd::prelude::*;

use crate::error::ErrorCode;
use crate::state::Trove;
use crate::state::TroveManager;

verus! {

/// The most a single borrow request may mint: the collateral's value at
/// the fixed synthetic price of 200 per unit, scaled by the pool's
/// minimum collateral ratio (a whole percent, so 110 means 110%), with
/// integer division.
///
/// The ceiling bounds only the requested increment, never
/// `debt + amount`: debt already drawn against the same collateral is
/// not counted. That is deliberate; see [`process`].
pub open spec fn borrowable_ceiling(collateral: u64, minimum_collateral_ratio: u64) -> int {
    200 * collateral * 100 / minimum_collateral_ratio as int
}

/// Borrow `amount` units of the debt asset against `trove`'s collateral.
///
/// Computes the collateral's value at the fixed synthetic price
/// (a live price feed is out of scope), derives the borrowable ceiling
/// from the pool's minimum collateral ratio, and fails with
/// `OverBorrowableAmount` when the ceiling is below `amount`, leaving
/// both records untouched. Otherwise increments `trove.debt` and
/// `trove_manager.total_debt` by exactly `amount`. No asset transfer
/// occurs: the debt asset is a ledger liability here, not a moved token.
///
/// The ceiling is compared against the requested increment alone, not
/// against `debt + amount`; existing debt never tightens the check.
/// That choice is deliberate and exactly what the contract states —
/// callers wanting a debt-aware bound must impose it themselves.
pub fn process(trove: &mut Trove, trove_manager: &mut TroveManager, amount: u64) -> (r: Result<
    (),
    ErrorCode,
>)
    requires
        old(trove_manager).wf(),
        // The priced collateral value stays within the machine word.
        200 * old(trove).collateral * 100 <= u64::MAX,
        // A successful borrow must not overflow either debt counter.
        borrowable_ceiling(old(trove).collateral, old(trove_manager).minimum_collateral_ratio)
            >= amount ==> old(trove).debt + amount <= u64::MAX && old(trove_manager).total_debt
            + amount <= u64::MAX,
    ensures
        borrowable_ceiling(old(trove).collateral, old(trove_manager).minimum_collateral_ratio)
            < amount ==> r == Result::<(), ErrorCode>::Err(ErrorCode::OverBorrowableAmount)
            && *final(trove) == *old(trove) && *final(trove_manager) == *old(trove_manager),
        borrowable_ceiling(old(trove).collateral, old(trove_manager).minimum_collateral_ratio)
            >= amount ==> r == Result::<(), ErrorCode>::Ok(()) && *final(trove) == (Trove {
            debt: (old(trove).debt + amount) as u64,
            ..*old(trove)
        }) && *final(trove_manager) == (TroveManager {
            total_debt: (old(trove_manager).total_debt + amount) as u64,
            ..*old(trove_manager)
        }),
{
    let total_collateral: u64 = 200 * trove.collateral;

    let borrowable_amount = total_collateral * 100 / trove_manager.minimum_collateral_ratio;

    if borrowable_amount < amount {
        return Err(ErrorCode::OverBorrowableAmount);
    }

    trove_manager.total_debt = trove_manager.total_debt + amount;
    trove.debt = trove.debt + amount;

    Ok(())
}

} // verus!
