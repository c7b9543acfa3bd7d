//! Repayment: reduce a position's debt and the pool's total debt.

use vstd::prelude::*;

use crate::error::ErrorCode;
use crate::state::Trove;
use crate::state::TroveManager;

verus! {

/// Repay `amount` units of debt on `trove`.
///
/// Fails with `OverRepay` when `amount` exceeds the outstanding debt,
/// leaving both records untouched; otherwise decrements `trove.debt`
/// and `trove_manager.total_debt` by exactly `amount`. No transfer is
/// modeled for repayment. A repayment of the whole debt leaves the
/// position's debt at zero.
pub fn process(trove: &mut Trove, trove_manager: &mut TroveManager, amount: u64) -> (r: Result<
    (),
    ErrorCode,
>)
    requires
        // The pool's aggregate covers this position's debt; the keyed
        // store's conservation invariant supplies this.
        amount <= old(trove).debt ==> amount <= old(trove_manager).total_debt,
    ensures
        amount > old(trove).debt ==> r == Result::<(), ErrorCode>::Err(ErrorCode::OverRepay)
            && *final(trove) == *old(trove) && *final(trove_manager) == *old(trove_manager),
        amount <= old(trove).debt ==> r == Result::<(), ErrorCode>::Ok(()) && *final(trove) == (
        Trove { debt: (old(trove).debt - amount) as u64, ..*old(trove) }) && *final(trove_manager)
            == (TroveManager {
            total_debt: (old(trove_manager).total_debt - amount) as u64,
            ..*old(trove_manager)
        }),
{
    let debt = trove.debt;

    if amount > debt {
        return Err(ErrorCode::OverRepay);
    }

    trove.debt = trove.debt - amount;
    trove_manager.total_debt = trove_manager.total_debt - amount;

    Ok(())
}

} // verus!
