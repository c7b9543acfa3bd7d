//! Withdrawal: release locked collateral back to the owner's custody.

use vstd::prelude::*;

use crate::error::ErrorCode;
use crate::state::Trove;
use crate::state::TroveManager;
use crate::transfer::Custody;
use crate::transfer::TransferOutcome;
use crate::transfer::TransferRequest;

verus! {

/// Validate a withdrawal and describe the transfer it requires.
///
/// Fails with `InsufficientFunds` when `amount` exceeds the locked
/// collateral; otherwise the required transfer moves `amount` units
/// from the pool's treasury back to the owner's custody, signed by the
/// treasury itself: the pool's delegated authority over its own
/// custody, passed along as an explicit capability.
pub fn transfer_request(trove: &Trove, mint_address: u64, amount: u64) -> (r: Result<
    TransferRequest,
    ErrorCode,
>)
    ensures
        amount > trove.collateral ==> r == Result::<TransferRequest, ErrorCode>::Err(
            ErrorCode::InsufficientFunds,
        ),
        amount <= trove.collateral ==> r == Result::<TransferRequest, ErrorCode>::Ok(
            TransferRequest {
                from: Custody::Treasury(mint_address),
                to: Custody::Owner(trove.owner),
                authority: Custody::Treasury(mint_address),
                mint_address,
                amount,
            },
        ),
{
    if trove.collateral < amount {
        return Err(ErrorCode::InsufficientFunds);
    }

    Ok(
        TransferRequest {
            from: Custody::Treasury(mint_address),
            to: Custody::Owner(trove.owner),
            authority: Custody::Treasury(mint_address),
            mint_address,
            amount,
        },
    )
}

/// Withdraw `amount` units of collateral from `trove`, gated on the
/// outcome of the transfer described by [`transfer_request`].
///
/// Fails with `InsufficientFunds` when `amount` exceeds the locked
/// collateral — that check comes first, so no transfer outcome can
/// override it. If the collaborator failed the transfer, the operation
/// aborts with `TransferFailed`. Every failure leaves both records
/// untouched. On success it decrements `trove.collateral` and
/// `trove_manager.total_collateral` by exactly `amount`.
///
/// The resulting collateral ratio is not re-validated against the
/// outstanding debt: only over-withdrawal is guarded, so a withdrawal
/// may leave the position undercollateralized. That choice is
/// deliberate and exactly what the contract states — a solvency check
/// here would belong to a liquidation subsystem outside this scope.
pub fn process(
    trove: &mut Trove,
    trove_manager: &mut TroveManager,
    amount: u64,
    transfer: TransferOutcome,
) -> (r: Result<(), ErrorCode>)
    requires
        // The pool's aggregate covers this position's collateral; the
        // keyed store's conservation invariant supplies this.
        amount <= old(trove).collateral ==> amount <= old(trove_manager).total_collateral,
    ensures
        amount > old(trove).collateral ==> r == Result::<(), ErrorCode>::Err(
            ErrorCode::InsufficientFunds,
        ) && *final(trove) == *old(trove) && *final(trove_manager) == *old(trove_manager),
        amount <= old(trove).collateral && transfer is Failed ==> r == Result::<(),
            ErrorCode,
        >::Err(ErrorCode::TransferFailed) && *final(trove) == *old(trove) && *final(trove_manager)
            == *old(trove_manager),
        amount <= old(trove).collateral && transfer is Completed ==> r == Result::<(),
            ErrorCode,
        >::Ok(()) && *final(trove) == (Trove {
            collateral: (old(trove).collateral - amount) as u64,
            ..*old(trove)
        }) && *final(trove_manager) == (TroveManager {
            total_collateral: (old(trove_manager).total_collateral - amount) as u64,
            ..*old(trove_manager)
        }),
{
    let deposited_value = trove.collateral;

    if deposited_value < amount {
        return Err(ErrorCode::InsufficientFunds);
    }

    match transfer {
        TransferOutcome::Failed => Err(ErrorCode::TransferFailed),
        TransferOutcome::Completed => {
            trove.collateral = trove.collateral - amount;
            trove_manager.total_collateral = trove_manager.total_collateral - amount;
            Ok(())
        },
    }
}

} // verus!
