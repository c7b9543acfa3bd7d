//! Deposit: lock further collateral into an existing position.

use vstd::prelude::*;

use crate::error::ErrorCode;
use crate::state::Trove;
use crate::state::TroveManager;
use crate::transfer::Custody;
use crate::transfer::TransferOutcome;
use crate::transfer::TransferRequest;

verus! {

/// The transfer a deposit requires before any state changes: `amount`
/// units of the collateral asset move from the owner's custody into the
/// pool's treasury, signed by the owner.
pub fn transfer_request(owner: u64, mint_address: u64, amount: u64) -> (req: TransferRequest)
    ensures
        req == (TransferRequest {
            from: Custody::Owner(owner),
            to: Custody::Treasury(mint_address),
            authority: Custody::Owner(owner),
            mint_address,
            amount,
        }),
{
    TransferRequest {
        from: Custody::Owner(owner),
        to: Custody::Treasury(mint_address),
        authority: Custody::Owner(owner),
        mint_address,
        amount,
    }
}

/// Deposit `amount` units of collateral into `trove`, gated on the
/// outcome of the transfer described by [`transfer_request`].
///
/// If the collaborator failed the transfer, the operation aborts with
/// `TransferFailed` and neither record changes. On a completed transfer
/// it increments `trove.collateral` and `trove_manager.total_collateral`
/// by exactly `amount`. No ratio check: a deposit only improves
/// solvency.
pub fn process(
    trove: &mut Trove,
    trove_manager: &mut TroveManager,
    amount: u64,
    transfer: TransferOutcome,
) -> (r: Result<(), ErrorCode>)
    requires
        old(trove).collateral + amount <= u64::MAX,
        old(trove_manager).total_collateral + amount <= u64::MAX,
    ensures
        transfer is Failed ==> r == Result::<(), ErrorCode>::Err(ErrorCode::TransferFailed)
            && *final(trove) == *old(trove) && *final(trove_manager) == *old(trove_manager),
        transfer is Completed ==> r == Result::<(), ErrorCode>::Ok(()) && *final(trove) == (Trove {
            collateral: (old(trove).collateral + amount) as u64,
            ..*old(trove)
        }) && *final(trove_manager) == (TroveManager {
            total_collateral: (old(trove_manager).total_collateral + amount) as u64,
            ..*old(trove_manager)
        }),
{
    match transfer {
        TransferOutcome::Failed => Err(ErrorCode::TransferFailed),
        TransferOutcome::Completed => {
            trove_manager.total_collateral = trove_manager.total_collateral + amount;
            trove.collateral = trove.collateral + amount;
            Ok(())
        },
    }
}

} // verus!
