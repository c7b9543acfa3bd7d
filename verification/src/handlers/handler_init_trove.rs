//! Position creation: lock initial collateral and take on initial debt
//! in one step.

use vstd::prelude::*;

use crate::error::ErrorCode;
use crate::state::Trove;
use crate::state::TroveManager;
use crate::transfer::Custody;
use crate::transfer::TransferOutcome;
use crate::transfer::TransferRequest;

verus! {

/// The transfer opening a position requires before any state changes:
/// the initial `collateral` moves from the owner's custody into the
/// pool's treasury, signed by the owner.
pub fn transfer_request(owner: u64, mint_address: u64, collateral: u64) -> (req: TransferRequest)
    ensures
        req == (TransferRequest {
            from: Custody::Owner(owner),
            to: Custody::Treasury(mint_address),
            authority: Custody::Owner(owner),
            mint_address,
            amount: collateral,
        }),
{
    TransferRequest {
        from: Custody::Owner(owner),
        to: Custody::Treasury(mint_address),
        authority: Custody::Owner(owner),
        mint_address,
        amount: collateral,
    }
}

/// Open a position for `owner` with the caller-supplied initial
/// `collateral` and `debt`, gated on the outcome of the transfer
/// described by [`transfer_request`].
///
/// If the collaborator failed the transfer, the operation aborts with
/// `TransferFailed` and the pool is untouched. On a completed transfer
/// it returns the new position (stake zero) and increments the pool's
/// `total_collateral` and `total_debt` by the supplied amounts. The
/// initial values face no collateral-ratio validation: an intentional
/// fast path for initialization. Rejecting a second position for the
/// same `(owner, pool)` pair is the keyed store's job.
pub fn process(
    trove_manager: &mut TroveManager,
    owner: u64,
    collateral: u64,
    debt: u64,
    transfer: TransferOutcome,
) -> (r: Result<Trove, ErrorCode>)
    requires
        old(trove_manager).total_collateral + collateral <= u64::MAX,
        old(trove_manager).total_debt + debt <= u64::MAX,
    ensures
        transfer is Failed ==> r == Result::<Trove, ErrorCode>::Err(ErrorCode::TransferFailed)
            && *final(trove_manager) == *old(trove_manager),
        transfer is Completed ==> r == Result::<Trove, ErrorCode>::Ok(
            Trove { owner, collateral, debt, stake: 0 },
        ) && *final(trove_manager) == (TroveManager {
            total_collateral: (old(trove_manager).total_collateral + collateral) as u64,
            total_debt: (old(trove_manager).total_debt + debt) as u64,
            ..*old(trove_manager)
        }),
{
    match transfer {
        TransferOutcome::Failed => Err(ErrorCode::TransferFailed),
        TransferOutcome::Completed => {
            let trove = Trove { owner, collateral, debt, stake: 0 };

            trove_manager.total_collateral = trove_manager.total_collateral + collateral;
            trove_manager.total_debt = trove_manager.total_debt + debt;

            Ok(trove)
        },
    }
}

} // verus!
