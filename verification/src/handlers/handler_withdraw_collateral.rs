//! A position-only collateral adjustment.
//!
//! Unlike [`crate::handlers::handler_withdraw`], this transition touches
//! the position alone: it never updates the pool's aggregate counters,
//! requests no transfer, and reports success even when it changes
//! nothing. It is not wired into the keyed store's operations, whose
//! conservation invariant it would break.

use vstd::prelude::*;

use crate::error::ErrorCode;
use crate::state::Trove;

verus! {

/// Reduce `trove.collateral` by `collateral` when that much is locked;
/// otherwise leave the position unchanged. Always reports success.
pub fn process(trove: &mut Trove, collateral: u64) -> (r: Result<(), ErrorCode>)
    ensures
        r == Result::<(), ErrorCode>::Ok(()),
        old(trove).collateral >= collateral ==> *final(trove) == (Trove {
            collateral: (old(trove).collateral - collateral) as u64,
            ..*old(trove)
        }),
        old(trove).collateral < collateral ==> *final(trove) == *old(trove),
{
    if trove.collateral >= collateral {
        trove.collateral = trove.collateral - collateral;
    }

    Ok(())
}

} // verus!
