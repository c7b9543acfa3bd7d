//! The keyed store and its operations.
//!
//! Pools are keyed by their asset identifier and positions by the pair
//! of owner and asset identifier; every operation names the records it
//! touches by key, reads them, validates, and either writes pool and
//! position back in lockstep or fails with no state change.
//!
//! The store's invariant — unique keys, every pool's aggregates equal
//! to the sums over its positions, every position's pool present —
//! holds after every operation, so conservation holds for all
//! sequences of operations.

use vstd::pervasive::VecAdditionalExecFns;
use vstd::prelude::*;

use crate::accounting::lemma_pool_index_of;
use crate::accounting::lemma_pool_index_of_is;
use crate::accounting::lemma_pool_index_of_push;
use crate::accounting::lemma_pool_index_of_update;
use crate::accounting::lemma_sum_absent;
use crate::accounting::lemma_sum_collateral_le;
use crate::accounting::lemma_sum_debt_le;
use crate::accounting::lemma_sum_push;
use crate::accounting::lemma_sum_update;
use crate::accounting::lemma_trove_index_of;
use crate::accounting::lemma_trove_index_of_is;
use crate::accounting::lemma_trove_index_of_push;
use crate::accounting::lemma_trove_index_of_update;
use crate::accounting::pool_index_of;
use crate::accounting::sum_collateral;
use crate::accounting::sum_debt;
use crate::accounting::trove_index_of;
use crate::error::ErrorCode;
use crate::handlers::handler_borrow;
use crate::handlers::handler_deposit;
use crate::handlers::handler_init_trove;
use crate::handlers::handler_init_trove_manager;
use crate::handlers::handler_repay;
use crate::handlers::handler_withdraw;
use crate::state::Trove;
use crate::state::TroveEntry;
use crate::state::TroveManager;
use crate::transfer::TransferOutcome;

verus! {

/// The persistent state: every pool and every position, addressed by
/// deterministic keys with get/set semantics and read-your-writes
/// consistency within one operation.
pub struct Ledger {
    /// The pools, keyed by `mint_address`.
    pub pools: Vec<TroveManager>,
    /// The positions, keyed by `(trove.owner, mint_address)`.
    pub troves: Vec<TroveEntry>,
}

impl Ledger {
    /// A pool for the asset `mint_address` exists.
    pub open spec fn has_pool(self, mint_address: u64) -> bool {
        pool_index_of(self.pools@, mint_address) >= 0
    }

    /// The pool record for the asset `mint_address` (meaningful when
    /// `has_pool` holds).
    pub open spec fn pool_for(self, mint_address: u64) -> TroveManager {
        self.pools@[pool_index_of(self.pools@, mint_address)]
    }

    /// A position of `owner` in the pool of `mint_address` exists.
    pub open spec fn has_trove(self, owner: u64, mint_address: u64) -> bool {
        trove_index_of(self.troves@, owner, mint_address) >= 0
    }

    /// The position of `owner` in the pool of `mint_address`
    /// (meaningful when `has_trove` holds).
    pub open spec fn trove_for(self, owner: u64, mint_address: u64) -> Trove {
        self.troves@[trove_index_of(self.troves@, owner, mint_address)].trove
    }

    /// The store's invariant, established at creation and preserved by
    /// every operation:
    /// - at most one pool per asset and one position per
    ///   `(owner, asset)` pair;
    /// - every pool is well-formed and its `total_collateral` and
    ///   `total_debt` equal the sums of its positions' `collateral`
    ///   and `debt` — conservation;
    /// - every position's pool exists.
    pub open spec fn inv(self) -> bool {
        &&& forall|i: int, j: int|
            #![trigger self.pools@[i], self.pools@[j]]
            0 <= i < j < self.pools@.len() ==> self.pools@[i].mint_address
                != self.pools@[j].mint_address
        &&& forall|i: int, j: int|
            #![trigger self.troves@[i], self.troves@[j]]
            0 <= i < j < self.troves@.len() ==> !(self.troves@[i].trove.owner
                == self.troves@[j].trove.owner && self.troves@[i].mint_address
                == self.troves@[j].mint_address)
        &&& forall|i: int|
            0 <= i < self.pools@.len() ==> (#[trigger] self.pools@[i]).wf()
        &&& forall|i: int|
            0 <= i < self.pools@.len() ==> (#[trigger] self.pools@[i]).total_collateral
                == sum_collateral(self.troves@, self.pools@[i].mint_address)
        &&& forall|i: int|
            0 <= i < self.pools@.len() ==> (#[trigger] self.pools@[i]).total_debt == sum_debt(
                self.troves@,
                self.pools@[i].mint_address,
            )
        &&& forall|i: int|
            0 <= i < self.troves@.len() ==> self.has_pool(
                (#[trigger] self.troves@[i]).mint_address,
            )
    }

    /// An empty store: no pools, no positions.
    pub fn new() -> (ledger: Ledger)
        ensures
            ledger.inv(),
            ledger.pools@.len() == 0,
            ledger.troves@.len() == 0,
            forall|m: u64| !(#[trigger] ledger.has_pool(m)),
            forall|o: u64, m: u64| !(#[trigger] ledger.has_trove(o, m)),
    {
        Ledger { pools: Vec::new(), troves: Vec::new() }
    }

    /// Where the pool for `mint_address` is stored, if anywhere.
    fn find_pool(&self, mint_address: u64) -> (r: Option<usize>)
        ensures
            r matches Some(i) ==> i < self.pools@.len() && self.pools@[i as int].mint_address
                == mint_address && i == pool_index_of(self.pools@, mint_address),
            r is None ==> pool_index_of(self.pools@, mint_address) == -1,
    {
        let n = self.pools.len();
        let mut k: usize = 0;
        while k < n
            invariant
                n == self.pools.len(),
                k <= n,
                forall|j: int|
                    0 <= j < k ==> (#[trigger] self.pools@[j]).mint_address != mint_address,
            decreases n - k,
        {
            if self.pools[k].mint_address == mint_address {
                proof {
                    lemma_pool_index_of_is(self.pools@, mint_address, k as int);
                }
                return Some(k);
            }
            k = k + 1;
        }
        proof {
            lemma_pool_index_of(self.pools@, mint_address);
            assert(pool_index_of(self.pools@, mint_address) == -1) by {
                if pool_index_of(self.pools@, mint_address) >= 0 {
                    assert(self.pools@[pool_index_of(self.pools@, mint_address)].mint_address
                        == mint_address);
                }
            }
        }
        None
    }

    /// Where the position of `owner` for `mint_address` is stored, if
    /// anywhere.
    fn find_trove(&self, owner: u64, mint_address: u64) -> (r: Option<usize>)
        ensures
            r matches Some(i) ==> i < self.troves@.len() && self.troves@[i as int].trove.owner
                == owner && self.troves@[i as int].mint_address == mint_address && i
                == trove_index_of(self.troves@, owner, mint_address),
            r is None ==> trove_index_of(self.troves@, owner, mint_address) == -1,
    {
        let n = self.troves.len();
        let mut k: usize = 0;
        while k < n
            invariant
                n == self.troves.len(),
                k <= n,
                forall|j: int|
                    0 <= j < k ==> !((#[trigger] self.troves@[j]).trove.owner == owner
                        && self.troves@[j].mint_address == mint_address),
            decreases n - k,
        {
            if self.troves[k].trove.owner == owner && self.troves[k].mint_address == mint_address {
                proof {
                    lemma_trove_index_of_is(self.troves@, owner, mint_address, k as int);
                }
                return Some(k);
            }
            k = k + 1;
        }
        proof {
            lemma_trove_index_of(self.troves@, owner, mint_address);
            assert(trove_index_of(self.troves@, owner, mint_address) == -1) by {
                if trove_index_of(self.troves@, owner, mint_address) >= 0 {
                    assert(self.troves@[trove_index_of(self.troves@, owner, mint_address)].trove.owner
                        == owner);
                }
            }
        }
        None
    }

    /// Create the pool for the asset `mint_address`.
    ///
    /// Fails with `AlreadyExists` — changing nothing — when a pool for
    /// that asset is already stored; otherwise stores the initial pool
    /// record (see
    /// [`handler_init_trove_manager::initial_trove_manager`]) under
    /// the asset's key.
    pub fn init_trove_manager(&mut self, owner: u64, mint_address: u64) -> (r: Result<
        (),
        ErrorCode,
    >)
        requires
            old(self).inv(),
        ensures
            final(self).inv(),
            old(self).has_pool(mint_address) ==> r == Result::<(), ErrorCode>::Err(
                ErrorCode::AlreadyExists,
            ) && *final(self) == *old(self),
            !old(self).has_pool(mint_address) ==> r == Result::<(), ErrorCode>::Ok(())
                && final(self).troves@ == old(self).troves@
                && final(self).pools@ == old(self).pools@.push(
                handler_init_trove_manager::initial_trove_manager(owner, mint_address))
                && final(self).has_pool(mint_address)
                && final(self).pool_for(mint_address)
                == handler_init_trove_manager::initial_trove_manager(owner, mint_address)
                && (forall|m: u64|
                m != mint_address ==> pool_index_of(final(self).pools@, m) == pool_index_of(
                    old(self).pools@,
                    m,
                )),
    {
        match self.find_pool(mint_address) {
            Some(_) => Err(ErrorCode::AlreadyExists),
            None => {
                let pool = handler_init_trove_manager::process(owner, mint_address);
                self.pools.push(pool);
                proof {
                    lemma_append_pool(*old(self), *self, pool);
                }
                Ok(())
            },
        }
    }

    /// Open a position for `owner` in the pool of `mint_address` with
    /// the caller-supplied initial `collateral` and `debt`, gated on
    /// the outcome of the transfer described by
    /// [`handler_init_trove::transfer_request`].
    ///
    /// Fails with `AlreadyExists` — before any transfer matters — when
    /// the `(owner, pool)` pair already has a position, and with
    /// `TransferFailed` when the collaborator failed the transfer;
    /// every failure leaves the store unchanged. On success the new
    /// position is stored and the pool's aggregates grow by the
    /// supplied amounts.
    pub fn init_trove(
        &mut self,
        owner: u64,
        mint_address: u64,
        collateral: u64,
        debt: u64,
        transfer: TransferOutcome,
    ) -> (r: Result<(), ErrorCode>)
        requires
            old(self).inv(),
            old(self).has_pool(mint_address),
            old(self).pool_for(mint_address).total_collateral + collateral <= u64::MAX,
            old(self).pool_for(mint_address).total_debt + debt <= u64::MAX,
        ensures
            final(self).inv(),
            old(self).has_trove(owner, mint_address) ==> r == Result::<(), ErrorCode>::Err(
                ErrorCode::AlreadyExists,
            ) && *final(self) == *old(self),
            !old(self).has_trove(owner, mint_address) && transfer is Failed ==> r == Result::<
                (),
                ErrorCode,
            >::Err(ErrorCode::TransferFailed) && *final(self) == *old(self),
            !old(self).has_trove(owner, mint_address) && transfer is Completed ==> r == Result::<
                (),
                ErrorCode,
            >::Ok(()) && final(self).troves@ == old(self).troves@.push(
                (TroveEntry { mint_address, trove: (Trove { owner, collateral, debt, stake: 0 }) }),
            ) && final(self).has_trove(owner, mint_address) && final(self).trove_for(
                owner,
                mint_address,
            ) == (Trove { owner, collateral, debt, stake: 0 }) && final(self).pool_for(
                mint_address,
            ) == (TroveManager {
                total_collateral: (old(self).pool_for(mint_address).total_collateral
                    + collateral) as u64,
                total_debt: (old(self).pool_for(mint_address).total_debt + debt) as u64,
                ..old(self).pool_for(mint_address)
            }) && (forall|m: u64|
                pool_index_of(final(self).pools@, m) == pool_index_of(old(self).pools@, m)) && (
            forall|o: u64, m: u64|
                !(o == owner && m == mint_address) ==> trove_index_of(final(self).troves@, o, m)
                    == trove_index_of(old(self).troves@, o, m)),
    {
        let pi = self.find_pool(mint_address).unwrap();
        match self.find_trove(owner, mint_address) {
            Some(_) => Err(ErrorCode::AlreadyExists),
            None => {
                let mut pool = self.pools[pi];
                let res = handler_init_trove::process(&mut pool, owner, collateral, debt, transfer);
                match res {
                    Err(e) => Err(e),
                    Ok(trove) => {
                        let entry = TroveEntry { mint_address, trove };
                        self.troves.push(entry);
                        self.pools.set(pi, pool);
                        proof {
                            lemma_append_trove(*old(self), *self, pi as int, entry, pool);
                        }
                        Ok(())
                    },
                }
            },
        }
    }

    /// Deposit `amount` units of collateral into the position of
    /// `owner`, gated on the outcome of the transfer described by
    /// [`handler_deposit::transfer_request`].
    ///
    /// Fails with `TransferFailed` — changing nothing — when the
    /// collaborator failed the transfer; otherwise the position's
    /// `collateral` and the pool's `total_collateral` grow by exactly
    /// `amount`. No ratio check: a deposit only improves solvency.
    pub fn deposit(
        &mut self,
        owner: u64,
        mint_address: u64,
        amount: u64,
        transfer: TransferOutcome,
    ) -> (r: Result<(), ErrorCode>)
        requires
            old(self).inv(),
            old(self).has_trove(owner, mint_address),
            old(self).has_pool(mint_address),
            old(self).pool_for(mint_address).total_collateral + amount <= u64::MAX,
        ensures
            final(self).inv(),
            transfer is Failed ==> r == Result::<(), ErrorCode>::Err(ErrorCode::TransferFailed)
                && *final(self) == *old(self),
            transfer is Completed ==> r == Result::<(), ErrorCode>::Ok(())
                && final(self).troves@ == old(self).troves@.update(
                trove_index_of(old(self).troves@, owner, mint_address),
                (TroveEntry {
                    mint_address,
                    trove: (Trove {
                        collateral: (old(self).trove_for(owner, mint_address).collateral
                            + amount) as u64,
                        ..old(self).trove_for(owner, mint_address)
                    }),
                }),
            ) && final(self).pools@ == old(self).pools@.update(
                pool_index_of(old(self).pools@, mint_address),
                (TroveManager {
                    total_collateral: (old(self).pool_for(mint_address).total_collateral
                        + amount) as u64,
                    ..old(self).pool_for(mint_address)
                }),
            ) && final(self).trove_for(owner, mint_address) == (Trove {
                collateral: (old(self).trove_for(owner, mint_address).collateral + amount) as u64,
                ..old(self).trove_for(owner, mint_address)
            }) && final(self).pool_for(mint_address) == (TroveManager {
                total_collateral: (old(self).pool_for(mint_address).total_collateral
                    + amount) as u64,
                ..old(self).pool_for(mint_address)
            }) && (forall|m: u64|
                pool_index_of(final(self).pools@, m) == pool_index_of(old(self).pools@, m)) && (
            forall|o: u64, m: u64|
                trove_index_of(final(self).troves@, o, m) == trove_index_of(
                    old(self).troves@,
                    o,
                    m,
                )),
    {
        let ti = self.find_trove(owner, mint_address).unwrap();
        let pi = self.find_pool(mint_address).unwrap();
        let mut entry = self.troves[ti];
        let mut pool = self.pools[pi];
        proof {
            lemma_sum_collateral_le(self.troves@, mint_address, ti as int);
        }
        let res = handler_deposit::process(&mut entry.trove, &mut pool, amount, transfer);
        match res {
            Err(e) => Err(e),
            Ok(()) => {
                self.troves.set(ti, entry);
                self.pools.set(pi, pool);
                proof {
                    lemma_update_records(*old(self), *self, ti as int, pi as int, entry, pool);
                }
                Ok(())
            },
        }
    }

    /// Withdraw `amount` units of collateral from the position of
    /// `owner`, gated on the outcome of the transfer described by
    /// [`handler_withdraw::transfer_request`].
    ///
    /// Fails with `InsufficientFunds` when `amount` exceeds the locked
    /// collateral — that check comes first — and with `TransferFailed`
    /// when the collaborator failed the transfer; every failure leaves
    /// the store unchanged. On success the position's `collateral` and
    /// the pool's `total_collateral` shrink by exactly `amount`. The
    /// resulting collateral ratio is not re-validated against the
    /// outstanding debt; see [`handler_withdraw::process`].
    pub fn withdraw(
        &mut self,
        owner: u64,
        mint_address: u64,
        amount: u64,
        transfer: TransferOutcome,
    ) -> (r: Result<(), ErrorCode>)
        requires
            old(self).inv(),
            old(self).has_trove(owner, mint_address),
            old(self).has_pool(mint_address),
        ensures
            final(self).inv(),
            amount > old(self).trove_for(owner, mint_address).collateral ==> r == Result::<
                (),
                ErrorCode,
            >::Err(ErrorCode::InsufficientFunds) && *final(self) == *old(self),
            amount <= old(self).trove_for(owner, mint_address).collateral && transfer is Failed
                ==> r == Result::<(), ErrorCode>::Err(ErrorCode::TransferFailed) && *final(self)
                == *old(self),
            amount <= old(self).trove_for(owner, mint_address).collateral && transfer is Completed
                ==> r == Result::<(), ErrorCode>::Ok(()) && final(self).troves@ == old(
                self,
            ).troves@.update(
                trove_index_of(old(self).troves@, owner, mint_address),
                (TroveEntry {
                    mint_address,
                    trove: (Trove {
                        collateral: (old(self).trove_for(owner, mint_address).collateral
                            - amount) as u64,
                        ..old(self).trove_for(owner, mint_address)
                    }),
                }),
            ) && final(self).pools@ == old(self).pools@.update(
                pool_index_of(old(self).pools@, mint_address),
                (TroveManager {
                    total_collateral: (old(self).pool_for(mint_address).total_collateral
                        - amount) as u64,
                    ..old(self).pool_for(mint_address)
                }),
            ) && final(self).trove_for(owner, mint_address) == (Trove {
                collateral: (old(self).trove_for(owner, mint_address).collateral - amount) as u64,
                ..old(self).trove_for(owner, mint_address)
            }) && final(self).pool_for(mint_address) == (TroveManager {
                total_collateral: (old(self).pool_for(mint_address).total_collateral
                    - amount) as u64,
                ..old(self).pool_for(mint_address)
            }) && (forall|m: u64|
                pool_index_of(final(self).pools@, m) == pool_index_of(old(self).pools@, m)) && (
            forall|o: u64, m: u64|
                trove_index_of(final(self).troves@, o, m) == trove_index_of(
                    old(self).troves@,
                    o,
                    m,
                )),
    {
        let ti = self.find_trove(owner, mint_address).unwrap();
        let pi = self.find_pool(mint_address).unwrap();
        let mut entry = self.troves[ti];
        let mut pool = self.pools[pi];
        proof {
            lemma_sum_collateral_le(self.troves@, mint_address, ti as int);
        }
        let res = handler_withdraw::process(&mut entry.trove, &mut pool, amount, transfer);
        match res {
            Err(e) => Err(e),
            Ok(()) => {
                self.troves.set(ti, entry);
                self.pools.set(pi, pool);
                proof {
                    lemma_update_records(*old(self), *self, ti as int, pi as int, entry, pool);
                }
                Ok(())
            },
        }
    }

    /// Borrow `amount` units of the debt asset against the collateral
    /// of `owner`'s position.
    ///
    /// Fails with `OverBorrowableAmount` — changing nothing — when the
    /// collateral-ratio-derived ceiling (see
    /// [`handler_borrow::borrowable_ceiling`]) is below `amount`;
    /// otherwise the position's `debt` and the pool's `total_debt`
    /// grow by exactly `amount`. No asset transfer occurs.
    pub fn borrow(&mut self, owner: u64, mint_address: u64, amount: u64) -> (r: Result<
        (),
        ErrorCode,
    >)
        requires
            old(self).inv(),
            old(self).has_trove(owner, mint_address),
            old(self).has_pool(mint_address),
            200 * old(self).trove_for(owner, mint_address).collateral * 100 <= u64::MAX,
            handler_borrow::borrowable_ceiling(
                old(self).trove_for(owner, mint_address).collateral,
                old(self).pool_for(mint_address).minimum_collateral_ratio,
            ) >= amount ==> old(self).pool_for(mint_address).total_debt + amount <= u64::MAX,
        ensures
            final(self).inv(),
            handler_borrow::borrowable_ceiling(
                old(self).trove_for(owner, mint_address).collateral,
                old(self).pool_for(mint_address).minimum_collateral_ratio,
            ) < amount ==> r == Result::<(), ErrorCode>::Err(ErrorCode::OverBorrowableAmount)
                && *final(self) == *old(self),
            handler_borrow::borrowable_ceiling(
                old(self).trove_for(owner, mint_address).collateral,
                old(self).pool_for(mint_address).minimum_collateral_ratio,
            ) >= amount ==> r == Result::<(), ErrorCode>::Ok(()) && final(self).troves@ == old(
                self,
            ).troves@.update(
                trove_index_of(old(self).troves@, owner, mint_address),
                (TroveEntry {
                    mint_address,
                    trove: (Trove {
                        debt: (old(self).trove_for(owner, mint_address).debt + amount) as u64,
                        ..old(self).trove_for(owner, mint_address)
                    }),
                }),
            ) && final(self).pools@ == old(self).pools@.update(
                pool_index_of(old(self).pools@, mint_address),
                (TroveManager {
                    total_debt: (old(self).pool_for(mint_address).total_debt + amount) as u64,
                    ..old(self).pool_for(mint_address)
                }),
            ) && final(self).trove_for(owner, mint_address) == (Trove {
                debt: (old(self).trove_for(owner, mint_address).debt + amount) as u64,
                ..old(self).trove_for(owner, mint_address)
            }) && final(self).pool_for(mint_address) == (TroveManager {
                total_debt: (old(self).pool_for(mint_address).total_debt + amount) as u64,
                ..old(self).pool_for(mint_address)
            }) && (forall|m: u64|
                pool_index_of(final(self).pools@, m) == pool_index_of(old(self).pools@, m)) && (
            forall|o: u64, m: u64|
                trove_index_of(final(self).troves@, o, m) == trove_index_of(
                    old(self).troves@,
                    o,
                    m,
                )),
    {
        let ti = self.find_trove(owner, mint_address).unwrap();
        let pi = self.find_pool(mint_address).unwrap();
        let mut entry = self.troves[ti];
        let mut pool = self.pools[pi];
        proof {
            lemma_sum_debt_le(self.troves@, mint_address, ti as int);
        }
        let res = handler_borrow::process(&mut entry.trove, &mut pool, amount);
        match res {
            Err(e) => Err(e),
            Ok(()) => {
                self.troves.set(ti, entry);
                self.pools.set(pi, pool);
                proof {
                    lemma_update_records(*old(self), *self, ti as int, pi as int, entry, pool);
                }
                Ok(())
            },
        }
    }

    /// Repay `amount` units of debt on the position of `owner`.
    ///
    /// Fails with `OverRepay` — changing nothing — when `amount`
    /// exceeds the outstanding debt; otherwise the position's `debt`
    /// and the pool's `total_debt` shrink by exactly `amount`, so
    /// repaying the whole debt leaves it at zero.
    pub fn repay(&mut self, owner: u64, mint_address: u64, amount: u64) -> (r: Result<
        (),
        ErrorCode,
    >)
        requires
            old(self).inv(),
            old(self).has_trove(owner, mint_address),
            old(self).has_pool(mint_address),
        ensures
            final(self).inv(),
            amount > old(self).trove_for(owner, mint_address).debt ==> r == Result::<
                (),
                ErrorCode,
            >::Err(ErrorCode::OverRepay) && *final(self) == *old(self),
            amount <= old(self).trove_for(owner, mint_address).debt ==> r == Result::<
                (),
                ErrorCode,
            >::Ok(()) && final(self).troves@ == old(self).troves@.update(
                trove_index_of(old(self).troves@, owner, mint_address),
                (TroveEntry {
                    mint_address,
                    trove: (Trove {
                        debt: (old(self).trove_for(owner, mint_address).debt - amount) as u64,
                        ..old(self).trove_for(owner, mint_address)
                    }),
                }),
            ) && final(self).pools@ == old(self).pools@.update(
                pool_index_of(old(self).pools@, mint_address),
                (TroveManager {
                    total_debt: (old(self).pool_for(mint_address).total_debt - amount) as u64,
                    ..old(self).pool_for(mint_address)
                }),
            ) && final(self).trove_for(owner, mint_address) == (Trove {
                debt: (old(self).trove_for(owner, mint_address).debt - amount) as u64,
                ..old(self).trove_for(owner, mint_address)
            }) && final(self).pool_for(mint_address) == (TroveManager {
                total_debt: (old(self).pool_for(mint_address).total_debt - amount) as u64,
                ..old(self).pool_for(mint_address)
            }) && (forall|m: u64|
                pool_index_of(final(self).pools@, m) == pool_index_of(old(self).pools@, m)) && (
            forall|o: u64, m: u64|
                trove_index_of(final(self).troves@, o, m) == trove_index_of(
                    old(self).troves@,
                    o,
                    m,
                )),
    {
        let ti = self.find_trove(owner, mint_address).unwrap();
        let pi = self.find_pool(mint_address).unwrap();
        let mut entry = self.troves[ti];
        let mut pool = self.pools[pi];
        proof {
            lemma_sum_debt_le(self.troves@, mint_address, ti as int);
        }
        let res = handler_repay::process(&mut entry.trove, &mut pool, amount);
        match res {
            Err(e) => Err(e),
            Ok(()) => {
                self.troves.set(ti, entry);
                self.pools.set(pi, pool);
                proof {
                    lemma_update_records(*old(self), *self, ti as int, pi as int, entry, pool);
                }
                Ok(())
            },
        }
    }

    /// Read the pool record for `mint_address`, if one exists.
    pub fn get_pool(&self, mint_address: u64) -> (r: Option<TroveManager>)
        ensures
            self.has_pool(mint_address) ==> r == Some(self.pool_for(mint_address)),
            !self.has_pool(mint_address) ==> r is None,
    {
        match self.find_pool(mint_address) {
            Some(i) => Some(self.pools[i]),
            None => None,
        }
    }

    /// Read the position of `owner` for `mint_address`, if one exists.
    pub fn get_trove(&self, owner: u64, mint_address: u64) -> (r: Option<Trove>)
        ensures
            self.has_trove(owner, mint_address) ==> r == Some(self.trove_for(owner, mint_address)),
            !self.has_trove(owner, mint_address) ==> r is None,
    {
        match self.find_trove(owner, mint_address) {
            Some(i) => Some(self.troves[i].trove),
            None => None,
        }
    }
}

/// Conservation: in any store satisfying the invariant — as every
/// operation ensures — a pool's `total_collateral` and `total_debt`
/// equal the sums of its positions' `collateral` and `debt`.
pub proof fn lemma_conservation(ledger: Ledger, mint_address: u64)
    requires
        ledger.inv(),
        ledger.has_pool(mint_address),
    ensures
        ledger.pool_for(mint_address).total_collateral == sum_collateral(
            ledger.troves@,
            mint_address,
        ),
        ledger.pool_for(mint_address).total_debt == sum_debt(ledger.troves@, mint_address),
{
    lemma_pool_index_of(ledger.pools@, mint_address);
}

/// Non-negativity, sharpened: a position's amounts are machine words,
/// never below zero, and never exceed its pool's aggregates.
pub proof fn lemma_position_within_pool(ledger: Ledger, owner: u64, mint_address: u64)
    requires
        ledger.inv(),
        ledger.has_trove(owner, mint_address),
        ledger.has_pool(mint_address),
    ensures
        0 <= ledger.trove_for(owner, mint_address).collateral <= ledger.pool_for(
            mint_address,
        ).total_collateral,
        0 <= ledger.trove_for(owner, mint_address).debt <= ledger.pool_for(
            mint_address,
        ).total_debt,
{
    lemma_conservation(ledger, mint_address);
    lemma_trove_index_of(ledger.troves@, owner, mint_address);
    lemma_sum_collateral_le(
        ledger.troves@,
        mint_address,
        trove_index_of(ledger.troves@, owner, mint_address),
    );
    lemma_sum_debt_le(
        ledger.troves@,
        mint_address,
        trove_index_of(ledger.troves@, owner, mint_address),
    );
}

/// Appending a pool with a fresh key, zero aggregates and a well-formed
/// ratio preserves the store's invariant; the new pool is found at the
/// end and every other key stays where it was.
proof fn lemma_append_pool(pre: Ledger, post: Ledger, pool: TroveManager)
    requires
        pre.inv(),
        pool_index_of(pre.pools@, pool.mint_address) == -1,
        pool.wf(),
        pool.total_collateral == 0,
        pool.total_debt == 0,
        post.pools@ == pre.pools@.push(pool),
        post.troves@ == pre.troves@,
    ensures
        post.inv(),
        pool_index_of(post.pools@, pool.mint_address) == pre.pools@.len(),
        forall|m: u64|
            m != pool.mint_address ==> pool_index_of(post.pools@, m) == pool_index_of(
                pre.pools@,
                m,
            ),
{
    lemma_pool_index_of(pre.pools@, pool.mint_address);
    lemma_pool_index_of_push(pre.pools@, pool, pool.mint_address);
    assert forall|m: u64| m != pool.mint_address implies pool_index_of(post.pools@, m)
        == pool_index_of(pre.pools@, m) by {
        lemma_pool_index_of(pre.pools@, m);
        lemma_pool_index_of_push(pre.pools@, pool, m);
    }
    // No position refers to the fresh asset, else its pool would
    // already exist; so the new pool's zero aggregates are the sums.
    assert forall|i: int| 0 <= i < pre.troves@.len() implies (#[trigger] pre.troves@[i]).mint_address
        != pool.mint_address by {
        assert(pre.has_pool(pre.troves@[i].mint_address));
    }
    lemma_sum_absent(pre.troves@, pool.mint_address);
    assert forall|i: int| 0 <= i < post.pools@.len() implies (#[trigger] post.pools@[i]).wf() && (
    post.pools@[i]).total_collateral == sum_collateral(post.troves@, post.pools@[i].mint_address)
        && (post.pools@[i]).total_debt == sum_debt(post.troves@, post.pools@[i].mint_address) by {
        if i < pre.pools@.len() {
            assert(post.pools@[i] == pre.pools@[i]);
        } else {
            assert(post.pools@[i] == pool);
        }
    }
    assert forall|i: int| 0 <= i < post.troves@.len() implies post.has_pool(
        (#[trigger] post.troves@[i]).mint_address,
    ) by {
        assert(pre.has_pool(pre.troves@[i].mint_address));
        lemma_pool_index_of_push(pre.pools@, pool, pre.troves@[i].mint_address);
    }
}

/// Appending a position with a fresh key, while raising its pool's
/// aggregates by exactly the new position's amounts, preserves the
/// store's invariant; the new position is found at the end and every
/// other key stays where it was.
proof fn lemma_append_trove(pre: Ledger, post: Ledger, pi: int, entry: TroveEntry, pool: TroveManager)
    requires
        pre.inv(),
        0 <= pi < pre.pools@.len(),
        trove_index_of(pre.troves@, entry.trove.owner, entry.mint_address) == -1,
        pre.pools@[pi].mint_address == entry.mint_address,
        pool.mint_address == pre.pools@[pi].mint_address,
        pool.minimum_collateral_ratio == pre.pools@[pi].minimum_collateral_ratio,
        pool.total_collateral == pre.pools@[pi].total_collateral + entry.trove.collateral,
        pool.total_debt == pre.pools@[pi].total_debt + entry.trove.debt,
        post.troves@ == pre.troves@.push(entry),
        post.pools@ == pre.pools@.update(pi, pool),
    ensures
        post.inv(),
        forall|m: u64| pool_index_of(post.pools@, m) == pool_index_of(pre.pools@, m),
        trove_index_of(post.troves@, entry.trove.owner, entry.mint_address)
            == pre.troves@.len(),
        forall|o: u64, m: u64|
            !(o == entry.trove.owner && m == entry.mint_address) ==> trove_index_of(
                post.troves@,
                o,
                m,
            ) == trove_index_of(pre.troves@, o, m),
{
    assert forall|m: u64| pool_index_of(post.pools@, m) == pool_index_of(pre.pools@, m) by {
        lemma_pool_index_of_update(pre.pools@, pi, pool, m);
    }
    lemma_trove_index_of_push(pre.troves@, entry, entry.trove.owner, entry.mint_address);
    assert forall|o: u64, m: u64|
        !(o == entry.trove.owner && m == entry.mint_address) implies trove_index_of(
        post.troves@,
        o,
        m,
    ) == trove_index_of(pre.troves@, o, m) by {
        lemma_trove_index_of(pre.troves@, o, m);
        lemma_trove_index_of_push(pre.troves@, entry, o, m);
    }
    lemma_trove_index_of(pre.troves@, entry.trove.owner, entry.mint_address);
    assert forall|i: int, j: int|
        #![trigger post.troves@[i], post.troves@[j]]
        0 <= i < j < post.troves@.len() implies !(post.troves@[i].trove.owner
        == post.troves@[j].trove.owner && post.troves@[i].mint_address
        == post.troves@[j].mint_address) by {
        assert(post.troves@[i] == pre.troves@[i]);
        if j == pre.troves@.len() {
            assert(post.troves@[j] == entry);
        } else {
            assert(post.troves@[j] == pre.troves@[j]);
        }
    }
    assert forall|i: int| 0 <= i < post.pools@.len() implies (#[trigger] post.pools@[i]).wf() && (
    post.pools@[i]).total_collateral == sum_collateral(post.troves@, post.pools@[i].mint_address)
        && (post.pools@[i]).total_debt == sum_debt(post.troves@, post.pools@[i].mint_address) by {
        lemma_sum_push(pre.troves@, entry, post.pools@[i].mint_address);
        if i != pi {
            assert(post.pools@[i] == pre.pools@[i]);
            assert(pre.pools@[if i < pi {
                i
            } else {
                pi
            }].mint_address != pre.pools@[if i < pi {
                pi
            } else {
                i
            }].mint_address);
        } else {
            assert(post.pools@[i] == pool);
        }
    }
    assert forall|i: int| 0 <= i < post.troves@.len() implies post.has_pool(
        (#[trigger] post.troves@[i]).mint_address,
    ) by {
        if i < pre.troves@.len() {
            assert(post.troves@[i] == pre.troves@[i]);
            assert(pre.has_pool(pre.troves@[i].mint_address));
        } else {
            assert(post.troves@[i] == entry);
            lemma_pool_index_of(pre.pools@, entry.mint_address);
            assert(pre.has_pool(entry.mint_address)) by {
                if pool_index_of(pre.pools@, entry.mint_address) == -1 {
                    assert(pre.pools@[pi].mint_address != entry.mint_address);
                }
            }
        }
    }
}

/// Replacing one position and its pool with records under the same
/// keys, the pool's aggregates shifted by exactly the position's
/// change, preserves the store's invariant; no key moves at all.
proof fn lemma_update_records(
    pre: Ledger,
    post: Ledger,
    ti: int,
    pi: int,
    entry: TroveEntry,
    pool: TroveManager,
)
    requires
        pre.inv(),
        0 <= ti < pre.troves@.len(),
        0 <= pi < pre.pools@.len(),
        entry.trove.owner == pre.troves@[ti].trove.owner,
        entry.mint_address == pre.troves@[ti].mint_address,
        pre.pools@[pi].mint_address == entry.mint_address,
        pool.mint_address == pre.pools@[pi].mint_address,
        pool.minimum_collateral_ratio == pre.pools@[pi].minimum_collateral_ratio,
        pool.total_collateral == pre.pools@[pi].total_collateral + entry.trove.collateral
            - pre.troves@[ti].trove.collateral,
        pool.total_debt == pre.pools@[pi].total_debt + entry.trove.debt
            - pre.troves@[ti].trove.debt,
        post.troves@ == pre.troves@.update(ti, entry),
        post.pools@ == pre.pools@.update(pi, pool),
    ensures
        post.inv(),
        forall|m: u64| pool_index_of(post.pools@, m) == pool_index_of(pre.pools@, m),
        forall|o: u64, m: u64|
            trove_index_of(post.troves@, o, m) == trove_index_of(pre.troves@, o, m),
{
    assert forall|m: u64| pool_index_of(post.pools@, m) == pool_index_of(pre.pools@, m) by {
        lemma_pool_index_of_update(pre.pools@, pi, pool, m);
    }
    assert forall|o: u64, m: u64|
        trove_index_of(post.troves@, o, m) == trove_index_of(pre.troves@, o, m) by {
        lemma_trove_index_of_update(pre.troves@, ti, entry, o, m);
    }
    assert forall|i: int, j: int|
        #![trigger post.troves@[i], post.troves@[j]]
        0 <= i < j < post.troves@.len() implies !(post.troves@[i].trove.owner
        == post.troves@[j].trove.owner && post.troves@[i].mint_address
        == post.troves@[j].mint_address) by {
        assert(post.troves@[i].trove.owner == pre.troves@[i].trove.owner && post.troves@[i].mint_address
            == pre.troves@[i].mint_address);
        assert(post.troves@[j].trove.owner == pre.troves@[j].trove.owner && post.troves@[j].mint_address
            == pre.troves@[j].mint_address);
    }
    assert forall|i: int, j: int|
        #![trigger post.pools@[i], post.pools@[j]]
        0 <= i < j < post.pools@.len() implies post.pools@[i].mint_address
        != post.pools@[j].mint_address by {
        assert(post.pools@[i].mint_address == pre.pools@[i].mint_address);
        assert(post.pools@[j].mint_address == pre.pools@[j].mint_address);
    }
    assert forall|i: int| 0 <= i < post.pools@.len() implies (#[trigger] post.pools@[i]).wf() && (
    post.pools@[i]).total_collateral == sum_collateral(post.troves@, post.pools@[i].mint_address)
        && (post.pools@[i]).total_debt == sum_debt(post.troves@, post.pools@[i].mint_address) by {
        lemma_sum_update(pre.troves@, ti, entry, post.pools@[i].mint_address);
        if i != pi {
            assert(post.pools@[i] == pre.pools@[i]);
            assert(pre.pools@[if i < pi {
                i
            } else {
                pi
            }].mint_address != pre.pools@[if i < pi {
                pi
            } else {
                i
            }].mint_address);
        } else {
            assert(post.pools@[i] == pool);
        }
    }
    assert forall|i: int| 0 <= i < post.troves@.len() implies post.has_pool(
        (#[trigger] post.troves@[i]).mint_address,
    ) by {
        assert(post.troves@[i].mint_address == pre.troves@[i].mint_address);
        assert(pre.has_pool(pre.troves@[i].mint_address));
        lemma_pool_index_of_update(pre.pools@, pi, pool, pre.troves@[i].mint_address);
    }
}

} // verus!
