//! Specification-level accounting over the stored records.
//!
//! The keyed store holds pools and positions in sequences; these spec
//! functions say where a key lives in such a sequence and what a pool's
//! aggregate counters must add up to, and the lemmas give the facts the
//! store's operations rely on: how key lookup and the per-asset sums
//! react to updating one record or appending a new one, and that no
//! position can hold more than its pool's aggregate.

use vstd::prelude::*;

use crate::state::TroveEntry;
use crate::state::TroveManager;

verus! {

/// Index of the pool for `mint_address` in `pools`, or -1 when absent
/// (the first match; the store keeps keys unique, so there is at most
/// one).
pub open spec fn pool_index_of(pools: Seq<TroveManager>, mint_address: u64) -> int
    decreases pools.len(),
{
    if pools.len() == 0 {
        -1
    } else if pools[0].mint_address == mint_address {
        0
    } else {
        let rest = pool_index_of(pools.subrange(1, pools.len() as int), mint_address);
        if rest < 0 {
            -1
        } else {
            rest + 1
        }
    }
}

/// Index of the position of `owner` in the pool of `mint_address`, or
/// -1 when absent.
pub open spec fn trove_index_of(troves: Seq<TroveEntry>, owner: u64, mint_address: u64) -> int
    decreases troves.len(),
{
    if troves.len() == 0 {
        -1
    } else if troves[0].trove.owner == owner && troves[0].mint_address == mint_address {
        0
    } else {
        let rest = trove_index_of(troves.subrange(1, troves.len() as int), owner, mint_address);
        if rest < 0 {
            -1
        } else {
            rest + 1
        }
    }
}

/// What `entry` contributes to the locked collateral of the pool of
/// `mint_address`: its position's collateral when the asset matches,
/// nothing otherwise.
pub open spec fn collateral_part(entry: TroveEntry, mint_address: u64) -> int {
    if entry.mint_address == mint_address {
        entry.trove.collateral as int
    } else {
        0
    }
}

/// What `entry` contributes to the outstanding debt of the pool of
/// `mint_address`.
pub open spec fn debt_part(entry: TroveEntry, mint_address: u64) -> int {
    if entry.mint_address == mint_address {
        entry.trove.debt as int
    } else {
        0
    }
}

/// Collateral locked across all positions of the pool of `mint_address`.
pub open spec fn sum_collateral(troves: Seq<TroveEntry>, mint_address: u64) -> int
    decreases troves.len(),
{
    if troves.len() == 0 {
        0
    } else {
        sum_collateral(troves.drop_last(), mint_address) + collateral_part(
            troves.last(),
            mint_address,
        )
    }
}

/// Debt owed across all positions of the pool of `mint_address`.
pub open spec fn sum_debt(troves: Seq<TroveEntry>, mint_address: u64) -> int
    decreases troves.len(),
{
    if troves.len() == 0 {
        0
    } else {
        sum_debt(troves.drop_last(), mint_address) + debt_part(troves.last(), mint_address)
    }
}

/// `pool_index_of` finds a well-placed match, and -1 means no index
/// matches.
pub proof fn lemma_pool_index_of(pools: Seq<TroveManager>, mint_address: u64)
    ensures
        pool_index_of(pools, mint_address) >= -1,
        pool_index_of(pools, mint_address) == -1 ==> forall|i: int|
            0 <= i < pools.len() ==> (#[trigger] pools[i]).mint_address != mint_address,
        pool_index_of(pools, mint_address) >= 0 ==> pool_index_of(pools, mint_address)
            < pools.len() && pools[pool_index_of(pools, mint_address)].mint_address
            == mint_address,
    decreases pools.len(),
{
    if pools.len() > 0 && pools[0].mint_address != mint_address {
        let rest = pools.subrange(1, pools.len() as int);
        lemma_pool_index_of(rest, mint_address);
        if pool_index_of(pools, mint_address) == -1 {
            assert forall|i: int| 0 <= i < pools.len() implies (#[trigger] pools[i]).mint_address
                != mint_address by {
                if i > 0 {
                    assert(pools[i] == rest[i - 1]);
                }
            }
        }
    }
}

/// `trove_index_of` finds a well-placed match, and -1 means no index
/// matches.
pub proof fn lemma_trove_index_of(troves: Seq<TroveEntry>, owner: u64, mint_address: u64)
    ensures
        trove_index_of(troves, owner, mint_address) >= -1,
        trove_index_of(troves, owner, mint_address) == -1 ==> forall|i: int|
            0 <= i < troves.len() ==> !((#[trigger] troves[i]).trove.owner == owner
                && troves[i].mint_address == mint_address),
        trove_index_of(troves, owner, mint_address) >= 0 ==> trove_index_of(
            troves,
            owner,
            mint_address,
        ) < troves.len() && troves[trove_index_of(troves, owner, mint_address)].trove.owner
            == owner && troves[trove_index_of(troves, owner, mint_address)].mint_address
            == mint_address,
    decreases troves.len(),
{
    if troves.len() > 0 && !(troves[0].trove.owner == owner && troves[0].mint_address
        == mint_address) {
        let rest = troves.subrange(1, troves.len() as int);
        lemma_trove_index_of(rest, owner, mint_address);
        if trove_index_of(troves, owner, mint_address) == -1 {
            assert forall|i: int| 0 <= i < troves.len() implies !((#[trigger] troves[i]).trove.owner
                == owner && troves[i].mint_address == mint_address) by {
                if i > 0 {
                    assert(troves[i] == rest[i - 1]);
                }
            }
        }
    }
}

/// The first match is the index `pool_index_of` returns.
pub proof fn lemma_pool_index_of_is(pools: Seq<TroveManager>, mint_address: u64, k: int)
    requires
        0 <= k < pools.len(),
        pools[k].mint_address == mint_address,
        forall|j: int| 0 <= j < k ==> (#[trigger] pools[j]).mint_address != mint_address,
    ensures
        pool_index_of(pools, mint_address) == k,
    decreases pools.len(),
{
    if k > 0 {
        let rest = pools.subrange(1, pools.len() as int);
        assert forall|j: int| 0 <= j < k - 1 implies (#[trigger] rest[j]).mint_address
            != mint_address by {
            assert(rest[j] == pools[j + 1]);
        }
        lemma_pool_index_of_is(rest, mint_address, k - 1);
    }
}

/// The first match is the index `trove_index_of` returns.
pub proof fn lemma_trove_index_of_is(
    troves: Seq<TroveEntry>,
    owner: u64,
    mint_address: u64,
    k: int,
)
    requires
        0 <= k < troves.len(),
        troves[k].trove.owner == owner,
        troves[k].mint_address == mint_address,
        forall|j: int| 0 <= j < k ==> !((#[trigger] troves[j]).trove.owner == owner
            && troves[j].mint_address == mint_address),
    ensures
        trove_index_of(troves, owner, mint_address) == k,
    decreases troves.len(),
{
    if k > 0 {
        let rest = troves.subrange(1, troves.len() as int);
        assert forall|j: int| 0 <= j < k - 1 implies !((#[trigger] rest[j]).trove.owner == owner
            && rest[j].mint_address == mint_address) by {
            assert(rest[j] == troves[j + 1]);
        }
        lemma_trove_index_of_is(rest, owner, mint_address, k - 1);
    }
}

/// Replacing a record with one under the same key moves no key: every
/// lookup lands where it did before.
pub proof fn lemma_trove_index_of_update(
    troves: Seq<TroveEntry>,
    i: int,
    entry: TroveEntry,
    owner: u64,
    mint_address: u64,
)
    requires
        0 <= i < troves.len(),
        entry.trove.owner == troves[i].trove.owner,
        entry.mint_address == troves[i].mint_address,
    ensures
        trove_index_of(troves.update(i, entry), owner, mint_address) == trove_index_of(
            troves,
            owner,
            mint_address,
        ),
    decreases troves.len(),
{
    let updated = troves.update(i, entry);
    if i == 0 {
        assert(updated.subrange(1, updated.len() as int) =~= troves.subrange(
            1,
            troves.len() as int,
        ));
    } else {
        assert(updated[0] == troves[0]);
        assert(updated.subrange(1, updated.len() as int) =~= troves.subrange(
            1,
            troves.len() as int,
        ).update(i - 1, entry));
        lemma_trove_index_of_update(
            troves.subrange(1, troves.len() as int),
            i - 1,
            entry,
            owner,
            mint_address,
        );
    }
}

/// Replacing a pool with one under the same key moves no key.
pub proof fn lemma_pool_index_of_update(
    pools: Seq<TroveManager>,
    i: int,
    pool: TroveManager,
    mint_address: u64,
)
    requires
        0 <= i < pools.len(),
        pool.mint_address == pools[i].mint_address,
    ensures
        pool_index_of(pools.update(i, pool), mint_address) == pool_index_of(pools, mint_address),
    decreases pools.len(),
{
    let updated = pools.update(i, pool);
    if i == 0 {
        assert(updated.subrange(1, updated.len() as int) =~= pools.subrange(
            1,
            pools.len() as int,
        ));
    } else {
        assert(updated[0] == pools[0]);
        assert(updated.subrange(1, updated.len() as int) =~= pools.subrange(
            1,
            pools.len() as int,
        ).update(i - 1, pool));
        lemma_pool_index_of_update(
            pools.subrange(1, pools.len() as int),
            i - 1,
            pool,
            mint_address,
        );
    }
}

/// Appending a record leaves every present key where it was, and a
/// fresh key is found at the end.
pub proof fn lemma_trove_index_of_push(
    troves: Seq<TroveEntry>,
    entry: TroveEntry,
    owner: u64,
    mint_address: u64,
)
    ensures
        trove_index_of(troves, owner, mint_address) >= 0 ==> trove_index_of(
            troves.push(entry),
            owner,
            mint_address,
        ) == trove_index_of(troves, owner, mint_address),
        trove_index_of(troves, owner, mint_address) == -1 && entry.trove.owner == owner
            && entry.mint_address == mint_address ==> trove_index_of(
            troves.push(entry),
            owner,
            mint_address,
        ) == troves.len(),
        trove_index_of(troves, owner, mint_address) == -1 && !(entry.trove.owner == owner
            && entry.mint_address == mint_address) ==> trove_index_of(
            troves.push(entry),
            owner,
            mint_address,
        ) == -1,
    decreases troves.len(),
{
    let pushed = troves.push(entry);
    if troves.len() == 0 {
        assert(pushed[0] == entry);
        assert(pushed.subrange(1, pushed.len() as int) =~= Seq::<TroveEntry>::empty());
        assert(trove_index_of(pushed.subrange(1, pushed.len() as int), owner, mint_address)
            == -1);
    } else {
        assert(pushed[0] == troves[0]);
        let rest = troves.subrange(1, troves.len() as int);
        assert(pushed.subrange(1, pushed.len() as int) =~= rest.push(entry));
        lemma_trove_index_of_push(rest, entry, owner, mint_address);
        assert(trove_index_of(pushed.subrange(1, pushed.len() as int), owner, mint_address)
            == trove_index_of(rest.push(entry), owner, mint_address));
    }
}

/// Appending a pool leaves every present key where it was, and a fresh
/// key is found at the end.
pub proof fn lemma_pool_index_of_push(
    pools: Seq<TroveManager>,
    pool: TroveManager,
    mint_address: u64,
)
    ensures
        pool_index_of(pools, mint_address) >= 0 ==> pool_index_of(
            pools.push(pool),
            mint_address,
        ) == pool_index_of(pools, mint_address),
        pool_index_of(pools, mint_address) == -1 && pool.mint_address == mint_address
            ==> pool_index_of(pools.push(pool), mint_address) == pools.len(),
        pool_index_of(pools, mint_address) == -1 && pool.mint_address != mint_address
            ==> pool_index_of(pools.push(pool), mint_address) == -1,
    decreases pools.len(),
{
    let pushed = pools.push(pool);
    if pools.len() == 0 {
        assert(pushed[0] == pool);
        assert(pushed.subrange(1, pushed.len() as int) =~= Seq::<TroveManager>::empty());
        assert(pool_index_of(pushed.subrange(1, pushed.len() as int), mint_address) == -1);
    } else {
        assert(pushed[0] == pools[0]);
        let rest = pools.subrange(1, pools.len() as int);
        assert(pushed.subrange(1, pushed.len() as int) =~= rest.push(pool));
        lemma_pool_index_of_push(rest, pool, mint_address);
        assert(pool_index_of(pushed.subrange(1, pushed.len() as int), mint_address)
            == pool_index_of(rest.push(pool), mint_address));
    }
}

/// Locked collateral never sums to a negative amount.
pub proof fn lemma_sum_collateral_nonneg(troves: Seq<TroveEntry>, mint_address: u64)
    ensures
        sum_collateral(troves, mint_address) >= 0,
    decreases troves.len(),
{
    if troves.len() > 0 {
        lemma_sum_collateral_nonneg(troves.drop_last(), mint_address);
    }
}

/// Outstanding debt never sums to a negative amount.
pub proof fn lemma_sum_debt_nonneg(troves: Seq<TroveEntry>, mint_address: u64)
    ensures
        sum_debt(troves, mint_address) >= 0,
    decreases troves.len(),
{
    if troves.len() > 0 {
        lemma_sum_debt_nonneg(troves.drop_last(), mint_address);
    }
}

/// A single position never holds more collateral than its pool's sum.
pub proof fn lemma_sum_collateral_le(troves: Seq<TroveEntry>, mint_address: u64, i: int)
    requires
        0 <= i < troves.len(),
        troves[i].mint_address == mint_address,
    ensures
        troves[i].trove.collateral <= sum_collateral(troves, mint_address),
    decreases troves.len(),
{
    if i == troves.len() - 1 {
        lemma_sum_collateral_nonneg(troves.drop_last(), mint_address);
    } else {
        assert(troves.drop_last()[i] == troves[i]);
        lemma_sum_collateral_le(troves.drop_last(), mint_address, i);
    }
}

/// A single position never owes more debt than its pool's sum.
pub proof fn lemma_sum_debt_le(troves: Seq<TroveEntry>, mint_address: u64, i: int)
    requires
        0 <= i < troves.len(),
        troves[i].mint_address == mint_address,
    ensures
        troves[i].trove.debt <= sum_debt(troves, mint_address),
    decreases troves.len(),
{
    if i == troves.len() - 1 {
        lemma_sum_debt_nonneg(troves.drop_last(), mint_address);
    } else {
        assert(troves.drop_last()[i] == troves[i]);
        lemma_sum_debt_le(troves.drop_last(), mint_address, i);
    }
}

/// Replacing one record shifts the sums by exactly the change in that
/// record's contribution.
pub proof fn lemma_sum_update(troves: Seq<TroveEntry>, i: int, entry: TroveEntry, mint_address: u64)
    requires
        0 <= i < troves.len(),
    ensures
        sum_collateral(troves.update(i, entry), mint_address) == sum_collateral(
            troves,
            mint_address,
        ) - collateral_part(troves[i], mint_address) + collateral_part(entry, mint_address),
        sum_debt(troves.update(i, entry), mint_address) == sum_debt(troves, mint_address)
            - debt_part(troves[i], mint_address) + debt_part(entry, mint_address),
    decreases troves.len(),
{
    let updated = troves.update(i, entry);
    if i == troves.len() - 1 {
        assert(updated.drop_last() =~= troves.drop_last());
        assert(updated.last() == entry);
    } else {
        assert(updated.drop_last() =~= troves.drop_last().update(i, entry));
        assert(updated.last() == troves.last());
        lemma_sum_update(troves.drop_last(), i, entry, mint_address);
    }
}

/// Appending a record grows the sums by exactly its contribution.
pub proof fn lemma_sum_push(troves: Seq<TroveEntry>, entry: TroveEntry, mint_address: u64)
    ensures
        sum_collateral(troves.push(entry), mint_address) == sum_collateral(troves, mint_address)
            + collateral_part(entry, mint_address),
        sum_debt(troves.push(entry), mint_address) == sum_debt(troves, mint_address) + debt_part(
            entry,
            mint_address,
        ),
{
    let pushed = troves.push(entry);
    assert(pushed.drop_last() =~= troves);
    assert(pushed.last() == entry);
}

/// A pool no position refers to has nothing summed into it.
pub proof fn lemma_sum_absent(troves: Seq<TroveEntry>, mint_address: u64)
    requires
        forall|i: int| 0 <= i < troves.len() ==> (#[trigger] troves[i]).mint_address
            != mint_address,
    ensures
        sum_collateral(troves, mint_address) == 0,
        sum_debt(troves, mint_address) == 0,
    decreases troves.len(),
{
    if troves.len() > 0 {
        assert forall|i: int| 0 <= i < troves.len() - 1 implies (#[trigger] troves.drop_last()[i]).mint_address
            != mint_address by {
            assert(troves.drop_last()[i] == troves[i]);
        }
        lemma_sum_absent(troves.drop_last(), mint_address);
    }
}

} // verus!
