//! The rank counter.
//!
//! Ranks order the inscriptions. One counter would be written by every new
//! inscription, so the count is spread over `SHARD_COUNT` shards: shard `s`
//! hands out the ranks `s`, `s + SHARD_COUNT`, `s + 2 * SHARD_COUNT`, and so on.
use vstd::prelude::*;
use crate::error::{MplInscriptionError, ProgramError, custom};
use crate::state::{InscriptionShard, SHARD_COUNT};

verus! {

/// The rank that shard `shard_number` hands out after `count` others.
pub open spec fn rank_of(count: int, shard_number: int) -> int {
    count * SHARD_COUNT + shard_number
}

/// Whether the shard can hand out another rank: the rank and the new count
/// both fit 64 bits.
pub open spec fn can_assign(shard: InscriptionShard) -> bool {
    rank_of(shard.count as int, shard.shard_number as int) <= u64::MAX && shard.count < u64::MAX
}

/// The shard after it handed out a rank.
pub open spec fn advanced(shard: InscriptionShard) -> InscriptionShard
    recommends
        can_assign(shard),
{
    InscriptionShard { count: (shard.count + 1) as u64, ..shard }
}

/// Takes the next rank from `shard`. Fails, leaving the shard as it was, where
/// the rank or the new count would overflow.
pub fn assign_rank(shard: &mut InscriptionShard) -> (r: Result<u64, ProgramError>)
    ensures
        match r {
            Ok(rank) => can_assign(*old(shard)) && rank == rank_of(
                old(shard).count as int,
                old(shard).shard_number as int,
            ) && *final(shard) == advanced(*old(shard)),
            Err(e) => !can_assign(*old(shard)) && e == custom(
                MplInscriptionError::NumericalOverflow,
            ) && *final(shard) == *old(shard),
        },
{
    let base = match shard.count.checked_mul(SHARD_COUNT as u64) {
        Some(x) => x,
        None => {
            return Err(ProgramError::from(MplInscriptionError::NumericalOverflow));
        },
    };
    let rank = match base.checked_add(shard.shard_number as u64) {
        Some(x) => x,
        None => {
            return Err(ProgramError::from(MplInscriptionError::NumericalOverflow));
        },
    };
    let count = match shard.count.checked_add(1) {
        Some(x) => x,
        None => {
            return Err(ProgramError::from(MplInscriptionError::NumericalOverflow));
        },
    };
    shard.count = count;
    Ok(rank)
}

/// The ranks that one shard hands out in a row: the `k`-th rank after a given
/// one lies `k * SHARD_COUNT` above it. From a new shard they are
/// `shard_number`, `shard_number + 32`, `shard_number + 64`, and so on.
pub proof fn lemma_ranks_of_one_shard(count: nat, k: nat, shard_number: u8)
    ensures
        rank_of((count + k) as int, shard_number as int) == rank_of(
            count as int,
            shard_number as int,
        ) + 32 * k,
        rank_of(k as int, shard_number as int) == shard_number + 32 * k,
{
}

/// Rank uniqueness: two ranks are equal only where the same shard handed them
/// out at the same count. This holds of shards numbered below `SHARD_COUNT`.
pub proof fn lemma_rank_unique(count1: nat, shard1: u8, count2: nat, shard2: u8)
    requires
        shard1 < SHARD_COUNT,
        shard2 < SHARD_COUNT,
        rank_of(count1 as int, shard1 as int) == rank_of(count2 as int, shard2 as int),
    ensures
        count1 == count2,
        shard1 == shard2,
{
}

/// A rank tells the shard and the count it came from.
pub proof fn lemma_rank_decomposes(count: nat, shard_number: u8)
    requires
        shard_number < SHARD_COUNT,
    ensures
        rank_of(count as int, shard_number as int) % 32 == shard_number,
        rank_of(count as int, shard_number as int) / 32 == count,
{
}

} // verus!
