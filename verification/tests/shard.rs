use mpl_inscription::error::{MplInscriptionError, ProgramError};
use mpl_inscription::shard::assign_rank;
use mpl_inscription::state::{InscriptionShard, Key};

fn shard(count: u64, shard_number: u8) -> InscriptionShard {
    InscriptionShard { key: Key::InscriptionShardAccount, bump: 255, shard_number, count }
}

#[test]
fn rank_of_the_sixth_inscription_of_shard_three() {
    let mut s = shard(5, 3);
    assert_eq!(assign_rank(&mut s), Ok(163));
    assert_eq!(s, shard(6, 3));
}

#[test]
fn ranks_of_one_shard_are_a_shard_count_apart() {
    let mut s = shard(0, 7);
    let mut ranks = Vec::new();
    for _ in 0..100 {
        ranks.push(assign_rank(&mut s).unwrap());
    }
    for (k, rank) in ranks.iter().enumerate() {
        assert_eq!(*rank, 7 + 32 * k as u64);
    }
    assert_eq!(s.count, 100);
}

#[test]
fn ranks_of_all_shards_do_not_collide() {
    let mut seen = std::collections::BTreeSet::new();
    for number in 0..32u8 {
        let mut s = shard(0, number);
        for _ in 0..20 {
            assert!(seen.insert(assign_rank(&mut s).unwrap()));
        }
    }
    assert_eq!(seen.len(), 640);
    assert_eq!(seen.iter().next(), Some(&0));
    assert_eq!(seen.iter().last(), Some(&639));
}

#[test]
fn a_full_shard_overflows() {
    let overflow = ProgramError::Custom(MplInscriptionError::NumericalOverflow.code());
    let mut s = shard(u64::MAX, 0);
    assert_eq!(assign_rank(&mut s), Err(overflow));
    assert_eq!(s, shard(u64::MAX, 0));
    // The product overflows.
    let mut s = shard(u64::MAX / 32 + 1, 0);
    assert_eq!(assign_rank(&mut s), Err(overflow));
    // The sum overflows.
    let mut s = shard(u64::MAX / 32, 32);
    assert_eq!(assign_rank(&mut s), Err(overflow));
    assert_eq!(s.count, u64::MAX / 32);
    // The largest rank there is.
    let mut s = shard(u64::MAX / 32, 31);
    assert_eq!(assign_rank(&mut s), Ok(u64::MAX));
    assert_eq!(s.count, u64::MAX / 32 + 1);
}
