use borsh::BorshSerialize;
use mpl_inscription::address::Address;
use mpl_inscription::error::{MplInscriptionError, ProgramError};
use mpl_inscription::state::{
    AssociatedInscription, DataType, InscriptionMetadata, InscriptionShard, InscriptionState, Key,
    EMPTY_PADDING, INITIAL_SIZE, SHARD_COUNT,
};

fn sample_metadata() -> InscriptionMetadata {
    InscriptionMetadata {
        key: Key::MintInscriptionMetadataAccount,
        inscription_account: Address::new([7u8; 32]),
        bump: 254,
        data_type: DataType::Json,
        inscription_rank: 163,
        inscription_bump: Some(251),
        update_authorities: vec![Address::new([1u8; 32]), Address::new([2u8; 32])],
        associated_inscriptions: vec![
            AssociatedInscription {
                tag: "image".to_string(),
                bump: 255,
                data_type: DataType::Binary,
            },
            AssociatedInscription {
                tag: "na\u{ef}ve".to_string(),
                bump: 3,
                data_type: DataType::Uninitialized,
            },
        ],
        mint: Some(Address::new([9u8; 32])),
        _padding: [0, 1, 2, 3, 4, 5, 6],
    }
}

fn same_metadata(a: &InscriptionMetadata, b: &InscriptionMetadata) -> bool {
    a.key == b.key
        && a.inscription_account == b.inscription_account
        && a.bump == b.bump
        && a.data_type == b.data_type
        && a.inscription_rank == b.inscription_rank
        && a.inscription_bump == b.inscription_bump
        && a.update_authorities == b.update_authorities
        && a.associated_inscriptions.len() == b.associated_inscriptions.len()
        && a
            .associated_inscriptions
            .iter()
            .zip(b.associated_inscriptions.iter())
            .all(|(x, y)| x.tag == y.tag && x.bump == y.bump && x.data_type == y.data_type)
        && a.mint == b.mint
        && a._padding == b._padding
}

/// The serial form as borsh writes it, field by field.
fn borsh_metadata(m: &InscriptionMetadata) -> Vec<u8> {
    let mut out = Vec::new();
    out.extend(m.key.tag().try_to_vec().unwrap());
    out.extend(m.inscription_account.bytes.try_to_vec().unwrap());
    out.extend(m.bump.try_to_vec().unwrap());
    out.extend(m.data_type.tag().try_to_vec().unwrap());
    out.extend(m.inscription_rank.try_to_vec().unwrap());
    out.extend(m.inscription_bump.try_to_vec().unwrap());
    let authorities: Vec<[u8; 32]> = m.update_authorities.iter().map(|a| a.bytes).collect();
    out.extend(authorities.try_to_vec().unwrap());
    out.extend((m.associated_inscriptions.len() as u32).try_to_vec().unwrap());
    for a in m.associated_inscriptions.iter() {
        out.extend(a.tag.try_to_vec().unwrap());
        out.extend(a.bump.try_to_vec().unwrap());
        out.extend(a.data_type.tag().try_to_vec().unwrap());
    }
    out.extend(m.mint.map(|a| a.bytes).try_to_vec().unwrap());
    out.extend(m._padding.try_to_vec().unwrap());
    out
}

#[test]
fn constants() {
    assert_eq!(SHARD_COUNT, 32);
    assert_eq!(INITIAL_SIZE, 1024);
    assert_eq!(EMPTY_PADDING, [0u8; 7]);
    assert_eq!(mpl_inscription::state::PREFIX, "Inscription");
    assert_eq!(mpl_inscription::state::ASSOCIATION, "Association");
    assert_eq!(mpl_inscription::state::SHARD_PREFIX, "Shard");
}

#[test]
fn tags_of_the_kinds() {
    assert_eq!(Key::Uninitialized.tag(), 0);
    assert_eq!(Key::InscriptionMetadataAccount.tag(), 1);
    assert_eq!(Key::MintInscriptionMetadataAccount.tag(), 2);
    assert_eq!(Key::InscriptionShardAccount.tag(), 3);
    assert_eq!(Key::from_tag(3), Some(Key::InscriptionShardAccount));
    assert_eq!(Key::from_tag(4), None);
    assert_eq!(DataType::Uninitialized.tag(), 0);
    assert_eq!(DataType::Binary.tag(), 1);
    assert_eq!(DataType::Json.tag(), 2);
    assert_eq!(DataType::from_tag(2), Some(DataType::Json));
    assert_eq!(DataType::from_tag(3), None);
    assert_eq!(InscriptionState::Curated.tag(), 2);
    assert_eq!(InscriptionState::from_tag(1), Some(InscriptionState::Validated));
    assert_eq!(InscriptionState::from_tag(0), Some(InscriptionState::Raw));
    assert_eq!(InscriptionState::from_tag(3), None);
}

#[test]
fn default_records() {
    let m = InscriptionMetadata::default();
    assert_eq!(m.key, Key::InscriptionMetadataAccount);
    assert_eq!(m.inscription_account, Address::new([0u8; 32]));
    assert_eq!(m.bump, 0);
    assert_eq!(m.data_type, DataType::Uninitialized);
    assert_eq!(m.inscription_rank, u64::MAX);
    assert_eq!(m.inscription_bump, None);
    assert!(m.update_authorities.is_empty());
    assert!(m.associated_inscriptions.is_empty());
    assert_eq!(m.mint, None);
    assert_eq!(m._padding, [0u8; 7]);
    let s = InscriptionShard::default();
    assert_eq!(
        s,
        InscriptionShard { key: Key::InscriptionShardAccount, bump: 0, shard_number: 0, count: 0 }
    );
}

#[test]
fn shard_bytes_are_exact() {
    let shard =
        InscriptionShard { key: Key::InscriptionShardAccount, bump: 254, shard_number: 3, count: 5 };
    let bytes = shard.encode();
    assert_eq!(bytes, vec![3, 254, 3, 5, 0, 0, 0, 0, 0, 0, 0]);
    assert_eq!(InscriptionShard::decode(&bytes), Ok(shard));
}

#[test]
fn shard_round_trip_at_the_bounds() {
    for count in [0u64, 1, 0x0102030405060708, u64::MAX] {
        for shard_number in [0u8, 31, 255] {
            let shard = InscriptionShard {
                key: Key::InscriptionShardAccount,
                bump: shard_number ^ 0x5a,
                shard_number,
                count,
            };
            assert_eq!(InscriptionShard::decode(&shard.encode()), Ok(shard));
        }
    }
}

#[test]
fn records_of_another_kind_are_refused() {
    let no_shard = ProgramError::Custom(MplInscriptionError::InvalidShardAccount.code());
    for key in [Key::Uninitialized, Key::InscriptionMetadataAccount, Key::MintInscriptionMetadataAccount] {
        let odd = InscriptionShard { key, bump: 1, shard_number: 2, count: 3 };
        assert_eq!(InscriptionShard::decode(&odd.encode()), Err(no_shard));
    }
    let no_metadata =
        ProgramError::Custom(MplInscriptionError::InvalidInscriptionMetadataAccount.code());
    for key in [Key::Uninitialized, Key::InscriptionShardAccount] {
        let odd = InscriptionMetadata { key, ..sample_metadata() };
        assert_eq!(InscriptionMetadata::decode(&odd.encode().unwrap()).err(), Some(no_metadata));
    }
    for key in [Key::InscriptionMetadataAccount, Key::MintInscriptionMetadataAccount] {
        assert!(key.is_metadata());
        let m = InscriptionMetadata { key, ..sample_metadata() };
        assert_eq!(InscriptionMetadata::decode(&m.encode().unwrap()).unwrap().key, key);
    }
    assert!(!Key::Uninitialized.is_metadata());
    assert!(!Key::InscriptionShardAccount.is_metadata());
}

#[test]
fn shard_decode_rejects_what_is_no_shard() {
    let bytes = vec![3, 254, 3, 5, 0, 0, 0, 0, 0, 0, 0];
    assert_eq!(InscriptionShard::decode(&bytes[..10]), Err(ProgramError::BorshIoError));
    assert_eq!(InscriptionShard::decode(&[]), Err(ProgramError::BorshIoError));
    let mut long = bytes.clone();
    long.push(0);
    assert_eq!(InscriptionShard::decode(&long), Err(ProgramError::BorshIoError));
    let mut bad_key = bytes.clone();
    bad_key[0] = 4;
    assert_eq!(InscriptionShard::decode(&bad_key), Err(ProgramError::BorshIoError));
}

#[test]
fn metadata_bytes_are_borshs() {
    let m = sample_metadata();
    assert_eq!(m.encode().unwrap(), borsh_metadata(&m));
    let d = InscriptionMetadata::default();
    assert_eq!(d.encode().unwrap(), borsh_metadata(&d));
}

#[test]
fn metadata_bytes_are_exact() {
    let m = InscriptionMetadata {
        update_authorities: vec![Address::new([0xaa; 32])],
        bump: 255,
        inscription_rank: 163,
        ..InscriptionMetadata::default()
    };
    let mut expected = vec![1u8];
    expected.extend([0u8; 32]);
    expected.push(255);
    expected.push(0);
    expected.extend([163, 0, 0, 0, 0, 0, 0, 0]);
    expected.push(0);
    expected.extend([1, 0, 0, 0]);
    expected.extend([0xaa; 32]);
    expected.extend([0, 0, 0, 0]);
    expected.push(0);
    expected.extend([0u8; 7]);
    assert_eq!(m.encode().unwrap(), expected);
    assert_eq!(expected.len(), 92);
}

#[test]
fn metadata_round_trip() {
    let m = sample_metadata();
    let back = InscriptionMetadata::decode(&m.encode().unwrap()).unwrap();
    assert!(same_metadata(&m, &back));
}

#[test]
fn metadata_round_trip_without_authorities() {
    let m = InscriptionMetadata::default();
    let bytes = m.encode().unwrap();
    let back = InscriptionMetadata::decode(&bytes).unwrap();
    assert!(same_metadata(&m, &back));
    assert!(back.update_authorities.is_empty());
    assert_eq!(back.inscription_rank, u64::MAX);
}

#[test]
fn metadata_round_trip_with_longest_tag() {
    let mut m = sample_metadata();
    m.associated_inscriptions = vec![AssociatedInscription {
        tag: "abcdefghijklmnopqrstuvwxyz012345".to_string(),
        bump: 0,
        data_type: DataType::Json,
    }];
    assert_eq!(m.associated_inscriptions[0].tag.len(), 32);
    let back = InscriptionMetadata::decode(&m.encode().unwrap()).unwrap();
    assert!(same_metadata(&m, &back));
    // A record can hold a tag longer than any that the program would accept.
    m.associated_inscriptions[0].tag = "x".repeat(1000);
    let back = InscriptionMetadata::decode(&m.encode().unwrap()).unwrap();
    assert!(same_metadata(&m, &back));
}

#[test]
fn metadata_decode_rejects_what_is_no_record() {
    let bytes = sample_metadata().encode().unwrap();
    assert!(InscriptionMetadata::decode(&bytes).is_ok());
    for cut in 0..bytes.len() {
        assert_eq!(
            InscriptionMetadata::decode(&bytes[..cut]).err(),
            Some(ProgramError::BorshIoError),
            "cut at {}",
            cut
        );
    }
    let mut long = bytes.clone();
    long.push(0);
    assert_eq!(InscriptionMetadata::decode(&long).err(), Some(ProgramError::BorshIoError));
    // The kind.
    let mut bad = bytes.clone();
    bad[0] = 9;
    assert_eq!(InscriptionMetadata::decode(&bad).err(), Some(ProgramError::BorshIoError));
    // The data type.
    let mut bad = bytes.clone();
    bad[34] = 3;
    assert_eq!(InscriptionMetadata::decode(&bad).err(), Some(ProgramError::BorshIoError));
    // The presence byte of the inscription bump.
    let mut bad = bytes.clone();
    assert_eq!(bad[43], 1);
    bad[43] = 2;
    assert_eq!(InscriptionMetadata::decode(&bad).err(), Some(ProgramError::BorshIoError));
}

#[test]
fn metadata_decode_rejects_a_tag_that_is_no_text() {
    let mut m = sample_metadata();
    m.associated_inscriptions =
        vec![AssociatedInscription { tag: "ab".to_string(), bump: 1, data_type: DataType::Binary }];
    let bytes = m.encode().unwrap();
    let at = bytes.windows(2).position(|w| w == b"ab").unwrap();
    let mut bad = bytes.clone();
    bad[at] = 0xff;
    assert_eq!(InscriptionMetadata::decode(&bad).err(), Some(ProgramError::BorshIoError));
    let mut good = bytes.clone();
    good[at] = 0xc3;
    good[at + 1] = 0xa9;
    let back = InscriptionMetadata::decode(&good).unwrap();
    assert_eq!(back.associated_inscriptions[0].tag, "\u{e9}");
}

#[test]
fn associated_inscription_duplicate() {
    let a = AssociatedInscription { tag: "image".to_string(), bump: 7, data_type: DataType::Json };
    let b = a.duplicate();
    assert_eq!(b.tag, "image");
    assert_eq!(b.bump, 7);
    assert_eq!(b.data_type, DataType::Json);
}
