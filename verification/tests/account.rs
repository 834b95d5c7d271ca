use mpl_inscription::account::{
    assert_owned_by, assert_signer, Account, MAX_PERMITTED_DATA_INCREASE,
};
use mpl_inscription::address::{program_id, system_program_id, Address};
use mpl_inscription::authority::{
    add_authority, check_membership, position, remove_authority, resolve_authority,
};
use mpl_inscription::derivation::{
    assert_derivation, association_seeds, check_derivation, delegate_seeds, inscription_seeds,
};
use mpl_inscription::error::{MplInscriptionError, ProgramError};
use mpl_inscription::state::InscriptionMetadata;
use solana_program::pubkey::Pubkey;

fn custom(e: MplInscriptionError) -> ProgramError {
    ProgramError::Custom(e.code())
}

fn key(n: u8) -> Address {
    Address::new([n; 32])
}

fn account(data: Vec<u8>) -> Account {
    Account::new(key(1), program_id(), false, data)
}

#[test]
fn addresses_compare_by_their_bytes() {
    let mut bytes = [5u8; 32];
    assert!(key(5) == Address::new(bytes));
    assert!(key(5).has_bytes(&bytes));
    bytes[31] = 6;
    assert!(key(5) != Address::new(bytes));
    assert!(!key(5).has_bytes(&bytes));
    assert_eq!(Address::default(), system_program_id());
    assert_eq!(key(7).to_vec(), vec![7u8; 32]);
}

#[test]
fn write_copies_over_the_bytes_at_the_offset() {
    let mut a = account(vec![1, 2, 3, 4, 5]);
    a.write(1, &[9, 8]);
    assert_eq!(a.data, vec![1, 9, 8, 4, 5]);
    a.write(3, &[7, 7]);
    assert_eq!(a.data, vec![1, 9, 8, 7, 7]);
    a.write(5, &[]);
    a.write(0, &[]);
    assert_eq!(a.data, vec![1, 9, 8, 7, 7]);
    a.write(0, &[0, 1, 2, 3, 4]);
    assert_eq!(a.data, vec![0, 1, 2, 3, 4]);
    let mut empty = account(vec![]);
    empty.write(0, &[]);
    assert!(empty.data.is_empty());
}

#[test]
fn create_claims_an_unclaimed_account() {
    let mut a = Account::new(key(1), system_program_id(), true, vec![]);
    assert!(a.is_unclaimed());
    assert_eq!(a.create(program_id(), 3), Ok(()));
    assert_eq!(a.owner, program_id());
    assert_eq!(a.data, vec![0, 0, 0]);
    assert!(a.is_signer);
    assert!(!a.is_unclaimed());
    assert_eq!(a.create(program_id(), 3), Err(custom(MplInscriptionError::AlreadyInitialized)));
    let mut b = Account::new(key(1), system_program_id(), false, vec![1]);
    assert_eq!(b.create(program_id(), 0), Err(custom(MplInscriptionError::AlreadyInitialized)));
    assert_eq!(b.data, vec![1]);
    let mut c = Account::new(key(1), system_program_id(), false, vec![]);
    assert_eq!(c.claim(key(9), &[4, 5]), Ok(()));
    assert_eq!(c.owner, key(9));
    assert_eq!(c.data, vec![4, 5]);
    assert_eq!(c.claim(key(9), &[4, 5]), Err(custom(MplInscriptionError::AlreadyInitialized)));
}

#[test]
fn resize_cuts_or_extends_with_zeros() {
    let mut a = account(vec![1, 2, 3]);
    assert_eq!(a.resize(5), Ok(()));
    assert_eq!(a.data, vec![1, 2, 3, 0, 0]);
    assert_eq!(a.resize(2), Ok(()));
    assert_eq!(a.data, vec![1, 2]);
    assert_eq!(a.resize(2), Ok(()));
    assert_eq!(a.data, vec![1, 2]);
    assert_eq!(a.resize(3 + MAX_PERMITTED_DATA_INCREASE), Err(ProgramError::InvalidRealloc));
    assert_eq!(a.data, vec![1, 2]);
    assert_eq!(a.resize(2 + MAX_PERMITTED_DATA_INCREASE), Ok(()));
    assert_eq!(a.data_len(), 2 + MAX_PERMITTED_DATA_INCREASE);
    assert_eq!(a.resize(0), Ok(()));
    assert!(a.data_is_empty());
}

#[test]
fn store_fits_the_account_to_the_bytes() {
    let mut a = account(vec![1, 2, 3]);
    assert_eq!(a.store(&[7, 8, 9, 10]), Ok(()));
    assert_eq!(a.data, vec![7, 8, 9, 10]);
    assert_eq!(a.store(&[5]), Ok(()));
    assert_eq!(a.data, vec![5]);
    let big = vec![1u8; 2 + MAX_PERMITTED_DATA_INCREASE];
    assert_eq!(a.store(&big), Err(ProgramError::InvalidRealloc));
    assert_eq!(a.data, vec![5]);
}

#[test]
fn close_hands_the_account_back() {
    let mut a = account(vec![1, 2, 3]);
    a.close();
    assert_eq!(a.owner, system_program_id());
    assert!(a.data.is_empty());
    assert_eq!(a.key, key(1));
    assert!(a.is_unclaimed());
}

#[test]
fn signers_and_owners() {
    let mut a = account(vec![]);
    assert_eq!(assert_signer(&a), Err(ProgramError::MissingRequiredSignature));
    a.is_signer = true;
    assert_eq!(assert_signer(&a), Ok(()));
    assert_eq!(assert_owned_by(&a, &program_id(), MplInscriptionError::IncorrectOwner), Ok(()));
    assert_eq!(
        assert_owned_by(&a, &key(3), MplInscriptionError::IncorrectOwner),
        Err(custom(MplInscriptionError::IncorrectOwner))
    );
    assert!(a.is_owned_by(&program_id()));
    assert!(!a.is_owned_by(&key(3)));
}

#[test]
fn who_acts() {
    let payer = Account::new(key(1), system_program_id(), true, vec![]);
    let authority = Account::new(key(2), system_program_id(), true, vec![]);
    let silent = Account::new(key(3), system_program_id(), false, vec![]);
    assert_eq!(resolve_authority(&payer, None), Ok(key(1)));
    assert_eq!(resolve_authority(&payer, Some(&authority)), Ok(key(2)));
    assert_eq!(resolve_authority(&payer, Some(&silent)), Err(ProgramError::MissingRequiredSignature));
    assert_eq!(resolve_authority(&silent, None), Err(ProgramError::MissingRequiredSignature));
    assert_eq!(
        resolve_authority(&silent, Some(&authority)),
        Err(ProgramError::MissingRequiredSignature)
    );
}

#[test]
fn authority_list() {
    let mut m = InscriptionMetadata::default();
    assert_eq!(check_membership(&m, &key(1)), Err(custom(MplInscriptionError::InvalidAuthority)));
    assert_eq!(remove_authority(&mut m, &key(1)), Err(custom(MplInscriptionError::InvalidAuthority)));
    for n in 1..=4 {
        assert_eq!(add_authority(&mut m, key(n)), Ok(()));
    }
    assert_eq!(add_authority(&mut m, key(2)), Err(custom(MplInscriptionError::AuthorityAlreadyExists)));
    assert_eq!(m.update_authorities, vec![key(1), key(2), key(3), key(4)]);
    assert_eq!(check_membership(&m, &key(3)), Ok(()));
    assert_eq!(position(&m.update_authorities, &key(3)), Some(2));
    assert_eq!(position(&m.update_authorities, &key(9)), None);
    assert_eq!(remove_authority(&mut m, &key(2)), Ok(()));
    assert_eq!(m.update_authorities, vec![key(1), key(4), key(3)]);
    assert_eq!(check_membership(&m, &key(2)), Err(custom(MplInscriptionError::InvalidAuthority)));
    assert_eq!(remove_authority(&mut m, &key(3)), Ok(()));
    assert_eq!(m.update_authorities, vec![key(1), key(4)]);
    // Of an address that a record lists twice, the first leaves.
    m.update_authorities = vec![key(5), key(6), key(5), key(7)];
    assert_eq!(position(&m.update_authorities, &key(5)), Some(0));
    assert_eq!(remove_authority(&mut m, &key(5)), Ok(()));
    assert_eq!(m.update_authorities, vec![key(7), key(6), key(5)]);
}

#[test]
fn derivations_are_checked() {
    let id = Pubkey::new_from_array(program_id().bytes);
    let metadata = key(40);
    let (expected, bump) = Pubkey::find_program_address(
        &[b"Inscription", b"Association", b"image", &metadata.bytes],
        &id,
    );
    let seeds = association_seeds("image", &metadata);
    assert_eq!(
        mpl_inscription::derivation::derive(&seeds),
        Some((Address::new(expected.to_bytes()), bump))
    );
    let at = Account::new(Address::new(expected.to_bytes()), system_program_id(), false, vec![]);
    assert_eq!(
        assert_derivation(&program_id(), &at, &seeds, MplInscriptionError::DerivedKeyInvalid),
        Ok(bump)
    );
    let elsewhere = Account::new(key(41), system_program_id(), false, vec![]);
    assert_eq!(
        assert_derivation(&program_id(), &elsewhere, &seeds, MplInscriptionError::InvalidDelegate),
        Err(custom(MplInscriptionError::InvalidDelegate))
    );
    // Under another program the seeds derive another address.
    assert_eq!(
        assert_derivation(&key(42), &at, &seeds, MplInscriptionError::DerivedKeyInvalid),
        Err(custom(MplInscriptionError::DerivedKeyInvalid))
    );
    let (expected, bump) = Pubkey::find_program_address(
        &[b"Inscription", id.as_ref(), &[1; 32], &[2; 32], &[3; 32]],
        &id,
    );
    assert_eq!(
        mpl_inscription::derivation::derive(&delegate_seeds(&key(1), &key(2), &key(3))),
        Some((Address::new(expected.to_bytes()), bump))
    );
    assert_eq!(inscription_seeds(&key(1)).len(), 3);
}

#[test]
fn derivation_outcomes() {
    let e = MplInscriptionError::DerivedKeyInvalid;
    assert_eq!(check_derivation(Some((key(1), 250)), &key(1), e), Ok(250));
    assert_eq!(check_derivation(Some((key(1), 250)), &key(2), e), Err(custom(e)));
    assert_eq!(check_derivation(None, &key(1), e), Err(custom(e)));
}

#[test]
fn seeds_that_derive_nothing() {
    // A seed of more than 32 bytes has no address.
    let seeds = vec![vec![0u8; 33]];
    assert_eq!(mpl_inscription::derivation::derive(&seeds), None);
    let at = Account::new(key(1), system_program_id(), false, vec![]);
    assert_eq!(
        assert_derivation(&program_id(), &at, &seeds, MplInscriptionError::DerivedKeyInvalid),
        Err(custom(MplInscriptionError::DerivedKeyInvalid))
    );
}
