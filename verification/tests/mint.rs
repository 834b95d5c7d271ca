use borsh::BorshSerialize;
use mpl_inscription::account::Account;
use mpl_inscription::address::{
    program_id, system_program_id, token_metadata_program_id, token_program_id, Address,
};
use mpl_inscription::error::{MplInscriptionError, ProgramError};
use mpl_inscription::processor::delegate::process_delegate;
use mpl_inscription::processor::initialize_from_mint::{
    process_initialize_from_mint, seed_authorities,
};
use mpl_inscription::processor::set_mint::process_set_mint;
use mpl_inscription::processor::Processor;
use mpl_inscription::state::{DataType, InscriptionMetadata, InscriptionShard, Key};
use mpl_inscription::token_metadata::{
    read_token_metadata, token_metadata_result, Collection, TokenMetadata,
};
use mpl_token_metadata::accounts::Metadata;
use solana_program::pubkey::Pubkey;

fn custom(e: MplInscriptionError) -> ProgramError {
    ProgramError::Custom(e.code())
}

fn key(n: u8) -> Address {
    Address::new([n; 32])
}

fn pda(seeds: &[&[u8]]) -> (Address, u8) {
    let id = Pubkey::new_from_array(program_id().bytes);
    let (k, bump) = Pubkey::find_program_address(seeds, &id);
    (Address::new(k.to_bytes()), bump)
}

fn derived_from(account: &Address) -> (Address, u8) {
    pda(&[b"Inscription", &program_id().bytes, &account.bytes])
}

fn delegate_record(collection: &Address, authority: &Address, delegate: &Address) -> (Address, u8) {
    pda(&[
        b"Inscription",
        &program_id().bytes,
        &collection.bytes,
        &authority.bytes,
        &delegate.bytes,
    ])
}

fn unclaimed(key: Address, is_signer: bool) -> Account {
    Account::new(key, system_program_id(), is_signer, vec![])
}

fn nobody() -> Account {
    Account::new(program_id(), program_id(), false, vec![])
}

fn system_program() -> Account {
    Account::new(system_program_id(), key(200), false, vec![])
}

fn shard_account(number: u8, count: u64) -> Account {
    let (address, bump) = pda(&[b"Inscription", b"Shard", &program_id().bytes, &[number]]);
    let shard = InscriptionShard { key: Key::InscriptionShardAccount, bump, shard_number: number, count };
    Account::new(address, program_id(), false, shard.encode())
}

fn token_metadata_bytes(
    update_authority: Address,
    mint: Address,
    collection: Option<(bool, Address)>,
) -> Vec<u8> {
    let metadata = Metadata {
        key: mpl_token_metadata::types::Key::MetadataV1,
        update_authority: Pubkey::new_from_array(update_authority.bytes),
        mint: Pubkey::new_from_array(mint.bytes),
        name: "An inscribed token".to_string(),
        symbol: "INS".to_string(),
        uri: "https://example.com/token.json".to_string(),
        seller_fee_basis_points: 500,
        creators: None,
        primary_sale_happened: false,
        is_mutable: true,
        edition_nonce: Some(254),
        token_standard: Some(mpl_token_metadata::types::TokenStandard::NonFungible),
        collection: collection.map(|(verified, key)| mpl_token_metadata::types::Collection {
            verified,
            key: Pubkey::new_from_array(key.bytes),
        }),
        uses: None,
        collection_details: None,
        programmable_config: None,
    };
    metadata.try_to_vec().unwrap()
}

const MINT: u8 = 21;
const UPDATE_AUTHORITY: u8 = 22;
const PAYER: u8 = 23;
const DELEGATE: u8 = 24;
const COLLECTION: u8 = 25;
const TOKEN_METADATA: u8 = 26;

/// inscription, metadata, mint, token metadata, shard, payer, authority,
/// system program, delegate record
fn mint_accounts(collection: Option<(bool, Address)>, authority: u8, with_record: bool) -> Vec<Account> {
    let mint = key(MINT);
    let (inscription, _) = derived_from(&mint);
    let (metadata, _) = derived_from(&inscription);
    let (record, _) = delegate_record(&key(COLLECTION), &key(UPDATE_AUTHORITY), &key(authority));
    vec![
        unclaimed(inscription, false),
        unclaimed(metadata, false),
        Account::new(mint, token_program_id(), false, vec![0; 82]),
        Account::new(
            key(TOKEN_METADATA),
            token_metadata_program_id(),
            false,
            token_metadata_bytes(key(UPDATE_AUTHORITY), mint, collection),
        ),
        shard_account(0, 0),
        unclaimed(key(PAYER), true),
        unclaimed(key(authority), true),
        system_program(),
        if with_record { Account::new(record, program_id(), false, vec![]) } else { nobody() },
    ]
}

fn snapshot(accounts: &Vec<Account>) -> Vec<(Address, Address, bool, Vec<u8>)> {
    accounts.iter().map(|a| (a.key, a.owner, a.is_signer, a.data.clone())).collect()
}

#[test]
fn token_metadata_is_read() {
    let bytes = token_metadata_bytes(key(1), key(2), Some((true, key(3))));
    assert_eq!(
        read_token_metadata(&bytes),
        Ok(TokenMetadata {
            update_authority: key(1),
            mint: key(2),
            collection: Some(Collection { verified: true, key: key(3) }),
        })
    );
    let bytes = token_metadata_bytes(key(4), key(5), None);
    assert_eq!(
        read_token_metadata(&bytes),
        Ok(TokenMetadata { update_authority: key(4), mint: key(5), collection: None })
    );
    let bytes = token_metadata_bytes(key(4), key(5), Some((false, key(6))));
    assert_eq!(
        read_token_metadata(&bytes).unwrap().collection,
        Some(Collection { verified: false, key: key(6) })
    );
}

#[test]
fn token_metadata_of_another_kind_is_refused() {
    let mut bytes = token_metadata_bytes(key(1), key(2), None);
    bytes[0] = 6;
    assert_eq!(read_token_metadata(&bytes), Err(ProgramError::BorshIoError));
    assert_eq!(read_token_metadata(&[]), Err(ProgramError::BorshIoError));
    assert_eq!(read_token_metadata(&[4, 1, 2]), Err(ProgramError::BorshIoError));
    assert_eq!(token_metadata_result(None), Err(ProgramError::BorshIoError));
    let m = TokenMetadata { update_authority: key(1), mint: key(2), collection: None };
    assert_eq!(token_metadata_result(Some(m)), Ok(m));
}

#[test]
fn first_authorities() {
    let plain = TokenMetadata { update_authority: key(1), mint: key(2), collection: None };
    assert_eq!(seed_authorities(&plain, &key(1), None), Ok(vec![key(1)]));
    assert_eq!(
        seed_authorities(&plain, &key(9), None),
        Err(custom(MplInscriptionError::InvalidAuthority))
    );
    let member = TokenMetadata {
        update_authority: key(1),
        mint: key(2),
        collection: Some(Collection { verified: true, key: key(3) }),
    };
    let (record, _) = delegate_record(&key(3), &key(1), &key(9));
    let record = Account::new(record, program_id(), false, vec![]);
    assert_eq!(seed_authorities(&member, &key(9), Some(&record)), Ok(vec![key(1), key(9)]));
    // A record that nobody has created approves nobody.
    let missing = unclaimed(record.key, false);
    assert_eq!(
        seed_authorities(&member, &key(9), Some(&missing)),
        Err(custom(MplInscriptionError::InvalidDelegate))
    );
    let foreign = Account::new(record.key, key(77), false, vec![]);
    assert_eq!(
        seed_authorities(&member, &key(9), Some(&foreign)),
        Err(custom(MplInscriptionError::InvalidDelegate))
    );
    // The update authority needs no approval and is listed once, whatever
    // record comes along.
    assert_eq!(seed_authorities(&member, &key(1), Some(&record)), Ok(vec![key(1)]));
    assert_eq!(seed_authorities(&member, &key(1), Some(&missing)), Ok(vec![key(1)]));
    assert_eq!(seed_authorities(&member, &key(1), None), Ok(vec![key(1)]));
    let (own, _) = delegate_record(&key(3), &key(1), &key(1));
    let own = Account::new(own, program_id(), false, vec![]);
    assert_eq!(seed_authorities(&member, &key(1), Some(&own)), Ok(vec![key(1)]));
    // Without the record the delegate is nobody.
    assert_eq!(
        seed_authorities(&member, &key(9), None),
        Err(custom(MplInscriptionError::InvalidAuthority))
    );
    // The record of another delegate.
    assert_eq!(
        seed_authorities(&member, &key(8), Some(&record)),
        Err(custom(MplInscriptionError::InvalidDelegate))
    );
    // A membership that nobody has confirmed counts for nothing.
    let claimed = TokenMetadata {
        collection: Some(Collection { verified: false, key: key(3) }),
        ..member
    };
    assert_eq!(
        seed_authorities(&claimed, &key(9), Some(&record)),
        Err(custom(MplInscriptionError::InvalidAuthority))
    );
    assert_eq!(seed_authorities(&claimed, &key(1), Some(&record)), Ok(vec![key(1)]));
}

#[test]
fn initialize_from_mint_by_the_update_authority() {
    let mut accounts = mint_accounts(None, UPDATE_AUTHORITY, false);
    let (_, inscription_bump) = derived_from(&key(MINT));
    let (_, bump) = derived_from(&accounts[0].key);
    assert_eq!(process_initialize_from_mint(&mut accounts), Ok(()));
    assert_eq!(accounts[0].owner, program_id());
    assert!(accounts[0].data.is_empty());
    let metadata = InscriptionMetadata::decode(&accounts[1].data).unwrap();
    assert_eq!(metadata.key, Key::MintInscriptionMetadataAccount);
    assert_eq!(metadata.inscription_account, accounts[0].key);
    assert_eq!(metadata.bump, bump);
    assert_eq!(metadata.inscription_bump, Some(inscription_bump));
    assert_eq!(metadata.data_type, DataType::Uninitialized);
    assert_eq!(metadata.inscription_rank, 0);
    assert_eq!(metadata.update_authorities, vec![key(UPDATE_AUTHORITY)]);
    assert_eq!(metadata.mint, None);
    assert_eq!(InscriptionShard::decode(&accounts[4].data).unwrap().count, 1);
    let before = snapshot(&accounts);
    assert_eq!(
        process_initialize_from_mint(&mut accounts),
        Err(custom(MplInscriptionError::AlreadyInitialized))
    );
    assert_eq!(snapshot(&accounts), before);
}

#[test]
fn initialize_from_mint_by_a_delegate() {
    let mut accounts = mint_accounts(Some((true, key(COLLECTION))), DELEGATE, true);
    assert_eq!(process_initialize_from_mint(&mut accounts), Ok(()));
    let metadata = InscriptionMetadata::decode(&accounts[1].data).unwrap();
    assert_eq!(metadata.update_authorities, vec![key(UPDATE_AUTHORITY), key(DELEGATE)]);
    assert_eq!(accounts[1].data.len(), 92 + 1 + 32);
}

#[test]
fn initialize_from_mint_failures() {
    let check = |accounts: &mut Vec<Account>, expected: ProgramError| {
        let before = snapshot(accounts);
        assert_eq!(process_initialize_from_mint(accounts), Err(expected));
        assert_eq!(snapshot(accounts), before);
    };
    let fresh = || mint_accounts(Some((true, key(COLLECTION))), DELEGATE, true);
    let mut a = fresh();
    a.pop();
    check(&mut a, ProgramError::NotEnoughAccountKeys);
    let mut a = fresh();
    a[0].owner = program_id();
    check(&mut a, custom(MplInscriptionError::AlreadyInitialized));
    let mut a = fresh();
    a[1].data = vec![1];
    check(&mut a, custom(MplInscriptionError::AlreadyInitialized));
    let mut a = fresh();
    a[3].owner = token_program_id();
    check(&mut a, custom(MplInscriptionError::IncorrectOwner));
    let mut a = fresh();
    a[2].owner = token_metadata_program_id();
    check(&mut a, custom(MplInscriptionError::IncorrectOwner));
    let mut a = fresh();
    a[3].data[0] = 0;
    check(&mut a, ProgramError::BorshIoError);
    let mut a = fresh();
    a[3].data = token_metadata_bytes(key(UPDATE_AUTHORITY), key(99), None);
    check(&mut a, custom(MplInscriptionError::MintMismatch));
    let mut a = fresh();
    a[0].key = key(98);
    check(&mut a, custom(MplInscriptionError::DerivedKeyInvalid));
    let mut a = fresh();
    a[1].key = key(97);
    check(&mut a, custom(MplInscriptionError::DerivedKeyInvalid));
    let mut a = fresh();
    a[6].is_signer = false;
    check(&mut a, ProgramError::MissingRequiredSignature);
    let mut a = fresh();
    a[8].key = key(96);
    check(&mut a, custom(MplInscriptionError::InvalidDelegate));
    // The record lives where it should, but Delegate has never created it.
    let mut a = fresh();
    a[8].owner = system_program_id();
    check(&mut a, custom(MplInscriptionError::InvalidDelegate));
    let mut a = fresh();
    a[8] = nobody();
    check(&mut a, custom(MplInscriptionError::InvalidAuthority));
    let mut a = fresh();
    a[7].key = key(95);
    check(&mut a, custom(MplInscriptionError::InvalidSystemProgram));
    let mut a = fresh();
    a[4].owner = key(94);
    check(&mut a, custom(MplInscriptionError::InvalidShardAccount));
    let mut a = fresh();
    a[4] = shard_account(0, u64::MAX);
    check(&mut a, custom(MplInscriptionError::NumericalOverflow));
    // The payer alone acts where no authority comes along.
    let mut a = mint_accounts(None, UPDATE_AUTHORITY, false);
    a[6] = nobody();
    check(&mut a, custom(MplInscriptionError::InvalidAuthority));
    a[5] = unclaimed(key(UPDATE_AUTHORITY), true);
    assert_eq!(process_initialize_from_mint(&mut a), Ok(()));
}

/// inscription, metadata, mint, payer, system program
fn set_mint_accounts() -> Vec<Account> {
    let mut a = mint_accounts(None, UPDATE_AUTHORITY, false);
    process_initialize_from_mint(&mut a).unwrap();
    vec![
        a[0].duplicate(),
        a[1].duplicate(),
        a[2].duplicate(),
        unclaimed(key(PAYER), true),
        system_program(),
    ]
}

#[test]
fn set_mint_records_the_mint() {
    let mut accounts = set_mint_accounts();
    let len = accounts[1].data.len();
    assert_eq!(process_set_mint(&mut accounts), Ok(()));
    let metadata = InscriptionMetadata::decode(&accounts[1].data).unwrap();
    assert_eq!(metadata.mint, Some(key(MINT)));
    assert_eq!(metadata.update_authorities, vec![key(UPDATE_AUTHORITY)]);
    assert_eq!(accounts[1].data.len(), len + 32);
    // Setting it again changes nothing.
    let before = snapshot(&accounts);
    assert_eq!(Processor::process_instruction(&program_id(), &mut accounts, &[10]), Ok(()));
    assert_eq!(snapshot(&accounts), before);
}

#[test]
fn set_mint_failures() {
    let check = |accounts: &mut Vec<Account>, expected: ProgramError| {
        let before = snapshot(accounts);
        assert_eq!(process_set_mint(accounts), Err(expected));
        assert_eq!(snapshot(accounts), before);
    };
    let mut a = set_mint_accounts();
    a.pop();
    check(&mut a, ProgramError::NotEnoughAccountKeys);
    let mut a = set_mint_accounts();
    a[0].owner = system_program_id();
    check(&mut a, custom(MplInscriptionError::NotInitialized));
    let mut a = set_mint_accounts();
    a[1].data = vec![];
    check(&mut a, custom(MplInscriptionError::NotInitialized));
    let mut a = set_mint_accounts();
    a[2].owner = system_program_id();
    check(&mut a, custom(MplInscriptionError::IncorrectOwner));
    let mut a = set_mint_accounts();
    a[2].key = key(90);
    check(&mut a, custom(MplInscriptionError::DerivedKeyInvalid));
    let mut a = set_mint_accounts();
    a[1].key = key(91);
    check(&mut a, custom(MplInscriptionError::DerivedKeyInvalid));
    let mut a = set_mint_accounts();
    a[3].is_signer = false;
    check(&mut a, ProgramError::MissingRequiredSignature);
    let mut a = set_mint_accounts();
    a[1].data.push(0);
    check(&mut a, ProgramError::BorshIoError);
    let mut a = set_mint_accounts();
    a[1].data[0] = 1;
    check(&mut a, custom(MplInscriptionError::InvalidInscriptionMetadataAccount));
}

/// delegate record, delegate, token metadata, mint, authority, payer, system
/// program
fn delegate_accounts() -> Vec<Account> {
    let (record, _) = delegate_record(&key(COLLECTION), &key(UPDATE_AUTHORITY), &key(DELEGATE));
    vec![
        unclaimed(record, false),
        unclaimed(key(DELEGATE), false),
        Account::new(
            key(TOKEN_METADATA),
            token_metadata_program_id(),
            false,
            token_metadata_bytes(key(UPDATE_AUTHORITY), key(COLLECTION), None),
        ),
        Account::new(key(COLLECTION), token_program_id(), false, vec![0; 82]),
        unclaimed(key(UPDATE_AUTHORITY), true),
        unclaimed(key(PAYER), true),
        system_program(),
    ]
}

#[test]
fn delegate_creates_the_record() {
    let mut accounts = delegate_accounts();
    let others = snapshot(&accounts)[1..].to_vec();
    assert_eq!(process_delegate(&mut accounts), Ok(()));
    assert_eq!(accounts[0].owner, program_id());
    assert!(accounts[0].data.is_empty());
    assert_eq!(snapshot(&accounts)[1..], others[..]);
    // The record is the one that lets the delegate inscribe a member of the
    // collection.
    let mut mint = mint_accounts(Some((true, key(COLLECTION))), DELEGATE, false);
    mint[8] = accounts[0].duplicate();
    assert_eq!(process_initialize_from_mint(&mut mint), Ok(()));
    // A second approval finds the record taken.
    assert_eq!(
        Processor::process_instruction(&program_id(), &mut accounts, &[11]),
        Err(custom(MplInscriptionError::AlreadyInitialized))
    );
}

#[test]
fn delegate_failures() {
    let check = |accounts: &mut Vec<Account>, expected: ProgramError| {
        let before = snapshot(accounts);
        assert_eq!(process_delegate(accounts), Err(expected));
        assert_eq!(snapshot(accounts), before);
    };
    let mut a = delegate_accounts();
    a.pop();
    check(&mut a, ProgramError::NotEnoughAccountKeys);
    let mut a = delegate_accounts();
    a[5].is_signer = false;
    check(&mut a, ProgramError::MissingRequiredSignature);
    let mut a = delegate_accounts();
    a[4].is_signer = false;
    check(&mut a, ProgramError::MissingRequiredSignature);
    let mut a = delegate_accounts();
    a[2].owner = program_id();
    check(&mut a, custom(MplInscriptionError::IncorrectOwner));
    let mut a = delegate_accounts();
    a[3].owner = program_id();
    check(&mut a, custom(MplInscriptionError::IncorrectOwner));
    let mut a = delegate_accounts();
    a[6].key = key(1);
    check(&mut a, custom(MplInscriptionError::InvalidSystemProgram));
    let mut a = delegate_accounts();
    a[2].data = vec![4];
    check(&mut a, ProgramError::BorshIoError);
    let mut a = delegate_accounts();
    a[4].key = key(2);
    check(&mut a, custom(MplInscriptionError::InvalidAuthority));
    let mut a = delegate_accounts();
    a[3].key = key(3);
    check(&mut a, custom(MplInscriptionError::MintMismatch));
    let mut a = delegate_accounts();
    a[1].key = key(4);
    check(&mut a, custom(MplInscriptionError::DerivedKeyInvalid));
}

#[test]
fn initialize_from_mint_lists_no_authority_twice() {
    // The update authority acts and brings a record that approves itself.
    let mut a = mint_accounts(Some((true, key(COLLECTION))), UPDATE_AUTHORITY, true);
    assert_eq!(process_initialize_from_mint(&mut a), Ok(()));
    let metadata = InscriptionMetadata::decode(&a[1].data).unwrap();
    assert_eq!(metadata.update_authorities, vec![key(UPDATE_AUTHORITY)]);
    // So it does with a record that is none.
    let mut a = mint_accounts(Some((true, key(COLLECTION))), UPDATE_AUTHORITY, true);
    a[8] = unclaimed(key(96), false);
    assert_eq!(process_initialize_from_mint(&mut a), Ok(()));
    let metadata = InscriptionMetadata::decode(&a[1].data).unwrap();
    assert_eq!(metadata.update_authorities, vec![key(UPDATE_AUTHORITY)]);
}

#[test]
fn initialize_from_mint_needs_a_record_that_exists() {
    let mut a = mint_accounts(Some((true, key(COLLECTION))), DELEGATE, true);
    a[8] = unclaimed(a[8].key, false);
    let before = snapshot(&a);
    assert_eq!(
        process_initialize_from_mint(&mut a),
        Err(custom(MplInscriptionError::InvalidDelegate))
    );
    assert_eq!(snapshot(&a), before);
    // Once Delegate has created the record, the delegate may act.
    let mut d = delegate_accounts();
    assert_eq!(process_delegate(&mut d), Ok(()));
    a[8] = d[0].duplicate();
    assert_eq!(process_initialize_from_mint(&mut a), Ok(()));
    let metadata = InscriptionMetadata::decode(&a[1].data).unwrap();
    assert_eq!(metadata.update_authorities, vec![key(UPDATE_AUTHORITY), key(DELEGATE)]);
}
