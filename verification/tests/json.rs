use borsh::BorshSerialize;
use mpl_inscription::account::{Account, MAX_PERMITTED_DATA_INCREASE};
use mpl_inscription::address::{program_id, system_program_id, Address};
use mpl_inscription::error::{MplInscriptionError, ProgramError};
use mpl_inscription::json::instruction::{
    AddAuthorityArgs, InitializeArgs, InjectValueArgs, MplJsonInstruction, RemoveAuthorityArgs,
    SetValueArgs,
};
use mpl_inscription::json::processor::add_authority::process_add_authority;
use mpl_inscription::json::processor::close::process_close;
use mpl_inscription::json::processor::initialize::{initial_data, process_initialize};
use mpl_inscription::json::processor::inject_value::{process_inject_value, splice};
use mpl_inscription::json::processor::metadata_seeds;
use mpl_inscription::json::processor::Processor;
use mpl_inscription::json::processor::remove_authority::process_remove_authority;
use mpl_inscription::json::state::{DataType, InscriptionMetadata, Key, INITIAL_SIZE, PREFIX};
use solana_program::pubkey::Pubkey;

fn custom(e: MplInscriptionError) -> ProgramError {
    ProgramError::Custom(e.code())
}

fn key(n: u8) -> Address {
    Address::new([n; 32])
}

fn metadata_address(inscription: &Address) -> (Address, u8) {
    let id = Pubkey::new_from_array(program_id().bytes);
    let (k, bump) =
        Pubkey::find_program_address(&[b"INSCRIPTION", id.as_ref(), &inscription.bytes], &id);
    (Address::new(k.to_bytes()), bump)
}

fn unclaimed(key: Address, is_signer: bool) -> Account {
    Account::new(key, system_program_id(), is_signer, vec![])
}

fn system_program() -> Account {
    Account::new(system_program_id(), key(200), false, vec![])
}

const INSCRIPTION: u8 = 31;
const PAYER: u8 = 32;

/// inscription, metadata, payer, system program
fn fresh() -> Vec<Account> {
    let (metadata, _) = metadata_address(&key(INSCRIPTION));
    vec![
        unclaimed(key(INSCRIPTION), true),
        unclaimed(metadata, false),
        unclaimed(key(PAYER), true),
        system_program(),
    ]
}

fn inscribed(data: &[u8]) -> Vec<Account> {
    let mut a = fresh();
    process_initialize(&mut a, InitializeArgs { data_type: DataType::Json }).unwrap();
    a[0].data = data.to_vec();
    a
}

fn snapshot(accounts: &Vec<Account>) -> Vec<(Address, Address, bool, Vec<u8>)> {
    accounts.iter().map(|a| (a.key, a.owner, a.is_signer, a.data.clone())).collect()
}

fn inject(accounts: &mut Vec<Account>, start: usize, end: usize, value: &str) -> Result<(), ProgramError> {
    process_inject_value(
        accounts,
        InjectValueArgs { data_type: DataType::Json, start, end, value: value.to_string() },
    )
}

#[test]
fn json_constants() {
    assert_eq!(PREFIX, "INSCRIPTION");
    assert_eq!(INITIAL_SIZE, 1024);
    assert_eq!(metadata_seeds(&key(1))[0], b"INSCRIPTION");
    assert_eq!(Key::InscriptionMetadataAccount.tag(), 1);
    assert_eq!(Key::from_tag(0), Some(Key::Uninitialized));
    assert_eq!(Key::from_tag(2), None);
    assert_eq!(DataType::Json.tag(), 0);
    assert_eq!(DataType::from_tag(1), Some(DataType::Binary));
    assert_eq!(DataType::from_tag(2), None);
}

#[test]
fn json_metadata_round_trip() {
    for number in [None, Some(0u64), Some(u64::MAX)] {
        for authorities in [vec![], vec![key(1)], vec![key(1), key(2), key(3)]] {
            let m = InscriptionMetadata {
                key: Key::InscriptionMetadataAccount,
                bump: 253,
                data_type: DataType::Binary,
                inscription_number: number,
                update_authorities: authorities.clone(),
            };
            let bytes = m.encode().unwrap();
            let mut expected = vec![1u8, 253, 1];
            expected.extend(number.try_to_vec().unwrap());
            let raw: Vec<[u8; 32]> = authorities.iter().map(|a| a.bytes).collect();
            expected.extend(raw.try_to_vec().unwrap());
            assert_eq!(bytes, expected);
            let back = InscriptionMetadata::decode(&bytes).unwrap();
            assert_eq!(back.key, m.key);
            assert_eq!(back.bump, m.bump);
            assert_eq!(back.data_type, m.data_type);
            assert_eq!(back.inscription_number, number);
            assert_eq!(back.update_authorities, authorities);
            let mut long = bytes.clone();
            long.push(0);
            assert_eq!(InscriptionMetadata::decode(&long).err(), Some(ProgramError::BorshIoError));
            assert_eq!(
                InscriptionMetadata::decode(&bytes[..bytes.len() - 1]).err(),
                Some(ProgramError::BorshIoError)
            );
        }
    }
    assert_eq!(InscriptionMetadata::decode(&[2, 0, 0, 0, 0, 0, 0, 0]).err(), Some(ProgramError::BorshIoError));
    assert_eq!(InscriptionMetadata::decode(&[1, 0, 2, 0, 0, 0, 0, 0]).err(), Some(ProgramError::BorshIoError));
    assert!(InscriptionMetadata::decode(&[1, 0, 1, 0, 0, 0, 0, 0]).is_ok());
    // A record of another kind in the layout of a metadata record.
    assert_eq!(
        InscriptionMetadata::decode(&[0, 0, 1, 0, 0, 0, 0, 0]).err(),
        Some(custom(MplInscriptionError::InvalidInscriptionMetadataAccount))
    );
}

#[test]
fn json_instructions_are_read() {
    assert_eq!(
        MplJsonInstruction::decode(&[0, 1]),
        Ok(MplJsonInstruction::Initialize(InitializeArgs { data_type: DataType::Binary }))
    );
    assert_eq!(MplJsonInstruction::decode(&[0, 2]), Err(ProgramError::BorshIoError));
    assert_eq!(MplJsonInstruction::decode(&[1]), Ok(MplJsonInstruction::Close));
    let mut data = vec![2u8, 0, 1];
    data.extend(5u64.to_le_bytes());
    data.push(0);
    data.extend("{}".to_string().try_to_vec().unwrap());
    assert_eq!(
        MplJsonInstruction::decode(&data),
        Ok(MplJsonInstruction::SetValue(SetValueArgs {
            data_type: DataType::Json,
            start: Some(5),
            end: None,
            value: "{}".to_string()
        }))
    );
    let mut data = vec![3u8, 0];
    data.extend(1u64.to_le_bytes());
    data.extend(4u64.to_le_bytes());
    data.extend("abc".to_string().try_to_vec().unwrap());
    assert_eq!(
        MplJsonInstruction::decode(&data),
        Ok(MplJsonInstruction::InjectValue(InjectValueArgs {
            data_type: DataType::Json,
            start: 1,
            end: 4,
            value: "abc".to_string()
        }))
    );
    data.push(1);
    assert_eq!(MplJsonInstruction::decode(&data), Err(ProgramError::BorshIoError));
    let mut data = vec![4u8];
    data.extend([9u8; 32]);
    assert_eq!(
        MplJsonInstruction::decode(&data),
        Ok(MplJsonInstruction::AddAuthority(AddAuthorityArgs { new_authority: key(9) }))
    );
    data[0] = 5;
    assert_eq!(
        MplJsonInstruction::decode(&data),
        Ok(MplJsonInstruction::RemoveAuthority(RemoveAuthorityArgs { authority: key(9) }))
    );
    data[0] = 6;
    assert_eq!(MplJsonInstruction::decode(&data), Err(ProgramError::BorshIoError));
    assert_eq!(MplJsonInstruction::decode(&[]), Err(ProgramError::BorshIoError));
}

#[test]
fn json_initialize() {
    let mut a = fresh();
    let (_, bump) = metadata_address(&key(INSCRIPTION));
    assert_eq!(process_initialize(&mut a, InitializeArgs { data_type: DataType::Json }), Ok(()));
    assert_eq!(a[0].owner, program_id());
    assert_eq!(a[0].data, vec![0u8; 4]);
    let m = InscriptionMetadata::decode(&a[1].data).unwrap();
    assert_eq!(m.key, Key::InscriptionMetadataAccount);
    assert_eq!(m.bump, bump);
    assert_eq!(m.data_type, DataType::Json);
    assert_eq!(m.inscription_number, None);
    assert_eq!(m.update_authorities, vec![key(PAYER)]);
    assert_eq!(
        process_initialize(&mut a, InitializeArgs { data_type: DataType::Json }),
        Err(custom(MplInscriptionError::AlreadyInitialized))
    );
    let mut b = fresh();
    assert_eq!(process_initialize(&mut b, InitializeArgs { data_type: DataType::Binary }), Ok(()));
    assert!(b[0].data.is_empty());
    assert_eq!(InscriptionMetadata::decode(&b[1].data).unwrap().data_type, DataType::Binary);
}

#[test]
fn json_initial_data() {
    assert_eq!(initial_data(DataType::Json, Some(b"null".to_vec())), Ok(b"null".to_vec()));
    assert_eq!(
        initial_data(DataType::Json, None),
        Err(custom(MplInscriptionError::InvalidJson))
    );
    assert_eq!(initial_data(DataType::Binary, None), Ok(vec![]));
    assert_eq!(initial_data(DataType::Binary, Some(b"null".to_vec())), Ok(vec![]));
}

#[test]
fn json_initialize_failures() {
    let check = |accounts: &mut Vec<Account>, expected: ProgramError| {
        let before = snapshot(accounts);
        assert_eq!(
            process_initialize(accounts, InitializeArgs { data_type: DataType::Json }),
            Err(expected)
        );
        assert_eq!(snapshot(accounts), before);
    };
    let mut a = fresh();
    a.pop();
    check(&mut a, ProgramError::NotEnoughAccountKeys);
    let mut a = fresh();
    a[0].owner = program_id();
    check(&mut a, custom(MplInscriptionError::AlreadyInitialized));
    let mut a = fresh();
    a[1].data = vec![0];
    check(&mut a, custom(MplInscriptionError::AlreadyInitialized));
    let mut a = fresh();
    a[0].key = key(1);
    check(&mut a, custom(MplInscriptionError::MetadataDerivedKeyInvalid));
    let mut a = fresh();
    a[2].is_signer = false;
    check(&mut a, ProgramError::MissingRequiredSignature);
    let mut a = fresh();
    a[3].key = key(1);
    check(&mut a, custom(MplInscriptionError::InvalidSystemProgram));
}

#[test]
fn splice_replaces_a_range() {
    let data = b"{\"a\":1,\"b\":2}";
    assert_eq!(splice(data, 5, 6, b"100"), Ok(b"{\"a\":100,\"b\":2}".to_vec()));
    // A shorter value moves the rest down.
    assert_eq!(splice(b"0123456789", 2, 8, b"ab"), Ok(b"01ab89".to_vec()));
    // An insertion, a deletion, an appendix.
    assert_eq!(splice(b"0123", 2, 2, b"xy"), Ok(b"01xy23".to_vec()));
    assert_eq!(splice(b"0123", 1, 3, b""), Ok(b"03".to_vec()));
    assert_eq!(splice(b"0123", 4, 4, b"45"), Ok(b"012345".to_vec()));
    assert_eq!(splice(b"0123", 0, 4, b""), Ok(vec![]));
    assert_eq!(splice(b"", 0, 0, b""), Ok(vec![]));
    assert_eq!(splice(b"0123", 0, 0, b""), Ok(b"0123".to_vec()));
    let overflow = Err(custom(MplInscriptionError::NumericalOverflow));
    assert_eq!(splice(b"0123", 3, 2, b"x"), overflow);
    assert_eq!(splice(b"0123", 2, 5, b"x"), overflow);
    assert_eq!(splice(b"0123", 5, 5, b"x"), overflow);
}

#[test]
fn inject_value_replaces_a_range() {
    let mut a = inscribed(b"{\"a\":1,\"b\":2}");
    let metadata = a[1].data.clone();
    assert_eq!(inject(&mut a, 5, 6, "100"), Ok(()));
    assert_eq!(a[0].data, b"{\"a\":100,\"b\":2}");
    assert_eq!(inject(&mut a, 1, 9, ""), Ok(()));
    assert_eq!(a[0].data, b"{\"b\":2}");
    assert_eq!(inject(&mut a, 7, 7, " "), Ok(()));
    assert_eq!(a[0].data, b"{\"b\":2} ");
    assert_eq!(inject(&mut a, 2, 3, "\u{e9}"), Ok(()));
    assert_eq!(a[0].data, "{\"\u{e9}\":2} ".as_bytes());
    assert_eq!(a[1].data, metadata);
    let before = snapshot(&a);
    assert_eq!(inject(&mut a, 0, 0, ""), Ok(()));
    assert_eq!(snapshot(&a), before);
}

#[test]
fn inject_value_failures() {
    let check = |accounts: &mut Vec<Account>, start: usize, end: usize, value: &str, expected: ProgramError| {
        let before = snapshot(accounts);
        assert_eq!(inject(accounts, start, end, value), Err(expected));
        assert_eq!(snapshot(accounts), before);
    };
    let mut a = inscribed(b"null");
    a.pop();
    check(&mut a, 0, 4, "1", ProgramError::NotEnoughAccountKeys);
    let mut a = inscribed(b"");
    check(&mut a, 0, 0, "1", custom(MplInscriptionError::NotInitialized));
    let mut a = inscribed(b"null");
    a[1].owner = system_program_id();
    check(&mut a, 0, 4, "1", custom(MplInscriptionError::NotInitialized));
    let mut a = inscribed(b"null");
    a[1].data.push(7);
    check(&mut a, 0, 4, "1", ProgramError::BorshIoError);
    let mut a = inscribed(b"null");
    a[0].key = key(2);
    check(&mut a, 0, 4, "1", custom(MplInscriptionError::MetadataDerivedKeyInvalid));
    let mut a = inscribed(b"null");
    a[1].data[1] = a[1].data[1].wrapping_add(1);
    check(&mut a, 0, 4, "1", custom(MplInscriptionError::MetadataDerivedKeyInvalid));
    let mut a = inscribed(b"null");
    a[2].is_signer = false;
    check(&mut a, 0, 4, "1", ProgramError::MissingRequiredSignature);
    let mut a = inscribed(b"null");
    a[2].key = key(3);
    check(&mut a, 0, 4, "1", custom(MplInscriptionError::InvalidAuthority));
    let mut a = inscribed(b"null");
    a[3].key = key(4);
    check(&mut a, 0, 4, "1", custom(MplInscriptionError::InvalidSystemProgram));
    let mut a = inscribed(b"null");
    check(&mut a, 3, 2, "1", custom(MplInscriptionError::NumericalOverflow));
    check(&mut a, 0, 5, "1", custom(MplInscriptionError::NumericalOverflow));
    let big = "x".repeat(MAX_PERMITTED_DATA_INCREASE + 1);
    check(&mut a, 0, 0, &big, ProgramError::InvalidRealloc);
    assert_eq!(inject(&mut a, 0, 1, &big), Ok(()));
    assert_eq!(a[0].data.len(), 4 + MAX_PERMITTED_DATA_INCREASE);
}

/// metadata, payer, system program
fn authority_accounts() -> Vec<Account> {
    let a = inscribed(b"null");
    vec![a[1].duplicate(), a[2].duplicate(), system_program()]
}

#[test]
fn json_authorities() {
    let mut a = authority_accounts();
    let add = |a: &mut Vec<Account>, n: u8| {
        process_add_authority(a, AddAuthorityArgs { new_authority: key(n) })
    };
    let remove = |a: &mut Vec<Account>, n: u8| {
        process_remove_authority(a, RemoveAuthorityArgs { authority: key(n) })
    };
    let list = |a: &Vec<Account>| InscriptionMetadata::decode(&a[0].data).unwrap().update_authorities;
    assert_eq!(add(&mut a, 40), Ok(()));
    assert_eq!(add(&mut a, 41), Ok(()));
    assert_eq!(list(&a), vec![key(PAYER), key(40), key(41)]);
    // This program adds an authority as often as it is asked to.
    assert_eq!(add(&mut a, 40), Ok(()));
    assert_eq!(list(&a), vec![key(PAYER), key(40), key(41), key(40)]);
    assert_eq!(remove(&mut a, 40), Ok(()));
    assert_eq!(list(&a), vec![key(PAYER), key(40), key(41)]);
    let before = snapshot(&a);
    assert_eq!(remove(&mut a, 42), Err(custom(MplInscriptionError::InvalidAuthority)));
    assert_eq!(snapshot(&a), before);
    assert_eq!(remove(&mut a, PAYER), Ok(()));
    assert_eq!(list(&a), vec![key(41), key(40)]);
    // The payer is no authority any more.
    assert_eq!(add(&mut a, 43), Err(custom(MplInscriptionError::InvalidAuthority)));
    assert_eq!(remove(&mut a, 40), Err(custom(MplInscriptionError::InvalidAuthority)));
    let mut b = authority_accounts();
    b.pop();
    assert_eq!(add(&mut b, 1), Err(ProgramError::NotEnoughAccountKeys));
    assert_eq!(remove(&mut b, 1), Err(ProgramError::NotEnoughAccountKeys));
    let mut b = authority_accounts();
    b[0].data = vec![];
    assert_eq!(add(&mut b, 1), Err(custom(MplInscriptionError::NotInitialized)));
    assert_eq!(remove(&mut b, 1), Err(custom(MplInscriptionError::NotInitialized)));
    let mut b = authority_accounts();
    b[1].is_signer = false;
    assert_eq!(add(&mut b, 1), Err(ProgramError::MissingRequiredSignature));
    let mut b = authority_accounts();
    b[2].key = key(1);
    assert_eq!(remove(&mut b, PAYER), Err(custom(MplInscriptionError::InvalidSystemProgram)));
}

#[test]
fn json_close() {
    let mut a = inscribed(b"null");
    assert_eq!(process_close(&mut a), Ok(()));
    for i in 0..2 {
        assert_eq!(a[i].owner, system_program_id());
        assert!(a[i].data.is_empty());
    }
    let before = snapshot(&a);
    assert_eq!(process_close(&mut a), Err(custom(MplInscriptionError::NotInitialized)));
    assert_eq!(snapshot(&a), before);
    let mut a = inscribed(b"null");
    a[2] = unclaimed(key(5), true);
    assert_eq!(process_close(&mut a), Err(custom(MplInscriptionError::InvalidAuthority)));
    let mut a = inscribed(b"null");
    a[0].key = key(6);
    assert_eq!(process_close(&mut a), Err(custom(MplInscriptionError::MetadataDerivedKeyInvalid)));
    let mut a = inscribed(b"null");
    a.truncate(3);
    assert_eq!(process_close(&mut a), Err(ProgramError::NotEnoughAccountKeys));
}

#[test]
fn json_instructions_are_dispatched() {
    let id = program_id();
    let mut a = fresh();
    assert_eq!(Processor::process_instruction(&id, &mut a, &[0, 0]), Ok(()));
    assert_eq!(a[0].data, vec![0u8; 4]);
    a[0].data = b"null".to_vec();
    // InjectValue: replace the four bytes by "[]".
    let mut data = vec![3u8, 0];
    data.extend(0u64.to_le_bytes());
    data.extend(4u64.to_le_bytes());
    data.extend(2u32.to_le_bytes());
    data.extend(b"[]");
    assert_eq!(Processor::process_instruction(&id, &mut a, &data), Ok(()));
    assert_eq!(a[0].data, b"[]");
    // SetValue is on the wire, but nothing carries it out.
    let mut data = vec![2u8, 0, 0, 0];
    data.extend(0u32.to_le_bytes());
    let before = snapshot(&a);
    assert_eq!(
        Processor::process_instruction(&id, &mut a, &data),
        Err(ProgramError::InvalidInstructionData)
    );
    assert_eq!(snapshot(&a), before);
    assert_eq!(Processor::process_instruction(&id, &mut a, &[9]), Err(ProgramError::BorshIoError));
    let mut m = vec![a[1].duplicate(), a[2].duplicate(), system_program()];
    let mut data = vec![4u8];
    data.extend([50u8; 32]);
    assert_eq!(Processor::process_instruction(&id, &mut m, &data), Ok(()));
    data[0] = 5;
    assert_eq!(Processor::process_instruction(&id, &mut m, &data), Ok(()));
    assert_eq!(m[0].data, a[1].data);
    assert_eq!(Processor::process_instruction(&id, &mut a, &[1]), Ok(()));
    assert!(a[0].data.is_empty());
}

#[test]
fn json_instructions_round_trip() {
    let all = vec![
        MplJsonInstruction::Initialize(InitializeArgs { data_type: DataType::Json }),
        MplJsonInstruction::Initialize(InitializeArgs { data_type: DataType::Binary }),
        MplJsonInstruction::Close,
        MplJsonInstruction::SetValue(SetValueArgs {
            data_type: DataType::Binary,
            start: None,
            end: Some(usize::MAX),
            value: String::new(),
        }),
        MplJsonInstruction::InjectValue(InjectValueArgs {
            data_type: DataType::Json,
            start: 3,
            end: 4,
            value: "{\"k\":\"\u{e9}\"}".to_string(),
        }),
        MplJsonInstruction::AddAuthority(AddAuthorityArgs { new_authority: key(1) }),
        MplJsonInstruction::RemoveAuthority(RemoveAuthorityArgs { authority: key(2) }),
    ];
    for instruction in all {
        let bytes = instruction.encode().unwrap();
        assert_eq!(MplJsonInstruction::decode(&bytes), Ok(instruction));
    }
    assert_eq!(
        MplJsonInstruction::InjectValue(InjectValueArgs {
            data_type: DataType::Binary,
            start: 1,
            end: 2,
            value: "x".to_string()
        })
        .encode(),
        Ok(vec![3, 1, 1, 0, 0, 0, 0, 0, 0, 0, 2, 0, 0, 0, 0, 0, 0, 0, 1, 0, 0, 0, b'x'])
    );
}
