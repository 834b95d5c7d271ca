//! Initialize of the JSON inscription program.
use vstd::prelude::*;
use crate::account::{Account, AccountView, assert_signer, views};
use crate::address::{
    Address, lemma_program_is_not_system, program_id, spec_program_id, spec_system_program_id,
    system_program_id,
};
use crate::error::{MplInscriptionError, ProgramError, custom};
use crate::json::instruction::InitializeArgs;
use crate::json::processor::{check_metadata_address, metadata_bump};
use crate::json::state::{DataType, InscriptionMetadata, Key, MetadataView, ser_metadata};

verus! {

/// The JSON text of the value null.
pub open spec fn null_text() -> Seq<u8> {
    seq![110u8, 117u8, 108u8, 108u8]
}

/// The JSON text of the value null.
///
/// This is `serde_json::to_vec` on `Value::Null`. The serialiser writes that
/// value as the four letters `null` into a vector of its own, which cannot
/// fail: the result is always there.
#[verifier::external_body]
fn serialized_null() -> (r: Option<Vec<u8>>)
    ensures
        r is Some,
        r matches Some(text) ==> text@ == null_text(),
{
    match serde_json::to_vec(&serde_json::Value::Null) {
        Ok(text) => Some(text),
        Err(_) => None,
    }
}

/// How long a new inscription is, given what the serialiser made of null: a
/// JSON inscription is as long as that text, any other is empty.
pub open spec fn initial_len(data_type: DataType, null: Option<Seq<u8>>) -> Result<
    nat,
    ProgramError,
> {
    match data_type {
        DataType::Json => match null {
            Some(text) => Ok(text.len()),
            None => Err(custom(MplInscriptionError::InvalidJson)),
        },
        DataType::Binary => Ok(0),
    }
}

/// The first contents of an inscription, given what the serialiser made of
/// null.
pub fn initial_data(data_type: DataType, null: Option<Vec<u8>>) -> (r: Result<Vec<u8>, ProgramError>)
    ensures
        match r {
            Ok(data) => initial_len(
                data_type,
                match null {
                    Some(text) => Some(text@),
                    None => None,
                },
            ) == Ok::<nat, ProgramError>(data@.len()),
            Err(e) => initial_len(
                data_type,
                match null {
                    Some(text) => Some(text@),
                    None => None,
                },
            ) == Err::<nat, ProgramError>(e),
        },
{
    match data_type {
        DataType::Json => match null {
            Some(text) => Ok(text),
            None => Err(ProgramError::from(MplInscriptionError::InvalidJson)),
        },
        DataType::Binary => Ok(Vec::new()),
    }
}

/// Why Initialize fails, if it does. The checks, in order: there are four accounts; no program has claimed the
/// inscription account or the metadata account; the metadata account lives at
/// the address derived from the inscription account; the payer has signed; and
/// the system program is the real one.
pub open spec fn initialize_failure(accounts: Seq<AccountView>) -> Option<ProgramError> {
    if accounts.len() < 4 {
        Some(ProgramError::NotEnoughAccountKeys)
    } else {
        let bump = metadata_bump(accounts[1], accounts[0]);
        if !accounts[0].is_unclaimed() || !accounts[1].is_unclaimed() {
            Some(custom(MplInscriptionError::AlreadyInitialized))
        } else if bump is Err {
            Some(bump->Err_0)
        } else if !accounts[2].is_signer {
            Some(ProgramError::MissingRequiredSignature)
        } else if accounts[3].key != system_program_id() {
            Some(custom(MplInscriptionError::InvalidSystemProgram))
        } else {
            None
        }
    }
}

/// The record of a new inscription: the payer is its only authority.
pub open spec fn initial_metadata(bump: u8, data_type: DataType, payer: Address) -> MetadataView {
    MetadataView {
        key: Key::InscriptionMetadataAccount,
        bump,
        data_type,
        inscription_number: None,
        update_authorities: seq![payer],
    }
}

/// The accounts after Initialize: the program owns the inscription account,
/// which holds zeros in the length of the text `null` where its data is JSON
/// and nothing where not, and the metadata account, which stores the record of
/// the new inscription. Nothing else changes.
pub open spec fn initialize_effect(accounts: Seq<AccountView>, data_type: DataType) -> Seq<
    AccountView,
> {
    let len = initial_len(data_type, Some(null_text()))->Ok_0;
    accounts.update(0, accounts[0].created(program_id(), len)).update(
        1,
        accounts[1].claimed(
            program_id(),
            ser_metadata(
                initial_metadata(
                    metadata_bump(accounts[1], accounts[0])->Ok_0,
                    data_type,
                    accounts[2].key,
                ),
            ),
        ),
    )
}

pub fn process_initialize(accounts: &mut Vec<Account>, args: InitializeArgs) -> (r: Result<
    (),
    ProgramError,
>)
    ensures
        match r {
            Ok(()) => initialize_failure(views(old(accounts)@)) is None
                && views(final(accounts)@) == initialize_effect(
                views(old(accounts)@),
                args.data_type,
            ),
            Err(e) => initialize_failure(views(old(accounts)@)) == Some(e)
                && final(accounts)@ == old(accounts)@,
        },
{
    if accounts.len() < 4 {
        return Err(ProgramError::NotEnoughAccountKeys);
    }
    // Check that the account isn't already initialized.
    if !accounts[0].is_unclaimed() {
        return Err(ProgramError::from(MplInscriptionError::AlreadyInitialized));
    }
    // Check that the account isn't already initialized.
    if !accounts[1].is_unclaimed() {
        return Err(ProgramError::from(MplInscriptionError::AlreadyInitialized));
    }
    // Verify that the derived address is correct for the metadata account.
    let bump = match check_metadata_address(&accounts[1], &accounts[0]) {
        Ok(b) => b,
        Err(e) => {
            return Err(e);
        },
    };
    // The payer must sign.
    match assert_signer(&accounts[2]) {
        Ok(()) => {},
        Err(e) => {
            return Err(e);
        },
    }
    if accounts[3].key != system_program_id() {
        return Err(ProgramError::from(MplInscriptionError::InvalidSystemProgram));
    }
    // Initialize the JSON data with a null value.
    let null = match args.data_type {
        DataType::Json => serialized_null(),
        DataType::Binary => None,
    };
    let serialized_data = match initial_data(args.data_type, null) {
        Ok(data) => data,
        Err(e) => {
            return Err(e);
        },
    };
    // Initialize the metadata.
    let mut update_authorities: Vec<Address> = Vec::new();
    update_authorities.push(accounts[2].key);
    let metadata = InscriptionMetadata {
        key: Key::InscriptionMetadataAccount,
        bump,
        data_type: args.data_type,
        inscription_number: None,
        update_authorities,
    };
    proof {
        assert(metadata@ =~~= initial_metadata(bump, args.data_type, accounts@[2].key));
    }
    let serialized_metadata = match metadata.encode() {
        Ok(bytes) => bytes,
        Err(e) => {
            return Err(e);
        },
    };
    // Create the inscription account.
    match accounts[0].create(program_id(), serialized_data.len()) {
        Ok(()) => {},
        Err(e) => {
            return Err(e);
        },
    }
    // Create the metadata account and write the metadata to it.
    match accounts[1].claim(program_id(), serialized_metadata.as_slice()) {
        Ok(()) => {},
        Err(e) => {
            return Err(e);
        },
    }
    proof {
        let before = views(old(accounts)@);
        assert(forall|i: int| 2 <= i < accounts@.len() ==> accounts@[i] == old(accounts)@[i]);
        assert(views(accounts@) =~~= initialize_effect(before, args.data_type));
    }
    Ok(())
}

/// Initialize cannot be repeated: on the accounts that one Initialize has
/// left, a second fails with `AlreadyInitialized`.
pub proof fn lemma_initialize_twice(accounts: Seq<AccountView>, data_type: DataType)
    requires
        initialize_failure(accounts) is None,
    ensures
        initialize_failure(initialize_effect(accounts, data_type)) == Some(
            custom(MplInscriptionError::AlreadyInitialized),
        ),
{
    lemma_program_is_not_system();
    let after = initialize_effect(accounts, data_type);
    assert(after.len() == accounts.len());
    assert(after[0].owner == program_id());
}

} // verus!
