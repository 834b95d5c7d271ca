//! The instruction processors of the JSON inscription program.
//!
//! As in the inscription program, a processor stops at the first check that
//! fails, before anything is written.
use vstd::prelude::*;
use vstd::string::StringSliceAdditionalSpecFns;
use crate::account::{Account, AccountView};
use crate::address::{
    Address, program_id, spec_program_id, spec_system_program_id, system_program_id,
};
use crate::authority::position;
use crate::codec::append;
use crate::derivation::{assert_derivation, seeds_view, verified_bump};
use crate::error::{MplInscriptionError, ProgramError, custom};
use crate::account::views;
use crate::json::instruction::{InstructionView, MplJsonInstruction, parse_instruction};
use crate::json::processor::add_authority::{
    add_authority_effect, add_authority_failure, process_add_authority,
};
use crate::json::processor::close::{close_effect, close_failure, process_close};
use crate::json::processor::initialize::{initialize_effect, initialize_failure, process_initialize};
use crate::json::processor::inject_value::{
    inject_value_effect, inject_value_failure, process_inject_value,
};
use crate::json::processor::remove_authority::{
    process_remove_authority, remove_authority_effect, remove_authority_failure,
};
use crate::json::state::{
    DataType, InscriptionMetadata, Key, MetadataView, PREFIX, lemma_metadata_round_trip,
    metadata_failure, parse_metadata, ser_metadata,
};

pub mod add_authority;
pub mod append_value;
pub mod close;
pub mod initialize;
pub mod inject_value;
pub mod remove_authority;

verus! {

/// Seeds of the metadata account of the inscription stored at `account`.
pub open spec fn spec_metadata_seeds(account: Address) -> Seq<Seq<u8>> {
    seq![PREFIX.spec_bytes(), program_id()@, account@]
}

/// Seeds of the metadata account of the inscription stored at `account`.
pub fn metadata_seeds(account: &Address) -> (r: Vec<Vec<u8>>)
    ensures
        seeds_view(r@) == spec_metadata_seeds(*account),
{
    let mut prefix: Vec<u8> = Vec::new();
    append(&mut prefix, PREFIX.as_bytes());
    let mut seeds: Vec<Vec<u8>> = Vec::new();
    seeds.push(prefix);
    seeds.push(program_id().to_vec());
    seeds.push(account.to_vec());
    assert(seeds_view(seeds@) =~= spec_metadata_seeds(*account));
    seeds
}

/// The bump of the metadata account's address, where `metadata_account` lives
/// at the address derived from `inscription`.
pub open spec fn metadata_bump(metadata_account: AccountView, inscription: AccountView) -> Result<
    u8,
    ProgramError,
> {
    verified_bump(
        program_id(),
        metadata_account.key,
        spec_metadata_seeds(inscription.key),
        MplInscriptionError::MetadataDerivedKeyInvalid,
    )
}

/// Checks that `metadata_account` lives at the address derived from
/// `inscription`, and returns the bump.
pub fn check_metadata_address(metadata_account: &Account, inscription: &Account) -> (r: Result<
    u8,
    ProgramError,
>)
    ensures
        r == metadata_bump(metadata_account@, inscription@),
{
    let seeds = metadata_seeds(&inscription.key);
    assert_derivation(
        &program_id(),
        metadata_account,
        &seeds,
        MplInscriptionError::MetadataDerivedKeyInvalid,
    )
}

/// Whether `inscription` and `metadata_account` belong together: the metadata
/// account lives at the address derived from the inscription account, with
/// the bump that the record stores.
pub open spec fn link_failure(
    inscription: AccountView,
    metadata_account: AccountView,
    metadata: MetadataView,
) -> Option<ProgramError> {
    match metadata_bump(metadata_account, inscription) {
        Err(e) => Some(e),
        Ok(bump) => if bump == metadata.bump {
            None
        } else {
            Some(custom(MplInscriptionError::MetadataDerivedKeyInvalid))
        },
    }
}

/// Checks that `inscription` and `metadata_account` belong together.
pub fn check_link(
    inscription: &Account,
    metadata_account: &Account,
    metadata: &InscriptionMetadata,
) -> (r: Result<(), ProgramError>)
    ensures
        r == (match link_failure(inscription@, metadata_account@, metadata@) {
            Some(e) => Err(e),
            None => Ok::<(), ProgramError>(()),
        }),
{
    let bump = match check_metadata_address(metadata_account, inscription) {
        Ok(b) => b,
        Err(e) => {
            return Err(e);
        },
    };
    if bump != metadata.bump {
        return Err(ProgramError::from(MplInscriptionError::MetadataDerivedKeyInvalid));
    }
    Ok(())
}

/// Whether the payer may act on the inscription with record `metadata`: it
/// has signed, it is one of the update authorities, and the system program is
/// the real one.
pub open spec fn payer_failure(
    metadata: MetadataView,
    payer: AccountView,
    system_program: AccountView,
) -> Option<ProgramError> {
    if !payer.is_signer {
        Some(ProgramError::MissingRequiredSignature)
    } else if !metadata.update_authorities.contains(payer.key) {
        Some(custom(MplInscriptionError::InvalidAuthority))
    } else if system_program.key != system_program_id() {
        Some(custom(MplInscriptionError::InvalidSystemProgram))
    } else {
        None
    }
}

/// Checks that the payer may act.
pub fn check_payer(metadata: &InscriptionMetadata, payer: &Account, system_program: &Account) -> (r:
    Result<(), ProgramError>)
    ensures
        r == (match payer_failure(metadata@, payer@, system_program@) {
            Some(e) => Err(e),
            None => Ok::<(), ProgramError>(()),
        }),
{
    if !payer.is_signer {
        return Err(ProgramError::MissingRequiredSignature);
    }
    if position(&metadata.update_authorities, &payer.key).is_none() {
        return Err(ProgramError::from(MplInscriptionError::InvalidAuthority));
    }
    if system_program.key != system_program_id() {
        return Err(ProgramError::from(MplInscriptionError::InvalidSystemProgram));
    }
    Ok(())
}

/// Why a record cannot be stored in an account, if it cannot: the record has
/// no serial form, or the host does not let the account grow to hold it.
pub open spec fn store_failure(account: AccountView, metadata: MetadataView) -> Option<
    ProgramError,
> {
    if !metadata.encodable() {
        Some(ProgramError::BorshIoError)
    } else if !account.may_resize_to(ser_metadata(metadata).len()) {
        Some(ProgramError::InvalidRealloc)
    } else {
        None
    }
}

/// Stores a metadata record in its account: the account is resized to fit the
/// record's serial form, which then overwrites it.
pub fn store_metadata(account: &mut Account, metadata: &InscriptionMetadata) -> (r: Result<
    (),
    ProgramError,
>)
    ensures
        match r {
            Ok(()) => store_failure(old(account)@, metadata@) is None
                && final(account)@ == old(account)@.storing(ser_metadata(metadata@)),
            Err(e) => store_failure(old(account)@, metadata@) == Some(e) && *final(account)
                == *old(account),
        },
{
    let bytes = match metadata.encode() {
        Ok(b) => b,
        Err(e) => {
            return Err(e);
        },
    };
    account.store(bytes.as_slice())
}

/// A record that was stored is read back from its account, and the reader
/// accepts it where it is of the metadata kind.
pub proof fn lemma_stored_metadata(account: AccountView, metadata: MetadataView)
    requires
        store_failure(account, metadata) is None,
    ensures
        parse_metadata(account.storing(ser_metadata(metadata)).data) == Some(metadata),
        metadata.key == Key::InscriptionMetadataAccount ==> metadata_failure(
            account.storing(ser_metadata(metadata)).data,
        ) is None,
{
    lemma_metadata_round_trip(metadata);
}


/// Why `instruction` fails on `accounts`, if it does. SetValue is an
/// instruction on the wire that the program has no processor for: it always
/// fails.
pub open spec fn instruction_failure(accounts: Seq<AccountView>, instruction: InstructionView) -> Option<
    ProgramError,
> {
    match instruction {
        InstructionView::Initialize { data_type } => initialize_failure(accounts),
        InstructionView::Close => close_failure(accounts),
        InstructionView::SetValue { data_type, start, end, value } => Some(
            ProgramError::InvalidInstructionData,
        ),
        InstructionView::InjectValue { data_type, start, end, value } => inject_value_failure(
            accounts,
            start,
            end,
            value,
        ),
        InstructionView::AddAuthority { new_authority } => add_authority_failure(
            accounts,
            new_authority,
        ),
        InstructionView::RemoveAuthority { authority } => remove_authority_failure(
            accounts,
            authority,
        ),
    }
}

/// The accounts after `instruction`, where it does not fail.
pub open spec fn instruction_effect(accounts: Seq<AccountView>, instruction: InstructionView) -> Seq<
    AccountView,
> {
    match instruction {
        InstructionView::Initialize { data_type } => initialize_effect(accounts, data_type),
        InstructionView::Close => close_effect(accounts),
        InstructionView::SetValue { data_type, start, end, value } => accounts,
        InstructionView::InjectValue { data_type, start, end, value } => inject_value_effect(
            accounts,
            start,
            end,
            value,
        ),
        InstructionView::AddAuthority { new_authority } => add_authority_effect(
            accounts,
            new_authority,
        ),
        InstructionView::RemoveAuthority { authority } => remove_authority_effect(
            accounts,
            authority,
        ),
    }
}

/// Why the instruction in `instruction_data` fails on `accounts`, if it does:
/// the data holds no instruction, or the instruction fails.
pub open spec fn process_failure(accounts: Seq<AccountView>, instruction_data: Seq<u8>) -> Option<
    ProgramError,
> {
    match parse_instruction(instruction_data) {
        None => Some(ProgramError::BorshIoError),
        Some(instruction) => instruction_failure(accounts, instruction),
    }
}

/// The program's entry: it reads the instruction and hands the accounts to
/// its processor.
pub struct Processor;

impl Processor {
    pub fn process_instruction(
        _program_id: &Address,
        accounts: &mut Vec<Account>,
        instruction_data: &[u8],
    ) -> (r: Result<(), ProgramError>)
        ensures
            match r {
                Ok(()) => process_failure(views(old(accounts)@), instruction_data@) is None
                    && views(final(accounts)@) == instruction_effect(
                    views(old(accounts)@),
                    parse_instruction(instruction_data@)->0,
                ),
                Err(e) => process_failure(views(old(accounts)@), instruction_data@) == Some(e)
                    && final(accounts)@ == old(accounts)@,
            },
    {
        let instruction = match MplJsonInstruction::decode(instruction_data) {
            Ok(i) => i,
            Err(e) => {
                return Err(e);
            },
        };
        match instruction {
            MplJsonInstruction::Initialize(args) => process_initialize(accounts, args),
            MplJsonInstruction::Close => process_close(accounts),
            MplJsonInstruction::SetValue(_) => Err(ProgramError::InvalidInstructionData),
            MplJsonInstruction::InjectValue(args) => process_inject_value(accounts, args),
            MplJsonInstruction::AddAuthority(args) => process_add_authority(accounts, args),
            MplJsonInstruction::RemoveAuthority(args) => process_remove_authority(accounts, args),
        }
    }
}

} // verus!
