//! The instruction processors: one transition on the accounts per instruction.
//!
//! Every processor runs its checks in a fixed order and stops at the first
//! that fails, before anything is written: on an error the accounts are
//! exactly as they came.
use vstd::prelude::*;
use crate::account::{Account, AccountView, views};
use crate::address::Address;
use crate::error::ProgramError;
use crate::instruction::{InstructionView, MplInscriptionInstruction, parse_instruction};
use crate::processor::add_authority::{
    add_authority_effect, add_authority_failure, process_add_authority,
};
use crate::processor::allocate::{allocate_effect, allocate_failure, process_allocate};
use crate::processor::clear_data::{clear_data_effect, clear_data_failure, process_clear_data};
use crate::processor::close::{close_effect, close_failure, process_close};
use crate::processor::create_shard::{
    create_shard_effect, create_shard_failure, process_create_shard,
};
use crate::processor::delegate::{delegate_effect, delegate_failure, process_delegate};
use crate::processor::initialize::{initialize_effect, initialize_failure, process_initialize};
use crate::processor::initialize_associated_inscription::{
    initialize_associated_inscription_effect, initialize_associated_inscription_failure,
    process_initialize_associated_inscription,
};
use crate::processor::initialize_from_mint::{
    initialize_from_mint_effect, initialize_from_mint_failure, process_initialize_from_mint,
};
use crate::processor::remove_authority::{
    process_remove_authority, remove_authority_effect, remove_authority_failure,
};
use crate::processor::set_mint::{process_set_mint, set_mint_effect, set_mint_failure};
use crate::processor::write_data::{process_write_data, write_data_effect, write_data_failure};

pub mod add_authority;
pub mod allocate;
pub mod clear_data;
pub mod close;
pub mod common;
pub mod create_shard;
pub mod delegate;
pub mod initialize;
pub mod initialize_associated_inscription;
pub mod initialize_from_mint;
pub mod remove_authority;
pub mod set_mint;
pub mod write_data;

verus! {

/// Why `instruction` fails on `accounts`, if it does.
pub open spec fn instruction_failure(accounts: Seq<AccountView>, instruction: InstructionView) -> Option<
    ProgramError,
> {
    match instruction {
        InstructionView::Initialize => initialize_failure(accounts),
        InstructionView::InitializeFromMint => initialize_from_mint_failure(accounts),
        InstructionView::Close { associated_tag } => close_failure(accounts, associated_tag),
        InstructionView::WriteData { associated_tag, offset, value } => write_data_failure(
            accounts,
            associated_tag,
            offset,
            value,
        ),
        InstructionView::ClearData { associated_tag } => clear_data_failure(
            accounts,
            associated_tag,
        ),
        InstructionView::AddAuthority { new_authority } => add_authority_failure(
            accounts,
            new_authority,
        ),
        InstructionView::RemoveAuthority => remove_authority_failure(accounts),
        InstructionView::CreateShard { shard_number } => create_shard_failure(
            accounts,
            shard_number,
        ),
        InstructionView::InitializeAssociatedInscription { association_tag } =>
            initialize_associated_inscription_failure(accounts, association_tag),
        InstructionView::Allocate { associated_tag, target_size } => allocate_failure(
            accounts,
            associated_tag,
        ),
        InstructionView::SetMint => set_mint_failure(accounts),
        InstructionView::Delegate => delegate_failure(accounts),
    }
}

/// The accounts after `instruction`, where it does not fail.
pub open spec fn instruction_effect(accounts: Seq<AccountView>, instruction: InstructionView) -> Seq<
    AccountView,
> {
    match instruction {
        InstructionView::Initialize => initialize_effect(accounts),
        InstructionView::InitializeFromMint => initialize_from_mint_effect(accounts),
        InstructionView::Close { associated_tag } => close_effect(accounts, associated_tag),
        InstructionView::WriteData { associated_tag, offset, value } => write_data_effect(
            accounts,
            offset,
            value,
        ),
        InstructionView::ClearData { associated_tag } => clear_data_effect(accounts),
        InstructionView::AddAuthority { new_authority } => add_authority_effect(
            accounts,
            new_authority,
        ),
        InstructionView::RemoveAuthority => remove_authority_effect(accounts),
        InstructionView::CreateShard { shard_number } => create_shard_effect(
            accounts,
            shard_number,
        ),
        InstructionView::InitializeAssociatedInscription { association_tag } =>
            initialize_associated_inscription_effect(accounts, association_tag),
        InstructionView::Allocate { associated_tag, target_size } => allocate_effect(
            accounts,
            target_size,
        ),
        InstructionView::SetMint => set_mint_effect(accounts),
        InstructionView::Delegate => delegate_effect(accounts),
    }
}

/// Why the instruction in `instruction_data` fails on `accounts`, if it does:
/// the data holds no instruction, or the instruction fails.
pub open spec fn process_failure(accounts: Seq<AccountView>, instruction_data: Seq<u8>) -> Option<
    ProgramError,
> {
    match parse_instruction(instruction_data) {
        None => Some(ProgramError::BorshIoError),
        Some(instruction) => instruction_failure(accounts, instruction),
    }
}

/// The program's entry: it reads the instruction and hands the accounts to
/// its processor.
pub struct Processor;

impl Processor {
    pub fn process_instruction(
        _program_id: &Address,
        accounts: &mut Vec<Account>,
        instruction_data: &[u8],
    ) -> (r: Result<(), ProgramError>)
        ensures
            match r {
                Ok(()) => process_failure(views(old(accounts)@), instruction_data@) is None
                    && views(final(accounts)@) == instruction_effect(
                    views(old(accounts)@),
                    parse_instruction(instruction_data@)->0,
                ),
                Err(e) => process_failure(views(old(accounts)@), instruction_data@) == Some(e)
                    && final(accounts)@ == old(accounts)@,
            },
    {
        let instruction = match MplInscriptionInstruction::decode(instruction_data) {
            Ok(i) => i,
            Err(e) => {
                return Err(e);
            },
        };
        match instruction {
            MplInscriptionInstruction::Initialize => process_initialize(accounts),
            MplInscriptionInstruction::InitializeFromMint => process_initialize_from_mint(accounts),
            MplInscriptionInstruction::Close(args) => process_close(accounts, args),
            MplInscriptionInstruction::WriteData(args) => process_write_data(accounts, args),
            MplInscriptionInstruction::ClearData(args) => process_clear_data(accounts, args),
            MplInscriptionInstruction::AddAuthority(args) => process_add_authority(accounts, args),
            MplInscriptionInstruction::RemoveAuthority => process_remove_authority(accounts),
            MplInscriptionInstruction::CreateShard(args) => process_create_shard(accounts, args),
            MplInscriptionInstruction::InitializeAssociatedInscription(args) =>
                process_initialize_associated_inscription(accounts, args),
            MplInscriptionInstruction::Allocate(args) => process_allocate(accounts, args),
            MplInscriptionInstruction::SetMint => process_set_mint(accounts),
            MplInscriptionInstruction::Delegate => process_delegate(accounts),
        }
    }
}

} // verus!
