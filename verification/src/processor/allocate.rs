//! Allocate: set the size of an inscription.
use vstd::prelude::*;
use crate::account::{Account, AccountView, MAX_PERMITTED_DATA_INCREASE, views};
use crate::address::{program_id, spec_program_id};
use crate::codec::option_string_view;
use crate::error::{MplInscriptionError, ProgramError, custom};
use crate::instruction::AllocateArgs;
use crate::processor::common::{
    authority_outcome, check_authority, check_link, link_outcome, optional, optional_account,
};
use crate::state::{InscriptionMetadata, metadata_failure, parse_metadata};

verus! {

/// Why Allocate fails, if it does. The checks, in order: there are five
/// accounts; the program owns the inscription account and the metadata
/// account; the latter holds a metadata record; the two accounts belong
/// together; whoever acts may; and the largest size that the host allows can
/// be addressed.
pub open spec fn allocate_failure(accounts: Seq<AccountView>, associated_tag: Option<Seq<char>>) -> Option<
    ProgramError,
> {
    if accounts.len() < 5 {
        Some(ProgramError::NotEnoughAccountKeys)
    } else {
        let inscription = accounts[0];
        let metadata_account = accounts[1];
        let metadata = parse_metadata(metadata_account.data);
        let link = link_outcome(inscription, metadata_account, metadata->0, associated_tag);
        let authority = authority_outcome(
            metadata->0,
            accounts[2],
            optional(accounts[3]),
            accounts[4],
        );
        if inscription.owner != program_id() || metadata_account.owner != program_id() {
            Some(custom(MplInscriptionError::NotInitialized))
        } else if metadata_failure(metadata_account.data) is Some {
            metadata_failure(metadata_account.data)
        } else if link is Err {
            Some(link->Err_0)
        } else if authority is Err {
            Some(authority->Err_0)
        } else if inscription.data.len() + MAX_PERMITTED_DATA_INCREASE > usize::MAX {
            Some(custom(MplInscriptionError::NumericalOverflow))
        } else {
            None
        }
    }
}

/// The size that Allocate gives an inscription: the size asked for, but no
/// more than the host lets the inscription grow to within one instruction.
pub open spec fn allocated_len(inscription: AccountView, target_size: usize) -> nat {
    if target_size <= inscription.data.len() + MAX_PERMITTED_DATA_INCREASE {
        target_size as nat
    } else {
        inscription.data.len() + MAX_PERMITTED_DATA_INCREASE as nat
    }
}

/// The accounts after Allocate: the inscription is cut or zero-extended to
/// its new size. Nothing else changes.
pub open spec fn allocate_effect(accounts: Seq<AccountView>, target_size: usize) -> Seq<
    AccountView,
> {
    accounts.update(0, accounts[0].resized(allocated_len(accounts[0], target_size)))
}

pub fn process_allocate(accounts: &mut Vec<Account>, args: AllocateArgs) -> (r: Result<
    (),
    ProgramError,
>)
    ensures
        match r {
            Ok(()) => allocate_failure(
                views(old(accounts)@),
                option_string_view(args.associated_tag),
            ) is None && views(final(accounts)@) == allocate_effect(
                views(old(accounts)@),
                args.target_size,
            ),
            Err(e) => allocate_failure(
                views(old(accounts)@),
                option_string_view(args.associated_tag),
            ) == Some(e) && final(accounts)@ == old(accounts)@,
        },
{
    if accounts.len() < 5 {
        return Err(ProgramError::NotEnoughAccountKeys);
    }
    // Check that the inscription account is already initialized.
    if accounts[0].owner != program_id() {
        return Err(ProgramError::from(MplInscriptionError::NotInitialized));
    }
    // Check that the metadata account is already initialized.
    if accounts[1].owner != program_id() {
        return Err(ProgramError::from(MplInscriptionError::NotInitialized));
    }
    let inscription_metadata = match InscriptionMetadata::decode(accounts[1].data.as_slice()) {
        Ok(m) => m,
        Err(e) => {
            return Err(e);
        },
    };
    // Verify that the derived address is correct for the metadata account.
    match check_link(&accounts[0], &accounts[1], &inscription_metadata, &args.associated_tag) {
        Ok(_) => {},
        Err(e) => {
            return Err(e);
        },
    }
    // The payer must sign as well as the authority, if present.
    match check_authority(
        &inscription_metadata,
        &accounts[2],
        optional_account(&accounts[3]),
        &accounts[4],
    ) {
        Ok(_) => {},
        Err(e) => {
            return Err(e);
        },
    }
    let max_realloc_size = match accounts[0].data_len().checked_add(MAX_PERMITTED_DATA_INCREASE) {
        Some(size) => size,
        None => {
            return Err(ProgramError::from(MplInscriptionError::NumericalOverflow));
        },
    };
    let new_size = if args.target_size <= max_realloc_size {
        args.target_size
    } else {
        max_realloc_size
    };
    match accounts[0].resize(new_size) {
        Ok(()) => {},
        Err(e) => {
            return Err(e);
        },
    }
    proof {
        let before = views(old(accounts)@);
        let after = allocate_effect(before, args.target_size);
        assert(forall|i: int| 1 <= i < accounts@.len() ==> accounts@[i] == old(accounts)@[i]);
        assert(accounts@[0]@.data =~= after[0].data);
        assert(views(accounts@) =~~= after);
    }
    Ok(())
}

} // verus!
