//! Delegate: the update authority of a collection approves a delegate.
//!
//! The approval is a delegate record: an empty account of this program at the
//! address derived from the collection's mint, the update authority and the
//! delegate. That the account exists is all it says. There can be many
//! delegates of one collection at a time.
use vstd::prelude::*;
use crate::account::{Account, AccountView, assert_owned_by, assert_signer, views};
use crate::address::{
    Address, program_id, spec_program_id, spec_system_program_id, spec_token_metadata_program_id,
    spec_token_program_id, system_program_id, token_metadata_program_id, token_program_id,
};
use crate::derivation::{assert_derivation, delegate_seeds, spec_delegate_seeds, verified_bump};
use crate::error::{MplInscriptionError, ProgramError, custom};
use crate::token_metadata::{read_token_metadata, token_metadata_record};

verus! {

/// The bump of the address of the record by which `authority` approves
/// `delegate` for the collection of `mint`, where `record` lives at that
/// address.
pub open spec fn delegate_record_bump(
    record: AccountView,
    mint: AccountView,
    authority: AccountView,
    delegate: AccountView,
) -> Result<u8, ProgramError> {
    verified_bump(
        program_id(),
        record.key,
        spec_delegate_seeds(mint.key, authority.key, delegate.key),
        MplInscriptionError::DerivedKeyInvalid,
    )
}

/// Why Delegate fails, if it does. The checks, in order: there are seven
/// accounts; the payer and the authority have signed; the token metadata
/// program owns the token metadata and the token program the mint; the system
/// program is the real one; the token metadata holds a record; the authority
/// is the record's update authority; the record is that of the mint; the
/// delegate record lives at the address derived for the delegate; and no
/// program has claimed it.
pub open spec fn delegate_failure(accounts: Seq<AccountView>) -> Option<ProgramError> {
    if accounts.len() < 7 {
        Some(ProgramError::NotEnoughAccountKeys)
    } else {
        let token = token_metadata_record(accounts[2].data);
        let bump = delegate_record_bump(accounts[0], accounts[3], accounts[4], accounts[1]);
        if !accounts[5].is_signer || !accounts[4].is_signer {
            Some(ProgramError::MissingRequiredSignature)
        } else if accounts[2].owner != token_metadata_program_id() || accounts[3].owner
            != token_program_id() {
            Some(custom(MplInscriptionError::IncorrectOwner))
        } else if accounts[6].key != system_program_id() {
            Some(custom(MplInscriptionError::InvalidSystemProgram))
        } else if token is None {
            Some(ProgramError::BorshIoError)
        } else if token->0.update_authority != accounts[4].key {
            Some(custom(MplInscriptionError::InvalidAuthority))
        } else if token->0.mint != accounts[3].key {
            Some(custom(MplInscriptionError::MintMismatch))
        } else if bump is Err {
            Some(bump->Err_0)
        } else if !accounts[0].is_unclaimed() {
            Some(custom(MplInscriptionError::AlreadyInitialized))
        } else {
            None
        }
    }
}

/// The accounts after Delegate: the program owns the delegate record, which
/// is empty. Nothing else changes.
pub open spec fn delegate_effect(accounts: Seq<AccountView>) -> Seq<AccountView> {
    accounts.update(0, accounts[0].created(program_id(), 0))
}

/// Creates the delegate record at `accounts[0]` after checking its address.
fn create_pda_account(accounts: &mut Vec<Account>) -> (r: Result<(), ProgramError>)
    requires
        old(accounts)@.len() >= 7,
    ensures
        match r {
            Ok(()) => delegate_record_bump(
                old(accounts)@[0]@,
                old(accounts)@[3]@,
                old(accounts)@[4]@,
                old(accounts)@[1]@,
            ) is Ok && old(accounts)@[0]@.is_unclaimed() && views(final(accounts)@)
                == delegate_effect(views(old(accounts)@)),
            Err(e) => final(accounts)@ == old(accounts)@ && (match delegate_record_bump(
                old(accounts)@[0]@,
                old(accounts)@[3]@,
                old(accounts)@[4]@,
                old(accounts)@[1]@,
            ) {
                Err(d) => e == d,
                Ok(_) => !old(accounts)@[0]@.is_unclaimed() && e == custom(
                    MplInscriptionError::AlreadyInitialized,
                ),
            }),
        },
{
    // Validate the delegate derivation.
    let signer_seeds = delegate_seeds(&accounts[3].key, &accounts[4].key, &accounts[1].key);
    match assert_derivation(
        &program_id(),
        &accounts[0],
        &signer_seeds,
        MplInscriptionError::DerivedKeyInvalid,
    ) {
        Ok(_) => {},
        Err(e) => {
            return Err(e);
        },
    }
    // Allocate the delegate account.
    match accounts[0].create(program_id(), 0) {
        Ok(()) => {},
        Err(e) => {
            return Err(e);
        },
    }
    proof {
        let before = views(old(accounts)@);
        assert(forall|i: int| 1 <= i < accounts@.len() ==> accounts@[i] == old(accounts)@[i]);
        assert(views(accounts@) =~~= delegate_effect(before));
    }
    Ok(())
}

pub fn process_delegate(accounts: &mut Vec<Account>) -> (r: Result<(), ProgramError>)
    ensures
        match r {
            Ok(()) => delegate_failure(views(old(accounts)@)) is None
                && views(final(accounts)@) == delegate_effect(views(old(accounts)@)),
            Err(e) => delegate_failure(views(old(accounts)@)) == Some(e)
                && final(accounts)@ == old(accounts)@,
        },
{
    if accounts.len() < 7 {
        return Err(ProgramError::NotEnoughAccountKeys);
    }
    // Signers.
    match assert_signer(&accounts[5]) {
        Ok(()) => {},
        Err(e) => {
            return Err(e);
        },
    }
    match assert_signer(&accounts[4]) {
        Ok(()) => {},
        Err(e) => {
            return Err(e);
        },
    }
    // Ownership.
    match assert_owned_by(
        &accounts[2],
        &token_metadata_program_id(),
        MplInscriptionError::IncorrectOwner,
    ) {
        Ok(()) => {},
        Err(e) => {
            return Err(e);
        },
    }
    match assert_owned_by(&accounts[3], &token_program_id(), MplInscriptionError::IncorrectOwner) {
        Ok(()) => {},
        Err(e) => {
            return Err(e);
        },
    }
    // Key match.
    if accounts[6].key != system_program_id() {
        return Err(ProgramError::from(MplInscriptionError::InvalidSystemProgram));
    }
    // Account relationships.
    let metadata = match read_token_metadata(accounts[2].data.as_slice()) {
        Ok(m) => m,
        Err(e) => {
            return Err(e);
        },
    };
    // The authority must match the update authority.
    if metadata.update_authority != accounts[4].key {
        return Err(ProgramError::from(MplInscriptionError::InvalidAuthority));
    }
    if metadata.mint != accounts[3].key {
        return Err(ProgramError::from(MplInscriptionError::MintMismatch));
    }
    // Create the delegate record; the helper checks its derivation.
    create_pda_account(accounts)
}

} // verus!
