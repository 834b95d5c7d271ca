//! Close of the JSON inscription program.
use vstd::prelude::*;
use crate::account::{Account, AccountView, views};
use crate::address::{program_id, spec_program_id};
use crate::error::{MplInscriptionError, ProgramError, custom};
use crate::json::processor::{check_link, check_payer, link_failure, payer_failure};
use crate::json::state::{InscriptionMetadata, metadata_failure, parse_metadata};

verus! {

/// Why Close fails, if it does. The checks, in order: there are four
/// accounts; the program owns the inscription account and the metadata
/// account, and neither is empty; the metadata account holds a metadata
/// record; the two accounts belong together; and the payer may act.
pub open spec fn close_failure(accounts: Seq<AccountView>) -> Option<ProgramError> {
    if accounts.len() < 4 {
        Some(ProgramError::NotEnoughAccountKeys)
    } else {
        let metadata = parse_metadata(accounts[1].data);
        let link = link_failure(accounts[0], accounts[1], metadata->0);
        let payer = payer_failure(metadata->0, accounts[2], accounts[3]);
        if accounts[0].owner != program_id() || accounts[0].data.len() == 0
            || accounts[1].owner != program_id() || accounts[1].data.len() == 0 {
            Some(custom(MplInscriptionError::NotInitialized))
        } else if metadata_failure(accounts[1].data) is Some {
            metadata_failure(accounts[1].data)
        } else if link is Some {
            link
        } else {
            payer
        }
    }
}

/// The accounts after Close: the inscription account and the metadata account
/// are closed. Nothing else changes.
pub open spec fn close_effect(accounts: Seq<AccountView>) -> Seq<AccountView> {
    accounts.update(0, accounts[0].closed()).update(1, accounts[1].closed())
}

pub fn process_close(accounts: &mut Vec<Account>) -> (r: Result<(), ProgramError>)
    ensures
        match r {
            Ok(()) => close_failure(views(old(accounts)@)) is None
                && views(final(accounts)@) == close_effect(views(old(accounts)@)),
            Err(e) => close_failure(views(old(accounts)@)) == Some(e)
                && final(accounts)@ == old(accounts)@,
        },
{
    if accounts.len() < 4 {
        return Err(ProgramError::NotEnoughAccountKeys);
    }
    // Check that the account is already initialized.
    if accounts[0].owner != program_id() || accounts[0].data_is_empty() {
        return Err(ProgramError::from(MplInscriptionError::NotInitialized));
    }
    // Check that the account is already initialized.
    if accounts[1].owner != program_id() || accounts[1].data_is_empty() {
        return Err(ProgramError::from(MplInscriptionError::NotInitialized));
    }
    let json_metadata = match InscriptionMetadata::decode(accounts[1].data.as_slice()) {
        Ok(m) => m,
        Err(e) => {
            return Err(e);
        },
    };
    // Verify that the derived address is correct for the metadata account.
    match check_link(&accounts[0], &accounts[1], &json_metadata) {
        Ok(()) => {},
        Err(e) => {
            return Err(e);
        },
    }
    // The payer must sign and be an authority.
    match check_payer(&json_metadata, &accounts[2], &accounts[3]) {
        Ok(()) => {},
        Err(e) => {
            return Err(e);
        },
    }
    // Close both accounts.
    accounts[0].close();
    accounts[1].close();
    proof {
        let before = views(old(accounts)@);
        assert(forall|i: int| 2 <= i < accounts@.len() ==> accounts@[i] == old(accounts)@[i]);
        assert(views(accounts@) =~~= close_effect(before));
    }
    Ok(())
}

} // verus!
