//! RemoveAuthority of the JSON inscription program.
use vstd::prelude::*;
use crate::account::{Account, AccountView, views};
use crate::address::{Address, program_id, spec_program_id};
use crate::authority::{position, without};
use crate::error::{MplInscriptionError, ProgramError, custom};
use crate::json::instruction::RemoveAuthorityArgs;
use crate::json::processor::{check_payer, payer_failure, store_failure, store_metadata};
use crate::json::state::{InscriptionMetadata, MetadataView, metadata_failure, parse_metadata, ser_metadata};

verus! {

/// The record without the first `authority` among its update authorities.
pub open spec fn without_authority(metadata: MetadataView, authority: Address) -> MetadataView {
    MetadataView {
        update_authorities: without(metadata.update_authorities, authority),
        ..metadata
    }
}

/// Why RemoveAuthority fails, if it does. The checks, in order: there are
/// three accounts; the program owns the metadata account, which is not empty;
/// it holds a metadata record; the payer may act; the address to remove is an
/// authority; and the shorter record can be stored.
pub open spec fn remove_authority_failure(accounts: Seq<AccountView>, authority: Address) -> Option<
    ProgramError,
> {
    if accounts.len() < 3 {
        Some(ProgramError::NotEnoughAccountKeys)
    } else {
        let metadata = parse_metadata(accounts[0].data);
        let payer = payer_failure(metadata->0, accounts[1], accounts[2]);
        if accounts[0].owner != program_id() || accounts[0].data.len() == 0 {
            Some(custom(MplInscriptionError::NotInitialized))
        } else if metadata_failure(accounts[0].data) is Some {
            metadata_failure(accounts[0].data)
        } else if payer is Some {
            payer
        } else if !metadata->0.update_authorities.contains(authority) {
            Some(custom(MplInscriptionError::InvalidAuthority))
        } else {
            store_failure(accounts[0], without_authority(metadata->0, authority))
        }
    }
}

/// The accounts after RemoveAuthority: the metadata account stores its record
/// without the authority; the last authority of the list has taken its place.
/// Nothing else changes.
pub open spec fn remove_authority_effect(accounts: Seq<AccountView>, authority: Address) -> Seq<
    AccountView,
> {
    accounts.update(
        0,
        accounts[0].storing(
            ser_metadata(without_authority(parse_metadata(accounts[0].data)->0, authority)),
        ),
    )
}

pub fn process_remove_authority(accounts: &mut Vec<Account>, args: RemoveAuthorityArgs) -> (r:
    Result<(), ProgramError>)
    ensures
        match r {
            Ok(()) => remove_authority_failure(views(old(accounts)@), args.authority) is None
                && views(final(accounts)@) == remove_authority_effect(
                views(old(accounts)@),
                args.authority,
            ),
            Err(e) => remove_authority_failure(views(old(accounts)@), args.authority) == Some(e)
                && final(accounts)@ == old(accounts)@,
        },
{
    if accounts.len() < 3 {
        return Err(ProgramError::NotEnoughAccountKeys);
    }
    // Check that the account is already initialized.
    if accounts[0].owner != program_id() || accounts[0].data_is_empty() {
        return Err(ProgramError::from(MplInscriptionError::NotInitialized));
    }
    let mut json_metadata = match InscriptionMetadata::decode(accounts[0].data.as_slice()) {
        Ok(m) => m,
        Err(e) => {
            return Err(e);
        },
    };
    // The payer must sign and be an authority.
    match check_payer(&json_metadata, &accounts[1], &accounts[2]) {
        Ok(()) => {},
        Err(e) => {
            return Err(e);
        },
    }
    // Remove the authority.
    let index = match position(&json_metadata.update_authorities, &args.authority) {
        Some(i) => i,
        None => {
            return Err(ProgramError::from(MplInscriptionError::InvalidAuthority));
        },
    };
    let ghost old_metadata = json_metadata@;
    json_metadata.update_authorities.swap_remove(index);
    proof {
        assert(json_metadata@ =~~= without_authority(old_metadata, args.authority));
    }
    // Write the updated metadata back to the account.
    match store_metadata(&mut accounts[0], &json_metadata) {
        Ok(()) => {},
        Err(e) => {
            return Err(e);
        },
    }
    proof {
        let before = views(old(accounts)@);
        assert(forall|i: int| 1 <= i < accounts@.len() ==> accounts@[i] == old(accounts)@[i]);
        assert(views(accounts@) =~~= remove_authority_effect(before, args.authority));
    }
    Ok(())
}

} // verus!
