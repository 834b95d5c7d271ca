//! AddAuthority of the JSON inscription program.
use vstd::prelude::*;
use crate::account::{Account, AccountView, views};
use crate::address::{Address, program_id, spec_program_id};
use crate::error::{MplInscriptionError, ProgramError, custom};
use crate::json::instruction::AddAuthorityArgs;
use crate::json::processor::{check_payer, payer_failure, store_failure, store_metadata};
use crate::json::state::{InscriptionMetadata, MetadataView, metadata_failure, parse_metadata, ser_metadata};

verus! {

/// The record with `new_authority` at the end of its update authorities.
pub open spec fn with_authority(metadata: MetadataView, new_authority: Address) -> MetadataView {
    MetadataView {
        update_authorities: metadata.update_authorities.push(new_authority),
        ..metadata
    }
}

/// Why AddAuthority fails, if it does. The checks, in order: there are three
/// accounts; the program owns the metadata account, which is not empty; it
/// holds a metadata record; the payer may act; and the longer record can be
/// stored. An address that is an authority already is added once more.
pub open spec fn add_authority_failure(accounts: Seq<AccountView>, new_authority: Address) -> Option<
    ProgramError,
> {
    if accounts.len() < 3 {
        Some(ProgramError::NotEnoughAccountKeys)
    } else {
        let metadata = parse_metadata(accounts[0].data);
        let payer = payer_failure(metadata->0, accounts[1], accounts[2]);
        if accounts[0].owner != program_id() || accounts[0].data.len() == 0 {
            Some(custom(MplInscriptionError::NotInitialized))
        } else if metadata_failure(accounts[0].data) is Some {
            metadata_failure(accounts[0].data)
        } else if payer is Some {
            payer
        } else {
            store_failure(accounts[0], with_authority(metadata->0, new_authority))
        }
    }
}

/// The accounts after AddAuthority: the metadata account stores its record
/// with the new authority added at the end. Nothing else changes.
pub open spec fn add_authority_effect(accounts: Seq<AccountView>, new_authority: Address) -> Seq<
    AccountView,
> {
    accounts.update(
        0,
        accounts[0].storing(
            ser_metadata(with_authority(parse_metadata(accounts[0].data)->0, new_authority)),
        ),
    )
}

pub fn process_add_authority(accounts: &mut Vec<Account>, args: AddAuthorityArgs) -> (r: Result<
    (),
    ProgramError,
>)
    ensures
        match r {
            Ok(()) => add_authority_failure(views(old(accounts)@), args.new_authority) is None
                && views(final(accounts)@) == add_authority_effect(
                views(old(accounts)@),
                args.new_authority,
            ),
            Err(e) => add_authority_failure(views(old(accounts)@), args.new_authority) == Some(e)
                && final(accounts)@ == old(accounts)@,
        },
{
    if accounts.len() < 3 {
        return Err(ProgramError::NotEnoughAccountKeys);
    }
    // Check that the account is already initialized.
    if accounts[0].owner != program_id() || accounts[0].data_is_empty() {
        return Err(ProgramError::from(MplInscriptionError::NotInitialized));
    }
    let mut json_metadata = match InscriptionMetadata::decode(accounts[0].data.as_slice()) {
        Ok(m) => m,
        Err(e) => {
            return Err(e);
        },
    };
    // The payer must sign and be an authority.
    match check_payer(&json_metadata, &accounts[1], &accounts[2]) {
        Ok(()) => {},
        Err(e) => {
            return Err(e);
        },
    }
    // Add the new authority.
    let ghost old_metadata = json_metadata@;
    json_metadata.update_authorities.push(args.new_authority);
    proof {
        assert(json_metadata@ =~~= with_authority(old_metadata, args.new_authority));
    }
    // Write the updated metadata back to the account.
    match store_metadata(&mut accounts[0], &json_metadata) {
        Ok(()) => {},
        Err(e) => {
            return Err(e);
        },
    }
    proof {
        let before = views(old(accounts)@);
        assert(forall|i: int| 1 <= i < accounts@.len() ==> accounts@[i] == old(accounts)@[i]);
        assert(views(accounts@) =~~= add_authority_effect(before, args.new_authority));
    }
    Ok(())
}

} // verus!
