//! AddAuthority: let one more address change an inscription.
use vstd::prelude::*;
use crate::account::{Account, AccountView, views};
use crate::address::{Address, program_id, spec_program_id};
use crate::authority::add_authority;
use crate::error::{MplInscriptionError, ProgramError, custom};
use crate::instruction::AddAuthorityArgs;
use crate::processor::common::{
    authority_outcome, check_authority, lemma_stored_metadata, optional, optional_account, store_failure, store_metadata,
};
use crate::state::{InscriptionMetadata, MetadataView, metadata_failure, parse_metadata, ser_metadata};

verus! {

/// The record with `new_authority` at the end of its update authorities.
pub open spec fn with_authority(metadata: MetadataView, new_authority: Address) -> MetadataView {
    MetadataView {
        update_authorities: metadata.update_authorities.push(new_authority),
        ..metadata
    }
}

/// Why AddAuthority fails, if it does. The checks, in order: there are four
/// accounts; the program owns the metadata account, which is not empty; it
/// holds a metadata record; whoever acts may; the new authority is none yet;
/// and the longer record can be stored.
pub open spec fn add_authority_failure(accounts: Seq<AccountView>, new_authority: Address) -> Option<
    ProgramError,
> {
    if accounts.len() < 4 {
        Some(ProgramError::NotEnoughAccountKeys)
    } else {
        let metadata_account = accounts[0];
        let metadata = parse_metadata(metadata_account.data);
        let authority = authority_outcome(
            metadata->0,
            accounts[1],
            optional(accounts[2]),
            accounts[3],
        );
        if metadata_account.owner != program_id() || metadata_account.data.len() == 0 {
            Some(custom(MplInscriptionError::NotInitialized))
        } else if metadata_failure(metadata_account.data) is Some {
            metadata_failure(metadata_account.data)
        } else if authority is Err {
            Some(authority->Err_0)
        } else if metadata->0.update_authorities.contains(new_authority) {
            Some(custom(MplInscriptionError::AuthorityAlreadyExists))
        } else {
            store_failure(metadata_account, with_authority(metadata->0, new_authority))
        }
    }
}

/// The accounts after AddAuthority: the metadata account stores its record
/// with the new authority added at the end. Nothing else changes.
pub open spec fn add_authority_effect(accounts: Seq<AccountView>, new_authority: Address) -> Seq<
    AccountView,
> {
    accounts.update(
        0,
        accounts[0].storing(
            ser_metadata(with_authority(parse_metadata(accounts[0].data)->0, new_authority)),
        ),
    )
}

pub fn process_add_authority(accounts: &mut Vec<Account>, args: AddAuthorityArgs) -> (r: Result<
    (),
    ProgramError,
>)
    ensures
        match r {
            Ok(()) => add_authority_failure(views(old(accounts)@), args.new_authority) is None
                && views(final(accounts)@) == add_authority_effect(
                views(old(accounts)@),
                args.new_authority,
            ),
            Err(e) => add_authority_failure(views(old(accounts)@), args.new_authority) == Some(e)
                && final(accounts)@ == old(accounts)@,
        },
{
    if accounts.len() < 4 {
        return Err(ProgramError::NotEnoughAccountKeys);
    }
    // Check that the account is already initialized.
    if accounts[0].owner != program_id() || accounts[0].data_is_empty() {
        return Err(ProgramError::from(MplInscriptionError::NotInitialized));
    }
    let mut inscription_metadata = match InscriptionMetadata::decode(accounts[0].data.as_slice()) {
        Ok(m) => m,
        Err(e) => {
            return Err(e);
        },
    };
    // The payer must sign as well as the authority, if present.
    match check_authority(
        &inscription_metadata,
        &accounts[1],
        optional_account(&accounts[2]),
        &accounts[3],
    ) {
        Ok(_) => {},
        Err(e) => {
            return Err(e);
        },
    }
    // Add the new authority.
    match add_authority(&mut inscription_metadata, args.new_authority) {
        Ok(()) => {},
        Err(e) => {
            return Err(e);
        },
    }
    // Write the updated inscription metadata account back to the account.
    match store_metadata(&mut accounts[0], &inscription_metadata) {
        Ok(()) => {},
        Err(e) => {
            return Err(e);
        },
    }
    proof {
        let before = views(old(accounts)@);
        assert(forall|i: int| 1 <= i < accounts@.len() ==> accounts@[i] == old(accounts)@[i]);
        assert(views(accounts@) =~~= add_authority_effect(before, args.new_authority));
    }
    Ok(())
}


/// After AddAuthority the record in the metadata account is the old one with
/// the new authority at the end of its list.
pub proof fn lemma_add_authority(accounts: Seq<AccountView>, new_authority: Address)
    requires
        add_authority_failure(accounts, new_authority) is None,
    ensures
        parse_metadata(add_authority_effect(accounts, new_authority)[0].data) == Some(
            with_authority(parse_metadata(accounts[0].data)->0, new_authority),
        ),
{
    lemma_stored_metadata(
        accounts[0],
        with_authority(parse_metadata(accounts[0].data)->0, new_authority),
    );
}

} // verus!
