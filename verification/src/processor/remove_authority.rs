//! RemoveAuthority: whoever acts gives up their say over an inscription.
use vstd::prelude::*;
use crate::account::{Account, AccountView, views};
use crate::address::{Address, program_id, spec_program_id};
use crate::authority::{remove_authority, without};
use crate::error::{MplInscriptionError, ProgramError, custom};
use crate::processor::common::{
    authority_outcome, check_authority, lemma_stored_metadata, optional, optional_account, store_failure, store_metadata,
};
use crate::state::{InscriptionMetadata, MetadataView, metadata_failure, parse_metadata, ser_metadata};

verus! {

/// The record without the first `authority` among its update authorities.
pub open spec fn without_authority(metadata: MetadataView, authority: Address) -> MetadataView {
    MetadataView {
        update_authorities: without(metadata.update_authorities, authority),
        ..metadata
    }
}

/// Why RemoveAuthority fails, if it does. The checks, in order: there are
/// four accounts; the program owns the metadata account, which is not empty;
/// it holds a metadata record; whoever acts may, which fails with
/// `InvalidAuthority` where they are no update authority; and the shorter
/// record can be stored.
pub open spec fn remove_authority_failure(accounts: Seq<AccountView>) -> Option<ProgramError> {
    if accounts.len() < 4 {
        Some(ProgramError::NotEnoughAccountKeys)
    } else {
        let metadata_account = accounts[0];
        let metadata = parse_metadata(metadata_account.data);
        let authority = authority_outcome(
            metadata->0,
            accounts[1],
            optional(accounts[2]),
            accounts[3],
        );
        if metadata_account.owner != program_id() || metadata_account.data.len() == 0 {
            Some(custom(MplInscriptionError::NotInitialized))
        } else if metadata_failure(metadata_account.data) is Some {
            metadata_failure(metadata_account.data)
        } else if authority is Err {
            Some(authority->Err_0)
        } else {
            store_failure(metadata_account, without_authority(metadata->0, authority->Ok_0))
        }
    }
}

/// The accounts after RemoveAuthority: the metadata account stores its record
/// without the authority that acted; the last authority of the list has taken
/// its place. Nothing else changes.
pub open spec fn remove_authority_effect(accounts: Seq<AccountView>) -> Seq<AccountView> {
    let metadata = parse_metadata(accounts[0].data)->0;
    let authority = authority_outcome(metadata, accounts[1], optional(accounts[2]), accounts[3]);
    accounts.update(
        0,
        accounts[0].storing(ser_metadata(without_authority(metadata, authority->Ok_0))),
    )
}

pub fn process_remove_authority(accounts: &mut Vec<Account>) -> (r: Result<(), ProgramError>)
    ensures
        match r {
            Ok(()) => remove_authority_failure(views(old(accounts)@)) is None
                && views(final(accounts)@) == remove_authority_effect(views(old(accounts)@)),
            Err(e) => remove_authority_failure(views(old(accounts)@)) == Some(e)
                && final(accounts)@ == old(accounts)@,
        },
{
    if accounts.len() < 4 {
        return Err(ProgramError::NotEnoughAccountKeys);
    }
    // Check that the account is already initialized.
    if accounts[0].owner != program_id() || accounts[0].data_is_empty() {
        return Err(ProgramError::from(MplInscriptionError::NotInitialized));
    }
    let mut inscription_metadata = match InscriptionMetadata::decode(accounts[0].data.as_slice()) {
        Ok(m) => m,
        Err(e) => {
            return Err(e);
        },
    };
    // The payer and authority must sign.
    let authority = match check_authority(
        &inscription_metadata,
        &accounts[1],
        optional_account(&accounts[2]),
        &accounts[3],
    ) {
        Ok(a) => a,
        Err(e) => {
            return Err(e);
        },
    };
    // Remove the authority if they're the signer.
    match remove_authority(&mut inscription_metadata, &authority) {
        Ok(()) => {},
        Err(e) => {
            return Err(e);
        },
    }
    // Write the updated inscription metadata account back to the account.
    match store_metadata(&mut accounts[0], &inscription_metadata) {
        Ok(()) => {},
        Err(e) => {
            return Err(e);
        },
    }
    proof {
        let before = views(old(accounts)@);
        assert(forall|i: int| 1 <= i < accounts@.len() ==> accounts@[i] == old(accounts)@[i]);
        assert(views(accounts@) =~~= remove_authority_effect(before));
    }
    Ok(())
}


/// After RemoveAuthority the record in the metadata account is the old one
/// without the authority that acted.
pub proof fn lemma_remove_authority(accounts: Seq<AccountView>)
    requires
        remove_authority_failure(accounts) is None,
    ensures
        ({
            let metadata = parse_metadata(accounts[0].data)->0;
            let acting = authority_outcome(
                metadata,
                accounts[1],
                optional(accounts[2]),
                accounts[3],
            )->Ok_0;
            &&& metadata.update_authorities.contains(acting)
            &&& parse_metadata(remove_authority_effect(accounts)[0].data) == Some(
                without_authority(metadata, acting),
            )
        }),
{
    let metadata = parse_metadata(accounts[0].data)->0;
    let acting = authority_outcome(metadata, accounts[1], optional(accounts[2]), accounts[3])->Ok_0;
    lemma_stored_metadata(accounts[0], without_authority(metadata, acting));
}

} // verus!
