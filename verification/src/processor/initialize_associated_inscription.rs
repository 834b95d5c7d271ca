//! InitializeAssociatedInscription: give an inscription a named sub-account.
use vstd::prelude::*;
use vstd::utf8::encode_utf8;
use crate::account::{Account, AccountView, views};
use crate::address::{program_id, spec_program_id};
use crate::derivation::{
    assert_derivation, association_seeds, inscription_seeds, spec_association_seeds, verified_bump,
};
use crate::error::{MplInscriptionError, ProgramError, custom};
use crate::instruction::AssociateInscriptionAccountArgs;
use crate::processor::common::{
    authority_outcome, check_authority, check_tag, optional, optional_account, store_failure,
    store_metadata, tag_failure,
};
use crate::processor::initialize::derived_bump;
use crate::state::{
    AssociatedInscription, AssociatedInscriptionView, DataType, InscriptionMetadata, MetadataView,
    associated_views, metadata_failure, parse_metadata, ser_metadata,
};

verus! {

/// The bump of the address of the account under `tag`, where `associated`
/// lives at that address.
pub open spec fn association_bump(
    associated: AccountView,
    tag: Seq<char>,
    metadata_account: AccountView,
) -> Result<u8, ProgramError> {
    verified_bump(
        program_id(),
        associated.key,
        spec_association_seeds(encode_utf8(tag), metadata_account.key),
        MplInscriptionError::DerivedKeyInvalid,
    )
}

/// The record with a new entry under `tag` at the end of its associated
/// inscriptions.
pub open spec fn associated_with(metadata: MetadataView, tag: Seq<char>, bump: u8) -> MetadataView {
    MetadataView {
        associated_inscriptions: metadata.associated_inscriptions.push(
            AssociatedInscriptionView { tag, bump, data_type: DataType::Uninitialized },
        ),
        ..metadata
    }
}

/// Why InitializeAssociatedInscription fails, if it does. The checks, in
/// order: there are six accounts; the program owns the inscription account;
/// no program has claimed the associated account; the program owns the
/// metadata account, which is not empty; it holds a metadata record; it lives
/// at the address derived from the inscription account; the tag is neither
/// empty nor too long; the associated account lives at the address derived
/// from the tag and the metadata account; whoever acts may; and the longer
/// record can be stored.
pub open spec fn initialize_associated_inscription_failure(
    accounts: Seq<AccountView>,
    tag: Seq<char>,
) -> Option<ProgramError> {
    if accounts.len() < 6 {
        Some(ProgramError::NotEnoughAccountKeys)
    } else {
        let metadata = parse_metadata(accounts[1].data);
        let metadata_bump = derived_bump(accounts[1], accounts[0]);
        let bump = association_bump(accounts[2], tag, accounts[1]);
        let authority = authority_outcome(
            metadata->0,
            accounts[3],
            optional(accounts[4]),
            accounts[5],
        );
        if accounts[0].owner != program_id() {
            Some(custom(MplInscriptionError::IncorrectOwner))
        } else if !accounts[2].is_unclaimed() {
            Some(custom(MplInscriptionError::AlreadyInitialized))
        } else if accounts[1].owner != program_id() || accounts[1].data.len() == 0 {
            Some(custom(MplInscriptionError::NotInitialized))
        } else if metadata_failure(accounts[1].data) is Some {
            metadata_failure(accounts[1].data)
        } else if metadata_bump is Err {
            Some(metadata_bump->Err_0)
        } else if tag_failure(tag) is Some {
            tag_failure(tag)
        } else if bump is Err {
            Some(bump->Err_0)
        } else if authority is Err {
            Some(authority->Err_0)
        } else {
            store_failure(accounts[1], associated_with(metadata->0, tag, bump->Ok_0))
        }
    }
}

/// The accounts after InitializeAssociatedInscription: the program owns the
/// associated account, which is empty, and the metadata account stores its
/// record with the new entry at the end. Nothing else changes.
pub open spec fn initialize_associated_inscription_effect(
    accounts: Seq<AccountView>,
    tag: Seq<char>,
) -> Seq<AccountView> {
    let metadata = associated_with(
        parse_metadata(accounts[1].data)->0,
        tag,
        association_bump(accounts[2], tag, accounts[1])->Ok_0,
    );
    accounts.update(1, accounts[1].storing(ser_metadata(metadata))).update(
        2,
        accounts[2].created(program_id(), 0),
    )
}

pub fn process_initialize_associated_inscription(
    accounts: &mut Vec<Account>,
    args: AssociateInscriptionAccountArgs,
) -> (r: Result<(), ProgramError>)
    ensures
        match r {
            Ok(()) => initialize_associated_inscription_failure(
                views(old(accounts)@),
                args.association_tag@,
            ) is None && views(final(accounts)@) == initialize_associated_inscription_effect(
                views(old(accounts)@),
                args.association_tag@,
            ),
            Err(e) => initialize_associated_inscription_failure(
                views(old(accounts)@),
                args.association_tag@,
            ) == Some(e) && final(accounts)@ == old(accounts)@,
        },
{
    if accounts.len() < 6 {
        return Err(ProgramError::NotEnoughAccountKeys);
    }
    if accounts[0].owner != program_id() {
        return Err(ProgramError::from(MplInscriptionError::IncorrectOwner));
    }
    // Check that the account isn't already initialized.
    if !accounts[2].is_unclaimed() {
        return Err(ProgramError::from(MplInscriptionError::AlreadyInitialized));
    }
    // Check that the account is already initialized.
    if accounts[1].owner != program_id() || accounts[1].data_is_empty() {
        return Err(ProgramError::from(MplInscriptionError::NotInitialized));
    }
    let mut inscription_metadata = match InscriptionMetadata::decode(accounts[1].data.as_slice()) {
        Ok(m) => m,
        Err(e) => {
            return Err(e);
        },
    };
    let metadata_seeds = inscription_seeds(&accounts[0].key);
    match assert_derivation(
        &program_id(),
        &accounts[1],
        &metadata_seeds,
        MplInscriptionError::DerivedKeyInvalid,
    ) {
        Ok(_) => {},
        Err(e) => {
            return Err(e);
        },
    }
    // We don't allow empty tags. A tag can't be greater than the seed size.
    match check_tag(&args.association_tag) {
        Ok(()) => {},
        Err(e) => {
            return Err(e);
        },
    }
    // Verify that the derived address is correct for the associated account.
    let seeds = association_seeds(args.association_tag.as_str(), &accounts[1].key);
    let inscription_bump = match assert_derivation(
        &program_id(),
        &accounts[2],
        &seeds,
        MplInscriptionError::DerivedKeyInvalid,
    ) {
        Ok(b) => b,
        Err(e) => {
            return Err(e);
        },
    };
    // The payer must sign as well as the authority, if present.
    match check_authority(
        &inscription_metadata,
        &accounts[3],
        optional_account(&accounts[4]),
        &accounts[5],
    ) {
        Ok(_) => {},
        Err(e) => {
            return Err(e);
        },
    }
    // Update the metadata to include the new associated inscription.
    let ghost before = views(old(accounts)@);
    let ghost old_metadata = inscription_metadata@;
    let ghost tag = args.association_tag@;
    inscription_metadata.associated_inscriptions.push(
        AssociatedInscription {
            tag: args.association_tag,
            bump: inscription_bump,
            data_type: DataType::Uninitialized,
        },
    );
    proof {
        assert(inscription_metadata@ =~~= associated_with(old_metadata, tag, inscription_bump));
    }
    // Resize the metadata account to fit the new associated inscription and
    // write the metadata to it.
    match store_metadata(&mut accounts[1], &inscription_metadata) {
        Ok(()) => {},
        Err(e) => {
            return Err(e);
        },
    }
    // Initialize the associated inscription account.
    match accounts[2].create(program_id(), 0) {
        Ok(()) => {},
        Err(e) => {
            return Err(e);
        },
    }
    proof {
        assert(forall|i: int|
            0 <= i < accounts@.len() && i != 1 && i != 2 ==> accounts@[i] == old(accounts)@[i]);
        assert(views(accounts@) =~~= initialize_associated_inscription_effect(before, tag));
    }
    Ok(())
}

} // verus!
