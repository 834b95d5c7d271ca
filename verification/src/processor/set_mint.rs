//! SetMint: record the mint in the metadata of a mint's inscription.
use vstd::prelude::*;
use crate::account::{Account, AccountView, assert_signer, views};
use crate::address::{
    Address, program_id, spec_program_id, spec_token_program_id, token_program_id,
};
use crate::derivation::{assert_derivation, inscription_seeds};
use crate::error::{MplInscriptionError, ProgramError, custom};
use crate::processor::common::{store_failure, store_metadata};
use crate::processor::initialize::derived_bump;
use crate::state::{InscriptionMetadata, Key, MetadataView, metadata_failure, parse_metadata, ser_metadata};

verus! {

/// The record with `mint` as its mint.
pub open spec fn with_mint(metadata: MetadataView, mint: Address) -> MetadataView {
    MetadataView { mint: Some(mint), ..metadata }
}

/// Why SetMint fails, if it does. The checks, in order: there are five
/// accounts; the program owns the inscription account and the metadata
/// account, and the latter is not empty; the token program owns the mint; the
/// inscription account lives at the address derived from the mint, and the
/// metadata account at the one derived from the inscription account; the
/// payer has signed; the metadata account holds a metadata record; the record
/// is that of a mint's inscription; and the record with the mint can be
/// stored.
pub open spec fn set_mint_failure(accounts: Seq<AccountView>) -> Option<ProgramError> {
    if accounts.len() < 5 {
        Some(ProgramError::NotEnoughAccountKeys)
    } else {
        let metadata = parse_metadata(accounts[1].data);
        let inscription_bump = derived_bump(accounts[0], accounts[2]);
        let bump = derived_bump(accounts[1], accounts[0]);
        if accounts[0].owner != program_id() || accounts[1].owner != program_id()
            || accounts[1].data.len() == 0 {
            Some(custom(MplInscriptionError::NotInitialized))
        } else if accounts[2].owner != token_program_id() {
            Some(custom(MplInscriptionError::IncorrectOwner))
        } else if inscription_bump is Err {
            Some(inscription_bump->Err_0)
        } else if bump is Err {
            Some(bump->Err_0)
        } else if !accounts[3].is_signer {
            Some(ProgramError::MissingRequiredSignature)
        } else if metadata_failure(accounts[1].data) is Some {
            metadata_failure(accounts[1].data)
        } else if metadata->0.key != Key::MintInscriptionMetadataAccount {
            Some(custom(MplInscriptionError::InvalidInscriptionMetadataAccount))
        } else {
            store_failure(accounts[1], with_mint(metadata->0, accounts[2].key))
        }
    }
}

/// The accounts after SetMint: the metadata account stores its record with
/// the mint set. Nothing else changes.
pub open spec fn set_mint_effect(accounts: Seq<AccountView>) -> Seq<AccountView> {
    accounts.update(
        1,
        accounts[1].storing(
            ser_metadata(with_mint(parse_metadata(accounts[1].data)->0, accounts[2].key)),
        ),
    )
}

pub fn process_set_mint(accounts: &mut Vec<Account>) -> (r: Result<(), ProgramError>)
    ensures
        match r {
            Ok(()) => set_mint_failure(views(old(accounts)@)) is None
                && views(final(accounts)@) == set_mint_effect(views(old(accounts)@)),
            Err(e) => set_mint_failure(views(old(accounts)@)) == Some(e)
                && final(accounts)@ == old(accounts)@,
        },
{
    if accounts.len() < 5 {
        return Err(ProgramError::NotEnoughAccountKeys);
    }
    // Check that the account is already initialized.
    if accounts[0].owner != program_id() {
        return Err(ProgramError::from(MplInscriptionError::NotInitialized));
    }
    // Check that the account is already initialized.
    if accounts[1].owner != program_id() || accounts[1].data_is_empty() {
        return Err(ProgramError::from(MplInscriptionError::NotInitialized));
    }
    if accounts[2].owner != token_program_id() {
        return Err(ProgramError::from(MplInscriptionError::IncorrectOwner));
    }
    // Verify that the derived address is correct for the inscription account.
    let mint_seeds = inscription_seeds(&accounts[2].key);
    match assert_derivation(
        &program_id(),
        &accounts[0],
        &mint_seeds,
        MplInscriptionError::DerivedKeyInvalid,
    ) {
        Ok(_) => {},
        Err(e) => {
            return Err(e);
        },
    }
    // Verify that the derived address is correct for the metadata account.
    let seeds = inscription_seeds(&accounts[0].key);
    match assert_derivation(
        &program_id(),
        &accounts[1],
        &seeds,
        MplInscriptionError::DerivedKeyInvalid,
    ) {
        Ok(_) => {},
        Err(e) => {
            return Err(e);
        },
    }
    match assert_signer(&accounts[3]) {
        Ok(()) => {},
        Err(e) => {
            return Err(e);
        },
    }
    let mut inscription_metadata = match InscriptionMetadata::decode(accounts[1].data.as_slice()) {
        Ok(m) => m,
        Err(e) => {
            return Err(e);
        },
    };
    // Check that the account is a valid inscription metadata account.
    if inscription_metadata.key != Key::MintInscriptionMetadataAccount {
        return Err(ProgramError::from(MplInscriptionError::InvalidInscriptionMetadataAccount));
    }
    let ghost old_metadata = inscription_metadata@;
    inscription_metadata.mint = Some(accounts[2].key);
    proof {
        assert(inscription_metadata@ =~~= with_mint(old_metadata, accounts@[2].key));
    }
    match store_metadata(&mut accounts[1], &inscription_metadata) {
        Ok(()) => {},
        Err(e) => {
            return Err(e);
        },
    }
    proof {
        let before = views(old(accounts)@);
        assert(forall|i: int|
            0 <= i < accounts@.len() && i != 1 ==> accounts@[i] == old(accounts)@[i]);
        assert(views(accounts@) =~~= set_mint_effect(before));
    }
    Ok(())
}

} // verus!
