//! Initialize: create an inscription and give it its rank.
use vstd::prelude::*;
use crate::account::{Account, AccountView, views};
use crate::address::{
    Address, lemma_program_is_not_system, program_id, spec_program_id, spec_system_program_id, system_program_id,
};
use crate::authority::{acting_authority, resolve_authority};
use crate::derivation::{assert_derivation, inscription_seeds, spec_inscription_seeds, verified_bump};
use crate::error::{MplInscriptionError, ProgramError, custom};
use crate::processor::common::{
    lemma_shard_outcome, load_shard, optional, optional_account, shard_outcome,
};
use crate::shard::{advanced, assign_rank, can_assign, rank_of};
use crate::state::{
    DataType, EMPTY_PADDING, InscriptionMetadata, InscriptionShard, Key, MetadataView,
    SHARD_COUNT, lemma_metadata_round_trip, lemma_shard_len, lemma_shard_round_trip,
    metadata_failure, parse_metadata, parse_shard, ser_metadata, ser_shard,
};

verus! {

/// The bump of the address derived from the account at `from`, where
/// `derived` lives at that address.
pub open spec fn derived_bump(derived: AccountView, from: AccountView) -> Result<u8, ProgramError> {
    verified_bump(
        program_id(),
        derived.key,
        spec_inscription_seeds(from.key),
        MplInscriptionError::DerivedKeyInvalid,
    )
}

/// Why Initialize fails, if it does. The checks, in order: there are six
/// accounts; no program has claimed the inscription account or the metadata
/// account; the metadata account lives at the address derived from the
/// inscription account; whoever acts has signed, and the payer too; the system
/// program is the real one; the shard account is a shard of this program; and
/// the shard can hand out another rank.
pub open spec fn initialize_failure(accounts: Seq<AccountView>) -> Option<ProgramError> {
    if accounts.len() < 6 {
        Some(ProgramError::NotEnoughAccountKeys)
    } else {
        let bump = derived_bump(accounts[1], accounts[0]);
        let authority = acting_authority(accounts[3], optional(accounts[4]));
        let shard = shard_outcome(accounts[2]);
        if !accounts[0].is_unclaimed() || !accounts[1].is_unclaimed() {
            Some(custom(MplInscriptionError::AlreadyInitialized))
        } else if bump is Err {
            Some(bump->Err_0)
        } else if authority is Err {
            Some(authority->Err_0)
        } else if accounts[5].key != system_program_id() {
            Some(custom(MplInscriptionError::InvalidSystemProgram))
        } else if shard is Err {
            Some(shard->Err_0)
        } else if !can_assign(shard->Ok_0) {
            Some(custom(MplInscriptionError::NumericalOverflow))
        } else {
            None
        }
    }
}

/// The record of a new inscription: it points back at the account that holds
/// the payload, the one who created it is its only authority, and its rank is
/// the one that the shard handed out.
pub open spec fn initial_metadata(
    inscription: Address,
    bump: u8,
    authority: Address,
    shard: InscriptionShard,
) -> MetadataView {
    MetadataView {
        key: Key::InscriptionMetadataAccount,
        inscription_account: inscription,
        bump,
        data_type: DataType::Uninitialized,
        inscription_rank: rank_of(shard.count as int, shard.shard_number as int) as u64,
        inscription_bump: None,
        update_authorities: seq![authority],
        associated_inscriptions: Seq::empty(),
        mint: None,
        padding: EMPTY_PADDING,
    }
}

/// The accounts after Initialize: the program owns the inscription account,
/// which is empty, and the metadata account, which stores the record of the
/// new inscription; the shard has counted one more. Nothing else changes.
pub open spec fn initialize_effect(accounts: Seq<AccountView>) -> Seq<AccountView> {
    let shard = shard_outcome(accounts[2])->Ok_0;
    let metadata = initial_metadata(
        accounts[0].key,
        derived_bump(accounts[1], accounts[0])->Ok_0,
        acting_authority(accounts[3], optional(accounts[4]))->Ok_0,
        shard,
    );
    accounts.update(0, accounts[0].created(program_id(), 0)).update(
        1,
        accounts[1].claimed(program_id(), ser_metadata(metadata)),
    ).update(2, accounts[2].storing(ser_shard(advanced(shard))))
}

pub fn process_initialize(accounts: &mut Vec<Account>) -> (r: Result<(), ProgramError>)
    ensures
        match r {
            Ok(()) => initialize_failure(views(old(accounts)@)) is None
                && views(final(accounts)@) == initialize_effect(views(old(accounts)@)),
            Err(e) => initialize_failure(views(old(accounts)@)) == Some(e)
                && final(accounts)@ == old(accounts)@,
        },
{
    if accounts.len() < 6 {
        return Err(ProgramError::NotEnoughAccountKeys);
    }
    // Check that the account isn't already initialized.
    if !accounts[0].is_unclaimed() {
        return Err(ProgramError::from(MplInscriptionError::AlreadyInitialized));
    }
    // Check that the account isn't already initialized.
    if !accounts[1].is_unclaimed() {
        return Err(ProgramError::from(MplInscriptionError::AlreadyInitialized));
    }
    // Verify that the derived address is correct for the metadata account.
    let seeds = inscription_seeds(&accounts[0].key);
    let bump = match assert_derivation(
        &program_id(),
        &accounts[1],
        &seeds,
        MplInscriptionError::DerivedKeyInvalid,
    ) {
        Ok(b) => b,
        Err(e) => {
            return Err(e);
        },
    };
    // The payer must sign as well as the authority, if present.
    let authority = match resolve_authority(&accounts[3], optional_account(&accounts[4])) {
        Ok(a) => a,
        Err(e) => {
            return Err(e);
        },
    };
    if accounts[5].key != system_program_id() {
        return Err(ProgramError::from(MplInscriptionError::InvalidSystemProgram));
    }
    let mut shard = match load_shard(&accounts[2]) {
        Ok(s) => s,
        Err(e) => {
            return Err(e);
        },
    };
    let ghost old_shard = shard;
    // Count * 32 + shard_number
    let rank = match assign_rank(&mut shard) {
        Ok(rank) => rank,
        Err(e) => {
            return Err(e);
        },
    };
    // Initialize the inscription metadata.
    let mut update_authorities: Vec<Address> = Vec::new();
    update_authorities.push(authority);
    let inscription_metadata = InscriptionMetadata {
        key: Key::InscriptionMetadataAccount,
        inscription_account: accounts[0].key,
        bump,
        data_type: DataType::Uninitialized,
        inscription_rank: rank,
        inscription_bump: None,
        update_authorities,
        associated_inscriptions: Vec::new(),
        mint: None,
        _padding: EMPTY_PADDING,
    };
    proof {
        assert(inscription_metadata@ =~~= initial_metadata(
            accounts@[0].key,
            bump,
            authority,
            old_shard,
        ));
    }
    let serialized_metadata = match inscription_metadata.encode() {
        Ok(bytes) => bytes,
        Err(e) => {
            return Err(e);
        },
    };
    let serialized_shard = shard.encode();
    proof {
        lemma_shard_len(shard);
    }
    // Initialize the inscription account.
    match accounts[0].create(program_id(), 0) {
        Ok(()) => {},
        Err(e) => {
            return Err(e);
        },
    }
    // Initialize the inscription metadata account and write the metadata to it.
    match accounts[1].claim(program_id(), serialized_metadata.as_slice()) {
        Ok(()) => {},
        Err(e) => {
            return Err(e);
        },
    }
    // Write the shard data back to the shard account.
    match accounts[2].store(serialized_shard.as_slice()) {
        Ok(()) => {},
        Err(e) => {
            return Err(e);
        },
    }
    proof {
        let before = views(old(accounts)@);
        assert(forall|i: int| 3 <= i < accounts@.len() ==> accounts@[i] == old(accounts)@[i]);
        assert(views(accounts@) =~~= initialize_effect(before));
    }
    Ok(())
}


/// Initialize cannot be repeated: on the accounts that one Initialize has
/// left, a second fails with `AlreadyInitialized`.
pub proof fn lemma_initialize_twice(accounts: Seq<AccountView>)
    requires
        initialize_failure(accounts) is None,
    ensures
        initialize_failure(initialize_effect(accounts)) == Some(
            custom(MplInscriptionError::AlreadyInitialized),
        ),
{
    lemma_program_is_not_system();
    let after = initialize_effect(accounts);
    assert(after.len() == accounts.len());
    assert(after[0] == accounts[0].created(program_id(), 0));
}

/// Initialize gives the inscription the rank that its shard hands out, and
/// the shard counts one more: the next inscription of this shard gets the rank
/// `SHARD_COUNT` above. The shard's number is below `SHARD_COUNT`, so that the
/// rank tells the shard and no other shard hands it out.
pub proof fn lemma_initialize_rank(accounts: Seq<AccountView>)
    requires
        initialize_failure(accounts) is None,
    ensures
        ({
            let shard = shard_outcome(accounts[2])->Ok_0;
            let after = initialize_effect(accounts);
            &&& parse_metadata(after[1].data) matches Some(metadata)
            &&& metadata.inscription_rank == rank_of(shard.count as int, shard.shard_number as int)
            &&& metadata_failure(after[1].data) is None
            &&& parse_shard(after[2].data) == Some(advanced(shard))
            &&& rank_of(advanced(shard).count as int, shard.shard_number as int)
                == metadata.inscription_rank + 32
            &&& shard.shard_number < SHARD_COUNT
            &&& metadata.inscription_rank % 32 == shard.shard_number
            &&& metadata.inscription_rank / 32 == shard.count
        }),
{
    lemma_shard_outcome(accounts[2]);
    let shard = shard_outcome(accounts[2])->Ok_0;
    let metadata = initial_metadata(
        accounts[0].key,
        derived_bump(accounts[1], accounts[0])->Ok_0,
        acting_authority(accounts[3], optional(accounts[4]))->Ok_0,
        shard,
    );
    lemma_metadata_round_trip(metadata);
    lemma_shard_round_trip(advanced(shard));
}

} // verus!
