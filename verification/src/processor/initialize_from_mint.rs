//! InitializeFromMint: create the inscription that belongs to a mint.
//!
//! The inscription account of a mint lives at an address derived from the
//! mint, so that a mint has one inscription at most. Its first authority is
//! the update authority of the mint's token metadata, which may always create
//! the inscription. Where the token belongs to a verified collection, a
//! delegate that the collection's update authority has approved may create
//! the inscription in its stead, and becomes its second authority. The
//! approval is the delegate record that Delegate creates: a record that does
//! not exist approves nobody.
use vstd::prelude::*;
use crate::account::{Account, AccountView, views};
use crate::address::{
    Address, lemma_program_is_not_system, program_id, spec_program_id, spec_system_program_id,
    spec_token_metadata_program_id, spec_token_program_id, system_program_id, token_metadata_program_id, token_program_id,
};
use crate::authority::{acting_authority, option_account_view, resolve_authority};
use crate::derivation::{
    assert_derivation, delegate_seeds, inscription_seeds, spec_delegate_seeds, verified_bump,
};
use crate::error::{MplInscriptionError, ProgramError, custom};
use crate::processor::common::{load_shard, optional, optional_account, shard_outcome};
use crate::processor::initialize::derived_bump;
use crate::shard::{advanced, assign_rank, can_assign, rank_of};
use crate::state::{
    DataType, EMPTY_PADDING, InscriptionMetadata, InscriptionShard, Key, MetadataView,
    lemma_metadata_round_trip, lemma_shard_len, parse_metadata, ser_metadata, ser_shard,
};
use crate::token_metadata::{
    Collection, TokenMetadata, read_token_metadata, token_metadata_record,
};

verus! {

/// Whether `record` is the approval of `delegate` for the collection of
/// `collection_mint` by `update_authority`: it lives at the address derived
/// for that delegate, and it exists, which is to say that this program owns
/// it. An account that nobody has created approves nothing.
pub open spec fn delegate_failure(
    record: AccountView,
    collection_mint: Address,
    update_authority: Address,
    delegate: Address,
) -> Option<ProgramError> {
    match verified_bump(
        program_id(),
        record.key,
        spec_delegate_seeds(collection_mint, update_authority, delegate),
        MplInscriptionError::InvalidDelegate,
    ) {
        Err(e) => Some(e),
        Ok(_) => if record.owner == program_id() {
            None
        } else {
            Some(custom(MplInscriptionError::InvalidDelegate))
        },
    }
}

/// The first authorities of a mint's inscription that `acting` creates.
///
/// The token's update authority may always create the inscription, and is
/// then its only authority. Anyone else has to be an approved delegate: the
/// token belongs to a verified collection, and a delegate record comes with
/// the instruction that is the approval of `acting` for that collection. The
/// authorities are then the token's update authority and `acting`.
pub open spec fn seeded_authorities(
    token: TokenMetadata,
    acting: Address,
    delegate_record: Option<AccountView>,
) -> Result<Seq<Address>, ProgramError> {
    if token.update_authority == acting {
        Ok(seq![token.update_authority])
    } else if delegate_record is Some && token.collection is Some && token.collection->0.verified {
        match delegate_failure(
            delegate_record->0,
            token.collection->0.key,
            token.update_authority,
            acting,
        ) {
            None => Ok(seq![token.update_authority, acting]),
            Some(e) => Err(e),
        }
    } else {
        Err(custom(MplInscriptionError::InvalidAuthority))
    }
}

/// The first authorities are one or two, the token's update authority comes
/// first, and no address is there twice. A second authority is an approved
/// delegate.
pub proof fn lemma_seeded_authorities(
    token: TokenMetadata,
    acting: Address,
    delegate_record: Option<AccountView>,
)
    requires
        seeded_authorities(token, acting, delegate_record) is Ok,
    ensures
        ({
            let list = seeded_authorities(token, acting, delegate_record)->Ok_0;
            &&& 1 <= list.len() <= 2
            &&& list[0] == token.update_authority
            &&& list.no_duplicates()
            &&& list.contains(acting)
            &&& list.len() == 2 ==> {
                &&& list[1] == acting
                &&& delegate_record is Some
                &&& delegate_record->0.owner == program_id()
                &&& token.collection is Some
                &&& token.collection->0.verified
                &&& delegate_failure(
                    delegate_record->0,
                    token.collection->0.key,
                    token.update_authority,
                    acting,
                ) is None
            }
        }),
{
    let list = seeded_authorities(token, acting, delegate_record)->Ok_0;
    if token.update_authority == acting {
        assert(list[0] == acting);
    } else {
        assert(list[1] == acting);
    }
}

/// Finds the first authorities of a mint's inscription.
pub fn seed_authorities(
    token: &TokenMetadata,
    acting: &Address,
    delegate_record: Option<&Account>,
) -> (r: Result<Vec<Address>, ProgramError>)
    ensures
        match r {
            Ok(list) => seeded_authorities(*token, *acting, option_account_view(delegate_record))
                == Ok::<Seq<Address>, ProgramError>(list@),
            Err(e) => seeded_authorities(*token, *acting, option_account_view(delegate_record))
                == Err::<Seq<Address>, ProgramError>(e),
        },
{
    let mut update_authorities: Vec<Address> = Vec::new();
    update_authorities.push(token.update_authority);
    if token.update_authority == *acting {
        assert(update_authorities@ =~= seq![token.update_authority]);
        return Ok(update_authorities);
    }
    match (delegate_record, token.collection) {
        (Some(record), Some(Collection { verified: true, key: collection_mint })) => {
            let seeds = delegate_seeds(&collection_mint, &token.update_authority, acting);
            match assert_derivation(
                &program_id(),
                record,
                &seeds,
                MplInscriptionError::InvalidDelegate,
            ) {
                Ok(_) => {},
                Err(e) => {
                    return Err(e);
                },
            }
            // Only a record that exists is an approval.
            if record.owner != program_id() {
                return Err(ProgramError::from(MplInscriptionError::InvalidDelegate));
            }
            update_authorities.push(*acting);
            assert(update_authorities@ =~= seq![token.update_authority, *acting]);
            Ok(update_authorities)
        },
        _ => Err(ProgramError::from(MplInscriptionError::InvalidAuthority)),
    }
}

/// Why InitializeFromMint fails, if it does. The checks, in order: there are
/// nine accounts; no program has claimed the inscription account or the
/// metadata account; the token metadata program owns the token metadata and
/// the token program the mint; the token metadata holds a record; the record
/// is that of the mint; the inscription account lives at the address derived
/// from the mint, and the metadata account at the one derived from the
/// inscription account; whoever acts has signed, and the payer too; whoever
/// acts is the token's update authority or an approved delegate; the system
/// program is the real one; the
/// shard account is a shard of this program; and the shard can hand out
/// another rank.
pub open spec fn initialize_from_mint_failure(accounts: Seq<AccountView>) -> Option<ProgramError> {
    if accounts.len() < 9 {
        Some(ProgramError::NotEnoughAccountKeys)
    } else {
        let token = token_metadata_record(accounts[3].data);
        let inscription_bump = derived_bump(accounts[0], accounts[2]);
        let bump = derived_bump(accounts[1], accounts[0]);
        let authority = acting_authority(accounts[5], optional(accounts[6]));
        let authorities = seeded_authorities(token->0, authority->Ok_0, optional(accounts[8]));
        let shard = shard_outcome(accounts[4]);
        if !accounts[0].is_unclaimed() || !accounts[1].is_unclaimed() {
            Some(custom(MplInscriptionError::AlreadyInitialized))
        } else if accounts[3].owner != token_metadata_program_id() || accounts[2].owner
            != token_program_id() {
            Some(custom(MplInscriptionError::IncorrectOwner))
        } else if token is None {
            Some(ProgramError::BorshIoError)
        } else if token->0.mint != accounts[2].key {
            Some(custom(MplInscriptionError::MintMismatch))
        } else if inscription_bump is Err {
            Some(inscription_bump->Err_0)
        } else if bump is Err {
            Some(bump->Err_0)
        } else if authority is Err {
            Some(authority->Err_0)
        } else if authorities is Err {
            Some(authorities->Err_0)
        } else if accounts[7].key != system_program_id() {
            Some(custom(MplInscriptionError::InvalidSystemProgram))
        } else if shard is Err {
            Some(shard->Err_0)
        } else if !can_assign(shard->Ok_0) {
            Some(custom(MplInscriptionError::NumericalOverflow))
        } else {
            None
        }
    }
}

/// The record of a mint's new inscription.
pub open spec fn initial_mint_metadata(
    inscription: Address,
    bump: u8,
    inscription_bump: u8,
    authorities: Seq<Address>,
    shard: InscriptionShard,
) -> MetadataView {
    MetadataView {
        key: Key::MintInscriptionMetadataAccount,
        inscription_account: inscription,
        bump,
        data_type: DataType::Uninitialized,
        inscription_rank: rank_of(shard.count as int, shard.shard_number as int) as u64,
        inscription_bump: Some(inscription_bump),
        update_authorities: authorities,
        associated_inscriptions: Seq::empty(),
        mint: None,
        padding: EMPTY_PADDING,
    }
}

/// The accounts after InitializeFromMint: the program owns the inscription
/// account, which is empty, and the metadata account, which stores the record
/// of the new inscription; the shard has counted one more. Nothing else
/// changes.
pub open spec fn initialize_from_mint_effect(accounts: Seq<AccountView>) -> Seq<AccountView> {
    let shard = shard_outcome(accounts[4])->Ok_0;
    let metadata = initial_mint_metadata(
        accounts[0].key,
        derived_bump(accounts[1], accounts[0])->Ok_0,
        derived_bump(accounts[0], accounts[2])->Ok_0,
        seeded_authorities(
            token_metadata_record(accounts[3].data)->0,
            acting_authority(accounts[5], optional(accounts[6]))->Ok_0,
            optional(accounts[8]),
        )->Ok_0,
        shard,
    );
    accounts.update(0, accounts[0].created(program_id(), 0)).update(
        1,
        accounts[1].claimed(program_id(), ser_metadata(metadata)),
    ).update(4, accounts[4].storing(ser_shard(advanced(shard))))
}

pub fn process_initialize_from_mint(accounts: &mut Vec<Account>) -> (r: Result<(), ProgramError>)
    ensures
        match r {
            Ok(()) => initialize_from_mint_failure(views(old(accounts)@)) is None
                && views(final(accounts)@) == initialize_from_mint_effect(views(old(accounts)@)),
            Err(e) => initialize_from_mint_failure(views(old(accounts)@)) == Some(e)
                && final(accounts)@ == old(accounts)@,
        },
{
    if accounts.len() < 9 {
        return Err(ProgramError::NotEnoughAccountKeys);
    }
    // Check that the account isn't already initialized.
    if !accounts[0].is_unclaimed() {
        return Err(ProgramError::from(MplInscriptionError::AlreadyInitialized));
    }
    // Check that the account isn't already initialized.
    if !accounts[1].is_unclaimed() {
        return Err(ProgramError::from(MplInscriptionError::AlreadyInitialized));
    }
    // Do the standard token metadata checks.
    if accounts[3].owner != token_metadata_program_id() {
        return Err(ProgramError::from(MplInscriptionError::IncorrectOwner));
    }
    if accounts[2].owner != token_program_id() {
        return Err(ProgramError::from(MplInscriptionError::IncorrectOwner));
    }
    let token_metadata = match read_token_metadata(accounts[3].data.as_slice()) {
        Ok(m) => m,
        Err(e) => {
            return Err(e);
        },
    };
    if token_metadata.mint != accounts[2].key {
        return Err(ProgramError::from(MplInscriptionError::MintMismatch));
    }
    // Verify that the derived address is correct for the inscription account.
    let mint_seeds = inscription_seeds(&accounts[2].key);
    let inscription_bump = match assert_derivation(
        &program_id(),
        &accounts[0],
        &mint_seeds,
        MplInscriptionError::DerivedKeyInvalid,
    ) {
        Ok(b) => b,
        Err(e) => {
            return Err(e);
        },
    };
    // Verify that the derived address is correct for the metadata account.
    let seeds = inscription_seeds(&accounts[0].key);
    let bump = match assert_derivation(
        &program_id(),
        &accounts[1],
        &seeds,
        MplInscriptionError::DerivedKeyInvalid,
    ) {
        Ok(b) => b,
        Err(e) => {
            return Err(e);
        },
    };
    // The payer must sign as well as the authority, if present.
    let authority = match resolve_authority(&accounts[5], optional_account(&accounts[6])) {
        Ok(a) => a,
        Err(e) => {
            return Err(e);
        },
    };
    let update_authorities = match seed_authorities(
        &token_metadata,
        &authority,
        optional_account(&accounts[8]),
    ) {
        Ok(list) => list,
        Err(e) => {
            return Err(e);
        },
    };
    if accounts[7].key != system_program_id() {
        return Err(ProgramError::from(MplInscriptionError::InvalidSystemProgram));
    }
    let mut shard = match load_shard(&accounts[4]) {
        Ok(s) => s,
        Err(e) => {
            return Err(e);
        },
    };
    let ghost old_shard = shard;
    let ghost authorities = update_authorities@;
    let rank = match assign_rank(&mut shard) {
        Ok(rank) => rank,
        Err(e) => {
            return Err(e);
        },
    };
    // Initialize the inscription metadata.
    let inscription_metadata = InscriptionMetadata {
        key: Key::MintInscriptionMetadataAccount,
        inscription_account: accounts[0].key,
        bump,
        data_type: DataType::Uninitialized,
        inscription_rank: rank,
        inscription_bump: Some(inscription_bump),
        update_authorities,
        associated_inscriptions: Vec::new(),
        mint: None,
        _padding: EMPTY_PADDING,
    };
    proof {
        assert(inscription_metadata@ =~~= initial_mint_metadata(
            accounts@[0].key,
            bump,
            inscription_bump,
            authorities,
            old_shard,
        ));
        assert(authorities.len() <= 2);
    }
    let serialized_metadata = match inscription_metadata.encode() {
        Ok(bytes) => bytes,
        Err(e) => {
            return Err(e);
        },
    };
    let serialized_shard = shard.encode();
    proof {
        lemma_shard_len(shard);
    }
    // Initialize the inscription account.
    match accounts[0].create(program_id(), 0) {
        Ok(()) => {},
        Err(e) => {
            return Err(e);
        },
    }
    // Initialize the inscription metadata account and write the metadata to it.
    match accounts[1].claim(program_id(), serialized_metadata.as_slice()) {
        Ok(()) => {},
        Err(e) => {
            return Err(e);
        },
    }
    // Write the shard data back to the shard account.
    match accounts[4].store(serialized_shard.as_slice()) {
        Ok(()) => {},
        Err(e) => {
            return Err(e);
        },
    }
    proof {
        let before = views(old(accounts)@);
        assert(forall|i: int|
            0 <= i < accounts@.len() && i != 0 && i != 1 && i != 4
                ==> accounts@[i] == old(accounts)@[i]);
        assert(views(accounts@) =~~= initialize_from_mint_effect(before));
    }
    Ok(())
}


/// InitializeFromMint cannot be repeated: on the accounts that one has left,
/// a second fails with `AlreadyInitialized`.
pub proof fn lemma_initialize_from_mint_twice(accounts: Seq<AccountView>)
    requires
        initialize_from_mint_failure(accounts) is None,
    ensures
        initialize_from_mint_failure(initialize_from_mint_effect(accounts)) == Some(
            custom(MplInscriptionError::AlreadyInitialized),
        ),
{
    lemma_program_is_not_system();
    let after = initialize_from_mint_effect(accounts);
    assert(after.len() == accounts.len());
    assert(after[0] == accounts[0].created(program_id(), 0));
}


/// After InitializeFromMint the record in the metadata account lists one or
/// two authorities, no address twice: the token's update authority, and after
/// it whoever acted where that is an approved delegate.
pub proof fn lemma_initialize_from_mint_authorities(accounts: Seq<AccountView>)
    requires
        initialize_from_mint_failure(accounts) is None,
    ensures
        ({
            let token = token_metadata_record(accounts[3].data)->0;
            let acting = acting_authority(accounts[5], optional(accounts[6]))->Ok_0;
            let after = initialize_from_mint_effect(accounts);
            &&& parse_metadata(after[1].data) matches Some(metadata)
            &&& metadata.update_authorities == seeded_authorities(
                token,
                acting,
                optional(accounts[8]),
            )->Ok_0
            &&& 1 <= metadata.update_authorities.len() <= 2
            &&& metadata.update_authorities.no_duplicates()
            &&& metadata.update_authorities[0] == token.update_authority
            &&& metadata.update_authorities.contains(acting)
        }),
{
    let token = token_metadata_record(accounts[3].data)->0;
    let acting = acting_authority(accounts[5], optional(accounts[6]))->Ok_0;
    let authorities = seeded_authorities(token, acting, optional(accounts[8]))->Ok_0;
    lemma_seeded_authorities(token, acting, optional(accounts[8]));
    let metadata = initial_mint_metadata(
        accounts[0].key,
        derived_bump(accounts[1], accounts[0])->Ok_0,
        derived_bump(accounts[0], accounts[2])->Ok_0,
        authorities,
        shard_outcome(accounts[4])->Ok_0,
    );
    lemma_metadata_round_trip(metadata);
}

} // verus!
