//! Checks that several instructions share.
use vstd::prelude::*;
use vstd::string::StringSliceAdditionalSpecFns;
use vstd::utf8::encode_utf8;
use crate::account::{Account, AccountView};
use crate::address::{
    Address, program_id, spec_program_id, spec_system_program_id, system_program_id,
};
use crate::authority::{acting_authority, check_membership, option_account_view, resolve_authority};
use crate::derivation::{
    assert_derivation, association_seeds, inscription_seeds, shard_seeds, spec_association_seeds,
    spec_inscription_seeds, spec_shard_seeds, verified_bump,
};
use crate::error::{MplInscriptionError, ProgramError, custom};
use crate::state::{
    AssociatedInscription, AssociatedInscriptionView, InscriptionMetadata, InscriptionShard, Key,
    MetadataView, SHARD_COUNT, associated_views, lemma_metadata_round_trip, metadata_failure,
    parse_metadata, parse_shard, ser_metadata, shard_failure,
};

verus! {

/// The account in an optional role: none where the role holds this program's
/// own address.
pub open spec fn optional(account: AccountView) -> Option<AccountView> {
    if account.key == program_id() {
        None
    } else {
        Some(account)
    }
}

/// The account in an optional role.
pub fn optional_account(account: &Account) -> (r: Option<&Account>)
    ensures
        option_account_view(r) == optional(account@),
{
    if account.key == program_id() {
        None
    } else {
        Some(account)
    }
}

/// Who acts on the inscription with record `metadata`: the acting authority
/// where it is one of the update authorities and the system program is the
/// real one.
pub open spec fn authority_outcome(
    metadata: MetadataView,
    payer: AccountView,
    authority: Option<AccountView>,
    system_program: AccountView,
) -> Result<Address, ProgramError> {
    match acting_authority(payer, authority) {
        Err(e) => Err(e),
        Ok(acting) => if !metadata.update_authorities.contains(acting) {
            Err(custom(MplInscriptionError::InvalidAuthority))
        } else if system_program.key != system_program_id() {
            Err(custom(MplInscriptionError::InvalidSystemProgram))
        } else {
            Ok(acting)
        },
    }
}

/// Checks who acts on an inscription.
pub fn check_authority(
    metadata: &InscriptionMetadata,
    payer: &Account,
    authority: Option<&Account>,
    system_program: &Account,
) -> (r: Result<Address, ProgramError>)
    ensures
        r == authority_outcome(metadata@, payer@, option_account_view(authority), system_program@),
{
    let acting = match resolve_authority(payer, authority) {
        Ok(a) => a,
        Err(e) => {
            return Err(e);
        },
    };
    match check_membership(metadata, &acting) {
        Ok(()) => {},
        Err(e) => {
            return Err(e);
        },
    }
    if system_program.key != system_program_id() {
        return Err(ProgramError::from(MplInscriptionError::InvalidSystemProgram));
    }
    Ok(acting)
}

/// Whether `list` has an entry under `tag` with `bump`.
pub open spec fn has_association(list: Seq<AssociatedInscriptionView>, tag: Seq<char>, bump: u8) -> bool {
    exists|i: int| 0 <= i < list.len() && is_association(#[trigger] list[i], tag, bump)
}

/// Whether `entry` is the one under `tag` with `bump`.
pub open spec fn is_association(entry: AssociatedInscriptionView, tag: Seq<char>, bump: u8) -> bool {
    entry.tag == tag && entry.bump == bump
}

/// Whether `list` has an entry under `tag` with `bump`.
pub fn find_association(list: &Vec<AssociatedInscription>, tag: &String, bump: u8) -> (r: bool)
    ensures
        r == has_association(associated_views(list@), tag@, bump),
{
    let ghost views = associated_views(list@);
    let mut i: usize = 0;
    while i < list.len()
        invariant
            i <= list@.len(),
            views == associated_views(list@),
            forall|j: int| 0 <= j < i ==> !is_association(#[trigger] views[j], tag@, bump),
        decreases list@.len() - i,
    {
        if list[i].tag == *tag && list[i].bump == bump {
            assert(is_association(views[i as int], tag@, bump));
            return true;
        }
        i += 1;
    }
    false
}

/// What is wrong with a tag, if anything: it is empty, or longer than a seed
/// may be.
pub open spec fn tag_failure(tag: Seq<char>) -> Option<ProgramError> {
    if tag.len() == 0 {
        Some(custom(MplInscriptionError::AssociationTagCannotBeBlank))
    } else if encode_utf8(tag).len() > 32 {
        Some(custom(MplInscriptionError::AssociationTagTooLong))
    } else {
        None
    }
}

/// Checks a tag.
pub fn check_tag(tag: &String) -> (r: Result<(), ProgramError>)
    ensures
        r == (match tag_failure(tag@) {
            Some(e) => Err(e),
            None => Ok::<(), ProgramError>(()),
        }),
{
    if tag.as_str().is_empty() {
        return Err(ProgramError::from(MplInscriptionError::AssociationTagCannotBeBlank));
    }
    if tag.as_str().as_bytes().len() > 32 {
        return Err(ProgramError::from(MplInscriptionError::AssociationTagTooLong));
    }
    Ok(())
}

/// Whether `inscription` and `metadata_account` belong together, and the bump
/// that shows it.
///
/// Without a tag, `inscription` holds the payload of the inscription itself:
/// the metadata account has to live at the address derived from it, with the
/// bump that the record stores. With a tag, `inscription` is an associated
/// account: it has to live at the address derived from the tag and the
/// metadata account, and the record has to list the tag with that bump.
pub open spec fn link_outcome(
    inscription: AccountView,
    metadata_account: AccountView,
    metadata: MetadataView,
    tag: Option<Seq<char>>,
) -> Result<u8, ProgramError> {
    match tag {
        Some(tag) => match tag_failure(tag) {
            Some(e) => Err(e),
            None => match verified_bump(
                program_id(),
                inscription.key,
                spec_association_seeds(encode_utf8(tag), metadata_account.key),
                MplInscriptionError::DerivedKeyInvalid,
            ) {
                Err(e) => Err(e),
                Ok(bump) => if has_association(metadata.associated_inscriptions, tag, bump) {
                    Ok(bump)
                } else {
                    Err(custom(MplInscriptionError::DerivedKeyInvalid))
                },
            },
        },
        None => match verified_bump(
            program_id(),
            metadata_account.key,
            spec_inscription_seeds(inscription.key),
            MplInscriptionError::DerivedKeyInvalid,
        ) {
            Err(e) => Err(e),
            Ok(bump) => if bump == metadata.bump {
                Ok(bump)
            } else {
                Err(custom(MplInscriptionError::DerivedKeyInvalid))
            },
        },
    }
}

/// Checks that `inscription` and `metadata_account` belong together.
pub fn check_link(
    inscription: &Account,
    metadata_account: &Account,
    metadata: &InscriptionMetadata,
    tag: &Option<String>,
) -> (r: Result<u8, ProgramError>)
    ensures
        r == link_outcome(
            inscription@,
            metadata_account@,
            metadata@,
            crate::codec::option_string_view(*tag),
        ),
{
    match tag {
        Some(tag) => {
            match check_tag(tag) {
                Ok(()) => {},
                Err(e) => {
                    return Err(e);
                },
            }
            let seeds = association_seeds(tag.as_str(), &metadata_account.key);
            let bump = match assert_derivation(
                &program_id(),
                inscription,
                &seeds,
                MplInscriptionError::DerivedKeyInvalid,
            ) {
                Ok(b) => b,
                Err(e) => {
                    return Err(e);
                },
            };
            if !find_association(&metadata.associated_inscriptions, tag, bump) {
                return Err(ProgramError::from(MplInscriptionError::DerivedKeyInvalid));
            }
            Ok(bump)
        },
        None => {
            let seeds = inscription_seeds(&inscription.key);
            let bump = match assert_derivation(
                &program_id(),
                metadata_account,
                &seeds,
                MplInscriptionError::DerivedKeyInvalid,
            ) {
                Ok(b) => b,
                Err(e) => {
                    return Err(e);
                },
            };
            if bump != metadata.bump {
                return Err(ProgramError::from(MplInscriptionError::DerivedKeyInvalid));
            }
            Ok(bump)
        },
    }
}

/// The shard record in `account`, where the account is a shard of this
/// program: the program owns it, it holds a shard record, the record's shard
/// number is one of the `SHARD_COUNT` that there are, and the account lives
/// at the address derived from that number, with the record's bump.
pub open spec fn shard_outcome(account: AccountView) -> Result<InscriptionShard, ProgramError> {
    let shard = parse_shard(account.data)->0;
    let bump = verified_bump(
        program_id(),
        account.key,
        spec_shard_seeds(shard.shard_number),
        MplInscriptionError::DerivedKeyInvalid,
    );
    if account.owner != program_id() || account.data.len() == 0 {
        Err(custom(MplInscriptionError::InvalidShardAccount))
    } else if shard_failure(account.data) is Some {
        Err(shard_failure(account.data)->0)
    } else if shard.shard_number >= SHARD_COUNT {
        Err(custom(MplInscriptionError::InvalidShardAccount))
    } else if bump is Err {
        Err(bump->Err_0)
    } else if bump->Ok_0 != shard.bump {
        Err(custom(MplInscriptionError::DerivedKeyInvalid))
    } else {
        Ok(shard)
    }
}

/// Reads and checks the shard record in `account`.
pub fn load_shard(account: &Account) -> (r: Result<InscriptionShard, ProgramError>)
    ensures
        r == shard_outcome(account@),
{
    if account.owner != program_id() || account.data.len() == 0 {
        return Err(ProgramError::from(MplInscriptionError::InvalidShardAccount));
    }
    let shard = match InscriptionShard::decode(account.data.as_slice()) {
        Ok(s) => s,
        Err(e) => {
            return Err(e);
        },
    };
    if shard.shard_number >= SHARD_COUNT {
        return Err(ProgramError::from(MplInscriptionError::InvalidShardAccount));
    }
    let seeds = shard_seeds(shard.shard_number);
    let bump = match assert_derivation(
        &program_id(),
        account,
        &seeds,
        MplInscriptionError::DerivedKeyInvalid,
    ) {
        Ok(b) => b,
        Err(e) => {
            return Err(e);
        },
    };
    if bump != shard.bump {
        return Err(ProgramError::from(MplInscriptionError::DerivedKeyInvalid));
    }
    Ok(shard)
}

/// A shard that an instruction accepts is of the shard kind and has one of
/// the `SHARD_COUNT` numbers.
pub proof fn lemma_shard_outcome(account: AccountView)
    requires
        shard_outcome(account) is Ok,
    ensures
        shard_outcome(account)->Ok_0.key == Key::InscriptionShardAccount,
        shard_outcome(account)->Ok_0.shard_number < SHARD_COUNT,
        parse_shard(account.data) == Some(shard_outcome(account)->Ok_0),
{
}

/// Why a record cannot be stored in an account, if it cannot: the record has
/// no serial form, or the host does not let the account grow to hold it.
pub open spec fn store_failure(account: AccountView, metadata: MetadataView) -> Option<
    ProgramError,
> {
    if !metadata.encodable() {
        Some(ProgramError::BorshIoError)
    } else if !account.may_resize_to(ser_metadata(metadata).len()) {
        Some(ProgramError::InvalidRealloc)
    } else {
        None
    }
}

/// Stores a metadata record in its account: the account is resized to fit the
/// record's serial form, which then overwrites it.
pub fn store_metadata(account: &mut Account, metadata: &InscriptionMetadata) -> (r: Result<
    (),
    ProgramError,
>)
    ensures
        match r {
            Ok(()) => store_failure(old(account)@, metadata@) is None
                && final(account)@ == old(account)@.storing(ser_metadata(metadata@)),
            Err(e) => store_failure(old(account)@, metadata@) == Some(e) && *final(account)
                == *old(account),
        },
{
    let bytes = match metadata.encode() {
        Ok(b) => b,
        Err(e) => {
            return Err(e);
        },
    };
    account.store(bytes.as_slice())
}


/// A record that was stored is read back from its account, and the reader
/// accepts it where it is of a metadata kind.
pub proof fn lemma_stored_metadata(account: AccountView, metadata: MetadataView)
    requires
        store_failure(account, metadata) is None,
    ensures
        parse_metadata(account.storing(ser_metadata(metadata)).data) == Some(metadata),
        metadata.key.is_metadata() ==> metadata_failure(
            account.storing(ser_metadata(metadata)).data,
        ) is None,
{
    lemma_metadata_round_trip(metadata);
}

} // verus!
