//! Derived addresses.
//!
//! Every account that the program creates lives at an address derived from a
//! list of seeds and the program's own address, together with a bump: the one
//! byte that, added to the seeds, moves the address off the signature curve.
//! An instruction accepts an account in such a role only where the account's
//! address is the one that the role's seeds derive.
use vstd::prelude::*;
use vstd::string::StringSliceAdditionalSpecFns;
use solana_program::pubkey::Pubkey;
use crate::account::Account;
use crate::address::{Address, program_id, spec_program_id};
use crate::codec::append;
use crate::error::{MplInscriptionError, ProgramError, custom};
use crate::state::{ASSOCIATION, PREFIX, SHARD_PREFIX};

verus! {

/// The address and bump that `seeds` derive under `program_id`, or `None` where
/// they derive none.
pub uninterp spec fn program_address(seeds: Seq<Seq<u8>>, program_id: Address) -> Option<
    (Address, u8),
>;

/// A list of seeds as a mathematical value.
pub open spec fn seeds_view(seeds: Seq<Vec<u8>>) -> Seq<Seq<u8>> {
    Seq::new(seeds.len(), |i: int| seeds[i]@)
}

/// Searches the bump for `seeds` and derives the address.
///
/// This is `Pubkey::try_find_program_address` of `solana_program`: it hashes the
/// seeds, a candidate bump and the program's address, counting the bump down
/// from 255 until the hash is no point of the curve. The result depends on the
/// seeds and the program's address alone. It is `None` where no bump is found,
/// or where there are too many seeds or one too long.
#[verifier::external_body]
fn find_program_address(seeds: &Vec<Vec<u8>>, program_id: &Address) -> (r: Option<(Address, u8)>)
    ensures
        r == program_address(seeds_view(seeds@), *program_id),
{
    let parts: Vec<&[u8]> = seeds.iter().map(|s| s.as_slice()).collect();
    match Pubkey::try_find_program_address(&parts, &Pubkey::new_from_array(program_id.bytes)) {
        Some((key, bump)) => Some((Address { bytes: key.to_bytes() }, bump)),
        None => None,
    }
}

/// The address and bump that `seeds` derive under this program. The same seeds
/// always derive the same address and bump.
pub fn derive(seeds: &Vec<Vec<u8>>) -> (r: Option<(Address, u8)>)
    ensures
        r == program_address(seeds_view(seeds@), program_id()),
{
    find_program_address(seeds, &program_id())
}

/// Derivation is a function of the seeds: lists of seeds that hold the same
/// bytes derive the same address and the same bump.
pub proof fn lemma_derivation_is_a_function(
    seeds: Seq<Seq<u8>>,
    others: Seq<Seq<u8>>,
    program_id: Address,
)
    requires
        seeds.len() == others.len(),
        forall|i: int| 0 <= i < seeds.len() ==> seeds[i] =~= others[i],
    ensures
        program_address(seeds, program_id) == program_address(others, program_id),
{
    assert(seeds =~= others);
}

/// Whether `key` is the address in `derived`: the bump where it is, and `error`
/// where it is not or where nothing was derived.
pub open spec fn derivation_outcome(
    derived: Option<(Address, u8)>,
    key: Address,
    error: MplInscriptionError,
) -> Result<u8, ProgramError> {
    match derived {
        Some((address, bump)) => if address == key {
            Ok(bump)
        } else {
            Err(custom(error))
        },
        None => Err(custom(error)),
    }
}

/// Holds a derived address against the address of an account.
pub fn check_derivation(derived: Option<(Address, u8)>, key: &Address, error: MplInscriptionError) -> (r:
    Result<u8, ProgramError>)
    ensures
        r == derivation_outcome(derived, *key, error),
{
    match derived {
        Some((address, bump)) => if address == *key {
            Ok(bump)
        } else {
            Err(ProgramError::from(error))
        },
        None => Err(ProgramError::from(error)),
    }
}

/// What `assert_derivation` returns.
pub open spec fn verified_bump(
    program_id: Address,
    key: Address,
    path: Seq<Seq<u8>>,
    error: MplInscriptionError,
) -> Result<u8, ProgramError> {
    derivation_outcome(program_address(path, program_id), key, error)
}

/// Checks that `account` lives at the address that `path` derives under
/// `program_id`, and returns the bump; fails with `error` where it does not.
pub fn assert_derivation(
    program_id: &Address,
    account: &Account,
    path: &Vec<Vec<u8>>,
    error: MplInscriptionError,
) -> (r: Result<u8, ProgramError>)
    ensures
        r == verified_bump(*program_id, account@.key, seeds_view(path@), error),
{
    check_derivation(find_program_address(path, program_id), &account.key, error)
}

/// Seeds of the metadata account of the inscription stored at `account`, and
/// of the inscription account that belongs to the mint at `account`.
pub open spec fn spec_inscription_seeds(account: Address) -> Seq<Seq<u8>> {
    seq![PREFIX.spec_bytes(), program_id()@, account@]
}

/// Seeds of the account of shard `shard_number`.
pub open spec fn spec_shard_seeds(shard_number: u8) -> Seq<Seq<u8>> {
    seq![PREFIX.spec_bytes(), SHARD_PREFIX.spec_bytes(), program_id()@, seq![shard_number]]
}

/// Seeds of the account associated under `tag` with the inscription whose
/// metadata is stored at `metadata`.
pub open spec fn spec_association_seeds(tag: Seq<u8>, metadata: Address) -> Seq<Seq<u8>> {
    seq![PREFIX.spec_bytes(), ASSOCIATION.spec_bytes(), tag, metadata@]
}

/// Seeds of the record by which the update authority of a collection approves
/// a delegate.
pub open spec fn spec_delegate_seeds(
    collection_mint: Address,
    update_authority: Address,
    delegate: Address,
) -> Seq<Seq<u8>> {
    seq![PREFIX.spec_bytes(), program_id()@, collection_mint@, update_authority@, delegate@]
}

fn seed_of(text: &str) -> (r: Vec<u8>)
    ensures
        r@ == text.spec_bytes(),
{
    let mut out: Vec<u8> = Vec::new();
    append(&mut out, text.as_bytes());
    assert(out@ =~= text.spec_bytes());
    out
}

pub fn inscription_seeds(account: &Address) -> (r: Vec<Vec<u8>>)
    ensures
        seeds_view(r@) == spec_inscription_seeds(*account),
{
    let mut seeds: Vec<Vec<u8>> = Vec::new();
    seeds.push(seed_of(PREFIX));
    seeds.push(program_id().to_vec());
    seeds.push(account.to_vec());
    assert(seeds_view(seeds@) =~= spec_inscription_seeds(*account));
    seeds
}

pub fn shard_seeds(shard_number: u8) -> (r: Vec<Vec<u8>>)
    ensures
        seeds_view(r@) == spec_shard_seeds(shard_number),
{
    let mut seeds: Vec<Vec<u8>> = Vec::new();
    seeds.push(seed_of(PREFIX));
    seeds.push(seed_of(SHARD_PREFIX));
    seeds.push(program_id().to_vec());
    let mut number: Vec<u8> = Vec::new();
    number.push(shard_number);
    seeds.push(number);
    assert(seeds_view(seeds@) =~= spec_shard_seeds(shard_number));
    seeds
}

pub fn association_seeds(tag: &str, metadata: &Address) -> (r: Vec<Vec<u8>>)
    ensures
        seeds_view(r@) == spec_association_seeds(tag.spec_bytes(), *metadata),
{
    let mut seeds: Vec<Vec<u8>> = Vec::new();
    seeds.push(seed_of(PREFIX));
    seeds.push(seed_of(ASSOCIATION));
    seeds.push(seed_of(tag));
    seeds.push(metadata.to_vec());
    assert(seeds_view(seeds@) =~= spec_association_seeds(tag.spec_bytes(), *metadata));
    seeds
}

pub fn delegate_seeds(collection_mint: &Address, update_authority: &Address, delegate: &Address) -> (r:
    Vec<Vec<u8>>)
    ensures
        seeds_view(r@) == spec_delegate_seeds(*collection_mint, *update_authority, *delegate),
{
    let mut seeds: Vec<Vec<u8>> = Vec::new();
    seeds.push(seed_of(PREFIX));
    seeds.push(program_id().to_vec());
    seeds.push(collection_mint.to_vec());
    seeds.push(update_authority.to_vec());
    seeds.push(delegate.to_vec());
    assert(seeds_view(seeds@) =~= spec_delegate_seeds(
        *collection_mint,
        *update_authority,
        *delegate,
    ));
    seeds
}

} // verus!
