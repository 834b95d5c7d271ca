//! The token metadata record of a mint, as far as this program reads it.
//!
//! The record belongs to the token metadata program, which alone decides its
//! layout. This program reads three things from it: who may update the token,
//! which mint it describes, and which collection it belongs to.
use vstd::prelude::*;
use mpl_token_metadata::accounts::Metadata;
use crate::address::Address;
use crate::error::ProgramError;

verus! {

/// The collection that a token belongs to.
#[derive(Clone, Copy, Debug, PartialEq, Eq)]
pub struct Collection {
    /// Whether the collection's authority has confirmed the membership.
    pub verified: bool,
    /// The mint of the collection.
    pub key: Address,
}

/// What this program reads from a token metadata record.
#[derive(Clone, Copy, Debug, PartialEq, Eq)]
pub struct TokenMetadata {
    pub update_authority: Address,
    pub mint: Address,
    pub collection: Option<Collection>,
}

/// What the token metadata program's reader finds in `data`, or `None` where
/// `data` holds no token metadata record.
pub uninterp spec fn token_metadata_record(data: Seq<u8>) -> Option<TokenMetadata>;

/// Reads a token metadata record.
///
/// This is `Metadata::safe_deserialize` of `mpl_token_metadata`, which checks
/// the record's kind and reads its fields in its own layout; three of them are
/// handed on. The result depends on the bytes alone.
#[verifier::external_body]
fn safe_deserialize(data: &[u8]) -> (r: Option<TokenMetadata>)
    ensures
        r == token_metadata_record(data@),
{
    match Metadata::safe_deserialize(data) {
        Ok(m) => Some(
            TokenMetadata {
                update_authority: Address { bytes: m.update_authority.to_bytes() },
                mint: Address { bytes: m.mint.to_bytes() },
                collection: m.collection.map(
                    |c| Collection { verified: c.verified, key: Address { bytes: c.key.to_bytes() } },
                ),
            },
        ),
        Err(_) => None,
    }
}

/// What `read_token_metadata` returns for what the reader found.
pub open spec fn token_metadata_outcome(found: Option<TokenMetadata>) -> Result<
    TokenMetadata,
    ProgramError,
> {
    match found {
        Some(m) => Ok(m),
        None => Err(ProgramError::BorshIoError),
    }
}

/// Turns what the reader found into a result.
pub fn token_metadata_result(found: Option<TokenMetadata>) -> (r: Result<TokenMetadata, ProgramError>)
    ensures
        r == token_metadata_outcome(found),
{
    match found {
        Some(m) => Ok(m),
        None => Err(ProgramError::BorshIoError),
    }
}

/// Reads the token metadata record that `data` holds.
pub fn read_token_metadata(data: &[u8]) -> (r: Result<TokenMetadata, ProgramError>)
    ensures
        r == token_metadata_outcome(token_metadata_record(data@)),
{
    token_metadata_result(safe_deserialize(data))
}

} // verus!
