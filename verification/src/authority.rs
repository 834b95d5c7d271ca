//! Who acts, and whether they may.
//!
//! The payer of an instruction always signs. Where an authority account comes
//! with the instruction it signs too and is the one that acts; where none
//! does, the payer acts. Whoever acts on an inscription has to be among its
//! update authorities.
use vstd::prelude::*;
use crate::account::{Account, AccountView};
use crate::address::Address;
use crate::error::{MplInscriptionError, ProgramError, custom};
use crate::state::{InscriptionMetadata, MetadataView};

verus! {

/// The address that acts for an instruction.
pub open spec fn acting_authority(payer: AccountView, authority: Option<AccountView>) -> Result<
    Address,
    ProgramError,
> {
    match authority {
        Some(a) => if a.is_signer && payer.is_signer {
            Ok(a.key)
        } else {
            Err(ProgramError::MissingRequiredSignature)
        },
        None => if payer.is_signer {
            Ok(payer.key)
        } else {
            Err(ProgramError::MissingRequiredSignature)
        },
    }
}

/// An optional account as a mathematical value.
pub open spec fn option_account_view(account: Option<&Account>) -> Option<AccountView> {
    match account {
        Some(a) => Some(a@),
        None => None,
    }
}

/// Finds who acts: the authority where one is given, else the payer. Both have
/// to have signed.
pub fn resolve_authority(payer: &Account, authority: Option<&Account>) -> (r: Result<
    Address,
    ProgramError,
>)
    ensures
        r == acting_authority(payer@, option_account_view(authority)),
{
    let acting = match authority {
        Some(a) => {
            if !a.is_signer {
                return Err(ProgramError::MissingRequiredSignature);
            }
            a.key
        },
        None => payer.key,
    };
    if !payer.is_signer {
        return Err(ProgramError::MissingRequiredSignature);
    }
    Ok(acting)
}

/// Whether `i` is the position of the first `address` in `list`.
pub open spec fn is_first_index(list: Seq<Address>, address: Address, i: int) -> bool {
    &&& 0 <= i < list.len()
    &&& list[i] == address
    &&& forall|j: int| 0 <= j < i ==> list[j] != address
}

/// The position of the first `address` in `list`.
pub open spec fn first_index(list: Seq<Address>, address: Address) -> int
    recommends
        list.contains(address),
{
    choose|i: int| is_first_index(list, address, i)
}

/// The position of the first `address` in `list`, if it is there.
pub fn position(list: &Vec<Address>, address: &Address) -> (r: Option<usize>)
    ensures
        match r {
            Some(i) => list@.contains(*address) && i == first_index(list@, *address)
                && is_first_index(list@, *address, i as int),
            None => !list@.contains(*address),
        },
{
    let mut i: usize = 0;
    while i < list.len()
        invariant
            i <= list@.len(),
            forall|j: int| 0 <= j < i ==> list@[j] != *address,
        decreases list@.len() - i,
    {
        if list[i] == *address {
            proof {
                assert(is_first_index(list@, *address, i as int));
                let k = first_index(list@, *address);
                assert(is_first_index(list@, *address, k));
                assert(k == i);
            }
            return Some(i);
        }
        i += 1;
    }
    None
}

/// Succeeds where `signer` is one of the update authorities.
pub fn check_membership(metadata: &InscriptionMetadata, signer: &Address) -> (r: Result<
    (),
    ProgramError,
>)
    ensures
        r == (if metadata@.update_authorities.contains(*signer) {
            Ok::<(), ProgramError>(())
        } else {
            Err(custom(MplInscriptionError::InvalidAuthority))
        }),
{
    match position(&metadata.update_authorities, signer) {
        Some(_) => Ok(()),
        None => Err(ProgramError::from(MplInscriptionError::InvalidAuthority)),
    }
}

/// The list without its first `address`: the last entry takes the place of the
/// one that leaves.
pub open spec fn without(list: Seq<Address>, address: Address) -> Seq<Address>
    recommends
        list.contains(address),
{
    list.update(first_index(list, address), list.last()).drop_last()
}

/// Adds `new_authority` to the update authorities. Fails where it is one
/// already.
pub fn add_authority(metadata: &mut InscriptionMetadata, new_authority: Address) -> (r: Result<
    (),
    ProgramError,
>)
    ensures
        match r {
            Ok(()) => !old(metadata)@.update_authorities.contains(new_authority)
                && final(metadata)@ == (MetadataView {
                update_authorities: old(metadata)@.update_authorities.push(new_authority),
                ..old(metadata)@
            }),
            Err(e) => old(metadata)@.update_authorities.contains(new_authority) && e == custom(
                MplInscriptionError::AuthorityAlreadyExists,
            ) && *final(metadata) == *old(metadata),
        },
{
    match position(&metadata.update_authorities, &new_authority) {
        Some(_) => Err(ProgramError::from(MplInscriptionError::AuthorityAlreadyExists)),
        None => {
            metadata.update_authorities.push(new_authority);
            Ok(())
        },
    }
}

/// Takes `authority` off the update authorities. Fails where it is none of
/// them.
pub fn remove_authority(metadata: &mut InscriptionMetadata, authority: &Address) -> (r: Result<
    (),
    ProgramError,
>)
    ensures
        match r {
            Ok(()) => old(metadata)@.update_authorities.contains(*authority)
                && final(metadata)@ == (MetadataView {
                update_authorities: without(old(metadata)@.update_authorities, *authority),
                ..old(metadata)@
            }),
            Err(e) => !old(metadata)@.update_authorities.contains(*authority) && e == custom(
                MplInscriptionError::InvalidAuthority,
            ) && *final(metadata) == *old(metadata),
        },
{
    match position(&metadata.update_authorities, authority) {
        Some(i) => {
            metadata.update_authorities.swap_remove(i);
            Ok(())
        },
        None => Err(ProgramError::from(MplInscriptionError::InvalidAuthority)),
    }
}

/// An authority that was added is in the list, and every other address is in
/// the list exactly where it was before. A list without repeats stays without
/// repeats.
pub proof fn lemma_added_authority(list: Seq<Address>, new_authority: Address, other: Address)
    requires
        !list.contains(new_authority),
    ensures
        list.push(new_authority).contains(new_authority),
        other != new_authority ==> (list.push(new_authority).contains(other) <==> list.contains(
            other,
        )),
        forall|i: int| 0 <= i < list.len() ==> list.push(new_authority)[i] == list[i],
        list.no_duplicates() ==> list.push(new_authority).no_duplicates(),
{
    let after = list.push(new_authority);
    assert(after[list.len() as int] == new_authority);
    if other != new_authority {
        if after.contains(other) {
            let i = choose|i: int| 0 <= i < after.len() && after[i] == other;
            assert(list[i] == other);
        }
        if list.contains(other) {
            let i = choose|i: int| 0 <= i < list.len() && list[i] == other;
            assert(after[i] == other);
        }
    }
}

/// Removal from a list without repeats: the address that was removed is gone,
/// every other address is still there, the list is one shorter and still
/// without repeats, and apart from the last entry, which moved into the gap,
/// every entry is where it was.
pub proof fn lemma_removed_authority(list: Seq<Address>, authority: Address, other: Address)
    requires
        list.contains(authority),
        list.no_duplicates(),
    ensures
        !without(list, authority).contains(authority),
        other != authority ==> (without(list, authority).contains(other) <==> list.contains(
            other,
        )),
        without(list, authority).len() == list.len() - 1,
        without(list, authority).no_duplicates(),
        forall|i: int|
            0 <= i < list.len() - 1 && i != first_index(list, authority) ==> without(list, authority)[i]
                == list[i],
{
    let found = choose|i: int| 0 <= i < list.len() && list[i] == authority;
    assert(is_first_index(list, authority, found));
    let at = first_index(list, authority);
    let after = without(list, authority);
    let last = list.len() - 1;
    assert(is_first_index(list, authority, at));
    assert forall|i: int| 0 <= i < after.len() implies after[i] != authority by {
        if i == at {
            assert(after[i] == list[last]);
        } else {
            assert(after[i] == list[i]);
        }
    }
    if other != authority {
        if after.contains(other) {
            let i = choose|i: int| 0 <= i < after.len() && after[i] == other;
            if i == at {
                assert(list[last] == other);
            } else {
                assert(list[i] == other);
            }
        }
        if list.contains(other) {
            let i = choose|i: int| 0 <= i < list.len() && list[i] == other;
            if i == last {
                assert(at != last);
                assert(after[at] == other);
            } else {
                assert(i != at);
                assert(after[i] == other);
            }
        }
    }
    assert forall|i: int, j: int| 0 <= i < after.len() && 0 <= j < after.len() && i != j implies after[i] != after[j] by {
        let si = if i == at { last } else { i };
        let sj = if j == at { last } else { j };
        assert(after[i] == list[si]);
        assert(after[j] == list[sj]);
        assert(si != sj);
    }
}

} // verus!
