//! Close: destroy an inscription, or one of its associated accounts.
use vstd::prelude::*;
use crate::account::{Account, AccountView, views};
use crate::address::{program_id, spec_program_id};
use crate::codec::option_string_view;
use crate::error::{MplInscriptionError, ProgramError, custom};
use crate::instruction::CloseArgs;
use crate::processor::common::{
    authority_outcome, check_authority, check_link, is_association, link_outcome, optional,
    lemma_stored_metadata, optional_account, store_failure, store_metadata,
};
use crate::state::{
    AssociatedInscription, AssociatedInscriptionView, InscriptionMetadata, MetadataView,
    associated_views, metadata_failure, parse_metadata, ser_metadata,
};

verus! {

/// The list without its entries under `tag` with `bump`; the others stay in
/// their order.
pub open spec fn without_association(
    list: Seq<AssociatedInscriptionView>,
    tag: Seq<char>,
    bump: u8,
) -> Seq<AssociatedInscriptionView>
    decreases list.len(),
{
    if list.len() == 0 {
        list
    } else {
        let before = without_association(list.drop_last(), tag, bump);
        if is_association(list.last(), tag, bump) {
            before
        } else {
            before.push(list.last())
        }
    }
}

/// The record after the account under `tag` with `bump` was closed.
pub open spec fn dissociated(metadata: MetadataView, tag: Seq<char>, bump: u8) -> MetadataView {
    MetadataView {
        associated_inscriptions: without_association(metadata.associated_inscriptions, tag, bump),
        ..metadata
    }
}

/// Why Close fails, if it does. The checks, in order: there are five
/// accounts; the program owns the inscription account and the metadata
/// account, and the latter is not empty; it holds a metadata record; whoever
/// acts may; the two accounts belong together; and, where an associated
/// account is closed, the record without its entry can be stored.
pub open spec fn close_failure(accounts: Seq<AccountView>, associated_tag: Option<Seq<char>>) -> Option<
    ProgramError,
> {
    if accounts.len() < 5 {
        Some(ProgramError::NotEnoughAccountKeys)
    } else {
        let inscription = accounts[0];
        let metadata_account = accounts[1];
        let metadata = parse_metadata(metadata_account.data);
        let link = link_outcome(inscription, metadata_account, metadata->0, associated_tag);
        let authority = authority_outcome(
            metadata->0,
            accounts[2],
            optional(accounts[3]),
            accounts[4],
        );
        if inscription.owner != program_id() || metadata_account.owner != program_id()
            || metadata_account.data.len() == 0 {
            Some(custom(MplInscriptionError::NotInitialized))
        } else if metadata_failure(metadata_account.data) is Some {
            metadata_failure(metadata_account.data)
        } else if authority is Err {
            Some(authority->Err_0)
        } else if link is Err {
            Some(link->Err_0)
        } else {
            match associated_tag {
                Some(tag) => store_failure(
                    metadata_account,
                    dissociated(metadata->0, tag, link->Ok_0),
                ),
                None => None,
            }
        }
    }
}

/// The accounts after Close. With a tag, the associated account is closed and
/// the metadata record loses the tag's entry; every other entry stays, and no
/// other account changes. Without a tag, the inscription account and the
/// metadata account are both closed.
pub open spec fn close_effect(accounts: Seq<AccountView>, associated_tag: Option<Seq<char>>) -> Seq<
    AccountView,
> {
    let metadata = parse_metadata(accounts[1].data)->0;
    match associated_tag {
        Some(tag) => {
            let bump = link_outcome(accounts[0], accounts[1], metadata, associated_tag)->Ok_0;
            accounts.update(0, accounts[0].closed()).update(
                1,
                accounts[1].storing(ser_metadata(dissociated(metadata, tag, bump))),
            )
        },
        None => accounts.update(0, accounts[0].closed()).update(1, accounts[1].closed()),
    }
}

/// The entries of `list` that are not under `tag` with `bump`.
fn retain_others(list: &Vec<AssociatedInscription>, tag: &String, bump: u8) -> (r: Vec<
    AssociatedInscription,
>)
    ensures
        associated_views(r@) == without_association(associated_views(list@), tag@, bump),
{
    let ghost views = associated_views(list@);
    let mut out: Vec<AssociatedInscription> = Vec::new();
    let mut i: usize = 0;
    proof {
        assert(views.take(0) =~= Seq::empty());
        assert(associated_views(out@) =~= Seq::empty());
    }
    while i < list.len()
        invariant
            i <= list@.len(),
            views == associated_views(list@),
            associated_views(out@) == without_association(views.take(i as int), tag@, bump),
        decreases list@.len() - i,
    {
        let ghost kept = associated_views(out@);
        proof {
            assert(views.take(i + 1).drop_last() =~= views.take(i as int));
            assert(views.take(i + 1).last() == views[i as int]);
        }
        if !(list[i].tag == *tag && list[i].bump == bump) {
            let entry = list[i].duplicate();
            out.push(entry);
            proof {
                assert(associated_views(out@) =~= kept.push(views[i as int]));
            }
        }
        i += 1;
    }
    proof {
        assert(views.take(views.len() as int) =~= views);
    }
    out
}

pub fn process_close(accounts: &mut Vec<Account>, args: CloseArgs) -> (r: Result<(), ProgramError>)
    ensures
        match r {
            Ok(()) => close_failure(views(old(accounts)@), option_string_view(args.associated_tag))
                is None && views(final(accounts)@) == close_effect(
                views(old(accounts)@),
                option_string_view(args.associated_tag),
            ),
            Err(e) => close_failure(views(old(accounts)@), option_string_view(args.associated_tag))
                == Some(e) && final(accounts)@ == old(accounts)@,
        },
{
    if accounts.len() < 5 {
        return Err(ProgramError::NotEnoughAccountKeys);
    }
    // Check that the account is already initialized.
    if accounts[0].owner != program_id() {
        return Err(ProgramError::from(MplInscriptionError::NotInitialized));
    }
    // Check that the account is already initialized.
    if accounts[1].owner != program_id() || accounts[1].data_is_empty() {
        return Err(ProgramError::from(MplInscriptionError::NotInitialized));
    }
    let mut inscription_metadata = match InscriptionMetadata::decode(accounts[1].data.as_slice()) {
        Ok(m) => m,
        Err(e) => {
            return Err(e);
        },
    };
    // The payer must sign as well as the authority, if present.
    match check_authority(
        &inscription_metadata,
        &accounts[2],
        optional_account(&accounts[3]),
        &accounts[4],
    ) {
        Ok(_) => {},
        Err(e) => {
            return Err(e);
        },
    }
    // Verify that the derived address is correct for the metadata account.
    let bump = match check_link(
        &accounts[0],
        &accounts[1],
        &inscription_metadata,
        &args.associated_tag,
    ) {
        Ok(b) => b,
        Err(e) => {
            return Err(e);
        },
    };
    let ghost before = views(old(accounts)@);
    let ghost after = close_effect(before, option_string_view(args.associated_tag));
    match &args.associated_tag {
        Some(tag) => {
            // Remove the associated inscription from the metadata and write
            // the record back, then close the associated account.
            let others = retain_others(&inscription_metadata.associated_inscriptions, tag, bump);
            inscription_metadata.associated_inscriptions = others;
            assert(inscription_metadata@ =~~= dissociated(
                parse_metadata(before[1].data)->0,
                tag@,
                bump,
            ));
            match store_metadata(&mut accounts[1], &inscription_metadata) {
                Ok(()) => {},
                Err(e) => {
                    return Err(e);
                },
            }
            accounts[0].close();
        },
        None => {
            // Close both accounts.
            accounts[0].close();
            accounts[1].close();
        },
    }
    proof {
        assert(forall|i: int| 2 <= i < accounts@.len() ==> accounts@[i] == old(accounts)@[i]);
        assert(views(accounts@) =~~= after);
    }
    Ok(())
}

/// Closing an associated account takes exactly its entry off the record: no
/// entry under the tag with the bump is left, every other entry is still
/// there, and nothing is there that was not.
pub proof fn lemma_without_association(
    list: Seq<AssociatedInscriptionView>,
    tag: Seq<char>,
    bump: u8,
    entry: AssociatedInscriptionView,
)
    ensures
        without_association(list, tag, bump).contains(entry) <==> list.contains(entry)
            && !is_association(entry, tag, bump),
        without_association(list, tag, bump).len() <= list.len(),
    decreases list.len(),
{
    let after = without_association(list, tag, bump);
    if list.len() > 0 {
        let head = list.drop_last();
        let last = list.last();
        let kept = without_association(head, tag, bump);
        lemma_without_association(head, tag, bump, entry);
        if after.contains(entry) {
            let i = choose|i: int| 0 <= i < after.len() && after[i] == entry;
            if is_association(last, tag, bump) {
                assert(kept.contains(entry));
            } else if i == kept.len() {
                assert(entry == last);
            } else {
                assert(kept[i] == entry);
                assert(kept.contains(entry));
            }
            if head.contains(entry) {
                let j = choose|j: int| 0 <= j < head.len() && head[j] == entry;
                assert(list[j] == entry);
            } else {
                assert(list[list.len() - 1] == entry);
            }
        }
        if list.contains(entry) && !is_association(entry, tag, bump) {
            let j = choose|j: int| 0 <= j < list.len() && list[j] == entry;
            if j < head.len() {
                assert(head[j] == entry);
                assert(head.contains(entry));
                let i = choose|i: int| 0 <= i < kept.len() && kept[i] == entry;
                assert(after[i] == entry);
            } else {
                assert(entry == last);
                assert(after[kept.len() as int] == entry);
            }
        }
    }
}

/// In a list with one entry under the tag, closing removes that entry and
/// leaves every other where it was, in order.
pub proof fn lemma_without_single_association(
    list: Seq<AssociatedInscriptionView>,
    tag: Seq<char>,
    bump: u8,
    at: int,
)
    requires
        0 <= at < list.len(),
        forall|i: int| 0 <= i < list.len() ==> (is_association(#[trigger] list[i], tag, bump) <==> i == at),
    ensures
        without_association(list, tag, bump) == list.remove(at),
    decreases list.len(),
{
    let head = list.drop_last();
    if at == list.len() - 1 {
        lemma_without_no_association(head, tag, bump);
        assert(list.remove(at) =~= head);
    } else {
        lemma_without_single_association(head, tag, bump, at);
        assert(head.remove(at).push(list.last()) =~= list.remove(at));
    }
}

/// A list with no entry under the tag stays as it is.
pub proof fn lemma_without_no_association(
    list: Seq<AssociatedInscriptionView>,
    tag: Seq<char>,
    bump: u8,
)
    requires
        forall|i: int| 0 <= i < list.len() ==> !is_association(#[trigger] list[i], tag, bump),
    ensures
        without_association(list, tag, bump) == list,
    decreases list.len(),
{
    if list.len() > 0 {
        lemma_without_no_association(list.drop_last(), tag, bump);
        assert(list.drop_last().push(list.last()) =~= list);
    }
}


/// Close with a tag leaves every account but the associated one and the
/// metadata account alone, and the record that it stores is the old one
/// without the tag's entry.
pub proof fn lemma_close_associated(accounts: Seq<AccountView>, tag: Seq<char>)
    requires
        close_failure(accounts, Some(tag)) is None,
    ensures
        ({
            let after = close_effect(accounts, Some(tag));
            let metadata = parse_metadata(accounts[1].data)->0;
            let bump = link_outcome(accounts[0], accounts[1], metadata, Some(tag))->Ok_0;
            &&& after.len() == accounts.len()
            &&& after[0] == accounts[0].closed()
            &&& parse_metadata(after[1].data) == Some(dissociated(metadata, tag, bump))
            &&& forall|i: int| 2 <= i < accounts.len() ==> after[i] == accounts[i]
        }),
{
    let metadata = parse_metadata(accounts[1].data)->0;
    let bump = link_outcome(accounts[0], accounts[1], metadata, Some(tag))->Ok_0;
    lemma_stored_metadata(accounts[1], dissociated(metadata, tag, bump));
}

/// Close without a tag closes the inscription account and the metadata
/// account, and nothing else.
pub proof fn lemma_close_inscription(accounts: Seq<AccountView>)
    requires
        close_failure(accounts, None) is None,
    ensures
        ({
            let after = close_effect(accounts, None);
            &&& after.len() == accounts.len()
            &&& after[0].is_unclaimed()
            &&& after[1].is_unclaimed()
            &&& forall|i: int| 2 <= i < accounts.len() ==> after[i] == accounts[i]
        }),
{
}

} // verus!
