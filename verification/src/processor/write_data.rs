//! WriteData: copy bytes into an inscription at an offset.
use vstd::prelude::*;
use crate::account::{Account, AccountView, views};
use crate::address::{program_id, spec_program_id};
use crate::codec::option_string_view;
use crate::error::{MplInscriptionError, ProgramError, custom};
use crate::instruction::WriteDataArgs;
use crate::processor::common::{
    authority_outcome, check_authority, check_link, link_outcome, optional, optional_account,
};
use crate::state::{InscriptionMetadata, metadata_failure, parse_metadata};

verus! {

/// Why WriteData fails, if it does. The checks, in order: there are five
/// accounts; the program owns the inscription account and the metadata
/// account, and the latter is not empty; it holds a metadata record; the two
/// accounts belong together; whoever acts may; the end of the write can be
/// addressed; and the host lets the inscription grow that far.
pub open spec fn write_data_failure(
    accounts: Seq<AccountView>,
    associated_tag: Option<Seq<char>>,
    offset: usize,
    value: Seq<u8>,
) -> Option<ProgramError> {
    if accounts.len() < 5 {
        Some(ProgramError::NotEnoughAccountKeys)
    } else {
        let inscription = accounts[0];
        let metadata_account = accounts[1];
        let metadata = parse_metadata(metadata_account.data);
        let link = link_outcome(inscription, metadata_account, metadata->0, associated_tag);
        let authority = authority_outcome(
            metadata->0,
            accounts[2],
            optional(accounts[3]),
            accounts[4],
        );
        if inscription.owner != program_id() || metadata_account.owner != program_id()
            || metadata_account.data.len() == 0 {
            Some(custom(MplInscriptionError::NotInitialized))
        } else if metadata_failure(metadata_account.data) is Some {
            metadata_failure(metadata_account.data)
        } else if link is Err {
            Some(link->Err_0)
        } else if authority is Err {
            Some(authority->Err_0)
        } else if offset + value.len() > usize::MAX {
            Some(custom(MplInscriptionError::NumericalOverflow))
        } else if !inscription.may_resize_to(write_data_len(inscription, offset, value)) {
            Some(ProgramError::InvalidRealloc)
        } else {
            None
        }
    }
}

/// How long the inscription is after the write: as long as before, or as long
/// as the write needs where that is more.
pub open spec fn write_data_len(inscription: AccountView, offset: usize, value: Seq<u8>) -> nat {
    if offset + value.len() > inscription.data.len() {
        (offset + value.len()) as nat
    } else {
        inscription.data.len()
    }
}

/// The accounts after WriteData: the inscription, grown to the end of the
/// write where it was shorter, holds `value` from `offset` on. A grown
/// inscription is zero between its old end and `offset`. Nothing else
/// changes.
pub open spec fn write_data_effect(accounts: Seq<AccountView>, offset: usize, value: Seq<u8>) -> Seq<
    AccountView,
> {
    accounts.update(
        0,
        accounts[0].resized(write_data_len(accounts[0], offset, value)).written(
            offset as int,
            value,
        ),
    )
}

pub fn process_write_data(accounts: &mut Vec<Account>, args: WriteDataArgs) -> (r: Result<
    (),
    ProgramError,
>)
    ensures
        match r {
            Ok(()) => write_data_failure(
                views(old(accounts)@),
                option_string_view(args.associated_tag),
                args.offset,
                args.value@,
            ) is None && views(final(accounts)@) == write_data_effect(
                views(old(accounts)@),
                args.offset,
                args.value@,
            ),
            Err(e) => write_data_failure(
                views(old(accounts)@),
                option_string_view(args.associated_tag),
                args.offset,
                args.value@,
            ) == Some(e) && final(accounts)@ == old(accounts)@,
        },
{
    if accounts.len() < 5 {
        return Err(ProgramError::NotEnoughAccountKeys);
    }
    // Check that the inscription account is already initialized.
    if accounts[0].owner != program_id() {
        return Err(ProgramError::from(MplInscriptionError::NotInitialized));
    }
    // Check that the metadata account is already initialized.
    if accounts[1].owner != program_id() || accounts[1].data_is_empty() {
        return Err(ProgramError::from(MplInscriptionError::NotInitialized));
    }
    let inscription_metadata = match InscriptionMetadata::decode(accounts[1].data.as_slice()) {
        Ok(m) => m,
        Err(e) => {
            return Err(e);
        },
    };
    // Verify that the derived address is correct for the metadata account.
    match check_link(&accounts[0], &accounts[1], &inscription_metadata, &args.associated_tag) {
        Ok(_) => {},
        Err(e) => {
            return Err(e);
        },
    }
    // The payer must sign as well as the authority, if present.
    match check_authority(
        &inscription_metadata,
        &accounts[2],
        optional_account(&accounts[3]),
        &accounts[4],
    ) {
        Ok(_) => {},
        Err(e) => {
            return Err(e);
        },
    }
    let old_size = accounts[0].data_len();
    let write_end = match args.offset.checked_add(args.value.len()) {
        Some(end) => end,
        None => {
            return Err(ProgramError::from(MplInscriptionError::NumericalOverflow));
        },
    };
    // Resize the account to fit the new data if necessary.
    if write_end > old_size {
        match accounts[0].resize(write_end) {
            Ok(()) => {},
            Err(e) => {
                return Err(e);
            },
        }
    }
    accounts[0].write(args.offset, args.value.as_slice());
    proof {
        let before = views(old(accounts)@);
        let after = write_data_effect(before, args.offset, args.value@);
        assert(accounts@.len() == old(accounts)@.len());
        assert(forall|i: int| 1 <= i < accounts@.len() ==> accounts@[i] == old(accounts)@[i]);
        assert(before[0].resized(before[0].data.len()).data =~= before[0].data);
        assert(accounts@[0]@.data =~= after[0].data);
        assert(views(accounts@) =~~= after);
    }
    Ok(())
}


/// Writing nothing at the start changes nothing.
pub proof fn lemma_write_nothing(accounts: Seq<AccountView>)
    requires
        accounts.len() > 0,
    ensures
        write_data_effect(accounts, 0, Seq::empty()) == accounts,
{
    let after = write_data_effect(accounts, 0, Seq::empty());
    assert(after[0].data =~= accounts[0].data);
    assert(after =~~= accounts);
}

/// A write that ends beyond the inscription grows it to exactly the end of the
/// write; any other write leaves its length alone. Either way the inscription
/// holds `value` from `offset` on, and every byte before `offset` that it had
/// is as it was.
pub proof fn lemma_write_data(accounts: Seq<AccountView>, offset: usize, value: Seq<u8>)
    requires
        accounts.len() > 0,
    ensures
        ({
            let before = accounts[0].data;
            let after = write_data_effect(accounts, offset, value)[0].data;
            &&& offset + value.len() > before.len() ==> after.len() == offset + value.len()
            &&& offset + value.len() <= before.len() ==> after.len() == before.len()
            &&& after.subrange(offset as int, offset + value.len()) == value
            &&& forall|i: int| 0 <= i < offset && i < before.len() ==> after[i] == before[i]
            &&& forall|i: int| before.len() <= i < offset ==> after[i] == 0
            &&& forall|i: int| offset + value.len() <= i < before.len() ==> after[i] == before[i]
        }),
{
    let after = write_data_effect(accounts, offset, value)[0].data;
    assert(after.subrange(offset as int, offset + value.len()) =~= value);
}

} // verus!
