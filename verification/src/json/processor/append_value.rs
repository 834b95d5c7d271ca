//! AppendValue: append a JSON value to the one that an inscription holds.
//!
//! Reading and writing JSON text is not this library's business. The
//! instruction therefore runs in two steps around it: `process_append_value`
//! checks the accounts and appends the value that was read from the
//! instruction to the one that was read from the inscription, and
//! `store_appended_value` stores the text of the result.
use vstd::prelude::*;
use crate::account::{Account, AccountView, views};
use crate::address::{program_id, spec_program_id};
use crate::error::{MplInscriptionError, ProgramError, custom};
use crate::json::processor::{check_link, check_payer, link_failure, payer_failure};
use crate::json::state::{InscriptionMetadata, metadata_failure, parse_metadata};
use crate::json::value::{JsonValue, JsonView, merge_append, merged};

verus! {

/// A value that may have failed to parse, as a mathematical value.
pub open spec fn option_json_view(value: Option<JsonValue>) -> Option<JsonView> {
    match value {
        Some(v) => Some(v@),
        None => None,
    }
}

/// Why AppendValue fails, if it does. The checks, in order: there are four
/// accounts; the program owns the inscription account and the metadata
/// account, and neither is empty; the metadata account holds a metadata
/// record; the two accounts belong together; the payer may act; the
/// inscription holds a JSON value; the instruction holds one; and the second
/// can be appended to the first.
pub open spec fn append_value_failure(
    accounts: Seq<AccountView>,
    current: Option<JsonView>,
    addition: Option<JsonView>,
) -> Option<ProgramError> {
    if accounts.len() < 4 {
        Some(ProgramError::NotEnoughAccountKeys)
    } else {
        let metadata = parse_metadata(accounts[1].data);
        let link = link_failure(accounts[0], accounts[1], metadata->0);
        let payer = payer_failure(metadata->0, accounts[2], accounts[3]);
        if accounts[0].owner != program_id() || accounts[0].data.len() == 0
            || accounts[1].owner != program_id() || accounts[1].data.len() == 0 {
            Some(custom(MplInscriptionError::NotInitialized))
        } else if metadata_failure(accounts[1].data) is Some {
            metadata_failure(accounts[1].data)
        } else if link is Some {
            link
        } else if payer is Some {
            payer
        } else if current is None || addition is None || merged(current->0, addition->0) is None {
            Some(custom(MplInscriptionError::InvalidJson))
        } else {
            None
        }
    }
}

/// Checks the accounts of AppendValue and appends `addition` to `current`.
/// `current` is the value that the inscription holds and `addition` the one
/// that the instruction brings, each `None` where the text is no JSON.
pub fn process_append_value(
    accounts: &Vec<Account>,
    current: Option<JsonValue>,
    addition: Option<JsonValue>,
) -> (r: Result<JsonValue, ProgramError>)
    ensures
        match r {
            Ok(value) => append_value_failure(
                views(accounts@),
                option_json_view(current),
                option_json_view(addition),
            ) is None && merged(current->0@, addition->0@) == Some(value@),
            Err(e) => append_value_failure(
                views(accounts@),
                option_json_view(current),
                option_json_view(addition),
            ) == Some(e),
        },
{
    if accounts.len() < 4 {
        return Err(ProgramError::NotEnoughAccountKeys);
    }
    // Check that the account is already initialized.
    if accounts[0].owner != program_id() || accounts[0].data_is_empty() {
        return Err(ProgramError::from(MplInscriptionError::NotInitialized));
    }
    // Check that the account is already initialized.
    if accounts[1].owner != program_id() || accounts[1].data_is_empty() {
        return Err(ProgramError::from(MplInscriptionError::NotInitialized));
    }
    let json_metadata = match InscriptionMetadata::decode(accounts[1].data.as_slice()) {
        Ok(m) => m,
        Err(e) => {
            return Err(e);
        },
    };
    // Verify that the derived address is correct for the metadata account.
    match check_link(&accounts[0], &accounts[1], &json_metadata) {
        Ok(()) => {},
        Err(e) => {
            return Err(e);
        },
    }
    // The payer must sign and be an authority.
    match check_payer(&json_metadata, &accounts[2], &accounts[3]) {
        Ok(()) => {},
        Err(e) => {
            return Err(e);
        },
    }
    let json_data = match current {
        Some(v) => v,
        None => {
            return Err(ProgramError::from(MplInscriptionError::InvalidJson));
        },
    };
    let new_data = match addition {
        Some(v) => v,
        None => {
            return Err(ProgramError::from(MplInscriptionError::InvalidJson));
        },
    };
    merge_append(json_data, new_data)
}

/// Why the text of a value cannot be stored in the inscription, if it cannot:
/// there are no accounts, there is no text, or the host does not let the
/// inscription grow to hold it.
pub open spec fn store_appended_value_failure(
    accounts: Seq<AccountView>,
    serialized: Option<Seq<u8>>,
) -> Option<ProgramError> {
    if accounts.len() < 1 {
        Some(ProgramError::NotEnoughAccountKeys)
    } else if serialized is None {
        Some(custom(MplInscriptionError::InvalidJson))
    } else if !accounts[0].may_resize_to(serialized->0.len()) {
        Some(ProgramError::InvalidRealloc)
    } else {
        None
    }
}

/// Stores the text of the value that `process_append_value` returned: the
/// inscription is resized to fit the text, which then overwrites it.
/// `serialized` is `None` where the value could not be written as text.
pub fn store_appended_value(accounts: &mut Vec<Account>, serialized: Option<Vec<u8>>) -> (r:
    Result<(), ProgramError>)
    ensures
        match r {
            Ok(()) => store_appended_value_failure(
                views(old(accounts)@),
                match serialized {
                    Some(text) => Some(text@),
                    None => None,
                },
            ) is None && views(final(accounts)@) == views(old(accounts)@).update(
                0,
                old(accounts)@[0]@.storing(serialized->0@),
            ),
            Err(e) => store_appended_value_failure(
                views(old(accounts)@),
                match serialized {
                    Some(text) => Some(text@),
                    None => None,
                },
            ) == Some(e) && final(accounts)@ == old(accounts)@,
        },
{
    if accounts.len() < 1 {
        return Err(ProgramError::NotEnoughAccountKeys);
    }
    let text = match serialized {
        Some(t) => t,
        None => {
            return Err(ProgramError::from(MplInscriptionError::InvalidJson));
        },
    };
    match accounts[0].store(text.as_slice()) {
        Ok(()) => {},
        Err(e) => {
            return Err(e);
        },
    }
    proof {
        assert(forall|i: int| 1 <= i < accounts@.len() ==> accounts@[i] == old(accounts)@[i]);
        assert(views(accounts@) =~~= views(old(accounts)@).update(
            0,
            old(accounts)@[0]@.storing(text@),
        ));
    }
    Ok(())
}

} // verus!
