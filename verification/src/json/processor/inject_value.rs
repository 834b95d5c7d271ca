//! InjectValue: replace a range of an inscription's bytes.
use vstd::prelude::*;
use vstd::string::StringSliceAdditionalSpecFns;
use vstd::utf8::encode_utf8;
use crate::account::{Account, AccountView, views};
use crate::address::{program_id, spec_program_id};
use crate::codec::append;
use crate::error::{MplInscriptionError, ProgramError, custom};
use crate::json::instruction::InjectValueArgs;
use crate::json::processor::{check_link, check_payer, link_failure, payer_failure};
use crate::json::state::{InscriptionMetadata, metadata_failure, parse_metadata};

verus! {

/// `data` with `value` in place of its bytes from `start` up to `end`: what
/// comes before `start` stays, `value` follows, and what came from `end` on
/// moves up behind it.
pub open spec fn spliced(data: Seq<u8>, start: int, end: int, value: Seq<u8>) -> Seq<u8>
    recommends
        0 <= start <= end <= data.len(),
{
    data.subrange(0, start) + value + data.subrange(end, data.len() as int)
}

/// Whether a range of `data` can be replaced by `value`: the range lies in
/// `data`, and the result can be addressed.
pub open spec fn can_splice(data: Seq<u8>, start: usize, end: usize, value: Seq<u8>) -> bool {
    start <= end <= data.len() && start + value.len() + (data.len() - end) <= usize::MAX
}

/// Replaces the bytes of `data` from `start` up to `end` by `value`.
pub fn splice(data: &[u8], start: usize, end: usize, value: &[u8]) -> (r: Result<
    Vec<u8>,
    ProgramError,
>)
    ensures
        match r {
            Ok(v) => can_splice(data@, start, end, value@) && v@ == spliced(
                data@,
                start as int,
                end as int,
                value@,
            ),
            Err(e) => !can_splice(data@, start, end, value@) && e == custom(
                MplInscriptionError::NumericalOverflow,
            ),
        },
{
    if start > end || end > data.len() {
        return Err(ProgramError::from(MplInscriptionError::NumericalOverflow));
    }
    let tail_len = data.len() - end;
    let head_len = match start.checked_add(value.len()) {
        Some(n) => n,
        None => {
            return Err(ProgramError::from(MplInscriptionError::NumericalOverflow));
        },
    };
    if head_len.checked_add(tail_len).is_none() {
        return Err(ProgramError::from(MplInscriptionError::NumericalOverflow));
    }
    let mut out: Vec<u8> = Vec::new();
    append(&mut out, &data[0..start]);
    append(&mut out, value);
    append(&mut out, &data[end..data.len()]);
    Ok(out)
}

/// Why InjectValue fails, if it does. The checks, in order: there are four
/// accounts; the program owns the inscription account and the metadata
/// account, and neither is empty; the metadata account holds a metadata
/// record; the two accounts belong together; the payer may act; the range can
/// be replaced; and the host lets the inscription grow that far.
pub open spec fn inject_value_failure(
    accounts: Seq<AccountView>,
    start: usize,
    end: usize,
    value: Seq<char>,
) -> Option<ProgramError> {
    if accounts.len() < 4 {
        Some(ProgramError::NotEnoughAccountKeys)
    } else {
        let inscription = accounts[0];
        let metadata = parse_metadata(accounts[1].data);
        let link = link_failure(inscription, accounts[1], metadata->0);
        let payer = payer_failure(metadata->0, accounts[2], accounts[3]);
        let bytes = encode_utf8(value);
        if inscription.owner != program_id() || inscription.data.len() == 0
            || accounts[1].owner != program_id() || accounts[1].data.len() == 0 {
            Some(custom(MplInscriptionError::NotInitialized))
        } else if metadata_failure(accounts[1].data) is Some {
            metadata_failure(accounts[1].data)
        } else if link is Some {
            link
        } else if payer is Some {
            payer
        } else if !can_splice(inscription.data, start, end, bytes) {
            Some(custom(MplInscriptionError::NumericalOverflow))
        } else if !inscription.may_resize_to(
            spliced(inscription.data, start as int, end as int, bytes).len(),
        ) {
            Some(ProgramError::InvalidRealloc)
        } else {
            None
        }
    }
}

/// The accounts after InjectValue: the inscription holds `value` in place of
/// its bytes from `start` up to `end`. Nothing else changes.
pub open spec fn inject_value_effect(
    accounts: Seq<AccountView>,
    start: usize,
    end: usize,
    value: Seq<char>,
) -> Seq<AccountView> {
    accounts.update(
        0,
        accounts[0].storing(
            spliced(accounts[0].data, start as int, end as int, encode_utf8(value)),
        ),
    )
}

pub fn process_inject_value(accounts: &mut Vec<Account>, args: InjectValueArgs) -> (r: Result<
    (),
    ProgramError,
>)
    ensures
        match r {
            Ok(()) => inject_value_failure(
                views(old(accounts)@),
                args.start,
                args.end,
                args.value@,
            ) is None && views(final(accounts)@) == inject_value_effect(
                views(old(accounts)@),
                args.start,
                args.end,
                args.value@,
            ),
            Err(e) => inject_value_failure(
                views(old(accounts)@),
                args.start,
                args.end,
                args.value@,
            ) == Some(e) && final(accounts)@ == old(accounts)@,
        },
{
    if accounts.len() < 4 {
        return Err(ProgramError::NotEnoughAccountKeys);
    }
    // Check that the account is already initialized.
    if accounts[0].owner != program_id() || accounts[0].data_is_empty() {
        return Err(ProgramError::from(MplInscriptionError::NotInitialized));
    }
    // Check that the account is already initialized.
    if accounts[1].owner != program_id() || accounts[1].data_is_empty() {
        return Err(ProgramError::from(MplInscriptionError::NotInitialized));
    }
    let json_metadata = match InscriptionMetadata::decode(accounts[1].data.as_slice()) {
        Ok(m) => m,
        Err(e) => {
            return Err(e);
        },
    };
    // Verify that the derived address is correct for the metadata account.
    match check_link(&accounts[0], &accounts[1], &json_metadata) {
        Ok(()) => {},
        Err(e) => {
            return Err(e);
        },
    }
    // The payer must sign and be an authority.
    match check_payer(&json_metadata, &accounts[2], &accounts[3]) {
        Ok(()) => {},
        Err(e) => {
            return Err(e);
        },
    }
    let new_data = match splice(
        accounts[0].data.as_slice(),
        args.start,
        args.end,
        args.value.as_str().as_bytes(),
    ) {
        Ok(d) => d,
        Err(e) => {
            return Err(e);
        },
    };
    // Resize the account to fit the new data and write it.
    match accounts[0].store(new_data.as_slice()) {
        Ok(()) => {},
        Err(e) => {
            return Err(e);
        },
    }
    proof {
        let before = views(old(accounts)@);
        assert(forall|i: int| 1 <= i < accounts@.len() ==> accounts@[i] == old(accounts)@[i]);
        assert(views(accounts@) =~~= inject_value_effect(
            before,
            args.start,
            args.end,
            args.value@,
        ));
    }
    Ok(())
}

/// Replacing a range keeps what lies before it, puts the value in its place,
/// and moves what lies behind it by the difference in length.
pub proof fn lemma_spliced(data: Seq<u8>, start: int, end: int, value: Seq<u8>)
    requires
        0 <= start <= end <= data.len(),
    ensures
        ({
            let after = spliced(data, start, end, value);
            &&& after.len() == data.len() - (end - start) + value.len()
            &&& forall|i: int| 0 <= i < start ==> after[i] == data[i]
            &&& forall|i: int| 0 <= i < value.len() ==> after[start + i] == value[i]
            &&& forall|i: int|
                end <= i < data.len() ==> after[i - (end - start) + value.len()] == data[i]
        }),
{
}

/// Replacing an empty range by nothing changes nothing.
pub proof fn lemma_splice_nothing(data: Seq<u8>, at: int)
    requires
        0 <= at <= data.len(),
    ensures
        spliced(data, at, at, Seq::empty()) == data,
{
    assert(spliced(data, at, at, Seq::empty()) =~= data);
}

} // verus!
