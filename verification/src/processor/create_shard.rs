//! CreateShard: set up one of the rank counters.
use vstd::prelude::*;
use crate::account::{Account, AccountView, views};
use crate::address::{program_id, spec_program_id};
use crate::derivation::{assert_derivation, shard_seeds, spec_shard_seeds, verified_bump};
use crate::error::{MplInscriptionError, ProgramError, custom};
use crate::instruction::CreateShardArgs;
use crate::state::{
    InscriptionShard, Key, SHARD_COUNT, lemma_shard_round_trip, parse_shard, ser_shard,
    shard_failure,
};

verus! {

/// The bump of the address of shard `shard_number`, where `account` lives at
/// that address.
pub open spec fn shard_bump(account: AccountView, shard_number: u8) -> Result<u8, ProgramError> {
    verified_bump(
        program_id(),
        account.key,
        spec_shard_seeds(shard_number),
        MplInscriptionError::DerivedKeyInvalid,
    )
}

/// Why CreateShard fails, if it does. The checks, in order: there are three
/// accounts; no program has claimed the shard account; the shard number is
/// one of the `SHARD_COUNT` that there are; and the account lives at the
/// address derived from the shard number.
pub open spec fn create_shard_failure(accounts: Seq<AccountView>, shard_number: u8) -> Option<
    ProgramError,
> {
    if accounts.len() < 3 {
        Some(ProgramError::NotEnoughAccountKeys)
    } else if !accounts[0].is_unclaimed() {
        Some(custom(MplInscriptionError::AlreadyInitialized))
    } else if shard_number >= SHARD_COUNT {
        Some(custom(MplInscriptionError::InvalidShardAccount))
    } else if shard_bump(accounts[0], shard_number) is Err {
        Some(shard_bump(accounts[0], shard_number)->Err_0)
    } else {
        None
    }
}

/// The record of a new shard: it has handed out no rank yet.
pub open spec fn new_shard(shard_number: u8, bump: u8) -> InscriptionShard {
    InscriptionShard { key: Key::InscriptionShardAccount, bump, shard_number, count: 0 }
}

/// The accounts after CreateShard: the program owns the shard account, which
/// stores the record of a new shard. Nothing else changes.
pub open spec fn create_shard_effect(accounts: Seq<AccountView>, shard_number: u8) -> Seq<
    AccountView,
> {
    accounts.update(
        0,
        accounts[0].claimed(
            program_id(),
            ser_shard(new_shard(shard_number, shard_bump(accounts[0], shard_number)->Ok_0)),
        ),
    )
}

pub fn process_create_shard(accounts: &mut Vec<Account>, args: CreateShardArgs) -> (r: Result<
    (),
    ProgramError,
>)
    ensures
        match r {
            Ok(()) => create_shard_failure(views(old(accounts)@), args.shard_number) is None
                && views(final(accounts)@) == create_shard_effect(
                views(old(accounts)@),
                args.shard_number,
            ),
            Err(e) => create_shard_failure(views(old(accounts)@), args.shard_number) == Some(e)
                && final(accounts)@ == old(accounts)@,
        },
{
    if accounts.len() < 3 {
        return Err(ProgramError::NotEnoughAccountKeys);
    }
    // Check that the account isn't already initialized.
    if !accounts[0].is_unclaimed() {
        return Err(ProgramError::from(MplInscriptionError::AlreadyInitialized));
    }
    // There are no more shards than SHARD_COUNT: a shard numbered beyond
    // them would hand out the ranks of another.
    if args.shard_number >= SHARD_COUNT {
        return Err(ProgramError::from(MplInscriptionError::InvalidShardAccount));
    }
    let seeds = shard_seeds(args.shard_number);
    let bump = match assert_derivation(
        &program_id(),
        &accounts[0],
        &seeds,
        MplInscriptionError::DerivedKeyInvalid,
    ) {
        Ok(b) => b,
        Err(e) => {
            return Err(e);
        },
    };
    let shard = InscriptionShard {
        key: Key::InscriptionShardAccount,
        bump,
        shard_number: args.shard_number,
        count: 0,
    };
    let serialized_data = shard.encode();
    // Create the account and write the data.
    match accounts[0].claim(program_id(), serialized_data.as_slice()) {
        Ok(()) => {},
        Err(e) => {
            return Err(e);
        },
    }
    proof {
        let before = views(old(accounts)@);
        assert(forall|i: int| 1 <= i < accounts@.len() ==> accounts@[i] == old(accounts)@[i]);
        assert(views(accounts@) =~~= create_shard_effect(before, args.shard_number));
    }
    Ok(())
}


/// The shard that CreateShard leaves is one that the instructions accept as
/// far as its record goes: a shard record with a number below `SHARD_COUNT`
/// that has counted nothing yet.
pub proof fn lemma_create_shard(accounts: Seq<AccountView>, shard_number: u8)
    requires
        create_shard_failure(accounts, shard_number) is None,
    ensures
        ({
            let after = create_shard_effect(accounts, shard_number)[0];
            let shard = new_shard(shard_number, shard_bump(accounts[0], shard_number)->Ok_0);
            &&& after.owner == program_id()
            &&& shard_failure(after.data) is None
            &&& parse_shard(after.data) == Some(shard)
            &&& shard.shard_number < SHARD_COUNT
            &&& shard.count == 0
        }),
{
    lemma_shard_round_trip(new_shard(shard_number, shard_bump(accounts[0], shard_number)->Ok_0));
}

} // verus!
