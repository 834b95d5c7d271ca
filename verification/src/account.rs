//! An account as the host hands it to an instruction, and the life of its storage:
//! created empty under the system program, claimed and sized by a program,
//! resized and overwritten, and closed again.
//!
//! What an account is worth (its balance, and the rent the host asks for its
//! size) is settled by the host and is not part of this model.
use vstd::prelude::*;
use solana_program::program_memory::sol_memcpy;
use crate::address::{Address, spec_system_program_id, system_program_id};
use crate::error::{MplInscriptionError, ProgramError, custom};

verus! {

/// The most bytes by which the host lets one instruction grow an account.
pub const MAX_PERMITTED_DATA_INCREASE: usize = 10240;

/// An account: where it lives, which program owns it, whether it signed the
/// transaction, and the bytes it stores.
#[derive(Debug)]
pub struct Account {
    pub key: Address,
    pub owner: Address,
    pub is_signer: bool,
    pub data: Vec<u8>,
}

/// An account as a mathematical value.
#[verifier::ext_equal]
pub struct AccountView {
    pub key: Address,
    pub owner: Address,
    pub is_signer: bool,
    pub data: Seq<u8>,
}

impl View for Account {
    type V = AccountView;

    open spec fn view(&self) -> AccountView {
        AccountView { key: self.key, owner: self.owner, is_signer: self.is_signer, data: self.data@ }
    }
}

/// The accounts of an instruction, by position.
pub open spec fn views(accounts: Seq<Account>) -> Seq<AccountView> {
    Seq::new(accounts.len(), |i: int| accounts[i]@)
}

/// `n` zero bytes.
pub open spec fn zeros(n: nat) -> Seq<u8> {
    Seq::new(n, |i: int| 0u8)
}

impl AccountView {
    /// No program has claimed the account yet: the system program owns it and
    /// it stores nothing.
    pub open spec fn is_unclaimed(self) -> bool {
        self.owner == system_program_id() && self.data.len() == 0
    }

    /// The account after `owner` claimed it with `len` zero bytes of storage.
    pub open spec fn created(self, owner: Address, len: nat) -> AccountView {
        AccountView { owner, data: zeros(len), ..self }
    }

    /// The account after `owner` claimed it and stored `bytes` in it.
    pub open spec fn claimed(self, owner: Address, bytes: Seq<u8>) -> AccountView {
        AccountView { owner, data: bytes, ..self }
    }

    /// The account with its storage cut or zero-extended to `len` bytes.
    pub open spec fn resized(self, len: nat) -> AccountView {
        AccountView {
            data: if len <= self.data.len() {
                self.data.subrange(0, len as int)
            } else {
                self.data + zeros((len - self.data.len()) as nat)
            },
            ..self
        }
    }

    /// The account with `bytes` copied over its storage from `offset` on.
    pub open spec fn written(self, offset: int, bytes: Seq<u8>) -> AccountView
        recommends
            0 <= offset,
            offset + bytes.len() <= self.data.len(),
    {
        AccountView {
            data: self.data.subrange(0, offset) + bytes + self.data.subrange(
                offset + bytes.len(),
                self.data.len() as int,
            ),
            ..self
        }
    }

    /// The account storing exactly `bytes`.
    pub open spec fn storing(self, bytes: Seq<u8>) -> AccountView {
        AccountView { data: bytes, ..self }
    }

    /// The account after it was closed: it stores nothing and is back with the
    /// system program.
    pub open spec fn closed(self) -> AccountView {
        AccountView { owner: system_program_id(), data: Seq::empty(), ..self }
    }

    /// Whether the host lets the account's storage become `len` bytes long
    /// within one instruction.
    pub open spec fn may_resize_to(self, len: nat) -> bool {
        len <= self.data.len() + MAX_PERMITTED_DATA_INCREASE
    }
}

/// Copies `src` over the bytes of `dst` from `offset` on.
///
/// This is `solana_program::program_memory::sol_memcpy`, C's `memcpy` on two
/// byte slices: the first `n` bytes of the destination slice become the first
/// `n` bytes of the source, and nothing else changes. It is undefined where `n`
/// exceeds either slice, which the precondition rules out.
#[verifier::external_body]
fn copy_bytes(dst: &mut Vec<u8>, offset: usize, src: &[u8])
    requires
        offset + src@.len() <= old(dst)@.len(),
    ensures
        final(dst)@ == old(dst)@.subrange(0, offset as int) + src@ + old(dst)@.subrange(
            offset + src@.len(),
            old(dst)@.len() as int,
        ),
{
    sol_memcpy(&mut dst[offset..], src, src.len());
}

impl Account {
    pub fn new(key: Address, owner: Address, is_signer: bool, data: Vec<u8>) -> (r: Account)
        ensures
            r@ == (AccountView { key, owner, is_signer, data: data@ }),
    {
        Account { key, owner, is_signer, data }
    }

    /// A copy of the account.
    pub fn duplicate(&self) -> (r: Account)
        ensures
            r@ == self@,
    {
        Account { key: self.key, owner: self.owner, is_signer: self.is_signer, data: self.data.clone() }
    }

    pub fn data_len(&self) -> (r: usize)
        ensures
            r == self@.data.len(),
    {
        self.data.len()
    }

    pub fn data_is_empty(&self) -> (r: bool)
        ensures
            r == (self@.data.len() == 0),
    {
        self.data.len() == 0
    }

    pub fn is_owned_by(&self, owner: &Address) -> (r: bool)
        ensures
            r == (self@.owner == *owner),
    {
        self.owner == *owner
    }

    /// Whether no program has claimed the account yet.
    pub fn is_unclaimed(&self) -> (r: bool)
        ensures
            r == self@.is_unclaimed(),
    {
        self.owner == system_program_id() && self.data.len() == 0
    }

    /// Claims an unclaimed account for `owner`, with `len` zero bytes of storage.
    pub fn create(&mut self, owner: Address, len: usize) -> (r: Result<(), ProgramError>)
        ensures
            match r {
                Ok(()) => old(self)@.is_unclaimed() && final(self)@ == old(self)@.created(
                    owner,
                    len as nat,
                ),
                Err(e) => !old(self)@.is_unclaimed() && e == custom(
                    MplInscriptionError::AlreadyInitialized,
                ) && *final(self) == *old(self),
            },
    {
        if !self.is_unclaimed() {
            return Err(ProgramError::from(MplInscriptionError::AlreadyInitialized));
        }
        self.owner = owner;
        self.data.resize(len, 0u8);
        assert(self@.data =~= zeros(len as nat));
        Ok(())
    }

    /// Claims an unclaimed account for `owner` and stores `bytes` in it: the
    /// account is created with storage for them, which they then fill.
    pub fn claim(&mut self, owner: Address, bytes: &[u8]) -> (r: Result<(), ProgramError>)
        ensures
            match r {
                Ok(()) => old(self)@.is_unclaimed() && final(self)@ == old(self)@.claimed(
                    owner,
                    bytes@,
                ),
                Err(e) => !old(self)@.is_unclaimed() && e == custom(
                    MplInscriptionError::AlreadyInitialized,
                ) && *final(self) == *old(self),
            },
    {
        match self.create(owner, bytes.len()) {
            Ok(()) => {},
            Err(e) => {
                return Err(e);
            },
        }
        self.write(0, bytes);
        assert(self@.data =~= bytes@);
        Ok(())
    }

    /// Cuts or zero-extends the storage to `len` bytes. The host refuses to
    /// grow an account by more than `MAX_PERMITTED_DATA_INCREASE` bytes.
    pub fn resize(&mut self, len: usize) -> (r: Result<(), ProgramError>)
        ensures
            match r {
                Ok(()) => old(self)@.may_resize_to(len as nat)
                    && final(self)@ == old(self)@.resized(len as nat),
                Err(e) => !old(self)@.may_resize_to(len as nat) && e
                    == ProgramError::InvalidRealloc && *final(self) == *old(self),
            },
    {
        let old_len = self.data.len();
        if len > old_len && len - old_len > MAX_PERMITTED_DATA_INCREASE {
            return Err(ProgramError::InvalidRealloc);
        }
        self.data.resize(len, 0u8);
        assert(self@.data =~= old(self)@.resized(len as nat).data);
        Ok(())
    }

    /// Copies `bytes` over the storage from `offset` on.
    pub fn write(&mut self, offset: usize, bytes: &[u8])
        requires
            offset + bytes@.len() <= old(self)@.data.len(),
        ensures
            final(self)@ == old(self)@.written(offset as int, bytes@),
    {
        copy_bytes(&mut self.data, offset, bytes);
    }

    /// Makes the account store exactly `bytes`: the storage is resized to fit,
    /// then overwritten.
    pub fn store(&mut self, bytes: &[u8]) -> (r: Result<(), ProgramError>)
        ensures
            match r {
                Ok(()) => old(self)@.may_resize_to(bytes@.len())
                    && final(self)@ == old(self)@.storing(bytes@),
                Err(e) => !old(self)@.may_resize_to(bytes@.len()) && e
                    == ProgramError::InvalidRealloc && *final(self) == *old(self),
            },
    {
        match self.resize(bytes.len()) {
            Ok(()) => {},
            Err(e) => {
                return Err(e);
            },
        }
        self.write(0, bytes);
        assert(self@.data =~= bytes@);
        Ok(())
    }

    /// Closes the account: its storage is dropped and the system program owns
    /// it again.
    pub fn close(&mut self)
        ensures
            final(self)@ == old(self)@.closed(),
    {
        self.owner = system_program_id();
        self.data.truncate(0);
        assert(self@.data =~= Seq::<u8>::empty());
    }
}

/// Succeeds where `account` signed the transaction.
pub fn assert_signer(account: &Account) -> (r: Result<(), ProgramError>)
    ensures
        r == (if account@.is_signer {
            Ok::<(), ProgramError>(())
        } else {
            Err(ProgramError::MissingRequiredSignature)
        }),
{
    if !account.is_signer {
        Err(ProgramError::MissingRequiredSignature)
    } else {
        Ok(())
    }
}

/// Succeeds where `owner` owns `account`, and fails with `error` where not.
pub fn assert_owned_by(account: &Account, owner: &Address, error: MplInscriptionError) -> (r:
    Result<(), ProgramError>)
    ensures
        r == (if account@.owner == *owner {
            Ok::<(), ProgramError>(())
        } else {
            Err(custom(error))
        }),
{
    if account.owner != *owner {
        Err(ProgramError::from(error))
    } else {
        Ok(())
    }
}

} // verus!
