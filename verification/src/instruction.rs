//! The instructions of the inscription program and their wire format.
//!
//! An instruction arrives as bytes and a list of accounts. The first byte says
//! which instruction it is, and its arguments follow in the layout of
//! [`crate::codec`]. Each instruction gives every account a role by its
//! position in the list; an optional role that is not filled holds this
//! program's own address in its place.
use vstd::prelude::*;
use crate::address::Address;
use vstd::utf8::encode_utf8;
use crate::codec::{
    lemma_parse_address, lemma_parse_bytes, lemma_parse_option_string, lemma_parse_string,
    lemma_parse_u64, lemma_parse_u8, option_string_view, parse_address, parse_bytes,
    parse_option_string, parse_string, parse_u64, parse_u8, put_address, put_bytes,
    put_option_string, put_string, put_u64, put_u8, read_address, read_bytes, read_option_string,
    read_string, read_u64, read_u8, ser_address, ser_bytes, ser_option_string, ser_string, ser_u64,
    ser_u8,
};
use crate::error::ProgramError;

verus! {

#[derive(Clone, Debug, PartialEq, Eq)]
pub struct CloseArgs {
    pub associated_tag: Option<String>,
}

#[derive(Clone, Debug, PartialEq, Eq)]
pub struct WriteDataArgs {
    pub associated_tag: Option<String>,
    pub offset: usize,
    pub value: Vec<u8>,
}

#[derive(Clone, Debug, PartialEq, Eq)]
pub struct ClearDataArgs {
    pub associated_tag: Option<String>,
}

#[derive(Clone, Debug, PartialEq, Eq)]
pub struct AllocateArgs {
    pub associated_tag: Option<String>,
    pub target_size: usize,
}

#[derive(Clone, Copy, Debug, PartialEq, Eq)]
pub struct AddAuthorityArgs {
    pub new_authority: Address,
}

#[derive(Clone, Copy, Debug, PartialEq, Eq, Structural)]
pub struct CreateShardArgs {
    pub shard_number: u8,
}

#[derive(Clone, Debug, PartialEq, Eq)]
pub struct AssociateInscriptionAccountArgs {
    pub association_tag: String,
}

/// An instruction of the inscription program. The accounts of each are listed
/// by position; `[w]` marks an account that the instruction writes to, `[s]`
/// one that signs, `[o]` an optional one.
#[derive(Clone, Debug, PartialEq, Eq)]
pub enum MplInscriptionInstruction {
    /// Initialize the inscription and metadata accounts.
    ///
    /// 0. `[w, s]` the inscription account, 1. `[w]` its metadata account,
    /// 2. `[w]` the shard account, 3. `[w, s]` the payer, 4. `[o, s]` the
    /// authority, 5. the system program.
    Initialize,
    /// Initialize the inscription and metadata accounts of a mint.
    ///
    /// 0. `[w]` the mint's inscription account, 1. `[w]` its metadata account,
    /// 2. the mint, 3. the mint's token metadata, 4. `[w]` the shard account,
    /// 5. `[w, s]` the payer, 6. `[o, s]` the authority, 7. the system
    /// program, 8. `[o]` the delegate record of the authority, which Delegate
    /// has created.
    InitializeFromMint,
    /// Close the inscription and metadata accounts, or one associated account.
    ///
    /// 0. `[w]` the inscription account, 1. `[w]` the metadata account,
    /// 2. `[w, s]` the payer, 3. `[o, s]` the authority, 4. the system program.
    Close(CloseArgs),
    /// Write data to the inscription account.
    ///
    /// Accounts as for `Close`.
    WriteData(WriteDataArgs),
    /// Clear the inscription account.
    ///
    /// Accounts as for `Close`.
    ClearData(ClearDataArgs),
    /// Add an update authority to the inscription.
    ///
    /// 0. `[w]` the metadata account, 1. `[w, s]` the payer, 2. `[o, s]` the
    /// authority, 3. the system program.
    AddAuthority(AddAuthorityArgs),
    /// Remove the acting update authority from the inscription.
    ///
    /// Accounts as for `AddAuthority`.
    RemoveAuthority,
    /// Create a shard account for counting inscriptions.
    ///
    /// 0. `[w]` the shard account, 1. `[w, s]` the payer, 2. the system program.
    CreateShard(CreateShardArgs),
    /// Create an account associated with an inscription under a tag.
    ///
    /// 0. the inscription account, 1. `[w]` the metadata account, 2. `[w]` the
    /// associated account, 3. `[w, s]` the payer, 4. `[o, s]` the authority,
    /// 5. the system program.
    InitializeAssociatedInscription(AssociateInscriptionAccountArgs),
    /// Set the size of the inscription account.
    ///
    /// Accounts as for `Close`.
    Allocate(AllocateArgs),
    /// Record the mint in the metadata of a mint's inscription.
    ///
    /// 0. the mint's inscription account, 1. `[w]` its metadata account,
    /// 2. the mint, 3. `[w, s]` the payer, 4. the system program.
    SetMint,
    /// Approve a delegate for the inscriptions of a collection.
    ///
    /// 0. `[w]` the delegate record, 1. the delegate, 2. the collection's token
    /// metadata, 3. the collection's mint, 4. `[s]` the update authority,
    /// 5. `[w, s]` the payer, 6. the system program.
    Delegate,
}

/// An instruction as a mathematical value.
#[verifier::ext_equal]
pub enum InstructionView {
    Initialize,
    InitializeFromMint,
    Close { associated_tag: Option<Seq<char>> },
    WriteData { associated_tag: Option<Seq<char>>, offset: usize, value: Seq<u8> },
    ClearData { associated_tag: Option<Seq<char>> },
    AddAuthority { new_authority: Address },
    RemoveAuthority,
    CreateShard { shard_number: u8 },
    InitializeAssociatedInscription { association_tag: Seq<char> },
    Allocate { associated_tag: Option<Seq<char>>, target_size: usize },
    SetMint,
    Delegate,
}

impl View for MplInscriptionInstruction {
    type V = InstructionView;

    open spec fn view(&self) -> InstructionView {
        match *self {
            MplInscriptionInstruction::Initialize => InstructionView::Initialize,
            MplInscriptionInstruction::InitializeFromMint => InstructionView::InitializeFromMint,
            MplInscriptionInstruction::Close(args) => InstructionView::Close {
                associated_tag: option_string_view(args.associated_tag),
            },
            MplInscriptionInstruction::WriteData(args) => InstructionView::WriteData {
                associated_tag: option_string_view(args.associated_tag),
                offset: args.offset,
                value: args.value@,
            },
            MplInscriptionInstruction::ClearData(args) => InstructionView::ClearData {
                associated_tag: option_string_view(args.associated_tag),
            },
            MplInscriptionInstruction::AddAuthority(args) => InstructionView::AddAuthority {
                new_authority: args.new_authority,
            },
            MplInscriptionInstruction::RemoveAuthority => InstructionView::RemoveAuthority,
            MplInscriptionInstruction::CreateShard(args) => InstructionView::CreateShard {
                shard_number: args.shard_number,
            },
            MplInscriptionInstruction::InitializeAssociatedInscription(args) =>
                InstructionView::InitializeAssociatedInscription {
                association_tag: args.association_tag@,
            },
            MplInscriptionInstruction::Allocate(args) => InstructionView::Allocate {
                associated_tag: option_string_view(args.associated_tag),
                target_size: args.target_size,
            },
            MplInscriptionInstruction::SetMint => InstructionView::SetMint,
            MplInscriptionInstruction::Delegate => InstructionView::Delegate,
        }
    }
}

/// A size or an offset: 64 bits on the wire, and no more than the machine
/// can address.
pub open spec fn parse_usize(b: Seq<u8>) -> Option<(usize, Seq<u8>)> {
    match parse_u64(b) {
        Some((v, rest)) => if v <= usize::MAX {
            Some((v as usize, rest))
        } else {
            None
        },
        None => None,
    }
}

pub open spec fn ser_usize(v: usize) -> Seq<u8> {
    ser_u64(v as u64)
}

pub proof fn lemma_parse_usize(v: usize, rest: Seq<u8>)
    ensures
        parse_usize(ser_usize(v) + rest) == Some((v, rest)),
{
    lemma_parse_u64(v as u64, rest);
}

impl InstructionView {
    /// The byte that says which instruction this is.
    pub open spec fn discriminant(self) -> u8 {
        match self {
            InstructionView::Initialize => 0,
            InstructionView::InitializeFromMint => 1,
            InstructionView::Close { .. } => 2,
            InstructionView::WriteData { .. } => 3,
            InstructionView::ClearData { .. } => 4,
            InstructionView::AddAuthority { .. } => 5,
            InstructionView::RemoveAuthority => 6,
            InstructionView::CreateShard { .. } => 7,
            InstructionView::InitializeAssociatedInscription { .. } => 8,
            InstructionView::Allocate { .. } => 9,
            InstructionView::SetMint => 10,
            InstructionView::Delegate => 11,
        }
    }

    /// The arguments in their serial form.
    pub open spec fn ser_arguments(self) -> Seq<u8> {
        match self {
            InstructionView::Close { associated_tag } => ser_option_string(associated_tag),
            InstructionView::WriteData { associated_tag, offset, value } => ser_option_string(
                associated_tag,
            ) + ser_usize(offset) + ser_bytes(value),
            InstructionView::ClearData { associated_tag } => ser_option_string(associated_tag),
            InstructionView::AddAuthority { new_authority } => ser_address(new_authority),
            InstructionView::CreateShard { shard_number } => ser_u8(shard_number),
            InstructionView::InitializeAssociatedInscription { association_tag } => ser_string(
                association_tag,
            ),
            InstructionView::Allocate { associated_tag, target_size } => ser_option_string(
                associated_tag,
            ) + ser_usize(target_size),
            _ => Seq::empty(),
        }
    }

    /// Whether the instruction has a serial form: the lengths of its tag and
    /// of its value fit 32 bits.
    pub open spec fn encodable(self) -> bool {
        match self {
            InstructionView::Close { associated_tag } => tag_encodable(associated_tag),
            InstructionView::WriteData { associated_tag, offset, value } => tag_encodable(
                associated_tag,
            ) && value.len() <= u32::MAX,
            InstructionView::ClearData { associated_tag } => tag_encodable(associated_tag),
            InstructionView::InitializeAssociatedInscription { association_tag } => encode_utf8(
                association_tag,
            ).len() <= u32::MAX,
            InstructionView::Allocate { associated_tag, target_size } => tag_encodable(
                associated_tag,
            ),
            _ => true,
        }
    }
}

/// Whether an optional tag has a serial form.
pub open spec fn tag_encodable(tag: Option<Seq<char>>) -> bool {
    tag matches Some(t) ==> encode_utf8(t).len() <= u32::MAX
}

/// An instruction on the wire: its discriminant, then its arguments.
pub open spec fn ser_instruction(v: InstructionView) -> Seq<u8> {
    ser_u8(v.discriminant()) + v.ser_arguments()
}

/// The instruction at the front of `b`, and what follows it.
pub open spec fn parse_instruction_prefix(b: Seq<u8>) -> Option<(InstructionView, Seq<u8>)> {
    match parse_u8(b) {
        None => None,
        Some((which, b1)) => if which == 0 {
            Some((InstructionView::Initialize, b1))
        } else if which == 1 {
            Some((InstructionView::InitializeFromMint, b1))
        } else if which == 2 {
            match parse_option_string(b1) {
                Some((associated_tag, b2)) => Some((InstructionView::Close { associated_tag }, b2)),
                None => None,
            }
        } else if which == 3 {
            match parse_option_string(b1) {
                Some((associated_tag, b2)) => match parse_usize(b2) {
                    Some((offset, b3)) => match parse_bytes(b3) {
                        Some((value, b4)) => Some(
                            (InstructionView::WriteData { associated_tag, offset, value }, b4),
                        ),
                        None => None,
                    },
                    None => None,
                },
                None => None,
            }
        } else if which == 4 {
            match parse_option_string(b1) {
                Some((associated_tag, b2)) => Some(
                    (InstructionView::ClearData { associated_tag }, b2),
                ),
                None => None,
            }
        } else if which == 5 {
            match parse_address(b1) {
                Some((new_authority, b2)) => Some(
                    (InstructionView::AddAuthority { new_authority }, b2),
                ),
                None => None,
            }
        } else if which == 6 {
            Some((InstructionView::RemoveAuthority, b1))
        } else if which == 7 {
            match parse_u8(b1) {
                Some((shard_number, b2)) => Some(
                    (InstructionView::CreateShard { shard_number }, b2),
                ),
                None => None,
            }
        } else if which == 8 {
            match parse_string(b1) {
                Some((association_tag, b2)) => Some(
                    (InstructionView::InitializeAssociatedInscription { association_tag }, b2),
                ),
                None => None,
            }
        } else if which == 9 {
            match parse_option_string(b1) {
                Some((associated_tag, b2)) => match parse_usize(b2) {
                    Some((target_size, b3)) => Some(
                        (InstructionView::Allocate { associated_tag, target_size }, b3),
                    ),
                    None => None,
                },
                None => None,
            }
        } else if which == 10 {
            Some((InstructionView::SetMint, b1))
        } else if which == 11 {
            Some((InstructionView::Delegate, b1))
        } else {
            None
        },
    }
}

/// The instruction that `b` holds, where `b` holds one and nothing more.
pub open spec fn parse_instruction(b: Seq<u8>) -> Option<InstructionView> {
    match parse_instruction_prefix(b) {
        Some((v, rest)) => if rest.len() == 0 {
            Some(v)
        } else {
            None
        },
        None => None,
    }
}

pub(crate) fn read_usize(data: &[u8], pos: usize) -> (r: Option<(usize, usize)>)
    requires
        pos <= data@.len(),
    ensures
        match r {
            Some((v, next)) => next <= data@.len() && parse_usize(data@.skip(pos as int)) == Some(
                (v, data@.skip(next as int)),
            ),
            None => parse_usize(data@.skip(pos as int)) is None,
        },
{
    match read_u64(data, pos) {
        Some((v, next)) => if v <= usize::MAX as u64 {
            Some((v as usize, next))
        } else {
            None
        },
        None => None,
    }
}

fn read_instruction(data: &[u8]) -> (r: Option<(MplInscriptionInstruction, usize)>)
    ensures
        match r {
            Some((v, next)) => next <= data@.len() && parse_instruction_prefix(data@) == Some(
                (v@, data@.skip(next as int)),
            ),
            None => parse_instruction_prefix(data@) is None,
        },
{
    assert(data@.skip(0) =~= data@);
    let (which, pos1) = match read_u8(data, 0) {
        Some(x) => x,
        None => {
            return None;
        },
    };
    match which {
        0 => Some((MplInscriptionInstruction::Initialize, pos1)),
        1 => Some((MplInscriptionInstruction::InitializeFromMint, pos1)),
        2 => match read_option_string(data, pos1) {
            Some((associated_tag, pos2)) => Some(
                (MplInscriptionInstruction::Close(CloseArgs { associated_tag }), pos2),
            ),
            None => None,
        },
        3 => {
            let (associated_tag, pos2) = match read_option_string(data, pos1) {
                Some(x) => x,
                None => {
                    return None;
                },
            };
            let (offset, pos3) = match read_usize(data, pos2) {
                Some(x) => x,
                None => {
                    return None;
                },
            };
            let (value, pos4) = match read_bytes(data, pos3) {
                Some(x) => x,
                None => {
                    return None;
                },
            };
            Some(
                (
                    MplInscriptionInstruction::WriteData(
                        WriteDataArgs { associated_tag, offset, value },
                    ),
                    pos4,
                ),
            )
        },
        4 => match read_option_string(data, pos1) {
            Some((associated_tag, pos2)) => Some(
                (MplInscriptionInstruction::ClearData(ClearDataArgs { associated_tag }), pos2),
            ),
            None => None,
        },
        5 => match read_address(data, pos1) {
            Some((new_authority, pos2)) => Some(
                (MplInscriptionInstruction::AddAuthority(AddAuthorityArgs { new_authority }), pos2),
            ),
            None => None,
        },
        6 => Some((MplInscriptionInstruction::RemoveAuthority, pos1)),
        7 => match read_u8(data, pos1) {
            Some((shard_number, pos2)) => Some(
                (MplInscriptionInstruction::CreateShard(CreateShardArgs { shard_number }), pos2),
            ),
            None => None,
        },
        8 => match read_string(data, pos1) {
            Some((association_tag, pos2)) => Some(
                (
                    MplInscriptionInstruction::InitializeAssociatedInscription(
                        AssociateInscriptionAccountArgs { association_tag },
                    ),
                    pos2,
                ),
            ),
            None => None,
        },
        9 => {
            let (associated_tag, pos2) = match read_option_string(data, pos1) {
                Some(x) => x,
                None => {
                    return None;
                },
            };
            let (target_size, pos3) = match read_usize(data, pos2) {
                Some(x) => x,
                None => {
                    return None;
                },
            };
            Some(
                (
                    MplInscriptionInstruction::Allocate(
                        AllocateArgs { associated_tag, target_size },
                    ),
                    pos3,
                ),
            )
        },
        10 => Some((MplInscriptionInstruction::SetMint, pos1)),
        11 => Some((MplInscriptionInstruction::Delegate, pos1)),
        _ => None,
    }
}

/// A parser reads back the instruction that the serialiser wrote, whatever
/// follows it.
pub proof fn lemma_parse_instruction_prefix(v: InstructionView, rest: Seq<u8>)
    requires
        v.encodable(),
    ensures
        parse_instruction_prefix(ser_instruction(v) + rest) == Some((v, rest)),
{
    let b1 = v.ser_arguments() + rest;
    assert(ser_instruction(v) + rest =~= ser_u8(v.discriminant()) + b1);
    lemma_parse_u8(v.discriminant(), b1);
    match v {
        InstructionView::Close { associated_tag } => {
            lemma_parse_option_string(associated_tag, rest);
        },
        InstructionView::WriteData { associated_tag, offset, value } => {
            let b3 = ser_bytes(value) + rest;
            let b2 = ser_usize(offset) + b3;
            assert(b1 =~= ser_option_string(associated_tag) + b2);
            lemma_parse_option_string(associated_tag, b2);
            lemma_parse_usize(offset, b3);
            lemma_parse_bytes(value, rest);
        },
        InstructionView::ClearData { associated_tag } => {
            lemma_parse_option_string(associated_tag, rest);
        },
        InstructionView::AddAuthority { new_authority } => {
            lemma_parse_address(new_authority, rest);
        },
        InstructionView::CreateShard { shard_number } => {
            lemma_parse_u8(shard_number, rest);
        },
        InstructionView::InitializeAssociatedInscription { association_tag } => {
            lemma_parse_string(association_tag, rest);
        },
        InstructionView::Allocate { associated_tag, target_size } => {
            let b2 = ser_usize(target_size) + rest;
            assert(b1 =~= ser_option_string(associated_tag) + b2);
            lemma_parse_option_string(associated_tag, b2);
            lemma_parse_usize(target_size, rest);
        },
        _ => {
            assert(b1 =~= rest);
        },
    }
}

/// Round trip: every instruction that has a serial form is read back from it.
pub proof fn lemma_instruction_round_trip(v: InstructionView)
    requires
        v.encodable(),
    ensures
        parse_instruction(ser_instruction(v)) == Some(v),
{
    lemma_parse_instruction_prefix(v, Seq::empty());
    assert(ser_instruction(v) + Seq::<u8>::empty() =~= ser_instruction(v));
}

pub(crate) fn put_usize(out: &mut Vec<u8>, v: usize)
    ensures
        final(out)@ == old(out)@ + ser_usize(v),
{
    put_u64(out, v as u64);
}

impl MplInscriptionInstruction {
    /// The instruction on the wire. Fails where the instruction has no serial
    /// form.
    pub fn encode(&self) -> (r: Result<Vec<u8>, ProgramError>)
        ensures
            match r {
                Ok(bytes) => self@.encodable() && bytes@ == ser_instruction(self@)
                    && parse_instruction(bytes@) == Some(self@),
                Err(e) => !self@.encodable() && e == ProgramError::BorshIoError,
            },
    {
        let mut out: Vec<u8> = Vec::new();
        let ok = match self {
            MplInscriptionInstruction::Initialize => {
                put_u8(&mut out, 0);
                true
            },
            MplInscriptionInstruction::InitializeFromMint => {
                put_u8(&mut out, 1);
                true
            },
            MplInscriptionInstruction::Close(args) => {
                put_u8(&mut out, 2);
                put_option_string(&mut out, &args.associated_tag)
            },
            MplInscriptionInstruction::WriteData(args) => {
                put_u8(&mut out, 3);
                if put_option_string(&mut out, &args.associated_tag) {
                    put_usize(&mut out, args.offset);
                    put_bytes(&mut out, args.value.as_slice())
                } else {
                    false
                }
            },
            MplInscriptionInstruction::ClearData(args) => {
                put_u8(&mut out, 4);
                put_option_string(&mut out, &args.associated_tag)
            },
            MplInscriptionInstruction::AddAuthority(args) => {
                put_u8(&mut out, 5);
                put_address(&mut out, &args.new_authority);
                true
            },
            MplInscriptionInstruction::RemoveAuthority => {
                put_u8(&mut out, 6);
                true
            },
            MplInscriptionInstruction::CreateShard(args) => {
                put_u8(&mut out, 7);
                put_u8(&mut out, args.shard_number);
                true
            },
            MplInscriptionInstruction::InitializeAssociatedInscription(args) => {
                put_u8(&mut out, 8);
                put_string(&mut out, args.association_tag.as_str())
            },
            MplInscriptionInstruction::Allocate(args) => {
                put_u8(&mut out, 9);
                if put_option_string(&mut out, &args.associated_tag) {
                    put_usize(&mut out, args.target_size);
                    true
                } else {
                    false
                }
            },
            MplInscriptionInstruction::SetMint => {
                put_u8(&mut out, 10);
                true
            },
            MplInscriptionInstruction::Delegate => {
                put_u8(&mut out, 11);
                true
            },
        };
        if !ok {
            return Err(ProgramError::BorshIoError);
        }
        proof {
            assert(out@ =~= ser_instruction(self@));
            lemma_instruction_round_trip(self@);
        }
        Ok(out)
    }

    /// Reads the instruction that `data` holds. Fails where `data` does not
    /// hold exactly one instruction.
    pub fn decode(data: &[u8]) -> (r: Result<MplInscriptionInstruction, ProgramError>)
        ensures
            match r {
                Ok(v) => parse_instruction(data@) == Some(v@),
                Err(e) => e == ProgramError::BorshIoError && parse_instruction(data@) is None,
            },
    {
        match read_instruction(data) {
            Some((v, next)) => if next == data.len() {
                Ok(v)
            } else {
                Err(ProgramError::BorshIoError)
            },
            None => Err(ProgramError::BorshIoError),
        }
    }
}

} // verus!
