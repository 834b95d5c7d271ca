//! The instructions of the JSON inscription program and their wire format.
use vstd::prelude::*;
use crate::address::Address;
use vstd::utf8::encode_utf8;
use crate::codec::{
    lemma_parse_address, lemma_parse_string, lemma_parse_u8, lemma_regroup, parse_address, parse_string,
    parse_u8, put_address, put_string, put_u8, read_address, read_string, read_u8, ser_address,
    ser_string, ser_u8,
};
use crate::error::ProgramError;
use crate::instruction::{lemma_parse_usize, parse_usize, put_usize, read_usize, ser_usize};
use crate::json::state::DataType;

verus! {

#[derive(Clone, Copy, Debug, PartialEq, Eq, Structural)]
pub struct InitializeArgs {
    pub data_type: DataType,
}

#[derive(Clone, Debug, PartialEq, Eq)]
pub struct SetValueArgs {
    pub data_type: DataType,
    pub start: Option<usize>,
    pub end: Option<usize>,
    pub value: String,
}

/// What to put in place of the bytes from `start` up to `end`.
#[derive(Clone, Debug, PartialEq, Eq)]
pub struct InjectValueArgs {
    pub data_type: DataType,
    pub start: usize,
    pub end: usize,
    pub value: String,
}

#[derive(Clone, Copy, Debug, PartialEq, Eq)]
pub struct AddAuthorityArgs {
    pub new_authority: Address,
}

#[derive(Clone, Copy, Debug, PartialEq, Eq)]
pub struct RemoveAuthorityArgs {
    pub authority: Address,
}

/// An instruction of the JSON inscription program. The accounts of each are
/// listed by position; `[w]` marks an account that the instruction writes to,
/// `[s]` one that signs.
#[derive(Clone, Debug, PartialEq, Eq)]
pub enum MplJsonInstruction {
    /// Initialize the account.
    ///
    /// 0. `[w, s]` the inscription account, 1. `[w]` its metadata account,
    /// 2. `[w, s]` the payer, 3. the system program.
    Initialize(InitializeArgs),
    /// Close the account.
    ///
    /// Accounts as for `Initialize`.
    Close,
    /// Set a value in the inscription.
    ///
    /// Accounts as for `Initialize`.
    SetValue(SetValueArgs),
    /// Inject a value into the inscription.
    ///
    /// Accounts as for `Initialize`.
    InjectValue(InjectValueArgs),
    /// Add an authority to the inscription.
    ///
    /// 0. `[w]` the metadata account, 1. `[w, s]` the payer, 2. the system
    /// program.
    AddAuthority(AddAuthorityArgs),
    /// Remove an authority from the inscription.
    ///
    /// Accounts as for `AddAuthority`.
    RemoveAuthority(RemoveAuthorityArgs),
}

/// An instruction as a mathematical value.
#[verifier::ext_equal]
#[allow(inconsistent_fields)]
pub enum InstructionView {
    Initialize { data_type: DataType },
    Close,
    SetValue { data_type: DataType, start: Option<usize>, end: Option<usize>, value: Seq<char> },
    InjectValue { data_type: DataType, start: usize, end: usize, value: Seq<char> },
    AddAuthority { new_authority: Address },
    RemoveAuthority { authority: Address },
}

impl View for MplJsonInstruction {
    type V = InstructionView;

    open spec fn view(&self) -> InstructionView {
        match *self {
            MplJsonInstruction::Initialize(args) => InstructionView::Initialize {
                data_type: args.data_type,
            },
            MplJsonInstruction::Close => InstructionView::Close,
            MplJsonInstruction::SetValue(args) => InstructionView::SetValue {
                data_type: args.data_type,
                start: args.start,
                end: args.end,
                value: args.value@,
            },
            MplJsonInstruction::InjectValue(args) => InstructionView::InjectValue {
                data_type: args.data_type,
                start: args.start,
                end: args.end,
                value: args.value@,
            },
            MplJsonInstruction::AddAuthority(args) => InstructionView::AddAuthority {
                new_authority: args.new_authority,
            },
            MplJsonInstruction::RemoveAuthority(args) => InstructionView::RemoveAuthority {
                authority: args.authority,
            },
        }
    }
}

pub open spec fn parse_data_type(b: Seq<u8>) -> Option<(DataType, Seq<u8>)> {
    match parse_u8(b) {
        Some((tag, rest)) => match DataType::from_tag(tag) {
            Some(t) => Some((t, rest)),
            None => None,
        },
        None => None,
    }
}

pub open spec fn parse_option_usize(b: Seq<u8>) -> Option<(Option<usize>, Seq<u8>)> {
    if b.len() >= 1 && b[0] == 0 {
        Some((None, b.skip(1)))
    } else if b.len() >= 1 && b[0] == 1 {
        match parse_usize(b.skip(1)) {
            Some((x, rest)) => Some((Some(x), rest)),
            None => None,
        }
    } else {
        None
    }
}

pub open spec fn ser_option_usize(v: Option<usize>) -> Seq<u8> {
    match v {
        None => seq![0u8],
        Some(x) => seq![1u8] + ser_usize(x),
    }
}

pub proof fn lemma_parse_option_usize(v: Option<usize>, rest: Seq<u8>)
    ensures
        parse_option_usize(ser_option_usize(v) + rest) == Some((v, rest)),
{
    let b = ser_option_usize(v) + rest;
    match v {
        None => {
            assert(b.skip(1) =~= rest);
        },
        Some(x) => {
            assert(b.skip(1) =~= ser_usize(x) + rest);
            lemma_parse_usize(x, rest);
        },
    }
}

impl InstructionView {
    /// The byte that says which instruction this is.
    pub open spec fn discriminant(self) -> u8 {
        match self {
            InstructionView::Initialize { .. } => 0,
            InstructionView::Close => 1,
            InstructionView::SetValue { .. } => 2,
            InstructionView::InjectValue { .. } => 3,
            InstructionView::AddAuthority { .. } => 4,
            InstructionView::RemoveAuthority { .. } => 5,
        }
    }

    /// The arguments in their serial form.
    pub open spec fn ser_arguments(self) -> Seq<u8> {
        match self {
            InstructionView::Initialize { data_type } => ser_u8(data_type.tag()),
            InstructionView::Close => Seq::empty(),
            InstructionView::SetValue { data_type, start, end, value } => ser_u8(data_type.tag())
                + ser_option_usize(start) + ser_option_usize(end) + ser_string(value),
            InstructionView::InjectValue { data_type, start, end, value } => ser_u8(
                data_type.tag(),
            ) + ser_usize(start) + ser_usize(end) + ser_string(value),
            InstructionView::AddAuthority { new_authority } => ser_address(new_authority),
            InstructionView::RemoveAuthority { authority } => ser_address(authority),
        }
    }

    /// Whether the instruction has a serial form: the length of its value
    /// fits 32 bits.
    pub open spec fn encodable(self) -> bool {
        match self {
            InstructionView::SetValue { data_type, start, end, value } => encode_utf8(
                value,
            ).len() <= u32::MAX,
            InstructionView::InjectValue { data_type, start, end, value } => encode_utf8(
                value,
            ).len() <= u32::MAX,
            _ => true,
        }
    }
}

/// An instruction on the wire: its discriminant, then its arguments.
pub open spec fn ser_instruction(v: InstructionView) -> Seq<u8> {
    ser_u8(v.discriminant()) + v.ser_arguments()
}

/// The instruction at the front of `b`, and what follows it.
pub open spec fn parse_instruction_prefix(b: Seq<u8>) -> Option<(InstructionView, Seq<u8>)> {
    match parse_u8(b) {
        None => None,
        Some((which, b1)) => if which == 0 {
            match parse_data_type(b1) {
                Some((data_type, b2)) => Some((InstructionView::Initialize { data_type }, b2)),
                None => None,
            }
        } else if which == 1 {
            Some((InstructionView::Close, b1))
        } else if which == 2 {
            match parse_data_type(b1) {
                Some((data_type, b2)) => match parse_option_usize(b2) {
                    Some((start, b3)) => match parse_option_usize(b3) {
                        Some((end, b4)) => match parse_string(b4) {
                            Some((value, b5)) => Some(
                                (InstructionView::SetValue { data_type, start, end, value }, b5),
                            ),
                            None => None,
                        },
                        None => None,
                    },
                    None => None,
                },
                None => None,
            }
        } else if which == 3 {
            match parse_data_type(b1) {
                Some((data_type, b2)) => match parse_usize(b2) {
                    Some((start, b3)) => match parse_usize(b3) {
                        Some((end, b4)) => match parse_string(b4) {
                            Some((value, b5)) => Some(
                                (InstructionView::InjectValue { data_type, start, end, value }, b5),
                            ),
                            None => None,
                        },
                        None => None,
                    },
                    None => None,
                },
                None => None,
            }
        } else if which == 4 {
            match parse_address(b1) {
                Some((new_authority, b2)) => Some(
                    (InstructionView::AddAuthority { new_authority }, b2),
                ),
                None => None,
            }
        } else if which == 5 {
            match parse_address(b1) {
                Some((authority, b2)) => Some((InstructionView::RemoveAuthority { authority }, b2)),
                None => None,
            }
        } else {
            None
        },
    }
}

/// The instruction that `b` holds, where `b` holds one and nothing more.
pub open spec fn parse_instruction(b: Seq<u8>) -> Option<InstructionView> {
    match parse_instruction_prefix(b) {
        Some((v, rest)) => if rest.len() == 0 {
            Some(v)
        } else {
            None
        },
        None => None,
    }
}

fn read_data_type(data: &[u8], pos: usize) -> (r: Option<(DataType, usize)>)
    requires
        pos <= data@.len(),
    ensures
        match r {
            Some((v, next)) => next <= data@.len() && parse_data_type(data@.skip(pos as int))
                == Some((v, data@.skip(next as int))),
            None => parse_data_type(data@.skip(pos as int)) is None,
        },
{
    match read_u8(data, pos) {
        Some((tag, next)) => match DataType::from_tag(tag) {
            Some(t) => Some((t, next)),
            None => None,
        },
        None => None,
    }
}

fn read_option_usize(data: &[u8], pos: usize) -> (r: Option<(Option<usize>, usize)>)
    requires
        pos <= data@.len(),
    ensures
        match r {
            Some((v, next)) => next <= data@.len() && parse_option_usize(data@.skip(pos as int))
                == Some((v, data@.skip(next as int))),
            None => parse_option_usize(data@.skip(pos as int)) is None,
        },
{
    match read_u8(data, pos) {
        Some((0, next)) => Some((None, next)),
        Some((1, next)) => match read_usize(data, next) {
            Some((x, after)) => Some((Some(x), after)),
            None => None,
        },
        _ => None,
    }
}

fn read_instruction(data: &[u8]) -> (r: Option<(MplJsonInstruction, usize)>)
    ensures
        match r {
            Some((v, next)) => next <= data@.len() && parse_instruction_prefix(data@) == Some(
                (v@, data@.skip(next as int)),
            ),
            None => parse_instruction_prefix(data@) is None,
        },
{
    assert(data@.skip(0) =~= data@);
    let (which, pos1) = match read_u8(data, 0) {
        Some(x) => x,
        None => {
            return None;
        },
    };
    match which {
        0 => match read_data_type(data, pos1) {
            Some((data_type, pos2)) => Some(
                (MplJsonInstruction::Initialize(InitializeArgs { data_type }), pos2),
            ),
            None => None,
        },
        1 => Some((MplJsonInstruction::Close, pos1)),
        2 => {
            let (data_type, pos2) = match read_data_type(data, pos1) {
                Some(x) => x,
                None => {
                    return None;
                },
            };
            let (start, pos3) = match read_option_usize(data, pos2) {
                Some(x) => x,
                None => {
                    return None;
                },
            };
            let (end, pos4) = match read_option_usize(data, pos3) {
                Some(x) => x,
                None => {
                    return None;
                },
            };
            let (value, pos5) = match read_string(data, pos4) {
                Some(x) => x,
                None => {
                    return None;
                },
            };
            Some((MplJsonInstruction::SetValue(SetValueArgs { data_type, start, end, value }), pos5))
        },
        3 => {
            let (data_type, pos2) = match read_data_type(data, pos1) {
                Some(x) => x,
                None => {
                    return None;
                },
            };
            let (start, pos3) = match read_usize(data, pos2) {
                Some(x) => x,
                None => {
                    return None;
                },
            };
            let (end, pos4) = match read_usize(data, pos3) {
                Some(x) => x,
                None => {
                    return None;
                },
            };
            let (value, pos5) = match read_string(data, pos4) {
                Some(x) => x,
                None => {
                    return None;
                },
            };
            Some(
                (
                    MplJsonInstruction::InjectValue(
                        InjectValueArgs { data_type, start, end, value },
                    ),
                    pos5,
                ),
            )
        },
        4 => match read_address(data, pos1) {
            Some((new_authority, pos2)) => Some(
                (MplJsonInstruction::AddAuthority(AddAuthorityArgs { new_authority }), pos2),
            ),
            None => None,
        },
        5 => match read_address(data, pos1) {
            Some((authority, pos2)) => Some(
                (MplJsonInstruction::RemoveAuthority(RemoveAuthorityArgs { authority }), pos2),
            ),
            None => None,
        },
        _ => None,
    }
}

proof fn lemma_parse_set_value(
    data_type: DataType,
    start: Option<usize>,
    end: Option<usize>,
    value: Seq<char>,
    rest: Seq<u8>,
)
    requires
        encode_utf8(value).len() <= u32::MAX,
    ensures
        parse_instruction_prefix(
            ser_instruction(InstructionView::SetValue { data_type, start, end, value }) + rest,
        ) == Some((InstructionView::SetValue { data_type, start, end, value }, rest)),
{
    let v = InstructionView::SetValue { data_type, start, end, value };
    let f1 = ser_u8(data_type.tag());
    let f2 = ser_option_usize(start);
    let f3 = ser_option_usize(end);
    let f4 = ser_string(value);
    let b4 = f4 + rest;
    let b3 = f3 + b4;
    let b2 = f2 + b3;
    let b1 = f1 + b2;
    lemma_regroup(f1 + f2 + f3, f4, rest);
    lemma_regroup(f1 + f2, f3, b4);
    lemma_regroup(f1, f2, b3);
    assert(v.ser_arguments() + rest == b1);
    lemma_regroup(ser_u8(v.discriminant()), v.ser_arguments(), rest);
    lemma_parse_u8(v.discriminant(), b1);
    lemma_parse_u8(data_type.tag(), b2);
    lemma_parse_option_usize(start, b3);
    lemma_parse_option_usize(end, b4);
    lemma_parse_string(value, rest);
}

proof fn lemma_parse_inject_value(
    data_type: DataType,
    start: usize,
    end: usize,
    value: Seq<char>,
    rest: Seq<u8>,
)
    requires
        encode_utf8(value).len() <= u32::MAX,
    ensures
        parse_instruction_prefix(
            ser_instruction(InstructionView::InjectValue { data_type, start, end, value }) + rest,
        ) == Some((InstructionView::InjectValue { data_type, start, end, value }, rest)),
{
    let v = InstructionView::InjectValue { data_type, start, end, value };
    let f1 = ser_u8(data_type.tag());
    let f2 = ser_usize(start);
    let f3 = ser_usize(end);
    let f4 = ser_string(value);
    let b4 = f4 + rest;
    let b3 = f3 + b4;
    let b2 = f2 + b3;
    let b1 = f1 + b2;
    lemma_regroup(f1 + f2 + f3, f4, rest);
    lemma_regroup(f1 + f2, f3, b4);
    lemma_regroup(f1, f2, b3);
    assert(v.ser_arguments() + rest == b1);
    lemma_regroup(ser_u8(v.discriminant()), v.ser_arguments(), rest);
    lemma_parse_u8(v.discriminant(), b1);
    lemma_parse_u8(data_type.tag(), b2);
    lemma_parse_usize(start, b3);
    lemma_parse_usize(end, b4);
    lemma_parse_string(value, rest);
}

/// A parser reads back the instruction that the serialiser wrote, whatever
/// follows it.
pub proof fn lemma_parse_instruction_prefix(v: InstructionView, rest: Seq<u8>)
    requires
        v.encodable(),
    ensures
        parse_instruction_prefix(ser_instruction(v) + rest) == Some((v, rest)),
{
    let b1 = v.ser_arguments() + rest;
    lemma_regroup(ser_u8(v.discriminant()), v.ser_arguments(), rest);
    match v {
        InstructionView::Initialize { data_type } => {
            lemma_parse_u8(v.discriminant(), b1);
            lemma_parse_u8(data_type.tag(), rest);
        },
        InstructionView::Close => {
            lemma_parse_u8(v.discriminant(), b1);
            assert(b1 =~= rest);
        },
        InstructionView::SetValue { data_type, start, end, value } => {
            lemma_parse_set_value(data_type, start, end, value, rest);
        },
        InstructionView::InjectValue { data_type, start, end, value } => {
            lemma_parse_inject_value(data_type, start, end, value, rest);
        },
        InstructionView::AddAuthority { new_authority } => {
            lemma_parse_u8(v.discriminant(), b1);
            lemma_parse_address(new_authority, rest);
        },
        InstructionView::RemoveAuthority { authority } => {
            lemma_parse_u8(v.discriminant(), b1);
            lemma_parse_address(authority, rest);
        },
    }
}

/// Round trip: every instruction that has a serial form is read back from it.
pub proof fn lemma_instruction_round_trip(v: InstructionView)
    requires
        v.encodable(),
    ensures
        parse_instruction(ser_instruction(v)) == Some(v),
{
    lemma_parse_instruction_prefix(v, Seq::empty());
    assert(ser_instruction(v) + Seq::<u8>::empty() =~= ser_instruction(v));
}

fn put_option_usize(out: &mut Vec<u8>, v: Option<usize>)
    ensures
        final(out)@ == old(out)@ + ser_option_usize(v),
{
    match v {
        None => {
            out.push(0u8);
        },
        Some(x) => {
            out.push(1u8);
            put_usize(out, x);
        },
    }
    assert(out@ =~= old(out)@ + ser_option_usize(v));
}

impl MplJsonInstruction {
    /// The instruction on the wire. Fails where the instruction has no serial
    /// form.
    pub fn encode(&self) -> (r: Result<Vec<u8>, ProgramError>)
        ensures
            match r {
                Ok(bytes) => self@.encodable() && bytes@ == ser_instruction(self@)
                    && parse_instruction(bytes@) == Some(self@),
                Err(e) => !self@.encodable() && e == ProgramError::BorshIoError,
            },
    {
        let mut out: Vec<u8> = Vec::new();
        let ok = match self {
            MplJsonInstruction::Initialize(args) => {
                put_u8(&mut out, 0);
                put_u8(&mut out, args.data_type.tag());
                true
            },
            MplJsonInstruction::Close => {
                put_u8(&mut out, 1);
                true
            },
            MplJsonInstruction::SetValue(args) => {
                put_u8(&mut out, 2);
                put_u8(&mut out, args.data_type.tag());
                put_option_usize(&mut out, args.start);
                put_option_usize(&mut out, args.end);
                put_string(&mut out, args.value.as_str())
            },
            MplJsonInstruction::InjectValue(args) => {
                put_u8(&mut out, 3);
                put_u8(&mut out, args.data_type.tag());
                put_usize(&mut out, args.start);
                put_usize(&mut out, args.end);
                put_string(&mut out, args.value.as_str())
            },
            MplJsonInstruction::AddAuthority(args) => {
                put_u8(&mut out, 4);
                put_address(&mut out, &args.new_authority);
                true
            },
            MplJsonInstruction::RemoveAuthority(args) => {
                put_u8(&mut out, 5);
                put_address(&mut out, &args.authority);
                true
            },
        };
        if !ok {
            return Err(ProgramError::BorshIoError);
        }
        proof {
            assert(out@ =~= ser_instruction(self@));
            lemma_instruction_round_trip(self@);
        }
        Ok(out)
    }

    /// Reads the instruction that `data` holds. Fails where `data` does not
    /// hold exactly one instruction.
    pub fn decode(data: &[u8]) -> (r: Result<MplJsonInstruction, ProgramError>)
        ensures
            match r {
                Ok(v) => parse_instruction(data@) == Some(v@),
                Err(e) => e == ProgramError::BorshIoError && parse_instruction(data@) is None,
            },
    {
        match read_instruction(data) {
            Some((v, next)) => if next == data.len() {
                Ok(v)
            } else {
                Err(ProgramError::BorshIoError)
            },
            None => Err(ProgramError::BorshIoError),
        }
    }
}

} // verus!
