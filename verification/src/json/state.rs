//! The metadata record of the JSON inscription program.
use vstd::prelude::*;
use crate::address::Address;
use crate::codec::{
    lemma_parse_addresses, lemma_parse_option_u64, lemma_parse_u8, parse_addresses,
    parse_option_u64, parse_u8, put_addresses, put_option_u64, put_u8, read_addresses,
    read_option_u64, read_u8, ser_addresses, ser_option_u64, ser_u8,
};
use crate::error::{MplInscriptionError, ProgramError, custom};

verus! {

/// First seed of the address of a metadata account.
pub const PREFIX: &'static str = "INSCRIPTION";

/// Size that every inscription is funded for.
pub const INITIAL_SIZE: usize = 1024;

/// What kind of record an account holds.
#[derive(Clone, Copy, Debug, PartialEq, Eq, Structural)]
pub enum Key {
    Uninitialized,
    InscriptionMetadataAccount,
}

impl Key {
    pub open spec fn spec_tag(self) -> u8 {
        match self {
            Key::Uninitialized => 0,
            Key::InscriptionMetadataAccount => 1,
        }
    }

    /// The byte that stands for this kind.
    #[verifier::when_used_as_spec(spec_tag)]
    pub fn tag(self) -> (r: u8)
        ensures
            r == self.spec_tag(),
    {
        match self {
            Key::Uninitialized => 0,
            Key::InscriptionMetadataAccount => 1,
        }
    }

    pub open spec fn spec_from_tag(tag: u8) -> Option<Key> {
        if tag == 0 {
            Some(Key::Uninitialized)
        } else if tag == 1 {
            Some(Key::InscriptionMetadataAccount)
        } else {
            None
        }
    }

    /// The kind that `tag` stands for.
    #[verifier::when_used_as_spec(spec_from_tag)]
    pub fn from_tag(tag: u8) -> (r: Option<Key>)
        ensures
            r == Key::spec_from_tag(tag),
    {
        match tag {
            0 => Some(Key::Uninitialized),
            1 => Some(Key::InscriptionMetadataAccount),
            _ => None,
        }
    }
}

/// What an inscription's payload is.
#[derive(Clone, Copy, Debug, PartialEq, Eq, Structural)]
pub enum DataType {
    Json,
    Binary,
}

impl DataType {
    pub open spec fn spec_tag(self) -> u8 {
        match self {
            DataType::Json => 0,
            DataType::Binary => 1,
        }
    }

    /// The byte that stands for this type.
    #[verifier::when_used_as_spec(spec_tag)]
    pub fn tag(self) -> (r: u8)
        ensures
            r == self.spec_tag(),
    {
        match self {
            DataType::Json => 0,
            DataType::Binary => 1,
        }
    }

    pub open spec fn spec_from_tag(tag: u8) -> Option<DataType> {
        if tag == 0 {
            Some(DataType::Json)
        } else if tag == 1 {
            Some(DataType::Binary)
        } else {
            None
        }
    }

    /// The type that `tag` stands for.
    #[verifier::when_used_as_spec(spec_from_tag)]
    pub fn from_tag(tag: u8) -> (r: Option<DataType>)
        ensures
            r == DataType::spec_from_tag(tag),
    {
        match tag {
            0 => Some(DataType::Json),
            1 => Some(DataType::Binary),
            _ => None,
        }
    }
}

/// The record that accompanies every inscription.
#[derive(Clone, Debug)]
pub struct InscriptionMetadata {
    /// Account type for bookkeeping.
    pub key: Key,
    /// The bump of the metadata account's address.
    pub bump: u8,
    /// The type of data in the inscription.
    pub data_type: DataType,
    /// If this is a numbered inscription, then the number.
    pub inscription_number: Option<u64>,
    /// The signers who can update the account data.
    pub update_authorities: Vec<Address>,
}

/// A metadata record as a mathematical value.
#[verifier::ext_equal]
pub struct MetadataView {
    pub key: Key,
    pub bump: u8,
    pub data_type: DataType,
    pub inscription_number: Option<u64>,
    pub update_authorities: Seq<Address>,
}

impl View for InscriptionMetadata {
    type V = MetadataView;

    open spec fn view(&self) -> MetadataView {
        MetadataView {
            key: self.key,
            bump: self.bump,
            data_type: self.data_type,
            inscription_number: self.inscription_number,
            update_authorities: self.update_authorities@,
        }
    }
}

impl MetadataView {
    /// Whether the record has a serial form: the number of its authorities
    /// fits 32 bits.
    pub open spec fn encodable(self) -> bool {
        self.update_authorities.len() <= u32::MAX
    }
}

pub open spec fn ser_metadata(v: MetadataView) -> Seq<u8> {
    ser_u8(v.key.tag()) + ser_u8(v.bump) + ser_u8(v.data_type.tag()) + ser_option_u64(
        v.inscription_number,
    ) + ser_addresses(v.update_authorities)
}

/// The metadata record at the front of `b`, and what follows it.
pub open spec fn parse_metadata_prefix(b: Seq<u8>) -> Option<(MetadataView, Seq<u8>)> {
    match parse_u8(b) {
        None => None,
        Some((key, b1)) => match parse_u8(b1) {
            None => None,
            Some((bump, b2)) => match parse_u8(b2) {
                None => None,
                Some((data_type, b3)) => match parse_option_u64(b3) {
                    None => None,
                    Some((inscription_number, b4)) => match parse_addresses(b4) {
                        None => None,
                        Some((update_authorities, b5)) => if Key::from_tag(key) is Some
                            && DataType::from_tag(data_type) is Some {
                            Some(
                                (
                                    MetadataView {
                                        key: Key::from_tag(key)->0,
                                        bump,
                                        data_type: DataType::from_tag(data_type)->0,
                                        inscription_number,
                                        update_authorities,
                                    },
                                    b5,
                                ),
                            )
                        } else {
                            None
                        },
                    },
                },
            },
        },
    }
}

/// The metadata record that `b` holds, where `b` holds one and nothing more.
pub open spec fn parse_metadata(b: Seq<u8>) -> Option<MetadataView> {
    match parse_metadata_prefix(b) {
        Some((v, rest)) => if rest.len() == 0 {
            Some(v)
        } else {
            None
        },
        None => None,
    }
}

/// Why `b` cannot be read as a metadata record, if it cannot: it does not hold
/// the layout of one and nothing more, or what it holds is a record of
/// another kind.
pub open spec fn metadata_failure(b: Seq<u8>) -> Option<ProgramError> {
    match parse_metadata(b) {
        None => Some(ProgramError::BorshIoError),
        Some(metadata) => if metadata.key == Key::InscriptionMetadataAccount {
            None
        } else {
            Some(custom(MplInscriptionError::InvalidInscriptionMetadataAccount))
        },
    }
}

/// A parser reads back the metadata record that the serialiser wrote, whatever
/// follows it.
pub proof fn lemma_parse_metadata_prefix(v: MetadataView, rest: Seq<u8>)
    requires
        v.encodable(),
    ensures
        parse_metadata_prefix(ser_metadata(v) + rest) == Some((v, rest)),
{
    let b4 = ser_addresses(v.update_authorities) + rest;
    let b3 = ser_option_u64(v.inscription_number) + b4;
    let b2 = ser_u8(v.data_type.tag()) + b3;
    let b1 = ser_u8(v.bump) + b2;
    assert(ser_metadata(v) + rest =~= ser_u8(v.key.tag()) + b1);
    lemma_parse_u8(v.key.tag(), b1);
    lemma_parse_u8(v.bump, b2);
    lemma_parse_u8(v.data_type.tag(), b3);
    lemma_parse_option_u64(v.inscription_number, b4);
    lemma_parse_addresses(v.update_authorities, rest);
}

/// Round trip: every metadata record that has a serial form is read back from
/// it, and the reader accepts it where it is of the metadata kind.
pub proof fn lemma_metadata_round_trip(v: MetadataView)
    requires
        v.encodable(),
    ensures
        parse_metadata(ser_metadata(v)) == Some(v),
        v.key == Key::InscriptionMetadataAccount ==> metadata_failure(ser_metadata(v)) is None,
{
    lemma_parse_metadata_prefix(v, Seq::empty());
    assert(ser_metadata(v) + Seq::<u8>::empty() =~= ser_metadata(v));
}

impl InscriptionMetadata {
    /// The serial form of the record. Fails where the record has none.
    pub fn encode(&self) -> (r: Result<Vec<u8>, ProgramError>)
        ensures
            match r {
                Ok(bytes) => self@.encodable() && bytes@ == ser_metadata(self@) && parse_metadata(
                    bytes@,
                ) == Some(self@) && (self@.key == Key::InscriptionMetadataAccount
                    ==> metadata_failure(bytes@) is None),
                Err(e) => !self@.encodable() && e == ProgramError::BorshIoError,
            },
    {
        let mut out: Vec<u8> = Vec::new();
        put_u8(&mut out, self.key.tag());
        put_u8(&mut out, self.bump);
        put_u8(&mut out, self.data_type.tag());
        put_option_u64(&mut out, self.inscription_number);
        if !put_addresses(&mut out, &self.update_authorities) {
            return Err(ProgramError::BorshIoError);
        }
        proof {
            assert(out@ =~= ser_metadata(self@));
            lemma_metadata_round_trip(self@);
        }
        Ok(out)
    }

    /// Reads the metadata record that `data` holds. Fails with
    /// `BorshIoError` where `data` does not hold the layout of exactly one
    /// record, and with `InvalidInscriptionMetadataAccount` where the record
    /// is of another kind.
    pub fn decode(data: &[u8]) -> (r: Result<InscriptionMetadata, ProgramError>)
        ensures
            match r {
                Ok(v) => metadata_failure(data@) is None && parse_metadata(data@) == Some(v@)
                    && v@.key == Key::InscriptionMetadataAccount,
                Err(e) => metadata_failure(data@) == Some(e),
            },
    {
        assert(data@.skip(0) =~= data@);
        let (key_tag, pos1) = match read_u8(data, 0) {
            Some(x) => x,
            None => {
                return Err(ProgramError::BorshIoError);
            },
        };
        let key = match Key::from_tag(key_tag) {
            Some(k) => k,
            None => {
                return Err(ProgramError::BorshIoError);
            },
        };
        let (bump, pos2) = match read_u8(data, pos1) {
            Some(x) => x,
            None => {
                return Err(ProgramError::BorshIoError);
            },
        };
        let (type_tag, pos3) = match read_u8(data, pos2) {
            Some(x) => x,
            None => {
                return Err(ProgramError::BorshIoError);
            },
        };
        let data_type = match DataType::from_tag(type_tag) {
            Some(t) => t,
            None => {
                return Err(ProgramError::BorshIoError);
            },
        };
        let (inscription_number, pos4) = match read_option_u64(data, pos3) {
            Some(x) => x,
            None => {
                return Err(ProgramError::BorshIoError);
            },
        };
        let (update_authorities, pos5) = match read_addresses(data, pos4) {
            Some(x) => x,
            None => {
                return Err(ProgramError::BorshIoError);
            },
        };
        if pos5 != data.len() {
            return Err(ProgramError::BorshIoError);
        }
        if key != Key::InscriptionMetadataAccount {
            return Err(
                ProgramError::from(MplInscriptionError::InvalidInscriptionMetadataAccount),
            );
        }
        Ok(InscriptionMetadata { key, bump, data_type, inscription_number, update_authorities })
    }
}

} // verus!
