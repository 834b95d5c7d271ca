//! The records that the program keeps in accounts, and their binary layout.
//!
//! A record is stored as its fields in order, each in the layout of
//! [`crate::codec`]. Reading a record back asks that its bytes hold the record
//! and nothing after it.
use vstd::prelude::*;
use vstd::utf8::encode_utf8;
use crate::address::{Address, array_of, lemma_array_of, spec_system_program_id, system_program_id};
use crate::codec::{
    lemma_regroup, lemma_parse_address, lemma_parse_addresses, lemma_parse_option_address, lemma_parse_option_u8,
    lemma_parse_string, lemma_parse_u32, lemma_parse_u64, lemma_parse_u8, parse_address,
    parse_addresses, parse_option_address, parse_option_u8, parse_string, parse_u32, parse_u64,
    parse_u8, put_address, put_addresses, put_option_address, put_option_u8, put_string, put_u32,
    put_u64, put_u8, read_address, read_addresses, read_option_address, read_option_u8,
    read_string, read_u32, read_u64, read_u8, ser_address, ser_addresses, ser_option_address,
    ser_option_u8, ser_string, ser_u32, ser_u64, ser_u8,
};
use crate::error::{MplInscriptionError, ProgramError, custom};

verus! {

/// First seed of every address that this program derives.
pub const PREFIX: &'static str = "Inscription";

/// Second seed of the address of an associated inscription.
pub const ASSOCIATION: &'static str = "Association";

/// Number of shards that the rank counter is spread over.
pub const SHARD_COUNT: u8 = 32;

/// Second seed of the address of a shard.
pub const SHARD_PREFIX: &'static str = "Shard";

/// Size that early inscriptions were funded for.
pub const INITIAL_SIZE: usize = 1024;

/// The padding of a record that nothing has been written to.
pub const EMPTY_PADDING: [u8; 7] = [0, 0, 0, 0, 0, 0, 0];

/// What kind of record an account holds. It is the first byte of every record,
/// so that one kind is never taken for another.
#[derive(Clone, Copy, Debug, PartialEq, Eq, Structural)]
pub enum Key {
    Uninitialized,
    InscriptionMetadataAccount,
    MintInscriptionMetadataAccount,
    InscriptionShardAccount,
}

impl Key {
    pub open spec fn spec_tag(self) -> u8 {
        match self {
            Key::Uninitialized => 0,
            Key::InscriptionMetadataAccount => 1,
            Key::MintInscriptionMetadataAccount => 2,
            Key::InscriptionShardAccount => 3,
        }
    }

    /// The byte that stands for this kind.
    #[verifier::when_used_as_spec(spec_tag)]
    pub fn tag(self) -> (r: u8)
        ensures
            r == self.spec_tag(),
    {
        match self {
            Key::Uninitialized => 0,
            Key::InscriptionMetadataAccount => 1,
            Key::MintInscriptionMetadataAccount => 2,
            Key::InscriptionShardAccount => 3,
        }
    }

    pub open spec fn spec_from_tag(tag: u8) -> Option<Key> {
        if tag == 0 {
            Some(Key::Uninitialized)
        } else if tag == 1 {
            Some(Key::InscriptionMetadataAccount)
        } else if tag == 2 {
            Some(Key::MintInscriptionMetadataAccount)
        } else if tag == 3 {
            Some(Key::InscriptionShardAccount)
        } else {
            None
        }
    }

    /// The kind that `tag` stands for.
    #[verifier::when_used_as_spec(spec_from_tag)]
    pub fn from_tag(tag: u8) -> (r: Option<Key>)
        ensures
            r == Key::spec_from_tag(tag),
    {
        match tag {
            0 => Some(Key::Uninitialized),
            1 => Some(Key::InscriptionMetadataAccount),
            2 => Some(Key::MintInscriptionMetadataAccount),
            3 => Some(Key::InscriptionShardAccount),
            _ => None,
        }
    }

    pub open spec fn spec_is_metadata(self) -> bool {
        self == Key::InscriptionMetadataAccount || self == Key::MintInscriptionMetadataAccount
    }

    /// Whether this is the kind of a metadata record, of an inscription or of
    /// a mint's inscription.
    #[verifier::when_used_as_spec(spec_is_metadata)]
    pub fn is_metadata(self) -> (r: bool)
        ensures
            r == self.spec_is_metadata(),
    {
        match self {
            Key::InscriptionMetadataAccount => true,
            Key::MintInscriptionMetadataAccount => true,
            _ => false,
        }
    }
}

/// How far an inscription has been looked at.
#[derive(Clone, Copy, Debug, PartialEq, Eq, Structural)]
pub enum InscriptionState {
    Raw,
    Validated,
    Curated,
}

impl InscriptionState {
    pub open spec fn spec_tag(self) -> u8 {
        match self {
            InscriptionState::Raw => 0,
            InscriptionState::Validated => 1,
            InscriptionState::Curated => 2,
        }
    }

    /// The byte that stands for this state.
    #[verifier::when_used_as_spec(spec_tag)]
    pub fn tag(self) -> (r: u8)
        ensures
            r == self.spec_tag(),
    {
        match self {
            InscriptionState::Raw => 0,
            InscriptionState::Validated => 1,
            InscriptionState::Curated => 2,
        }
    }

    /// The state that `tag` stands for.
    pub fn from_tag(tag: u8) -> (r: Option<InscriptionState>)
        ensures
            match r {
                Some(s) => s.tag() == tag,
                None => tag > 2,
            },
    {
        match tag {
            0 => Some(InscriptionState::Raw),
            1 => Some(InscriptionState::Validated),
            2 => Some(InscriptionState::Curated),
            _ => None,
        }
    }
}

/// What an inscription's payload is meant to be. Nothing checks the payload
/// against it.
#[derive(Clone, Copy, Debug, PartialEq, Eq, Structural)]
pub enum DataType {
    Uninitialized,
    Binary,
    Json,
}

impl DataType {
    pub open spec fn spec_tag(self) -> u8 {
        match self {
            DataType::Uninitialized => 0,
            DataType::Binary => 1,
            DataType::Json => 2,
        }
    }

    /// The byte that stands for this type.
    #[verifier::when_used_as_spec(spec_tag)]
    pub fn tag(self) -> (r: u8)
        ensures
            r == self.spec_tag(),
    {
        match self {
            DataType::Uninitialized => 0,
            DataType::Binary => 1,
            DataType::Json => 2,
        }
    }

    pub open spec fn spec_from_tag(tag: u8) -> Option<DataType> {
        if tag == 0 {
            Some(DataType::Uninitialized)
        } else if tag == 1 {
            Some(DataType::Binary)
        } else if tag == 2 {
            Some(DataType::Json)
        } else {
            None
        }
    }

    /// The type that `tag` stands for.
    #[verifier::when_used_as_spec(spec_from_tag)]
    pub fn from_tag(tag: u8) -> (r: Option<DataType>)
        ensures
            r == DataType::spec_from_tag(tag),
    {
        match tag {
            0 => Some(DataType::Uninitialized),
            1 => Some(DataType::Binary),
            2 => Some(DataType::Json),
            _ => None,
        }
    }
}

pub open spec fn ser_key(v: Key) -> Seq<u8> {
    ser_u8(v.tag())
}

pub open spec fn parse_key(b: Seq<u8>) -> Option<(Key, Seq<u8>)> {
    match parse_u8(b) {
        Some((tag, rest)) => match Key::from_tag(tag) {
            Some(k) => Some((k, rest)),
            None => None,
        },
        None => None,
    }
}

pub open spec fn ser_data_type(v: DataType) -> Seq<u8> {
    ser_u8(v.tag())
}

pub open spec fn parse_data_type(b: Seq<u8>) -> Option<(DataType, Seq<u8>)> {
    match parse_u8(b) {
        Some((tag, rest)) => match DataType::from_tag(tag) {
            Some(k) => Some((k, rest)),
            None => None,
        },
        None => None,
    }
}

pub proof fn lemma_parse_key(v: Key, rest: Seq<u8>)
    ensures
        parse_key(ser_key(v) + rest) == Some((v, rest)),
{
    lemma_parse_u8(v.tag(), rest);
}

pub proof fn lemma_parse_data_type(v: DataType, rest: Seq<u8>)
    ensures
        parse_data_type(ser_data_type(v) + rest) == Some((v, rest)),
{
    lemma_parse_u8(v.tag(), rest);
}

pub(crate) fn read_key(data: &[u8], pos: usize) -> (r: Option<(Key, usize)>)
    requires
        pos <= data@.len(),
    ensures
        match r {
            Some((v, next)) => next <= data@.len() && parse_key(data@.skip(pos as int)) == Some(
                (v, data@.skip(next as int)),
            ),
            None => parse_key(data@.skip(pos as int)) is None,
        },
{
    match read_u8(data, pos) {
        Some((tag, next)) => match Key::from_tag(tag) {
            Some(k) => Some((k, next)),
            None => None,
        },
        None => None,
    }
}

pub(crate) fn read_data_type(data: &[u8], pos: usize) -> (r: Option<(DataType, usize)>)
    requires
        pos <= data@.len(),
    ensures
        match r {
            Some((v, next)) => next <= data@.len() && parse_data_type(data@.skip(pos as int))
                == Some((v, data@.skip(next as int))),
            None => parse_data_type(data@.skip(pos as int)) is None,
        },
{
    match read_u8(data, pos) {
        Some((tag, next)) => match DataType::from_tag(tag) {
            Some(k) => Some((k, next)),
            None => None,
        },
        None => None,
    }
}


/// One of the `SHARD_COUNT` counters that hand out ranks.
#[derive(Clone, Copy, Debug, PartialEq, Eq, Structural)]
pub struct InscriptionShard {
    pub key: Key,
    /// The bump of the shard account's address.
    pub bump: u8,
    /// Which shard this is, fixed when it is created.
    pub shard_number: u8,
    /// How many ranks the shard has handed out.
    pub count: u64,
}

impl Default for InscriptionShard {
    fn default() -> (r: InscriptionShard)
        ensures
            r == (InscriptionShard {
                key: Key::InscriptionShardAccount,
                bump: 0,
                shard_number: 0,
                count: 0,
            }),
    {
        InscriptionShard { key: Key::InscriptionShardAccount, bump: 0, shard_number: 0, count: 0 }
    }
}

pub open spec fn ser_shard(v: InscriptionShard) -> Seq<u8> {
    ser_key(v.key) + ser_u8(v.bump) + ser_u8(v.shard_number) + ser_u64(v.count)
}

/// The shard record at the front of `b`, and what follows it.
pub open spec fn parse_shard_prefix(b: Seq<u8>) -> Option<(InscriptionShard, Seq<u8>)> {
    match parse_key(b) {
        Some((key, b1)) => match parse_u8(b1) {
            Some((bump, b2)) => match parse_u8(b2) {
                Some((shard_number, b3)) => match parse_u64(b3) {
                    Some((count, b4)) => Some(
                        (InscriptionShard { key, bump, shard_number, count }, b4),
                    ),
                    None => None,
                },
                None => None,
            },
            None => None,
        },
        None => None,
    }
}

/// The shard record that `b` holds, where `b` holds one and nothing more.
pub open spec fn parse_shard(b: Seq<u8>) -> Option<InscriptionShard> {
    match parse_shard_prefix(b) {
        Some((v, rest)) => if rest.len() == 0 {
            Some(v)
        } else {
            None
        },
        None => None,
    }
}

/// Why `b` cannot be read as a shard record, if it cannot: it does not hold
/// the layout of one and nothing more, or what it holds is a record of
/// another kind.
pub open spec fn shard_failure(b: Seq<u8>) -> Option<ProgramError> {
    match parse_shard(b) {
        None => Some(ProgramError::BorshIoError),
        Some(shard) => if shard.key == Key::InscriptionShardAccount {
            None
        } else {
            Some(custom(MplInscriptionError::InvalidShardAccount))
        },
    }
}

/// A parser reads back the shard record that the serialiser wrote, whatever
/// follows it.
pub proof fn lemma_parse_shard_prefix(v: InscriptionShard, rest: Seq<u8>)
    ensures
        parse_shard_prefix(ser_shard(v) + rest) == Some((v, rest)),
{
    let b3 = ser_u64(v.count) + rest;
    let b2 = ser_u8(v.shard_number) + b3;
    let b1 = ser_u8(v.bump) + b2;
    assert(ser_shard(v) + rest =~= ser_key(v.key) + b1);
    lemma_parse_key(v.key, b1);
    lemma_parse_u8(v.bump, b2);
    lemma_parse_u8(v.shard_number, b3);
    lemma_parse_u64(v.count, rest);
}

/// Round trip: every shard record is read back from its serial form, and
/// the reader accepts it where it is of the shard kind.
pub proof fn lemma_shard_round_trip(v: InscriptionShard)
    ensures
        parse_shard(ser_shard(v)) == Some(v),
        v.key == Key::InscriptionShardAccount ==> shard_failure(ser_shard(v)) is None,
{
    lemma_parse_shard_prefix(v, Seq::empty());
    assert(ser_shard(v) + Seq::<u8>::empty() =~= ser_shard(v));
}

/// A shard record takes 11 bytes.
pub proof fn lemma_shard_len(v: InscriptionShard)
    ensures
        ser_shard(v).len() == 11,
{
    lemma_parse_u64(v.count, Seq::empty());
}

impl InscriptionShard {
    /// The serial form of the record.
    pub fn encode(&self) -> (r: Vec<u8>)
        ensures
            r@ == ser_shard(*self),
            parse_shard(r@) == Some(*self),
            self.key == Key::InscriptionShardAccount ==> shard_failure(r@) is None,
    {
        let mut out: Vec<u8> = Vec::new();
        put_u8(&mut out, self.key.tag());
        put_u8(&mut out, self.bump);
        put_u8(&mut out, self.shard_number);
        put_u64(&mut out, self.count);
        proof {
            assert(out@ =~= ser_shard(*self));
            lemma_shard_round_trip(*self);
        }
        out
    }

    /// Reads the shard record that `data` holds. Fails with `BorshIoError`
    /// where `data` does not hold the layout of exactly one record, and with
    /// `InvalidShardAccount` where the record is of another kind.
    pub fn decode(data: &[u8]) -> (r: Result<InscriptionShard, ProgramError>)
        ensures
            match r {
                Ok(v) => shard_failure(data@) is None && parse_shard(data@) == Some(v) && v.key
                    == Key::InscriptionShardAccount,
                Err(e) => shard_failure(data@) == Some(e),
            },
    {
        assert(data@.skip(0) =~= data@);
        let (key, pos1) = match read_key(data, 0) {
            Some(x) => x,
            None => {
                return Err(ProgramError::BorshIoError);
            },
        };
        let (bump, pos2) = match read_u8(data, pos1) {
            Some(x) => x,
            None => {
                return Err(ProgramError::BorshIoError);
            },
        };
        let (shard_number, pos3) = match read_u8(data, pos2) {
            Some(x) => x,
            None => {
                return Err(ProgramError::BorshIoError);
            },
        };
        let (count, pos4) = match read_u64(data, pos3) {
            Some(x) => x,
            None => {
                return Err(ProgramError::BorshIoError);
            },
        };
        if pos4 != data.len() {
            return Err(ProgramError::BorshIoError);
        }
        if key != Key::InscriptionShardAccount {
            return Err(ProgramError::from(MplInscriptionError::InvalidShardAccount));
        }
        Ok(InscriptionShard { key, bump, shard_number, count })
    }
}


/// A named sub-record of an inscription. It stands for an account of its own,
/// whose address is derived from the tag and the metadata account.
#[derive(Clone, Debug)]
pub struct AssociatedInscription {
    /// The name, at most 32 bytes of UTF-8.
    pub tag: String,
    /// The bump of the associated account's address.
    pub bump: u8,
    pub data_type: DataType,
}

/// An associated inscription as a mathematical value.
#[verifier::ext_equal]
pub struct AssociatedInscriptionView {
    pub tag: Seq<char>,
    pub bump: u8,
    pub data_type: DataType,
}

impl View for AssociatedInscription {
    type V = AssociatedInscriptionView;

    open spec fn view(&self) -> AssociatedInscriptionView {
        AssociatedInscriptionView { tag: self.tag@, bump: self.bump, data_type: self.data_type }
    }
}

/// A list of associated inscriptions as a mathematical value.
pub open spec fn associated_views(v: Seq<AssociatedInscription>) -> Seq<
    AssociatedInscriptionView,
> {
    Seq::new(v.len(), |i: int| v[i]@)
}

impl AssociatedInscriptionView {
    /// Whether the entry has a serial form: the length of its tag fits 32 bits.
    pub open spec fn encodable(self) -> bool {
        encode_utf8(self.tag).len() <= u32::MAX
    }
}

pub open spec fn ser_associated(v: AssociatedInscriptionView) -> Seq<u8> {
    ser_string(v.tag) + ser_u8(v.bump) + ser_data_type(v.data_type)
}

pub open spec fn parse_associated(b: Seq<u8>) -> Option<(AssociatedInscriptionView, Seq<u8>)> {
    match parse_string(b) {
        Some((tag, b1)) => match parse_u8(b1) {
            Some((bump, b2)) => match parse_data_type(b2) {
                Some((data_type, b3)) => Some(
                    (AssociatedInscriptionView { tag, bump, data_type }, b3),
                ),
                None => None,
            },
            None => None,
        },
        None => None,
    }
}

/// The entries of a list, one after the other.
pub open spec fn concat_associated(v: Seq<AssociatedInscriptionView>) -> Seq<u8>
    decreases v.len(),
{
    if v.len() == 0 {
        Seq::empty()
    } else {
        ser_associated(v[0]) + concat_associated(v.skip(1))
    }
}

/// `n` entries from the front of `b`, and what follows them.
pub open spec fn parse_associated_items(b: Seq<u8>, n: nat) -> Option<
    (Seq<AssociatedInscriptionView>, Seq<u8>),
>
    decreases n,
{
    if n == 0 {
        Some((Seq::empty(), b))
    } else {
        match parse_associated(b) {
            Some((first, rest)) => match parse_associated_items(rest, (n - 1) as nat) {
                Some((others, after)) => Some((seq![first] + others, after)),
                None => None,
            },
            None => None,
        }
    }
}

/// A list of entries: their number, then the entries.
pub open spec fn ser_associated_list(v: Seq<AssociatedInscriptionView>) -> Seq<u8> {
    ser_u32(v.len() as u32) + concat_associated(v)
}

pub open spec fn parse_associated_list(b: Seq<u8>) -> Option<
    (Seq<AssociatedInscriptionView>, Seq<u8>),
> {
    match parse_u32(b) {
        Some((n, rest)) => parse_associated_items(rest, n as nat),
        None => None,
    }
}

/// Whether a list of entries has a serial form.
pub open spec fn associated_encodable(v: Seq<AssociatedInscriptionView>) -> bool {
    &&& v.len() <= u32::MAX
    &&& forall|i: int| 0 <= i < v.len() ==> (#[trigger] v[i]).encodable()
}

pub proof fn lemma_parse_associated(v: AssociatedInscriptionView, rest: Seq<u8>)
    requires
        v.encodable(),
    ensures
        parse_associated(ser_associated(v) + rest) == Some((v, rest)),
{
    let b2 = ser_data_type(v.data_type) + rest;
    let b1 = ser_u8(v.bump) + b2;
    assert(ser_associated(v) + rest =~= ser_string(v.tag) + b1);
    lemma_parse_string(v.tag, b1);
    lemma_parse_u8(v.bump, b2);
    lemma_parse_data_type(v.data_type, rest);
}

pub proof fn lemma_parse_associated_items(v: Seq<AssociatedInscriptionView>, rest: Seq<u8>)
    requires
        forall|i: int| 0 <= i < v.len() ==> (#[trigger] v[i]).encodable(),
    ensures
        parse_associated_items(concat_associated(v) + rest, v.len()) == Some((v, rest)),
    decreases v.len(),
{
    if v.len() == 0 {
        assert(concat_associated(v) + rest =~= rest);
        assert(v =~= Seq::empty());
    } else {
        let tail = v.skip(1);
        let b1 = concat_associated(tail) + rest;
        assert(concat_associated(v) + rest =~= ser_associated(v[0]) + b1);
        lemma_parse_associated(v[0], b1);
        assert forall|i: int| 0 <= i < tail.len() implies (#[trigger] tail[i]).encodable() by {
            assert(tail[i] == v[i + 1]);
        }
        lemma_parse_associated_items(tail, rest);
        assert(seq![v[0]] + tail =~= v);
    }
}

pub proof fn lemma_parse_associated_list(v: Seq<AssociatedInscriptionView>, rest: Seq<u8>)
    requires
        associated_encodable(v),
    ensures
        parse_associated_list(ser_associated_list(v) + rest) == Some((v, rest)),
{
    let b1 = concat_associated(v) + rest;
    assert(ser_associated_list(v) + rest =~= ser_u32(v.len() as u32) + b1);
    lemma_parse_u32(v.len() as u32, b1);
    lemma_parse_associated_items(v, rest);
}

/// Appending an entry to a list appends its serial form.
pub proof fn lemma_concat_associated_push(
    v: Seq<AssociatedInscriptionView>,
    last: AssociatedInscriptionView,
)
    ensures
        concat_associated(v.push(last)) == concat_associated(v) + ser_associated(last),
    decreases v.len(),
{
    let w = v.push(last);
    if v.len() == 0 {
        assert(w.skip(1) =~= Seq::empty());
        assert(concat_associated(w.skip(1)) =~= Seq::empty());
        assert(concat_associated(w) =~= ser_associated(last));
        assert(concat_associated(v) + ser_associated(last) =~= ser_associated(last));
    } else {
        lemma_concat_associated_push(v.skip(1), last);
        assert(w.skip(1) =~= v.skip(1).push(last));
        assert(w[0] == v[0]);
        assert(concat_associated(w) =~= concat_associated(v) + ser_associated(last));
    }
}

/// Reading `n` entries is reading `k` of them and then the remaining `n - k`.
pub proof fn lemma_parse_associated_items_split(b: Seq<u8>, k: nat, n: nat)
    requires
        k <= n,
    ensures
        parse_associated_items(b, n) == match parse_associated_items(b, k) {
            Some((head, mid)) => match parse_associated_items(mid, (n - k) as nat) {
                Some((tail, after)) => Some((head + tail, after)),
                None => None,
            },
            None => None,
        },
    decreases k,
{
    if k == 0 {
        match parse_associated_items(b, n) {
            Some((tail, after)) => {
                assert(Seq::<AssociatedInscriptionView>::empty() + tail =~= tail);
            },
            None => {},
        }
    } else {
        match parse_associated(b) {
            Some((first, rest)) => {
                lemma_parse_associated_items_split(rest, (k - 1) as nat, (n - 1) as nat);
                match parse_associated_items(rest, (k - 1) as nat) {
                    Some((head, mid)) => {
                        match parse_associated_items(mid, (n - k) as nat) {
                            Some((tail, after)) => {
                                assert((seq![first] + head) + tail =~= seq![first] + (head
                                    + tail));
                            },
                            None => {},
                        }
                    },
                    None => {},
                }
            },
            None => {},
        }
    }
}

impl AssociatedInscription {
    /// A copy of the entry.
    pub fn duplicate(&self) -> (r: AssociatedInscription)
        ensures
            r@ == self@,
    {
        AssociatedInscription {
            tag: self.tag.clone(),
            bump: self.bump,
            data_type: self.data_type,
        }
    }
}

/// Appends one entry, or nothing where it has no serial form.
pub(crate) fn put_associated(out: &mut Vec<u8>, v: &AssociatedInscription) -> (r: bool)
    ensures
        r == v@.encodable(),
        r ==> final(out)@ == old(out)@ + ser_associated(v@),
        !r ==> final(out)@ == old(out)@,
{
    if !put_string(out, v.tag.as_str()) {
        return false;
    }
    put_u8(out, v.bump);
    put_u8(out, v.data_type.tag());
    assert(out@ =~= old(out)@ + ser_associated(v@));
    true
}

pub(crate) fn read_associated(data: &[u8], pos: usize) -> (r: Option<(AssociatedInscription, usize)>)
    requires
        pos <= data@.len(),
    ensures
        match r {
            Some((v, next)) => next <= data@.len() && parse_associated(data@.skip(pos as int))
                == Some((v@, data@.skip(next as int))),
            None => parse_associated(data@.skip(pos as int)) is None,
        },
{
    let (tag, pos1) = match read_string(data, pos) {
        Some(x) => x,
        None => {
            return None;
        },
    };
    let (bump, pos2) = match read_u8(data, pos1) {
        Some(x) => x,
        None => {
            return None;
        },
    };
    let (data_type, pos3) = match read_data_type(data, pos2) {
        Some(x) => x,
        None => {
            return None;
        },
    };
    Some((AssociatedInscription { tag, bump, data_type }, pos3))
}

/// Appends a list of entries with their number, or nothing where the list has
/// no serial form.
pub(crate) fn put_associated_list(out: &mut Vec<u8>, v: &Vec<AssociatedInscription>) -> (r: bool)
    ensures
        r == associated_encodable(associated_views(v@)),
        r ==> final(out)@ == old(out)@ + ser_associated_list(associated_views(v@)),
        !r ==> final(out)@ == old(out)@,
{
    let ghost views = associated_views(v@);
    if v.len() > u32::MAX as usize {
        return false;
    }
    let len = out.len();
    put_u32(out, v.len() as u32);
    let ghost start = out@;
    let mut i: usize = 0;
    while i < v.len()
        invariant
            i <= v.len(),
            views == associated_views(v@),
            len == old(out)@.len(),
            start == old(out)@ + ser_u32(v@.len() as u32),
            out@ == start + concat_associated(views.take(i as int)),
            forall|j: int| 0 <= j < i ==> (#[trigger] views[j]).encodable(),
        decreases v.len() - i,
    {
        if !put_associated(out, &v[i]) {
            assert(!views[i as int].encodable());
            out.truncate(len);
            assert(out@ =~= old(out)@);
            return false;
        }
        proof {
            lemma_concat_associated_push(views.take(i as int), views[i as int]);
            assert(views.take(i + 1) =~= views.take(i as int).push(views[i as int]));
            assert(out@ =~= start + concat_associated(views.take(i + 1)));
        }
        i += 1;
    }
    proof {
        assert(views.take(views.len() as int) =~= views);
        assert(out@ =~= old(out)@ + ser_associated_list(views));
    }
    true
}

pub(crate) fn read_associated_list(data: &[u8], pos: usize) -> (r: Option<
    (Vec<AssociatedInscription>, usize),
>)
    requires
        pos <= data@.len(),
    ensures
        match r {
            Some((v, next)) => next <= data@.len() && parse_associated_list(
                data@.skip(pos as int),
            ) == Some((associated_views(v@), data@.skip(next as int))),
            None => parse_associated_list(data@.skip(pos as int)) is None,
        },
{
    let (n, start) = match read_u32(data, pos) {
        Some(x) => x,
        None => {
            return None;
        },
    };
    let ghost rest = data@.skip(start as int);
    let mut out: Vec<AssociatedInscription> = Vec::new();
    let mut at: usize = start;
    let mut i: u32 = 0;
    proof {
        assert(associated_views(out@) =~= Seq::empty());
    }
    while i < n
        invariant
            i <= n,
            at <= data@.len(),
            pos <= data@.len(),
            out@.len() == i,
            parse_u32(data@.skip(pos as int)) == Some((n, rest)),
            parse_associated_items(rest, i as nat) == Some(
                (associated_views(out@), data@.skip(at as int)),
            ),
        decreases n - i,
    {
        let ghost before = associated_views(out@);
        proof {
            lemma_parse_associated_items_split(rest, i as nat, n as nat);
            lemma_parse_associated_items_split(rest, i as nat, (i + 1) as nat);
        }
        match read_associated(data, at) {
            Some((a, next)) => {
                proof {
                    assert(parse_associated_items(data@.skip(next as int), 0) == Some(
                        (Seq::<AssociatedInscriptionView>::empty(), data@.skip(next as int)),
                    ));
                    assert(seq![a@] + Seq::<AssociatedInscriptionView>::empty() =~= seq![a@]);
                    assert(associated_views(out@.push(a)) =~= before + seq![a@]);
                }
                out.push(a);
                at = next;
            },
            None => {
                assert(parse_associated_items(data@.skip(at as int), (n - i) as nat) is None);
                return None;
            },
        }
        i += 1;
    }
    Some((out, at))
}


/// The record that accompanies every inscription: what it is, who may change
/// it, and where it stands in the global order.
#[derive(Clone, Debug)]
pub struct InscriptionMetadata {
    pub key: Key,
    /// The account that holds the inscription's payload.
    pub inscription_account: Address,
    /// The bump of the metadata account's address.
    pub bump: u8,
    pub data_type: DataType,
    /// The inscription's rank, or `u64::MAX` while it has none.
    pub inscription_rank: u64,
    /// The bump of the payload account's address, where that address is derived
    /// from a mint.
    pub inscription_bump: Option<u8>,
    /// Who may change or close the inscription.
    pub update_authorities: Vec<Address>,
    pub associated_inscriptions: Vec<AssociatedInscription>,
    /// The mint that the inscription belongs to, if any.
    pub mint: Option<Address>,
    /// Room for fields to come.
    pub _padding: [u8; 7],
}

/// A metadata record as a mathematical value.
#[verifier::ext_equal]
pub struct MetadataView {
    pub key: Key,
    pub inscription_account: Address,
    pub bump: u8,
    pub data_type: DataType,
    pub inscription_rank: u64,
    pub inscription_bump: Option<u8>,
    pub update_authorities: Seq<Address>,
    pub associated_inscriptions: Seq<AssociatedInscriptionView>,
    pub mint: Option<Address>,
    pub padding: [u8; 7],
}

impl View for InscriptionMetadata {
    type V = MetadataView;

    open spec fn view(&self) -> MetadataView {
        MetadataView {
            key: self.key,
            inscription_account: self.inscription_account,
            bump: self.bump,
            data_type: self.data_type,
            inscription_rank: self.inscription_rank,
            inscription_bump: self.inscription_bump,
            update_authorities: self.update_authorities@,
            associated_inscriptions: associated_views(self.associated_inscriptions@),
            mint: self.mint,
            padding: self._padding,
        }
    }
}

impl MetadataView {
    /// Whether the record has a serial form: the lengths of its lists and tags
    /// fit 32 bits.
    pub open spec fn encodable(self) -> bool {
        &&& self.update_authorities.len() <= u32::MAX
        &&& associated_encodable(self.associated_inscriptions)
    }

    /// The record of a fresh inscription: no rank, no authority, nothing
    /// associated.
    pub open spec fn fresh() -> MetadataView {
        MetadataView {
            key: Key::InscriptionMetadataAccount,
            inscription_account: system_program_id(),
            bump: 0,
            data_type: DataType::Uninitialized,
            inscription_rank: u64::MAX,
            inscription_bump: None,
            update_authorities: Seq::empty(),
            associated_inscriptions: Seq::empty(),
            mint: None,
            padding: EMPTY_PADDING,
        }
    }
}

impl Default for InscriptionMetadata {
    fn default() -> (r: InscriptionMetadata)
        ensures
            r@ == MetadataView::fresh(),
    {
        let r = InscriptionMetadata {
            key: Key::InscriptionMetadataAccount,
            inscription_account: system_program_id(),
            bump: 0,
            data_type: DataType::Uninitialized,
            inscription_rank: u64::MAX,
            inscription_bump: None,
            update_authorities: Vec::new(),
            associated_inscriptions: Vec::new(),
            mint: None,
            _padding: EMPTY_PADDING,
        };
        assert(r@ =~~= MetadataView::fresh());
        r
    }
}

pub open spec fn ser_padding(v: [u8; 7]) -> Seq<u8> {
    v@
}

pub open spec fn parse_padding(b: Seq<u8>) -> Option<([u8; 7], Seq<u8>)> {
    if b.len() >= 7 {
        Some((array_of::<7>(b.take(7)), b.skip(7)))
    } else {
        None
    }
}

pub proof fn lemma_parse_padding(v: [u8; 7], rest: Seq<u8>)
    ensures
        parse_padding(ser_padding(v) + rest) == Some((v, rest)),
{
    assert((ser_padding(v) + rest).skip(7) =~= rest);
    assert((ser_padding(v) + rest).take(7) =~= v@);
    lemma_array_of(v);
}

pub open spec fn ser_metadata(v: MetadataView) -> Seq<u8> {
    ser_key(v.key) + ser_address(v.inscription_account) + ser_u8(v.bump) + ser_data_type(
        v.data_type,
    ) + ser_u64(v.inscription_rank) + ser_option_u8(v.inscription_bump) + ser_addresses(
        v.update_authorities,
    ) + ser_associated_list(v.associated_inscriptions) + ser_option_address(v.mint) + ser_padding(
        v.padding,
    )
}

/// The metadata record at the front of `b`, and what follows it.
pub open spec fn parse_metadata_prefix(b: Seq<u8>) -> Option<(MetadataView, Seq<u8>)> {
    match parse_key(b) {
        None => None,
        Some((key, b1)) => match parse_address(b1) {
            None => None,
            Some((inscription_account, b2)) => match parse_u8(b2) {
                None => None,
                Some((bump, b3)) => match parse_data_type(b3) {
                    None => None,
                    Some((data_type, b4)) => match parse_u64(b4) {
                        None => None,
                        Some((inscription_rank, b5)) => match parse_option_u8(b5) {
                            None => None,
                            Some((inscription_bump, b6)) => match parse_addresses(b6) {
                                None => None,
                                Some((update_authorities, b7)) => match parse_associated_list(
                                    b7,
                                ) {
                                    None => None,
                                    Some(
                                        (associated_inscriptions, b8),
                                    ) => match parse_option_address(b8) {
                                        None => None,
                                        Some((mint, b9)) => match parse_padding(b9) {
                                            None => None,
                                            Some((padding, b10)) => Some(
                                                (
                                                    MetadataView {
                                                        key,
                                                        inscription_account,
                                                        bump,
                                                        data_type,
                                                        inscription_rank,
                                                        inscription_bump,
                                                        update_authorities,
                                                        associated_inscriptions,
                                                        mint,
                                                        padding,
                                                    },
                                                    b10,
                                                ),
                                            ),
                                        },
                                    },
                                },
                            },
                        },
                    },
                },
            },
        },
    }
}

/// The metadata record that `b` holds, where `b` holds one and nothing more.
pub open spec fn parse_metadata(b: Seq<u8>) -> Option<MetadataView> {
    match parse_metadata_prefix(b) {
        Some((v, rest)) => if rest.len() == 0 {
            Some(v)
        } else {
            None
        },
        None => None,
    }
}

/// Why `b` cannot be read as a metadata record, if it cannot: it does not hold
/// the layout of one and nothing more, or what it holds is a record of
/// another kind.
pub open spec fn metadata_failure(b: Seq<u8>) -> Option<ProgramError> {
    match parse_metadata(b) {
        None => Some(ProgramError::BorshIoError),
        Some(metadata) => if metadata.key.is_metadata() {
            None
        } else {
            Some(custom(MplInscriptionError::InvalidInscriptionMetadataAccount))
        },
    }
}

/// The serial form of a record followed by `rest`, grouped field by field from
/// the back.
spec fn ser_metadata_then(v: MetadataView, rest: Seq<u8>) -> Seq<u8> {
    ser_key(v.key) + (ser_address(v.inscription_account) + (ser_u8(v.bump) + (ser_data_type(
        v.data_type,
    ) + (ser_u64(v.inscription_rank) + (ser_option_u8(v.inscription_bump) + (ser_addresses(
        v.update_authorities,
    ) + (ser_associated_list(v.associated_inscriptions) + (ser_option_address(v.mint) + (
    ser_padding(v.padding) + rest)))))))))
}

proof fn lemma_ser_metadata_then(v: MetadataView, rest: Seq<u8>)
    ensures
        ser_metadata(v) + rest == ser_metadata_then(v, rest),
{
    let f0 = ser_key(v.key);
    let f1 = ser_address(v.inscription_account);
    let f2 = ser_u8(v.bump);
    let f3 = ser_data_type(v.data_type);
    let f4 = ser_u64(v.inscription_rank);
    let f5 = ser_option_u8(v.inscription_bump);
    let f6 = ser_addresses(v.update_authorities);
    let f7 = ser_associated_list(v.associated_inscriptions);
    let f8 = ser_option_address(v.mint);
    let f9 = ser_padding(v.padding);
    let b9 = f9 + rest;
    let b8 = f8 + b9;
    let b7 = f7 + b8;
    let b6 = f6 + b7;
    let b5 = f5 + b6;
    let b4 = f4 + b5;
    let b3 = f3 + b4;
    let b2 = f2 + b3;
    let b1 = f1 + b2;
    lemma_regroup(f0 + f1 + f2 + f3 + f4 + f5 + f6 + f7 + f8, f9, rest);
    lemma_regroup(f0 + f1 + f2 + f3 + f4 + f5 + f6 + f7, f8, b9);
    lemma_regroup(f0 + f1 + f2 + f3 + f4 + f5 + f6, f7, b8);
    lemma_regroup(f0 + f1 + f2 + f3 + f4 + f5, f6, b7);
    lemma_regroup(f0 + f1 + f2 + f3 + f4, f5, b6);
    lemma_regroup(f0 + f1 + f2 + f3, f4, b5);
    lemma_regroup(f0 + f1 + f2, f3, b4);
    lemma_regroup(f0 + f1, f2, b3);
    lemma_regroup(f0, f1, b2);
}

/// A parser reads back the metadata record that the serialiser wrote, whatever
/// follows it.
pub proof fn lemma_parse_metadata_prefix(v: MetadataView, rest: Seq<u8>)
    requires
        v.encodable(),
    ensures
        parse_metadata_prefix(ser_metadata(v) + rest) == Some((v, rest)),
{
    let b9 = ser_padding(v.padding) + rest;
    let b8 = ser_option_address(v.mint) + b9;
    let b7 = ser_associated_list(v.associated_inscriptions) + b8;
    let b6 = ser_addresses(v.update_authorities) + b7;
    let b5 = ser_option_u8(v.inscription_bump) + b6;
    let b4 = ser_u64(v.inscription_rank) + b5;
    let b3 = ser_data_type(v.data_type) + b4;
    let b2 = ser_u8(v.bump) + b3;
    let b1 = ser_address(v.inscription_account) + b2;
    lemma_ser_metadata_then(v, rest);
    assert(ser_metadata(v) + rest == ser_key(v.key) + b1);
    lemma_parse_key(v.key, b1);
    lemma_parse_address(v.inscription_account, b2);
    lemma_parse_u8(v.bump, b3);
    lemma_parse_data_type(v.data_type, b4);
    lemma_parse_u64(v.inscription_rank, b5);
    lemma_parse_option_u8(v.inscription_bump, b6);
    lemma_parse_addresses(v.update_authorities, b7);
    lemma_parse_associated_list(v.associated_inscriptions, b8);
    lemma_parse_option_address(v.mint, b9);
    lemma_parse_padding(v.padding, rest);
}

/// Round trip: every metadata record that has a serial form is read back from
/// it, and the reader accepts it where it is of a metadata kind. This covers a
/// record without authorities, a tag of any length that a string can have, and
/// the rank `u64::MAX` of an unranked inscription.
pub proof fn lemma_metadata_round_trip(v: MetadataView)
    requires
        v.encodable(),
    ensures
        parse_metadata(ser_metadata(v)) == Some(v),
        v.key.is_metadata() ==> metadata_failure(ser_metadata(v)) is None,
{
    lemma_parse_metadata_prefix(v, Seq::empty());
    assert(ser_metadata(v) + Seq::<u8>::empty() =~= ser_metadata(v));
}

/// Round trip for one associated entry.
pub proof fn lemma_associated_round_trip(v: AssociatedInscriptionView)
    requires
        v.encodable(),
    ensures
        parse_associated(ser_associated(v)) == Some((v, Seq::<u8>::empty())),
{
    lemma_parse_associated(v, Seq::empty());
    assert(ser_associated(v) + Seq::<u8>::empty() =~= ser_associated(v));
}

fn put_padding(out: &mut Vec<u8>, v: &[u8; 7])
    ensures
        final(out)@ == old(out)@ + ser_padding(*v),
{
    let mut i: usize = 0;
    while i < 7
        invariant
            i <= 7,
            out@ == old(out)@ + v@.take(i as int),
        decreases 7 - i,
    {
        out.push(v[i]);
        assert(out@ =~= old(out)@ + v@.take(i + 1));
        i += 1;
    }
    assert(v@.take(7) =~= v@);
}

fn read_padding(data: &[u8], pos: usize) -> (r: Option<([u8; 7], usize)>)
    requires
        pos <= data@.len(),
    ensures
        match r {
            Some((v, next)) => next <= data@.len() && parse_padding(data@.skip(pos as int))
                == Some((v, data@.skip(next as int))),
            None => parse_padding(data@.skip(pos as int)) is None,
        },
{
    if data.len() - pos < 7 {
        return None;
    }
    let mut bytes: [u8; 7] = [0u8; 7];
    let mut i: usize = 0;
    while i < 7
        invariant
            i <= 7,
            pos + 7 <= data@.len() <= usize::MAX,
            forall|j: int| 0 <= j < i ==> bytes[j] == data@[pos + j],
        decreases 7 - i,
    {
        bytes[i] = data[pos + i];
        i += 1;
    }
    proof {
        assert(data@.skip(pos as int).skip(7) =~= data@.skip(pos + 7));
        assert(bytes@ =~= data@.skip(pos as int).take(7));
        lemma_array_of(bytes);
    }
    Some((bytes, pos + 7))
}

impl InscriptionMetadata {
    /// The serial form of the record. Fails where the record has none.
    pub fn encode(&self) -> (r: Result<Vec<u8>, ProgramError>)
        ensures
            match r {
                Ok(bytes) => self@.encodable() && bytes@ == ser_metadata(self@) && parse_metadata(
                    bytes@,
                ) == Some(self@) && (self@.key.is_metadata() ==> metadata_failure(bytes@)
                    is None),
                Err(e) => !self@.encodable() && e == ProgramError::BorshIoError,
            },
    {
        let mut out: Vec<u8> = Vec::new();
        put_u8(&mut out, self.key.tag());
        put_address(&mut out, &self.inscription_account);
        put_u8(&mut out, self.bump);
        put_u8(&mut out, self.data_type.tag());
        put_u64(&mut out, self.inscription_rank);
        put_option_u8(&mut out, self.inscription_bump);
        if !put_addresses(&mut out, &self.update_authorities) {
            return Err(ProgramError::BorshIoError);
        }
        if !put_associated_list(&mut out, &self.associated_inscriptions) {
            return Err(ProgramError::BorshIoError);
        }
        put_option_address(&mut out, &self.mint);
        put_padding(&mut out, &self._padding);
        proof {
            assert(out@ =~= ser_metadata(self@));
            lemma_metadata_round_trip(self@);
        }
        Ok(out)
    }

    /// Reads the metadata record that `data` holds. Fails with
    /// `BorshIoError` where `data` does not hold the layout of exactly one
    /// record, and with `InvalidInscriptionMetadataAccount` where the record
    /// is of another kind.
    pub fn decode(data: &[u8]) -> (r: Result<InscriptionMetadata, ProgramError>)
        ensures
            match r {
                Ok(v) => metadata_failure(data@) is None && parse_metadata(data@) == Some(v@)
                    && v@.key.is_metadata(),
                Err(e) => metadata_failure(data@) == Some(e),
            },
    {
        assert(data@.skip(0) =~= data@);
        let (key, pos1) = match read_key(data, 0) {
            Some(x) => x,
            None => {
                return Err(ProgramError::BorshIoError);
            },
        };
        let (inscription_account, pos2) = match read_address(data, pos1) {
            Some(x) => x,
            None => {
                return Err(ProgramError::BorshIoError);
            },
        };
        let (bump, pos3) = match read_u8(data, pos2) {
            Some(x) => x,
            None => {
                return Err(ProgramError::BorshIoError);
            },
        };
        let (data_type, pos4) = match read_data_type(data, pos3) {
            Some(x) => x,
            None => {
                return Err(ProgramError::BorshIoError);
            },
        };
        let (inscription_rank, pos5) = match read_u64(data, pos4) {
            Some(x) => x,
            None => {
                return Err(ProgramError::BorshIoError);
            },
        };
        let (inscription_bump, pos6) = match read_option_u8(data, pos5) {
            Some(x) => x,
            None => {
                return Err(ProgramError::BorshIoError);
            },
        };
        let (update_authorities, pos7) = match read_addresses(data, pos6) {
            Some(x) => x,
            None => {
                return Err(ProgramError::BorshIoError);
            },
        };
        let (associated_inscriptions, pos8) = match read_associated_list(data, pos7) {
            Some(x) => x,
            None => {
                return Err(ProgramError::BorshIoError);
            },
        };
        let (mint, pos9) = match read_option_address(data, pos8) {
            Some(x) => x,
            None => {
                return Err(ProgramError::BorshIoError);
            },
        };
        let (padding, pos10) = match read_padding(data, pos9) {
            Some(x) => x,
            None => {
                return Err(ProgramError::BorshIoError);
            },
        };
        if pos10 != data.len() {
            return Err(ProgramError::BorshIoError);
        }
        let r = InscriptionMetadata {
            key,
            inscription_account,
            bump,
            data_type,
            inscription_rank,
            inscription_bump,
            update_authorities,
            associated_inscriptions,
            mint,
            _padding: padding,
        };
        assert(parse_metadata_prefix(data@) == Some((r@, data@.skip(pos10 as int))));
        if !r.key.is_metadata() {
            return Err(
                ProgramError::from(MplInscriptionError::InvalidInscriptionMetadataAccount),
            );
        }
        Ok(r)
    }
}

} // verus!
