//! The binary layout of the values that records and instructions are made of.
//!
//! Integers are little-endian and fixed-width, an address is its 32 bytes, an
//! optional value is a presence byte (0 or 1) followed by the value where
//! present, and a string or a list is a 32-bit count followed by its items.
//!
//! Each kind of value has a serialiser `ser_*` and a parser `parse_*`. A parser
//! reads one value from the front of the bytes and hands back the bytes that
//! follow it; it reads back whatever the serialiser wrote, whatever follows.
use vstd::prelude::*;
use vstd::bytes::{
    spec_u32_from_le_bytes, spec_u32_to_le_bytes, spec_u64_from_le_bytes, spec_u64_to_le_bytes,
    lemma_auto_spec_u32_to_from_le_bytes, lemma_auto_spec_u64_to_from_le_bytes, u32_from_le_bytes,
    u32_to_le_bytes, u64_from_le_bytes, u64_to_le_bytes,
};
use vstd::utf8::{decode_utf8, encode_utf8, valid_utf8, encode_utf8_valid_utf8, encode_utf8_decode_utf8};
use vstd::string::StringSliceAdditionalSpecFns;
use crate::address::{Address, address_of, lemma_array_of};

verus! {

pub open spec fn ser_u8(v: u8) -> Seq<u8> {
    seq![v]
}

pub open spec fn parse_u8(b: Seq<u8>) -> Option<(u8, Seq<u8>)> {
    if b.len() >= 1 {
        Some((b[0], b.skip(1)))
    } else {
        None
    }
}

pub open spec fn ser_u32(v: u32) -> Seq<u8> {
    spec_u32_to_le_bytes(v)
}

pub open spec fn parse_u32(b: Seq<u8>) -> Option<(u32, Seq<u8>)> {
    if b.len() >= 4 {
        Some((spec_u32_from_le_bytes(b.take(4)), b.skip(4)))
    } else {
        None
    }
}

pub open spec fn ser_u64(v: u64) -> Seq<u8> {
    spec_u64_to_le_bytes(v)
}

pub open spec fn parse_u64(b: Seq<u8>) -> Option<(u64, Seq<u8>)> {
    if b.len() >= 8 {
        Some((spec_u64_from_le_bytes(b.take(8)), b.skip(8)))
    } else {
        None
    }
}

pub open spec fn ser_address(v: Address) -> Seq<u8> {
    v@
}

pub open spec fn parse_address(b: Seq<u8>) -> Option<(Address, Seq<u8>)> {
    if b.len() >= 32 {
        Some((address_of(b.take(32)), b.skip(32)))
    } else {
        None
    }
}

pub open spec fn ser_option_u8(v: Option<u8>) -> Seq<u8> {
    match v {
        None => seq![0u8],
        Some(x) => seq![1u8] + ser_u8(x),
    }
}

pub open spec fn parse_option_u8(b: Seq<u8>) -> Option<(Option<u8>, Seq<u8>)> {
    if b.len() >= 1 && b[0] == 0 {
        Some((None, b.skip(1)))
    } else if b.len() >= 1 && b[0] == 1 {
        match parse_u8(b.skip(1)) {
            Some((x, rest)) => Some((Some(x), rest)),
            None => None,
        }
    } else {
        None
    }
}

pub open spec fn ser_option_u64(v: Option<u64>) -> Seq<u8> {
    match v {
        None => seq![0u8],
        Some(x) => seq![1u8] + ser_u64(x),
    }
}

pub open spec fn parse_option_u64(b: Seq<u8>) -> Option<(Option<u64>, Seq<u8>)> {
    if b.len() >= 1 && b[0] == 0 {
        Some((None, b.skip(1)))
    } else if b.len() >= 1 && b[0] == 1 {
        match parse_u64(b.skip(1)) {
            Some((x, rest)) => Some((Some(x), rest)),
            None => None,
        }
    } else {
        None
    }
}

pub open spec fn ser_option_address(v: Option<Address>) -> Seq<u8> {
    match v {
        None => seq![0u8],
        Some(x) => seq![1u8] + ser_address(x),
    }
}

pub open spec fn parse_option_address(b: Seq<u8>) -> Option<(Option<Address>, Seq<u8>)> {
    if b.len() >= 1 && b[0] == 0 {
        Some((None, b.skip(1)))
    } else if b.len() >= 1 && b[0] == 1 {
        match parse_address(b.skip(1)) {
            Some((x, rest)) => Some((Some(x), rest)),
            None => None,
        }
    } else {
        None
    }
}

/// A run of bytes: its length, then the bytes.
pub open spec fn ser_bytes(v: Seq<u8>) -> Seq<u8> {
    ser_u32(v.len() as u32) + v
}

pub open spec fn parse_bytes(b: Seq<u8>) -> Option<(Seq<u8>, Seq<u8>)> {
    match parse_u32(b) {
        Some((n, rest)) => if rest.len() >= n {
            Some((rest.take(n as int), rest.skip(n as int)))
        } else {
            None
        },
        None => None,
    }
}

/// A string: the length of its UTF-8 form, then that form.
pub open spec fn ser_string(v: Seq<char>) -> Seq<u8> {
    ser_bytes(encode_utf8(v))
}

pub open spec fn parse_string(b: Seq<u8>) -> Option<(Seq<char>, Seq<u8>)> {
    match parse_bytes(b) {
        Some((raw, rest)) => if valid_utf8(raw) {
            Some((decode_utf8(raw), rest))
        } else {
            None
        },
        None => None,
    }
}

pub open spec fn ser_option_string(v: Option<Seq<char>>) -> Seq<u8> {
    match v {
        None => seq![0u8],
        Some(x) => seq![1u8] + ser_string(x),
    }
}

pub open spec fn parse_option_string(b: Seq<u8>) -> Option<(Option<Seq<char>>, Seq<u8>)> {
    if b.len() >= 1 && b[0] == 0 {
        Some((None, b.skip(1)))
    } else if b.len() >= 1 && b[0] == 1 {
        match parse_string(b.skip(1)) {
            Some((x, rest)) => Some((Some(x), rest)),
            None => None,
        }
    } else {
        None
    }
}

/// The addresses of a list, one after the other.
pub open spec fn concat_addresses(v: Seq<Address>) -> Seq<u8>
    decreases v.len(),
{
    if v.len() == 0 {
        Seq::empty()
    } else {
        concat_addresses(v.drop_last()) + v.last()@
    }
}

/// A list of addresses: their number, then the addresses.
pub open spec fn ser_addresses(v: Seq<Address>) -> Seq<u8> {
    ser_u32(v.len() as u32) + concat_addresses(v)
}

pub open spec fn parse_addresses(b: Seq<u8>) -> Option<(Seq<Address>, Seq<u8>)> {
    match parse_u32(b) {
        Some((n, rest)) => if rest.len() >= 32 * n {
            Some(
                (
                    Seq::new(n as nat, |i: int| address_of(rest.subrange(32 * i, 32 * i + 32))),
                    rest.skip(32 * n),
                ),
            )
        } else {
            None
        },
        None => None,
    }
}

/// Three runs of bytes in a row are the same bytes however they are grouped.
pub proof fn lemma_regroup(a: Seq<u8>, b: Seq<u8>, c: Seq<u8>)
    ensures
        (a + b) + c == a + (b + c),
{
    assert((a + b) + c =~= a + (b + c));
}

pub proof fn lemma_parse_u8(v: u8, rest: Seq<u8>)
    ensures
        parse_u8(ser_u8(v) + rest) == Some((v, rest)),
{
    assert((ser_u8(v) + rest).skip(1) =~= rest);
}

pub proof fn lemma_parse_u32(v: u32, rest: Seq<u8>)
    ensures
        ser_u32(v).len() == 4,
        parse_u32(ser_u32(v) + rest) == Some((v, rest)),
{
    lemma_auto_spec_u32_to_from_le_bytes();
    assert((ser_u32(v) + rest).skip(4) =~= rest);
    assert((ser_u32(v) + rest).take(4) =~= ser_u32(v));
}

pub proof fn lemma_parse_u64(v: u64, rest: Seq<u8>)
    ensures
        ser_u64(v).len() == 8,
        parse_u64(ser_u64(v) + rest) == Some((v, rest)),
{
    lemma_auto_spec_u64_to_from_le_bytes();
    assert((ser_u64(v) + rest).skip(8) =~= rest);
    assert((ser_u64(v) + rest).take(8) =~= ser_u64(v));
}

pub proof fn lemma_parse_address(v: Address, rest: Seq<u8>)
    ensures
        parse_address(ser_address(v) + rest) == Some((v, rest)),
{
    assert((ser_address(v) + rest).skip(32) =~= rest);
    assert((ser_address(v) + rest).take(32) =~= v.bytes@);
    lemma_array_of(v.bytes);
}

pub proof fn lemma_parse_option_u8(v: Option<u8>, rest: Seq<u8>)
    ensures
        parse_option_u8(ser_option_u8(v) + rest) == Some((v, rest)),
{
    let b = ser_option_u8(v) + rest;
    match v {
        None => {
            assert(b.skip(1) =~= rest);
        },
        Some(x) => {
            assert(b.skip(1) =~= ser_u8(x) + rest);
            lemma_parse_u8(x, rest);
        },
    }
}

pub proof fn lemma_parse_option_u64(v: Option<u64>, rest: Seq<u8>)
    ensures
        parse_option_u64(ser_option_u64(v) + rest) == Some((v, rest)),
{
    let b = ser_option_u64(v) + rest;
    match v {
        None => {
            assert(b.skip(1) =~= rest);
        },
        Some(x) => {
            assert(b.skip(1) =~= ser_u64(x) + rest);
            lemma_parse_u64(x, rest);
        },
    }
}

pub proof fn lemma_parse_option_address(v: Option<Address>, rest: Seq<u8>)
    ensures
        parse_option_address(ser_option_address(v) + rest) == Some((v, rest)),
{
    let b = ser_option_address(v) + rest;
    match v {
        None => {
            assert(b.skip(1) =~= rest);
        },
        Some(x) => {
            assert(b.skip(1) =~= ser_address(x) + rest);
            lemma_parse_address(x, rest);
        },
    }
}

pub proof fn lemma_parse_bytes(v: Seq<u8>, rest: Seq<u8>)
    requires
        v.len() <= u32::MAX,
    ensures
        parse_bytes(ser_bytes(v) + rest) == Some((v, rest)),
{
    let n = v.len() as u32;
    assert(ser_bytes(v) + rest =~= ser_u32(n) + (v + rest));
    lemma_parse_u32(n, v + rest);
    assert((v + rest).take(n as int) =~= v);
    assert((v + rest).skip(n as int) =~= rest);
}

pub proof fn lemma_parse_string(v: Seq<char>, rest: Seq<u8>)
    requires
        encode_utf8(v).len() <= u32::MAX,
    ensures
        parse_string(ser_string(v) + rest) == Some((v, rest)),
{
    lemma_parse_bytes(encode_utf8(v), rest);
    encode_utf8_valid_utf8(v);
    encode_utf8_decode_utf8(v);
}

pub proof fn lemma_parse_option_string(v: Option<Seq<char>>, rest: Seq<u8>)
    requires
        v matches Some(s) ==> encode_utf8(s).len() <= u32::MAX,
    ensures
        parse_option_string(ser_option_string(v) + rest) == Some((v, rest)),
{
    let b = ser_option_string(v) + rest;
    match v {
        None => {
            assert(b.skip(1) =~= rest);
        },
        Some(x) => {
            assert(b.skip(1) =~= ser_string(x) + rest);
            lemma_parse_string(x, rest);
        },
    }
}

/// The bytes of a list of addresses are 32 to the address, in order.
pub proof fn lemma_concat_addresses(v: Seq<Address>)
    ensures
        concat_addresses(v).len() == 32 * v.len(),
        forall|i: int|
            0 <= i < v.len() ==> #[trigger] concat_addresses(v).subrange(32 * i, 32 * i + 32)
                == v[i]@,
    decreases v.len(),
{
    if v.len() > 0 {
        let head = v.drop_last();
        lemma_concat_addresses(head);
        assert forall|i: int| 0 <= i < v.len() implies #[trigger] concat_addresses(v).subrange(
            32 * i,
            32 * i + 32,
        ) == v[i]@ by {
            if i < head.len() {
                assert(concat_addresses(v).subrange(32 * i, 32 * i + 32) =~= concat_addresses(
                    head,
                ).subrange(32 * i, 32 * i + 32));
                assert(head[i] == v[i]);
            } else {
                assert(concat_addresses(v).subrange(32 * i, 32 * i + 32) =~= v.last()@);
            }
        }
    }
}

pub proof fn lemma_parse_addresses(v: Seq<Address>, rest: Seq<u8>)
    requires
        v.len() <= u32::MAX,
    ensures
        parse_addresses(ser_addresses(v) + rest) == Some((v, rest)),
{
    let n = v.len() as u32;
    let body = concat_addresses(v);
    assert(ser_addresses(v) + rest =~= ser_u32(n) + (body + rest));
    lemma_parse_u32(n, body + rest);
    lemma_concat_addresses(v);
    assert((body + rest).skip(32 * n) =~= rest);
    let parsed = Seq::new(n as nat, |i: int| address_of((body + rest).subrange(32 * i, 32 * i + 32)));
    assert forall|i: int| 0 <= i < n implies parsed[i] == v[i] by {
        assert((body + rest).subrange(32 * i, 32 * i + 32) =~= body.subrange(32 * i, 32 * i + 32));
        lemma_array_of(v[i].bytes);
    }
    assert(parsed =~= v);
}


/// Appends `bytes` to `out`.
pub(crate) fn append(out: &mut Vec<u8>, bytes: &[u8])
    ensures
        final(out)@ == old(out)@ + bytes@,
{
    out.extend_from_slice(bytes);
    assert(out@ =~= old(out)@ + bytes@);
}

/// The bytes of `data` from `from` up to `to`, as a vector of their own.
pub(crate) fn copy_range(data: &[u8], from: usize, to: usize) -> (r: Vec<u8>)
    requires
        from <= to <= data@.len(),
    ensures
        r@ == data@.subrange(from as int, to as int),
{
    let mut out: Vec<u8> = Vec::new();
    append(&mut out, &data[from..to]);
    assert(out@ =~= data@.subrange(from as int, to as int));
    out
}

pub(crate) fn put_u8(out: &mut Vec<u8>, v: u8)
    ensures
        final(out)@ == old(out)@ + ser_u8(v),
{
    out.push(v);
    assert(out@ =~= old(out)@ + ser_u8(v));
}

pub(crate) fn put_u32(out: &mut Vec<u8>, v: u32)
    ensures
        final(out)@ == old(out)@ + ser_u32(v),
{
    let bytes = u32_to_le_bytes(v);
    append(out, bytes.as_slice());
}

pub(crate) fn put_u64(out: &mut Vec<u8>, v: u64)
    ensures
        final(out)@ == old(out)@ + ser_u64(v),
{
    let bytes = u64_to_le_bytes(v);
    append(out, bytes.as_slice());
}

pub(crate) fn put_address(out: &mut Vec<u8>, v: &Address)
    ensures
        final(out)@ == old(out)@ + ser_address(*v),
{
    let bytes = v.to_vec();
    append(out, bytes.as_slice());
}

pub(crate) fn put_option_u8(out: &mut Vec<u8>, v: Option<u8>)
    ensures
        final(out)@ == old(out)@ + ser_option_u8(v),
{
    match v {
        None => {
            out.push(0u8);
        },
        Some(x) => {
            out.push(1u8);
            out.push(x);
        },
    }
    assert(out@ =~= old(out)@ + ser_option_u8(v));
}

pub(crate) fn put_option_u64(out: &mut Vec<u8>, v: Option<u64>)
    ensures
        final(out)@ == old(out)@ + ser_option_u64(v),
{
    match v {
        None => {
            out.push(0u8);
        },
        Some(x) => {
            out.push(1u8);
            put_u64(out, x);
        },
    }
    assert(out@ =~= old(out)@ + ser_option_u64(v));
}

pub(crate) fn put_option_address(out: &mut Vec<u8>, v: &Option<Address>)
    ensures
        final(out)@ == old(out)@ + ser_option_address(*v),
{
    match v {
        None => {
            out.push(0u8);
        },
        Some(x) => {
            out.push(1u8);
            put_address(out, x);
        },
    }
    assert(out@ =~= old(out)@ + ser_option_address(*v));
}

/// Appends a run of bytes with its length. A run of more than `u32::MAX` bytes
/// has no serial form: nothing is appended and `false` comes back.
pub(crate) fn put_bytes(out: &mut Vec<u8>, v: &[u8]) -> (r: bool)
    ensures
        r == (v@.len() <= u32::MAX),
        r ==> final(out)@ == old(out)@ + ser_bytes(v@),
        !r ==> final(out)@ == old(out)@,
{
    if v.len() > u32::MAX as usize {
        return false;
    }
    put_u32(out, v.len() as u32);
    append(out, v);
    assert(out@ =~= old(out)@ + ser_bytes(v@));
    true
}

/// Appends a string with the length of its UTF-8 form, or nothing where that
/// form is longer than `u32::MAX` bytes.
pub(crate) fn put_string(out: &mut Vec<u8>, v: &str) -> (r: bool)
    ensures
        r == (encode_utf8(v@).len() <= u32::MAX),
        r ==> final(out)@ == old(out)@ + ser_string(v@),
        !r ==> final(out)@ == old(out)@,
{
    put_bytes(out, v.as_bytes())
}

/// Appends a list of addresses with their number, or nothing where they are
/// more than `u32::MAX`.
pub(crate) fn put_addresses(out: &mut Vec<u8>, v: &Vec<Address>) -> (r: bool)
    ensures
        r == (v@.len() <= u32::MAX),
        r ==> final(out)@ == old(out)@ + ser_addresses(v@),
        !r ==> final(out)@ == old(out)@,
{
    if v.len() > u32::MAX as usize {
        return false;
    }
    put_u32(out, v.len() as u32);
    let ghost start = out@;
    let mut i: usize = 0;
    while i < v.len()
        invariant
            i <= v.len(),
            out@ == start + concat_addresses(v@.take(i as int)),
        decreases v.len() - i,
    {
        put_address(out, &v[i]);
        proof {
            let next = v@.take(i + 1);
            assert(next.drop_last() =~= v@.take(i as int));
            assert(out@ =~= start + concat_addresses(next));
        }
        i += 1;
    }
    proof {
        assert(v@.take(v@.len() as int) =~= v@);
        assert(out@ =~= old(out)@ + ser_addresses(v@));
    }
    true
}

/// Reads one byte at `pos`.
pub(crate) fn read_u8(data: &[u8], pos: usize) -> (r: Option<(u8, usize)>)
    requires
        pos <= data@.len(),
    ensures
        match r {
            Some((v, next)) => next <= data@.len() && parse_u8(data@.skip(pos as int)) == Some(
                (v, data@.skip(next as int)),
            ),
            None => parse_u8(data@.skip(pos as int)) is None,
        },
{
    if data.len() - pos < 1 {
        return None;
    }
    assert(data@.skip(pos as int).skip(1) =~= data@.skip(pos + 1));
    Some((data[pos], pos + 1))
}

pub(crate) fn read_u32(data: &[u8], pos: usize) -> (r: Option<(u32, usize)>)
    requires
        pos <= data@.len(),
    ensures
        match r {
            Some((v, next)) => next <= data@.len() && parse_u32(data@.skip(pos as int)) == Some(
                (v, data@.skip(next as int)),
            ),
            None => parse_u32(data@.skip(pos as int)) is None,
        },
{
    if data.len() - pos < 4 {
        return None;
    }
    let v = u32_from_le_bytes(&data[pos..pos + 4]);
    assert(data@.skip(pos as int).skip(4) =~= data@.skip(pos + 4));
    assert(data@.skip(pos as int).take(4) =~= data@.subrange(pos as int, pos + 4));
    Some((v, pos + 4))
}

pub(crate) fn read_u64(data: &[u8], pos: usize) -> (r: Option<(u64, usize)>)
    requires
        pos <= data@.len(),
    ensures
        match r {
            Some((v, next)) => next <= data@.len() && parse_u64(data@.skip(pos as int)) == Some(
                (v, data@.skip(next as int)),
            ),
            None => parse_u64(data@.skip(pos as int)) is None,
        },
{
    if data.len() - pos < 8 {
        return None;
    }
    let v = u64_from_le_bytes(&data[pos..pos + 8]);
    assert(data@.skip(pos as int).skip(8) =~= data@.skip(pos + 8));
    assert(data@.skip(pos as int).take(8) =~= data@.subrange(pos as int, pos + 8));
    Some((v, pos + 8))
}

pub(crate) fn read_address(data: &[u8], pos: usize) -> (r: Option<(Address, usize)>)
    requires
        pos <= data@.len(),
    ensures
        match r {
            Some((v, next)) => next == pos + 32 && next <= data@.len() && parse_address(
                data@.skip(pos as int),
            ) == Some((v, data@.skip(next as int))),
            None => parse_address(data@.skip(pos as int)) is None,
        },
{
    if data.len() - pos < 32 {
        return None;
    }
    let mut bytes: [u8; 32] = [0u8; 32];
    let mut i: usize = 0;
    while i < 32
        invariant
            i <= 32,
            pos + 32 <= data@.len() <= usize::MAX,
            forall|j: int| 0 <= j < i ==> bytes[j] == data@[pos + j],
        decreases 32 - i,
    {
        bytes[i] = data[pos + i];
        i += 1;
    }
    proof {
        assert(data@.skip(pos as int).skip(32) =~= data@.skip(pos + 32));
        assert(bytes@ =~= data@.skip(pos as int).take(32));
        lemma_array_of(bytes);
    }
    Some((Address { bytes }, pos + 32))
}

pub(crate) fn read_option_u8(data: &[u8], pos: usize) -> (r: Option<(Option<u8>, usize)>)
    requires
        pos <= data@.len(),
    ensures
        match r {
            Some((v, next)) => next <= data@.len() && parse_option_u8(data@.skip(pos as int))
                == Some((v, data@.skip(next as int))),
            None => parse_option_u8(data@.skip(pos as int)) is None,
        },
{
    match read_u8(data, pos) {
        Some((0, next)) => Some((None, next)),
        Some((1, next)) => match read_u8(data, next) {
            Some((x, after)) => Some((Some(x), after)),
            None => None,
        },
        _ => None,
    }
}

pub(crate) fn read_option_u64(data: &[u8], pos: usize) -> (r: Option<(Option<u64>, usize)>)
    requires
        pos <= data@.len(),
    ensures
        match r {
            Some((v, next)) => next <= data@.len() && parse_option_u64(data@.skip(pos as int))
                == Some((v, data@.skip(next as int))),
            None => parse_option_u64(data@.skip(pos as int)) is None,
        },
{
    match read_u8(data, pos) {
        Some((0, next)) => Some((None, next)),
        Some((1, next)) => match read_u64(data, next) {
            Some((x, after)) => Some((Some(x), after)),
            None => None,
        },
        _ => None,
    }
}

pub(crate) fn read_option_address(data: &[u8], pos: usize) -> (r: Option<(Option<Address>, usize)>)
    requires
        pos <= data@.len(),
    ensures
        match r {
            Some((v, next)) => next <= data@.len() && parse_option_address(
                data@.skip(pos as int),
            ) == Some((v, data@.skip(next as int))),
            None => parse_option_address(data@.skip(pos as int)) is None,
        },
{
    match read_u8(data, pos) {
        Some((0, next)) => Some((None, next)),
        Some((1, next)) => match read_address(data, next) {
            Some((x, after)) => Some((Some(x), after)),
            None => None,
        },
        _ => None,
    }
}

pub(crate) fn read_bytes(data: &[u8], pos: usize) -> (r: Option<(Vec<u8>, usize)>)
    requires
        pos <= data@.len(),
    ensures
        match r {
            Some((v, next)) => next <= data@.len() && parse_bytes(data@.skip(pos as int)) == Some(
                (v@, data@.skip(next as int)),
            ),
            None => parse_bytes(data@.skip(pos as int)) is None,
        },
{
    match read_u32(data, pos) {
        Some((n, start)) => {
            if data.len() - start < n as usize {
                return None;
            }
            let end = start + n as usize;
            let v = copy_range(data, start, end);
            proof {
                assert(data@.skip(start as int).take(n as int) =~= v@);
                assert(data@.skip(start as int).skip(n as int) =~= data@.skip(end as int));
            }
            Some((v, end))
        },
        None => None,
    }
}

/// Turns bytes into the string they spell.
///
/// This is `String::from_utf8` of the standard library: it succeeds exactly on
/// valid UTF-8, and the string then holds the very bytes it was given.
#[verifier::external_body]
fn string_from_utf8(bytes: Vec<u8>) -> (r: Option<String>)
    ensures
        r is Some <==> valid_utf8(bytes@),
        r matches Some(s) ==> encode_utf8(s@) == bytes@,
{
    match String::from_utf8(bytes) {
        Ok(s) => Some(s),
        Err(_) => None,
    }
}

pub(crate) fn read_string(data: &[u8], pos: usize) -> (r: Option<(String, usize)>)
    requires
        pos <= data@.len(),
    ensures
        match r {
            Some((v, next)) => next <= data@.len() && parse_string(data@.skip(pos as int))
                == Some((v@, data@.skip(next as int))),
            None => parse_string(data@.skip(pos as int)) is None,
        },
{
    match read_bytes(data, pos) {
        Some((raw, next)) => {
            match string_from_utf8(raw) {
                Some(s) => {
                    proof {
                        encode_utf8_decode_utf8(s@);
                    }
                    Some((s, next))
                },
                None => None,
            }
        },
        None => None,
    }
}

pub(crate) fn read_option_string(data: &[u8], pos: usize) -> (r: Option<(Option<String>, usize)>)
    requires
        pos <= data@.len(),
    ensures
        match r {
            Some((v, next)) => next <= data@.len() && parse_option_string(
                data@.skip(pos as int),
            ) == Some((option_string_view(v), data@.skip(next as int))),
            None => parse_option_string(data@.skip(pos as int)) is None,
        },
{
    match read_u8(data, pos) {
        Some((0, next)) => Some((None, next)),
        Some((1, next)) => match read_string(data, next) {
            Some((x, after)) => Some((Some(x), after)),
            None => None,
        },
        _ => None,
    }
}

/// Appends an optional string, or nothing where the string has no serial
/// form.
pub(crate) fn put_option_string(out: &mut Vec<u8>, v: &Option<String>) -> (r: bool)
    ensures
        r == (v matches Some(s) ==> encode_utf8(s@).len() <= u32::MAX),
        r ==> final(out)@ == old(out)@ + ser_option_string(option_string_view(*v)),
        !r ==> final(out)@ == old(out)@,
{
    match v {
        None => {
            out.push(0u8);
            assert(out@ =~= old(out)@ + ser_option_string(None));
            true
        },
        Some(x) => {
            if x.as_str().as_bytes().len() > u32::MAX as usize {
                return false;
            }
            out.push(1u8);
            let ok = put_string(out, x.as_str());
            assert(out@ =~= old(out)@ + ser_option_string(Some(x@)));
            ok
        },
    }
}

/// An optional string as a mathematical value.
pub open spec fn option_string_view(v: Option<String>) -> Option<Seq<char>> {
    match v {
        Some(s) => Some(s@),
        None => None,
    }
}

pub(crate) fn read_addresses(data: &[u8], pos: usize) -> (r: Option<(Vec<Address>, usize)>)
    requires
        pos <= data@.len(),
    ensures
        match r {
            Some((v, next)) => next <= data@.len() && parse_addresses(data@.skip(pos as int))
                == Some((v@, data@.skip(next as int))),
            None => parse_addresses(data@.skip(pos as int)) is None,
        },
{
    match read_u32(data, pos) {
        Some((n, start)) => {
            if (data.len() - start) / 32 < n as usize {
                return None;
            }
            let ghost rest = data@.skip(start as int);
            let mut out: Vec<Address> = Vec::new();
            let mut i: usize = 0;
            let mut at: usize = start;
            while i < n as usize
                invariant
                    i <= n,
                    start + 32 * n <= data@.len(),
                    at == start + 32 * i,
                    rest == data@.skip(start as int),
                    out@.len() == i,
                    forall|j: int|
                        0 <= j < i ==> out@[j] == address_of(
                            #[trigger] rest.subrange(32 * j, 32 * j + 32),
                        ),
                decreases n - i,
            {
                match read_address(data, at) {
                    Some((a, next)) => {
                        proof {
                            assert(data@.skip(at as int).take(32) =~= rest.subrange(
                                32 * i,
                                32 * i + 32,
                            ));
                        }
                        out.push(a);
                        at = next;
                    },
                    None => {
                        return None;
                    },
                }
                i += 1;
            }
            proof {
                assert(rest.skip(32 * n) =~= data@.skip(at as int));
                assert(out@ =~= Seq::new(
                    n as nat,
                    |i: int| address_of(rest.subrange(32 * i, 32 * i + 32)),
                ));
            }
            Some((out, at))
        },
        None => None,
    }
}

} // verus!
