//! Account addresses and the fixed addresses of the programs involved.
use vstd::prelude::*;

verus! {

/// Address of this program.
pub const ID: [u8; 32] = [
    0, 24, 60, 105, 184, 73, 7, 199, 252, 7, 108, 251, 155, 83, 161, 83,
    167, 102, 226, 68, 184, 31, 248, 62, 238, 178, 79, 87, 120, 228, 126, 172,
];

/// Address of the system program, the owner of every account that no program has claimed.
pub const SYSTEM_PROGRAM_ID: [u8; 32] = [
    0, 0, 0, 0, 0, 0, 0, 0, 0, 0, 0, 0, 0, 0, 0, 0,
    0, 0, 0, 0, 0, 0, 0, 0, 0, 0, 0, 0, 0, 0, 0, 0,
];

/// Address of the token program, the owner of every mint.
pub const TOKEN_PROGRAM_ID: [u8; 32] = [
    6, 221, 246, 225, 215, 101, 161, 147, 217, 203, 225, 70, 206, 235, 121, 172,
    28, 180, 133, 237, 95, 91, 55, 145, 58, 140, 245, 133, 126, 255, 0, 169,
];

/// Address of the token metadata program, the owner of every token metadata record.
pub const TOKEN_METADATA_PROGRAM_ID: [u8; 32] = [
    11, 112, 101, 177, 227, 209, 124, 69, 56, 157, 82, 127, 107, 4, 195, 205,
    88, 184, 108, 115, 26, 160, 253, 181, 73, 182, 209, 188, 3, 248, 41, 70,
];

/// A 32-byte account address.
#[derive(Clone, Copy, Debug, Eq)]
pub struct Address {
    pub bytes: [u8; 32],
}

impl View for Address {
    type V = Seq<u8>;

    open spec fn view(&self) -> Seq<u8> {
        self.bytes@
    }
}

impl PartialEq for Address {
    fn eq(&self, other: &Address) -> (r: bool) {
        self.has_bytes(&other.bytes)
    }
}

impl vstd::std_specs::cmp::PartialEqSpecImpl for Address {
    open spec fn obeys_eq_spec() -> bool {
        true
    }

    open spec fn eq_spec(&self, other: &Address) -> bool {
        *self == *other
    }
}

impl Default for Address {
    fn default() -> (r: Address)
        ensures
            r == system_program_id(),
    {
        Address { bytes: SYSTEM_PROGRAM_ID }
    }
}

impl Address {
    /// The address made of `bytes`.
    pub fn new(bytes: [u8; 32]) -> (r: Address)
        ensures
            r.bytes == bytes,
    {
        Address { bytes }
    }

    /// Whether this address is made of exactly `bytes`.
    pub fn has_bytes(&self, bytes: &[u8; 32]) -> (r: bool)
        ensures
            r == (self.bytes == *bytes),
    {
        let mut i: usize = 0;
        while i < 32
            invariant
                i <= 32,
                forall|j: int| 0 <= j < i ==> self.bytes[j] == bytes[j],
            decreases 32 - i,
        {
            if self.bytes[i] != bytes[i] {
                return false;
            }
            i += 1;
        }
        assert(self.bytes =~= *bytes);
        true
    }

    /// The 32 bytes as a vector, the form in which an address enters a seed list.
    pub fn to_vec(&self) -> (r: Vec<u8>)
        ensures
            r@ == self@,
    {
        let mut out: Vec<u8> = Vec::new();
        let mut i: usize = 0;
        while i < 32
            invariant
                i <= 32,
                out@ == self.bytes@.subrange(0, i as int),
            decreases 32 - i,
        {
            out.push(self.bytes[i]);
            i += 1;
        }
        out
    }
}

/// The address read from exactly 32 bytes.
pub open spec fn address_of(bytes: Seq<u8>) -> Address
    recommends
        bytes.len() == 32,
{
    Address { bytes: array_of::<32>(bytes) }
}

/// The array of `N` bytes that holds `bytes`.
pub closed spec fn array_of<const N: usize>(bytes: Seq<u8>) -> [u8; N] {
    choose|a: [u8; N]| a@ == bytes
}

/// An array of bytes is determined by its contents.
pub proof fn lemma_array_of<const N: usize>(a: [u8; N])
    ensures
        array_of::<N>(a@) == a,
{
    let b = choose|b: [u8; N]| b@ == a@;
    assert(b =~= a);
}

pub open spec fn spec_program_id() -> Address {
    Address { bytes: ID }
}

/// Address of this program.
#[verifier::when_used_as_spec(spec_program_id)]
pub fn program_id() -> (r: Address)
    ensures
        r == spec_program_id(),
{
    Address { bytes: ID }
}

pub open spec fn spec_system_program_id() -> Address {
    Address { bytes: SYSTEM_PROGRAM_ID }
}

/// Address of the system program.
#[verifier::when_used_as_spec(spec_system_program_id)]
pub fn system_program_id() -> (r: Address)
    ensures
        r == spec_system_program_id(),
{
    Address { bytes: SYSTEM_PROGRAM_ID }
}

pub open spec fn spec_token_program_id() -> Address {
    Address { bytes: TOKEN_PROGRAM_ID }
}

/// Address of the token program.
#[verifier::when_used_as_spec(spec_token_program_id)]
pub fn token_program_id() -> (r: Address)
    ensures
        r == spec_token_program_id(),
{
    Address { bytes: TOKEN_PROGRAM_ID }
}

pub open spec fn spec_token_metadata_program_id() -> Address {
    Address { bytes: TOKEN_METADATA_PROGRAM_ID }
}

/// Address of the token metadata program.
#[verifier::when_used_as_spec(spec_token_metadata_program_id)]
pub fn token_metadata_program_id() -> (r: Address)
    ensures
        r == spec_token_metadata_program_id(),
{
    Address { bytes: TOKEN_METADATA_PROGRAM_ID }
}

/// This program is not the system program: an account that it owns is never
/// mistaken for an unclaimed one.
pub proof fn lemma_program_is_not_system()
    ensures
        program_id() != system_program_id(),
{
    assert(ID[1] == 24);
    assert(SYSTEM_PROGRAM_ID[1] == 0);
}

} // verus!
