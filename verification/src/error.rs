//! Errors of the inscription programs and of the host they run on.
use vstd::prelude::*;

verus! {

/// What a check of this program can find wrong.
#[derive(Clone, Copy, Debug, PartialEq, Eq, Structural)]
pub enum MplInscriptionError {
    /// The account passed in was already initialized.
    AlreadyInitialized,
    /// The account passed isn't initialized.
    NotInitialized,
    /// The key for the JSON metadata account is invalid.
    MetadataDerivedKeyInvalid,
    /// The system program account is invalid.
    InvalidSystemProgram,
    /// The JSON data is invalid.
    InvalidJson,
    /// Borsh failed to serialize this account.
    BorshSerializeError,
    /// Borsh failed to deserialize this account.
    BorshDeserializeError,
    /// The payer does not have authority to perform this action.
    InvalidAuthority,
    /// Numerical overflow.
    NumericalOverflow,
    /// Incorrect owner.
    IncorrectOwner,
    /// Mint mismatch between metadata and mint accounts.
    MintMismatch,
    /// Must be a non-fungible token.
    InvalidTokenStandard,
    /// Not enough tokens in the provided token account.
    NotEnoughTokens,
    /// The address of an account is not the one its seeds derive.
    DerivedKeyInvalid,
    /// The authority is already in the list.
    AuthorityAlreadyExists,
    /// The shard account is not a shard record of this program.
    InvalidShardAccount,
    /// The metadata account is not of the kind the operation needs.
    InvalidInscriptionMetadataAccount,
    /// An association tag must not be empty.
    AssociationTagCannotBeBlank,
    /// An association tag is at most 32 bytes long.
    AssociationTagTooLong,
    /// The delegate record is not the one derived for this delegate.
    InvalidDelegate,
}

impl MplInscriptionError {
    /// The number under which the host reports this error.
    pub open spec fn spec_code(self) -> u32 {
        match self {
            MplInscriptionError::AlreadyInitialized => 0,
            MplInscriptionError::NotInitialized => 1,
            MplInscriptionError::MetadataDerivedKeyInvalid => 2,
            MplInscriptionError::InvalidSystemProgram => 3,
            MplInscriptionError::InvalidJson => 4,
            MplInscriptionError::BorshSerializeError => 5,
            MplInscriptionError::BorshDeserializeError => 6,
            MplInscriptionError::InvalidAuthority => 7,
            MplInscriptionError::NumericalOverflow => 8,
            MplInscriptionError::IncorrectOwner => 9,
            MplInscriptionError::MintMismatch => 10,
            MplInscriptionError::InvalidTokenStandard => 11,
            MplInscriptionError::NotEnoughTokens => 12,
            MplInscriptionError::DerivedKeyInvalid => 13,
            MplInscriptionError::AuthorityAlreadyExists => 14,
            MplInscriptionError::InvalidShardAccount => 15,
            MplInscriptionError::InvalidInscriptionMetadataAccount => 16,
            MplInscriptionError::AssociationTagCannotBeBlank => 17,
            MplInscriptionError::AssociationTagTooLong => 18,
            MplInscriptionError::InvalidDelegate => 19,
        }
    }

    /// The number under which the host reports this error.
    #[verifier::when_used_as_spec(spec_code)]
    pub fn code(self) -> (r: u32)
        ensures
            r == self.spec_code(),
    {
        match self {
            MplInscriptionError::AlreadyInitialized => 0,
            MplInscriptionError::NotInitialized => 1,
            MplInscriptionError::MetadataDerivedKeyInvalid => 2,
            MplInscriptionError::InvalidSystemProgram => 3,
            MplInscriptionError::InvalidJson => 4,
            MplInscriptionError::BorshSerializeError => 5,
            MplInscriptionError::BorshDeserializeError => 6,
            MplInscriptionError::InvalidAuthority => 7,
            MplInscriptionError::NumericalOverflow => 8,
            MplInscriptionError::IncorrectOwner => 9,
            MplInscriptionError::MintMismatch => 10,
            MplInscriptionError::InvalidTokenStandard => 11,
            MplInscriptionError::NotEnoughTokens => 12,
            MplInscriptionError::DerivedKeyInvalid => 13,
            MplInscriptionError::AuthorityAlreadyExists => 14,
            MplInscriptionError::InvalidShardAccount => 15,
            MplInscriptionError::InvalidInscriptionMetadataAccount => 16,
            MplInscriptionError::AssociationTagCannotBeBlank => 17,
            MplInscriptionError::AssociationTagTooLong => 18,
            MplInscriptionError::InvalidDelegate => 19,
        }
    }

    /// The error reported under `code`, if there is one.
    pub fn from_code(code: u32) -> (r: Option<MplInscriptionError>)
        ensures
            match r {
                Some(e) => e.code() == code,
                None => forall|e: MplInscriptionError| e.code() != code,
            },
    {
        match code {
            0 => Some(MplInscriptionError::AlreadyInitialized),
            1 => Some(MplInscriptionError::NotInitialized),
            2 => Some(MplInscriptionError::MetadataDerivedKeyInvalid),
            3 => Some(MplInscriptionError::InvalidSystemProgram),
            4 => Some(MplInscriptionError::InvalidJson),
            5 => Some(MplInscriptionError::BorshSerializeError),
            6 => Some(MplInscriptionError::BorshDeserializeError),
            7 => Some(MplInscriptionError::InvalidAuthority),
            8 => Some(MplInscriptionError::NumericalOverflow),
            9 => Some(MplInscriptionError::IncorrectOwner),
            10 => Some(MplInscriptionError::MintMismatch),
            11 => Some(MplInscriptionError::InvalidTokenStandard),
            12 => Some(MplInscriptionError::NotEnoughTokens),
            13 => Some(MplInscriptionError::DerivedKeyInvalid),
            14 => Some(MplInscriptionError::AuthorityAlreadyExists),
            15 => Some(MplInscriptionError::InvalidShardAccount),
            16 => Some(MplInscriptionError::InvalidInscriptionMetadataAccount),
            17 => Some(MplInscriptionError::AssociationTagCannotBeBlank),
            18 => Some(MplInscriptionError::AssociationTagTooLong),
            19 => Some(MplInscriptionError::InvalidDelegate),
            _ => None,
        }
    }

    /// The sentence that describes this error to a user.
    pub open spec fn spec_message(self) -> Seq<char> {
        match self {
            MplInscriptionError::AlreadyInitialized => "The account has already been initialized"@,
            MplInscriptionError::NotInitialized => "The account has not yet been initialized"@,
            MplInscriptionError::MetadataDerivedKeyInvalid => "The key for the JSON metadata account is invalid."@,
            MplInscriptionError::InvalidSystemProgram => "The system program account is invalid."@,
            MplInscriptionError::InvalidJson => "The JSON data is invalid."@,
            MplInscriptionError::BorshSerializeError => "Borsh failed to serialize this account."@,
            MplInscriptionError::BorshDeserializeError => "Borsh failed to deserialize this account."@,
            MplInscriptionError::InvalidAuthority => "The payer does not have authority to perform this action."@,
            MplInscriptionError::NumericalOverflow => "Numerical Overflow"@,
            MplInscriptionError::IncorrectOwner => "Incorrect Owner"@,
            MplInscriptionError::MintMismatch => "Mint Mismatch between Metadata and Mint Accounts."@,
            MplInscriptionError::InvalidTokenStandard => "Must be a NonFungible Token"@,
            MplInscriptionError::NotEnoughTokens => "Not enough tokens in the provided token account."@,
            MplInscriptionError::DerivedKeyInvalid => "The derived key of the account is invalid."@,
            MplInscriptionError::AuthorityAlreadyExists => "The authority already exists."@,
            MplInscriptionError::InvalidShardAccount => "The shard account is invalid."@,
            MplInscriptionError::InvalidInscriptionMetadataAccount => "The inscription metadata account is invalid."@,
            MplInscriptionError::AssociationTagCannotBeBlank => "The association tag cannot be blank."@,
            MplInscriptionError::AssociationTagTooLong => "The association tag is too long."@,
            MplInscriptionError::InvalidDelegate => "The delegate record is invalid."@,
        }
    }

    /// The sentence that describes this error to a user.
    pub fn message(self) -> (r: &'static str)
        ensures
            r@ == self.spec_message(),
    {
        match self {
            MplInscriptionError::AlreadyInitialized => "The account has already been initialized",
            MplInscriptionError::NotInitialized => "The account has not yet been initialized",
            MplInscriptionError::MetadataDerivedKeyInvalid => "The key for the JSON metadata account is invalid.",
            MplInscriptionError::InvalidSystemProgram => "The system program account is invalid.",
            MplInscriptionError::InvalidJson => "The JSON data is invalid.",
            MplInscriptionError::BorshSerializeError => "Borsh failed to serialize this account.",
            MplInscriptionError::BorshDeserializeError => "Borsh failed to deserialize this account.",
            MplInscriptionError::InvalidAuthority => "The payer does not have authority to perform this action.",
            MplInscriptionError::NumericalOverflow => "Numerical Overflow",
            MplInscriptionError::IncorrectOwner => "Incorrect Owner",
            MplInscriptionError::MintMismatch => "Mint Mismatch between Metadata and Mint Accounts.",
            MplInscriptionError::InvalidTokenStandard => "Must be a NonFungible Token",
            MplInscriptionError::NotEnoughTokens => "Not enough tokens in the provided token account.",
            MplInscriptionError::DerivedKeyInvalid => "The derived key of the account is invalid.",
            MplInscriptionError::AuthorityAlreadyExists => "The authority already exists.",
            MplInscriptionError::InvalidShardAccount => "The shard account is invalid.",
            MplInscriptionError::InvalidInscriptionMetadataAccount => "The inscription metadata account is invalid.",
            MplInscriptionError::AssociationTagCannotBeBlank => "The association tag cannot be blank.",
            MplInscriptionError::AssociationTagTooLong => "The association tag is too long.",
            MplInscriptionError::InvalidDelegate => "The delegate record is invalid.",
        }
    }
}

/// Why an instruction failed. Every failure is final: the host drops whatever
/// the instruction had changed.
#[derive(Clone, Copy, Debug, PartialEq, Eq, Structural)]
pub enum ProgramError {
    /// A check of this program failed; the number is the error's code.
    Custom(u32),
    /// An account that has to sign the transaction did not.
    MissingRequiredSignature,
    /// The instruction came with fewer accounts than it has roles.
    NotEnoughAccountKeys,
    /// Bytes that have to hold a record or an instruction do not.
    BorshIoError,
    /// An account was asked to grow by more than the host allows in one instruction.
    InvalidRealloc,
    /// The program does not carry out the instruction.
    InvalidInstructionData,
}

impl From<MplInscriptionError> for ProgramError {
    fn from(e: MplInscriptionError) -> (r: ProgramError) {
        ProgramError::Custom(e.code())
    }
}

impl vstd::std_specs::convert::FromSpecImpl<MplInscriptionError> for ProgramError {
    open spec fn obeys_from_spec() -> bool {
        true
    }

    open spec fn from_spec(e: MplInscriptionError) -> ProgramError {
        ProgramError::Custom(e.code())
    }
}

/// The program error that reports `e`.
pub open spec fn custom(e: MplInscriptionError) -> ProgramError {
    ProgramError::Custom(e.code())
}

} // verus!
