use mpl_inscription::error::{MplInscriptionError, ProgramError};

#[test]
fn codes() {
    assert_eq!(MplInscriptionError::AlreadyInitialized.code(), 0);
    assert_eq!(MplInscriptionError::NotInitialized.code(), 1);
    assert_eq!(MplInscriptionError::MetadataDerivedKeyInvalid.code(), 2);
    assert_eq!(MplInscriptionError::InvalidSystemProgram.code(), 3);
    assert_eq!(MplInscriptionError::InvalidJson.code(), 4);
    assert_eq!(MplInscriptionError::BorshSerializeError.code(), 5);
    assert_eq!(MplInscriptionError::BorshDeserializeError.code(), 6);
    assert_eq!(MplInscriptionError::InvalidAuthority.code(), 7);
    assert_eq!(MplInscriptionError::NumericalOverflow.code(), 8);
    assert_eq!(MplInscriptionError::IncorrectOwner.code(), 9);
    assert_eq!(MplInscriptionError::MintMismatch.code(), 10);
    assert_eq!(MplInscriptionError::InvalidTokenStandard.code(), 11);
    assert_eq!(MplInscriptionError::NotEnoughTokens.code(), 12);
}

#[test]
fn codes_are_read_back() {
    for code in 0..20u32 {
        let e = MplInscriptionError::from_code(code).unwrap();
        assert_eq!(e.code(), code);
        assert_eq!(ProgramError::from(e), ProgramError::Custom(code));
        assert!(!e.message().is_empty());
    }
    assert_eq!(MplInscriptionError::from_code(20), None);
    assert_eq!(MplInscriptionError::from_code(u32::MAX), None);
}

#[test]
fn messages() {
    assert_eq!(
        MplInscriptionError::AlreadyInitialized.message(),
        "The account has already been initialized"
    );
    assert_eq!(
        MplInscriptionError::NotInitialized.message(),
        "The account has not yet been initialized"
    );
    assert_eq!(MplInscriptionError::NumericalOverflow.message(), "Numerical Overflow");
    assert_eq!(MplInscriptionError::NotEnoughTokens.message(), "Not enough tokens in the provided token account.");
}
