//! The error kinds of identity and credential handling.

use vstd::prelude::*;

verus! {

#[verifier::external_type_specification]
#[verifier::external_body]
pub struct ExIoError(std::io::Error);

#[verifier::external_type_specification]
#[verifier::external_body]
pub struct ExArgon2Error(argon2::Error);

#[verifier::external_type_specification]
#[verifier::external_body]
pub struct ExPasswordHashError(argon2::password_hash::Error);

#[verifier::external_type_specification]
#[verifier::external_body]
pub struct ExRandError(rand::Error);

#[verifier::external_type_specification]
#[verifier::external_body]
pub struct ExDecodeError(rmp_serde::decode::Error);

#[verifier::external_type_specification]
#[verifier::external_body]
pub struct ExEncodeError(rmp_serde::encode::Error);

/// Why an identity could not be derived, loaded, created or stored.
#[derive(Debug)]
pub enum UserDataError {
    /// Another identity already uses the identifier.
    UserIDConflict,
    /// The name holds a character that is reserved in file names.
    InvalidCharInIdent,
    /// Reading a stored record failed for a reason other than its absence.
    UserDataLoadError(std::io::Error),
    /// Writing a record failed.
    UserDataSaveError(std::io::Error),
    /// The payload initialiser failed; its message.
    UserDataInitializeError(String),
    /// A credential record does not parse, or hashing failed.
    PasswordHashError(argon2::password_hash::Error),
    /// A stored credential record lacks one of its five parts, or names a
    /// lane count too long to check.
    CredentialFormatError,
    /// The configured cost parameters are out of range.
    Argon2Error(argon2::Error),
    /// No generator could be seeded for a fresh salt.
    RandomSourceError(rand::Error),
    /// A stored payload does not decode.
    MPackDecodeError(rmp_serde::decode::Error),
    /// A payload does not encode.
    MPackEncodeError(rmp_serde::encode::Error),
}

impl UserDataError {
    /// The text that introduces the error; the inner error's own text, if
    /// any, follows it.
    pub fn message_head(&self) -> (r: &'static str)
        ensures
            r@ == match self {
                UserDataError::UserIDConflict => "Userid Conflicted."@,
                UserDataError::InvalidCharInIdent => "Invalid charactor with in userid"@,
                UserDataError::UserDataLoadError(_) => "User data loading error: "@,
                UserDataError::UserDataSaveError(_) => "User data saving error: "@,
                UserDataError::UserDataInitializeError(_) => "User data initialize error: "@,
                UserDataError::PasswordHashError(_) => "Password hash reading error: "@,
                UserDataError::CredentialFormatError => "Credential record is malformed."@,
                UserDataError::Argon2Error(_) => "Argon2 hasher error: "@,
                UserDataError::RandomSourceError(_) => "Random source error: "@,
                UserDataError::MPackDecodeError(_) => "Message pack decode error: "@,
                UserDataError::MPackEncodeError(_) => "Message pack encode error: "@,
            },
    {
        match self {
            UserDataError::UserIDConflict => "Userid Conflicted.",
            UserDataError::InvalidCharInIdent => "Invalid charactor with in userid",
            UserDataError::UserDataLoadError(_) => "User data loading error: ",
            UserDataError::UserDataSaveError(_) => "User data saving error: ",
            UserDataError::UserDataInitializeError(_) => "User data initialize error: ",
            UserDataError::PasswordHashError(_) => "Password hash reading error: ",
            UserDataError::CredentialFormatError => "Credential record is malformed.",
            UserDataError::Argon2Error(_) => "Argon2 hasher error: ",
            UserDataError::RandomSourceError(_) => "Random source error: ",
            UserDataError::MPackDecodeError(_) => "Message pack decode error: ",
            UserDataError::MPackEncodeError(_) => "Message pack encode error: ",
        }
    }
}

} // verus!
