//! Errors of the services and the gRPC status they answer with.
use vstd::prelude::*;

verus! {

/// Why hex text could not be decoded, as the `hex` crate reports it.
#[derive(Debug, Clone, Copy, PartialEq, Eq, Structural)]
pub enum HexError {
    /// The byte at `index` is no hex digit; `c` is that byte read as a char.
    InvalidHexCharacter { c: char, index: usize },
    /// The text has an odd number of bytes.
    OddLength,
    /// The text decodes to a number of bytes other than the one wanted.
    InvalidStringLength,
}

/// Why a JSON web token could not be made or checked.
#[derive(Debug, Clone, PartialEq, Eq)]
pub struct JwtFailure {
    /// The token was well formed and signed with the key, but has expired.
    pub expired: bool,
    /// What the JWT library says of the failure.
    pub message: String,
}

/// Errors of the services' set-up and of their token handling.
#[derive(Debug, Clone, PartialEq, Eq)]
pub enum Error {
    /// The environment variable with this name is not set.
    EnvVar(String),
    /// A gRPC transport failure, by its message.
    Tonic(String),
    /// A database failure, by its message.
    Postgres(String),
    /// A token could not be made or checked.
    Jwt(JwtFailure),
    /// Hex text could not be decoded.
    Hex(HexError),
}

/// The gRPC status codes that the services answer with.
#[derive(Debug, Clone, Copy, PartialEq, Eq, Structural)]
pub enum Code {
    Unknown,
    Internal,
    Unauthenticated,
    ResourceExhausted,
}

/// A gRPC error answer: a code and a message.
#[derive(Debug, Clone, PartialEq, Eq)]
pub struct Status {
    pub code: Code,
    pub message: String,
}

} // verus!
