//! The failures that the operations of this library report.

use vstd::prelude::*;
use vstd::string::*;

verus! {

/// The kinds of failure.
#[derive(Debug, Clone, Copy, PartialEq, Eq, Structural)]
pub enum ErrorKind {
    /// A chunk type or a signature is malformed.
    Validation,
    /// A checksum is not the checksum of what it protects.
    Integrity,
    /// Data that was asked for as text is no text.
    Encoding,
    /// What was looked for is not there.
    NotFound,
    /// A length reaches past the end of the bytes.
    Boundary,
}

/// Why an operation on a chunk type, a chunk or a container failed.
#[derive(Debug, Clone, Copy, PartialEq, Eq, Structural)]
pub enum Error {
    /// Validation: a chunk type was given as a string that is not four bytes
    /// long.
    InvalidLength,
    /// Validation: a chunk type was given as a string with a character
    /// outside `A` to `Z` and `a` to `z`.
    NotAlphabetic,
    /// Validation: a chunk type was given as bytes of which one is not ASCII.
    NotAscii,
    /// Validation: a container does not begin with the eight bytes of the
    /// signature.
    BadSignature,
    /// Integrity: the checksum that a chunk stores is not the checksum of its
    /// type and data.
    CrcMismatch,
    /// Encoding: the data of a chunk is not UTF-8 text.
    InvalidUtf8,
    /// Not found: no chunk of the container has the type that was asked for.
    NotFound,
    /// Boundary: a chunk claims more bytes than there are.
    OutOfBounds,
}

impl Error {
    /// The kind of each failure.
    pub open spec fn spec_kind(&self) -> ErrorKind {
        match self {
            Error::InvalidLength => ErrorKind::Validation,
            Error::NotAlphabetic => ErrorKind::Validation,
            Error::NotAscii => ErrorKind::Validation,
            Error::BadSignature => ErrorKind::Validation,
            Error::CrcMismatch => ErrorKind::Integrity,
            Error::InvalidUtf8 => ErrorKind::Encoding,
            Error::NotFound => ErrorKind::NotFound,
            Error::OutOfBounds => ErrorKind::Boundary,
        }
    }

    /// The kind of this failure.
    #[verifier::when_used_as_spec(spec_kind)]
    pub fn kind(&self) -> (r: ErrorKind)
        ensures
            r == self.spec_kind(),
    {
        match self {
            Error::InvalidLength | Error::NotAlphabetic | Error::NotAscii | Error::BadSignature => {
                ErrorKind::Validation
            },
            Error::CrcMismatch => ErrorKind::Integrity,
            Error::InvalidUtf8 => ErrorKind::Encoding,
            Error::NotFound => ErrorKind::NotFound,
            Error::OutOfBounds => ErrorKind::Boundary,
        }
    }

    /// The message of each failure.
    pub open spec fn text(self) -> Seq<char> {
        match self {
            Error::InvalidLength => "Invalid chunk type length"@,
            Error::NotAlphabetic => "Not alphabetical characters"@,
            Error::NotAscii => "Bytes need to be in lower or upper-case ASCII"@,
            Error::BadSignature => "Invalid PNG signature"@,
            Error::CrcMismatch => "CRC not correct"@,
            Error::InvalidUtf8 => "Chunk data is not valid UTF-8"@,
            Error::NotFound => "Chunk type not found"@,
            Error::OutOfBounds => "Chunk reaches past the end of the bytes"@,
        }
    }

    /// The message of this failure.
    pub fn to_string(&self) -> (r: String)
        ensures
            r@ == self.text(),
    {
        match self {
            Error::InvalidLength => String::from_str("Invalid chunk type length"),
            Error::NotAlphabetic => String::from_str("Not alphabetical characters"),
            Error::NotAscii => String::from_str("Bytes need to be in lower or upper-case ASCII"),
            Error::BadSignature => String::from_str("Invalid PNG signature"),
            Error::CrcMismatch => String::from_str("CRC not correct"),
            Error::InvalidUtf8 => String::from_str("Chunk data is not valid UTF-8"),
            Error::NotFound => String::from_str("Chunk type not found"),
            Error::OutOfBounds => String::from_str("Chunk reaches past the end of the bytes"),
        }
    }
}

} // verus!
