use vstd::prelude::*;

verus! {

/// The I/O error of the standard library, carried through unchanged.
#[verifier::external_type_specification]
#[verifier::external_body]
pub struct ExIoError(std::io::Error);

/// Errors reported while reading or building an HWP document.
#[derive(Debug)]
pub enum HwpError {
    InvalidFormat(String),
    UnsupportedVersion(String),
    Io(std::io::Error),
    Cfb(String),
    CompressionError(String),
    ParseError(String),
    EncodingError(String),
    NotFound(String),
    InvalidInput(String),
}

/// The error of a read that runs past the end of its data: the standard
/// library's `std::io::Error::from(std::io::ErrorKind::UnexpectedEof)`.
/// Nothing is promised of the value beyond its type.
#[verifier::external_body]
pub(crate) fn unexpected_eof() -> (e: std::io::Error) {
    std::io::Error::from(std::io::ErrorKind::UnexpectedEof)
}

} // verus!
