//! Error types of the crate.

use vstd::prelude::*;

verus! {

/// The kind of an I/O failure that a byte source or sink reported.
#[derive(Debug, Clone, Copy, PartialEq, Eq, Structural)]
pub enum IoErrorKind {
    /// The source ended before the requested bytes were read.
    UnexpectedEof,
    /// A seek asked for a position that cannot be represented.
    InvalidInput,
    /// Any other failure of the underlying source or sink.
    Other,
}

/// The error type for this crate.
#[derive(Debug)]
pub enum Error {
    /// A stored checksum differs from the checksum of the stored bytes.
    ChecksumMismatch { expect: u32, found: u32 },
    /// The stream ended inside a length header.
    UnexpectedEof,
    /// A protocol-buffer message could not be decoded.
    ExampleDecodeError { desc: String },
    /// A protocol-buffer message could not be encoded.
    ExampleEncodeError { desc: String },
    /// The byte source or sink failed.
    IoError { kind: IoErrorKind },
    /// A value could not be converted.
    ConversionError { desc: String },
    /// An argument was rejected.
    InvalidArgumentsError { desc: String },
}

impl Error {
    /// A conversion error with the description.
    pub fn conversion(desc: String) -> (r: Self)
        ensures
            r == (Error::ConversionError { desc }),
    {
        Error::ConversionError { desc }
    }

    /// An error for a rejected argument with the description; it is
    /// reported as a conversion error.
    pub fn invalid_argument(desc: String) -> (r: Self)
        ensures
            r == (Error::ConversionError { desc }),
    {
        Error::ConversionError { desc }
    }
}

/// The result with error type defaults to [Error].
pub type Result<T, E = Error> = core::result::Result<T, E>;

} // verus!
