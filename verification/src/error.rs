//! The ways in which building, loading and resolving can fail.

use vstd::prelude::*;

verus! {

/// Why an operation of this library failed.
#[derive(Clone, Copy, Debug, PartialEq, Eq, Structural)]
pub enum DataError {
    /// The file does not end with the end magic: it holds no container.
    EndMagicNotFound,
    /// The trailing length field does not lead back to a start magic.
    StartMagicNotFound,
    /// A length field or the payload would lie outside the file.
    Truncated,
    /// A payload is longer than the hard limit, or is declared to be.
    SizeLimit,
    /// The compressor rejected its input.
    CompressionFailed,
    /// Stored bytes are not a valid compressed stream.
    DecompressionFailed,
    /// No entry of the tree matches the path.
    NotFound,
    /// A request URI does not begin with the protocol prefix.
    ForeignUri,
}

impl DataError {
    /// Whether the error says that the bytes at hand are not a well-formed
    /// container.
    pub open spec fn is_format(self) -> bool {
        self == DataError::EndMagicNotFound || self == DataError::StartMagicNotFound || self
            == DataError::Truncated
    }

    /// Whether the bytes at hand were not a well-formed container.
    pub fn is_format_error(&self) -> (b: bool)
        ensures
            b == self.is_format(),
    {
        match self {
            DataError::EndMagicNotFound => true,
            DataError::StartMagicNotFound => true,
            DataError::Truncated => true,
            _ => false,
        }
    }

    /// Whether the error is the one that a caller may answer by serving the
    /// index page instead.
    pub fn is_not_found(&self) -> (b: bool)
        ensures
            b == (*self == DataError::NotFound),
    {
        match self {
            DataError::NotFound => true,
            _ => false,
        }
    }

    /// A short description for diagnostics.
    pub fn message(&self) -> (text: &'static str)
        ensures
            text@ == self.message_text(),
    {
        match self {
            DataError::EndMagicNotFound => "MAGIC_NUMBER_END not found",
            DataError::StartMagicNotFound => "MAGIC_NUMBER_START not found",
            DataError::Truncated => "container is truncated",
            DataError::SizeLimit => "payload exceeds the size limit",
            DataError::CompressionFailed => "compression failed",
            DataError::DecompressionFailed => "stored data cannot be decompressed",
            DataError::NotFound => "file not found",
            DataError::ForeignUri => "protocol prefix is not found in the uri",
        }
    }

    /// The text that [`DataError::message`] returns.
    pub open spec fn message_text(self) -> Seq<char> {
        match self {
            DataError::EndMagicNotFound => "MAGIC_NUMBER_END not found"@,
            DataError::StartMagicNotFound => "MAGIC_NUMBER_START not found"@,
            DataError::Truncated => "container is truncated"@,
            DataError::SizeLimit => "payload exceeds the size limit"@,
            DataError::CompressionFailed => "compression failed"@,
            DataError::DecompressionFailed => "stored data cannot be decompressed"@,
            DataError::NotFound => "file not found"@,
            DataError::ForeignUri => "protocol prefix is not found in the uri"@,
        }
    }
}

/// A result that carries bytes, with the bytes as a sequence.
pub open spec fn bytes_result(r: Result<Vec<u8>, DataError>) -> Result<Seq<u8>, DataError> {
    match r {
        Ok(bytes) => Ok(bytes@),
        Err(e) => Err(e),
    }
}

} // verus!
