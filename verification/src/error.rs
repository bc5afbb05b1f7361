//! The ways a conversion or an extraction can fail.

use vstd::prelude::*;

verus! {

/// Why a snapshot could not be converted or a resource not extracted.
#[derive(Clone, Copy, Debug, PartialEq, Eq, Structural)]
pub enum Error {
    /// The input does not follow its format: a wrong signature, a header or
    /// a block cut short, a machine the format names but this crate does not
    /// know, sizes that do not fit the file.
    MalformedInput,
    /// A memory page that the target machine needs is not in the input.
    MissingRequiredPage,
    /// A compressed block is not a valid stream.
    DecompressionFailure,
    /// The compressor reported an error, or wrote a stream that does not
    /// decode to what went in.
    CompressionFailure,
    /// A compressed block is too long for the 32-bit size field of the
    /// trailer.
    BlockTooLarge,
}

impl Error {
    /// The error in words.
    pub open spec fn text(self) -> Seq<char> {
        match self {
            Error::MalformedInput => "input does not follow its format"@,
            Error::MissingRequiredPage => "a required memory page is missing"@,
            Error::DecompressionFailure => "compressed data does not decode"@,
            Error::CompressionFailure => "data could not be compressed"@,
            Error::BlockTooLarge => "a compressed block is too large for the trailer"@,
        }
    }

    /// The error in words.
    pub fn message(&self) -> (s: String)
        ensures
            s@ == self.text(),
    {
        match self {
            Error::MalformedInput => "input does not follow its format".to_string(),
            Error::MissingRequiredPage => "a required memory page is missing".to_string(),
            Error::DecompressionFailure => "compressed data does not decode".to_string(),
            Error::CompressionFailure => "data could not be compressed".to_string(),
            Error::BlockTooLarge => "a compressed block is too large for the trailer".to_string(),
        }
    }
}

} // verus!
