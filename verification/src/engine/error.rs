//! The single error value that every decoder reports.

use vstd::prelude::*;

verus! {

/// A module flavour that is recognised but cannot be played.
#[derive(PartialEq, Eq, Debug, Clone, Copy, Structural)]
pub enum Unsupported {
    /// An S3M instrument of AdLib type.
    AdLib,
    /// Sample data stored in a compressed form.
    CompressedSample,
    /// An STM "song" file, which carries no samples.
    StmSong,
    /// An STM file whose version is not one of the known 2.x releases.
    StmVersion,
}

/// Why a decoder rejected its input.
#[derive(PartialEq, Eq, Debug, Clone, Copy, Structural)]
pub enum LoadError {
    /// The magic bytes of the format are absent.
    InvalidSignature,
    /// The file is of a flavour that is not decoded.
    UnsupportedVariant(Unsupported),
    /// A required region reaches past the end of the input.
    Truncated,
    /// A count in the file is too large for the format's own arithmetic.
    OutOfRange,
}

impl LoadError {
    /// A one-line description fit for showing to a person.
    pub fn message(&self) -> (s: String)
        ensures
            s@ == self.spec_message(),
    {
        match self {
            LoadError::InvalidSignature => "File is not a valid module".to_string(),
            LoadError::UnsupportedVariant(Unsupported::AdLib) => "Adlib module detected".to_string(),
            LoadError::UnsupportedVariant(Unsupported::CompressedSample) => {
                "Compressed samples detected".to_string()
            },
            LoadError::UnsupportedVariant(Unsupported::StmSong) => {
                "STM songs are not supported".to_string()
            },
            LoadError::UnsupportedVariant(Unsupported::StmVersion) => {
                "Invalid STM version".to_string()
            },
            LoadError::Truncated => "Unexpected end of file".to_string(),
            LoadError::OutOfRange => "Value out of range".to_string(),
        }
    }

    /// The text that `message` returns.
    pub open spec fn spec_message(&self) -> Seq<char> {
        match self {
            LoadError::InvalidSignature => "File is not a valid module"@,
            LoadError::UnsupportedVariant(Unsupported::AdLib) => "Adlib module detected"@,
            LoadError::UnsupportedVariant(Unsupported::CompressedSample) => {
                "Compressed samples detected"@
            },
            LoadError::UnsupportedVariant(Unsupported::StmSong) => "STM songs are not supported"@,
            LoadError::UnsupportedVariant(Unsupported::StmVersion) => "Invalid STM version"@,
            LoadError::Truncated => "Unexpected end of file"@,
            LoadError::OutOfRange => "Value out of range"@,
        }
    }
}

} // verus!
