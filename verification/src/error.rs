//! Why a texture could not be converted.

use vstd::prelude::*;

verus! {

/// The ways in which the conversion of one texture fails. Every failure is
/// final for that texture and leaves other textures alone.
#[derive(Copy, Clone, PartialEq, Eq, Debug, Structural)]
pub enum ConvertError {
    /// The input path does not name a file.
    NotFound,
    /// The input is not an image that can be decoded: no pixels, or a
    /// pixel buffer that does not match its dimensions.
    DecodeError,
    /// No codec compresses into the requested format.
    UnsupportedFormat,
    /// A codec did its work and reported a failure.
    CodecFailure,
    /// The output file could not be created or written.
    IOError,
}

impl ConvertError {
    /// A short description for a log line.
    pub fn message(&self) -> (text: String)
        ensures
            text@ == match self {
                ConvertError::NotFound => "File was not found"@,
                ConvertError::DecodeError => "Failed to load image"@,
                ConvertError::UnsupportedFormat => "Unsupported target BCn format"@,
                ConvertError::CodecFailure => "Failed to compress texture"@,
                ConvertError::IOError => "Failed to write output file"@,
            },
    {
        match self {
            ConvertError::NotFound => "File was not found".to_owned(),
            ConvertError::DecodeError => "Failed to load image".to_owned(),
            ConvertError::UnsupportedFormat => "Unsupported target BCn format".to_owned(),
            ConvertError::CodecFailure => "Failed to compress texture".to_owned(),
            ConvertError::IOError => "Failed to write output file".to_owned(),
        }
    }
}

} // verus!
