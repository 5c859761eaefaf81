//! The ways in which a render can be refused.

use vstd::prelude::*;

verus! {

/// The error of the JSON parser.
#[verifier::external_type_specification]
#[verifier::external_body]
pub struct ExJsonError(serde_json::Error);

/// The error of `String::from_utf8`.
#[verifier::external_type_specification]
#[verifier::external_body]
pub struct ExFromUtf8Error(std::string::FromUtf8Error);

/// Why a render cannot go on.
#[derive(Debug)]
pub enum RenderError {
    /// Neither a global nor a bundled ffmpeg runs.
    FfmpegMissing,
    /// Hardware acceleration is asked for, and ffmpeg has no hardware HEVC encoder.
    NoHardwareEncoder,
    /// The codec listing of ffmpeg is not UTF-8.
    ListingEncoding(std::string::FromUtf8Error),
    /// The output path of the request is not a JSON string.
    OutputPath(serde_json::Error),
}

impl RenderError {
    /// The message that stands for the error: a key of the message catalogue, or the message
    /// itself where the catalogue has none. An error with a cause speaks through its cause.
    pub open spec fn text(self) -> Option<Seq<char>> {
        match self {
            RenderError::FfmpegMissing => Some("FFmpeg not found"@),
            RenderError::NoHardwareEncoder => Some("no-hwacc"@),
            RenderError::ListingEncoding(_) => None,
            RenderError::OutputPath(_) => None,
        }
    }

    /// Gives the message that stands for the error, unless its cause does.
    pub fn message(&self) -> (message: Option<&'static str>)
        ensures
            match message {
                Some(message) => self.text() == Some(message@),
                None => self.text() is None,
            },
    {
        match self {
            RenderError::FfmpegMissing => Some("FFmpeg not found"),
            RenderError::NoHardwareEncoder => Some("no-hwacc"),
            RenderError::ListingEncoding(_) => None,
            RenderError::OutputPath(_) => None,
        }
    }
}

} // verus!
