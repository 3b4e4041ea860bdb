//! Why an image could not be prepared.

use vstd::prelude::*;

verus! {

/// A failure to turn one file into a pixel buffer. The display loop answers
/// each of them by skipping to the next path.
#[derive(Debug)]
pub enum DecodeError {
    /// The file could not be opened or decoded; the text is the decoder's own.
    Open(String),
    /// The image was decoded but does not hold three 8-bit channels per pixel.
    RgbParse,
}

impl DecodeError {
    /// The text shown for this error.
    pub fn message(&self) -> (text: String)
        ensures
            self matches DecodeError::Open(detail) ==> text@ == detail@,
            self is RgbParse ==> text@ == "Failed to parse image file as RGB8"@,
    {
        match self {
            DecodeError::Open(detail) => detail.clone(),
            DecodeError::RgbParse => "Failed to parse image file as RGB8".to_owned(),
        }
    }
}

/// A failure that ends the display loop.
#[derive(Clone, Copy, Debug, PartialEq, Eq, Structural)]
pub enum PipelineError {
    /// The catalog holds no path.
    EmptyCatalog,
    /// Every path of the catalog failed to decode, one after the other.
    Exhausted,
    /// The worker sent a message that cannot follow what it was asked.
    Protocol,
}

impl PipelineError {
    /// The text shown for this error.
    pub fn message(&self) -> (text: String)
        ensures
            text@ == match self {
                PipelineError::EmptyCatalog => "No image file found"@,
                PipelineError::Exhausted => "Failed to read all of found images"@,
                PipelineError::Protocol => "Received invalid message from image buffer function"@,
            },
    {
        match self {
            PipelineError::EmptyCatalog => "No image file found".to_owned(),
            PipelineError::Exhausted => "Failed to read all of found images".to_owned(),
            PipelineError::Protocol => {
                "Received invalid message from image buffer function".to_owned()
            },
        }
    }
}

/// Why a directory yields no catalog. Each of these ends the program before
/// the display loop starts.
#[derive(Debug)]
pub enum ImageFilepathError {
    /// The path does not name a directory.
    InvalidDirectory,
    /// The directory's name cannot be written as UTF-8 text.
    InvalidCharset,
    /// The scan pattern is malformed; the text says where and why.
    InvalidGlobPattern(String),
    /// No file of the directory is a usable image.
    NoImageFileFound,
}

impl ImageFilepathError {
    /// The text shown for this error.
    pub fn message(&self) -> (text: String)
        ensures
            text@ == match self {
                ImageFilepathError::InvalidDirectory => "Invalid directory path"@,
                ImageFilepathError::InvalidCharset => "Use UTF-8 for photo directory name"@,
                ImageFilepathError::InvalidGlobPattern(fault) => fault@,
                ImageFilepathError::NoImageFileFound => "No image file found"@,
            },
    {
        match self {
            ImageFilepathError::InvalidDirectory => "Invalid directory path".to_owned(),
            ImageFilepathError::InvalidCharset => "Use UTF-8 for photo directory name".to_owned(),
            ImageFilepathError::InvalidGlobPattern(fault) => fault.clone(),
            ImageFilepathError::NoImageFileFound => "No image file found".to_owned(),
        }
    }
}

} // verus!
