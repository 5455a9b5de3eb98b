use vstd::prelude::*;

use crate::io::magick::Error as MagickError;

verus! {

/// Enumerates possible errors
#[derive(Debug, PartialEq, Eq)]
pub enum Error {
    /// Pixel is out of bounds
    OutOfBounds(usize, usize),
    /// An image file cannot be opened
    UnableToOpenImage(String),
    /// An image file cannot be written
    UnableToWriteImage(String),
    /// Image data is invalid
    CannotReadImage(String),
    /// Invalid image dimensions: width, height, channels
    InvalidDimensions(usize, usize, usize),
    /// Colorspace conversion failed
    FailedColorConversion(String, String),
    /// Unable to write an additional image to a single image file
    MultipleImagesNotSupported(String),
    /// Invalid image data type
    InvalidType,
    /// Other errors, described by a message
    Message(String),
    /// Magick I/O error
    Magick(MagickError),
}

impl From<MagickError> for Error {
    fn from(e: MagickError) -> (r: Error) {
        Error::Magick(e)
    }
}

impl vstd::std_specs::convert::FromSpecImpl<MagickError> for Error {
    open spec fn obeys_from_spec() -> bool {
        true
    }

    open spec fn from_spec(e: MagickError) -> Error {
        Error::Magick(e)
    }
}

} // verus!
