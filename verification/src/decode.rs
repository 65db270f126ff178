//! Decoding the bytes of an image file.
//!
//! The work is done by the `image` crate. Nothing is proved of what it
//! decodes; what is proved is that a buffer it hands back is taken for an
//! image only where it holds one.

use crate::pixels::{PixelError, Pixels};
use vstd::prelude::*;

verus! {

/// The image formats that the `image` crate tells apart.
#[verifier::external_type_specification]
#[verifier::external_body]
pub struct ExImageFormat(image::ImageFormat);

/// An image as the `image` crate decodes it, in whatever colour type the
/// file has.
#[verifier::external_type_specification]
#[verifier::external_body]
pub struct ExDynamicImage(image::DynamicImage);

/// The errors of the `image` crate.
#[verifier::external_type_specification]
#[verifier::external_body]
pub struct ExImageError(image::ImageError);

/// Why the bytes of a file gave no image.
#[derive(Debug, Clone, Copy, PartialEq, Eq, Structural)]
pub enum DecodeError {
    /// The extension of the path names no image format.
    UnknownFormat,
    /// The bytes are not an image of the format that the path names.
    Undecodable,
    /// The decoder handed back a buffer that is no image.
    Malformed(PixelError),
}

/// Whether `image::ImageFormat::from_path` finds an image format for a path.
/// It looks the extension of the path up in a fixed table, without regard
/// to case, and reads nothing from disk.
pub uninterp spec fn names_format(path: Seq<char>) -> bool;

/// Calls `image::ImageFormat::from_path`, which finds the format by the
/// extension of the path and reads nothing from disk. The contract names
/// whether it finds one; nothing is claimed of the format it finds.
#[verifier::external_body]
fn format_of(path: &str) -> (format: Result<image::ImageFormat, image::ImageError>)
    ensures
        format is Ok <==> names_format(path@),
{
    image::ImageFormat::from_path(path)
}

/// Calls `image::load_from_memory_with_format`, which decodes the bytes as
/// an image of the given format. Nothing is claimed of what it decodes.
#[verifier::external_body]
fn load_with_format(bytes: &[u8], format: image::ImageFormat) -> (image: Result<
    image::DynamicImage,
    image::ImageError,
>) {
    image::load_from_memory_with_format(bytes, format)
}

/// Calls `image::DynamicImage::into_rgb8`, which converts the image to
/// eight-bit RGB, and takes the result apart into width, height and bytes.
/// Nothing is claimed of them.
#[verifier::external_body]
fn into_rgb8(image: image::DynamicImage) -> (raw: (u32, u32, Vec<u8>)) {
    let rgb = image.into_rgb8();
    (rgb.width(), rgb.height(), rgb.into_raw())
}

/// Takes what a decoder handed back for an image, if it is one.
pub fn accept(width: u32, height: u32, data: Vec<u8>) -> (image: Result<Pixels, DecodeError>)
    ensures
        match image {
            Ok(pixels) => {
                &&& pixels@.width == width
                &&& pixels@.height == height
                &&& pixels@.data == data@
                &&& pixels@.well_formed()
            },
            Err(DecodeError::Malformed(PixelError::Empty)) => width == 0 || height == 0,
            Err(DecodeError::Malformed(PixelError::SizeMismatch)) => {
                &&& width > 0
                &&& height > 0
                &&& data@.len() != 3 * width * height
            },
            Err(_) => false,
        },
{
    match Pixels::new(width, height, data) {
        Ok(pixels) => Ok(pixels),
        Err(error) => Err(DecodeError::Malformed(error)),
    }
}

/// Decodes the content of the image file at `path`. The format is the one
/// that the extension of the path names: a path that names none is refused
/// as `UnknownFormat`, whatever the bytes, and no other path is.
///
/// What the bytes of a known format decode to is the decoder's to say. It
/// picks its routines by the processor it runs on, so its result has no
/// name here; whatever it hands back, an image that `decode` gives is
/// well formed.
pub fn decode(path: &str, bytes: &[u8]) -> (image: Result<Pixels, DecodeError>)
    ensures
        image matches Err(DecodeError::UnknownFormat) <==> !names_format(path@),
        image matches Ok(pixels) ==> pixels@.well_formed(),
{
    let format = match format_of(path) {
        Ok(format) => format,
        Err(_) => {
            return Err(DecodeError::UnknownFormat);
        },
    };
    let decoded = match load_with_format(bytes, format) {
        Ok(decoded) => decoded,
        Err(_) => {
            return Err(DecodeError::Undecodable);
        },
    };
    let (width, height, data) = into_rgb8(decoded);
    accept(width, height, data)
}

} // verus!
