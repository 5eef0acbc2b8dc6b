//! Turning the bytes of an image file into a texture ready for upload:
//! 8-bit RGBA pixels, row by row, with a size that a graphics API takes.

use vstd::prelude::*;

verus! {

#[verifier::external_type_specification]
#[verifier::external_body]
pub struct ExImageError(image::ImageError);

/// Pixels decoded from an image file: 8-bit RGBA, row by row.
pub struct DecodedImage {
    pub width: u32,
    pub height: u32,
    pub pixels: Vec<u8>,
}

/// The width and height of the image that the bytes `b` of a file hold, or
/// `None` when the file cannot be decoded. Only the size is named: the pixel
/// values a decoder yields may differ from one machine to another.
pub uninterp spec fn rgba8_size(b: Seq<u8>) -> Option<(u32, u32)>;

/// Relies on `image::load_from_memory`, which recognises the format from the
/// bytes and decodes them, and on `DynamicImage::to_rgba8` with
/// `ImageBuffer::into_raw`, which give its pixels as RGBA, four bytes each.
#[verifier::external_body]
fn decode_rgba8(bytes: &[u8]) -> (r: Result<DecodedImage, image::ImageError>)
    ensures
        match r {
            Ok(d) => rgba8_size(bytes@) == Some((d.width, d.height)) && d.pixels@.len() == 4 * d.width
                * d.height,
            Err(_) => rgba8_size(bytes@) is None,
        },
{
    match image::load_from_memory(bytes) {
        Ok(img) => {
            let rgba = img.to_rgba8();
            Ok(DecodedImage { width: rgba.width(), height: rgba.height(), pixels: rgba.into_raw() })
        },
        Err(e) => Err(e),
    }
}

/// A texture ready for upload: its size as the signed integers a graphics
/// API takes, and at least one pixel.
pub struct Texture {
    pub width: i32,
    pub height: i32,
    pub pixels: Vec<u8>,
}

/// Why an image cannot become a texture.
#[derive(Debug, Clone, Copy, PartialEq, Eq, Structural)]
pub enum TextureError {
    /// The bytes are not an image in a known format.
    Decode,
    /// The image has no pixels.
    Empty,
    /// A side is longer than `i32::MAX`.
    TooLarge,
}

/// What becomes of a decoded image of the given size.
pub open spec fn texture_check(width: u32, height: u32) -> Option<TextureError> {
    if width == 0 || height == 0 {
        Some(TextureError::Empty)
    } else if width > i32::MAX || height > i32::MAX {
        Some(TextureError::TooLarge)
    } else {
        None
    }
}

/// Makes a texture of decoded pixels.
pub fn texture_from_rgba8(width: u32, height: u32, pixels: Vec<u8>) -> (r: Result<Texture, TextureError>)
    ensures
        match texture_check(width, height) {
            Some(e) => r == Err::<Texture, TextureError>(e),
            None => r matches Ok(t) && t.width == width && t.height == height && t.pixels@ == pixels@,
        },
{
    if width == 0 || height == 0 {
        Err(TextureError::Empty)
    } else if width > 0x7FFF_FFFFu32 || height > 0x7FFF_FFFFu32 {
        Err(TextureError::TooLarge)
    } else {
        Ok(Texture { width: width as i32, height: height as i32, pixels })
    }
}

/// Decodes the bytes of an image file into a texture of four bytes per
/// pixel.
pub fn texture_from_file_bytes(bytes: &[u8]) -> (r: Result<Texture, TextureError>)
    ensures
        match rgba8_size(bytes@) {
            None => r == Err::<Texture, TextureError>(TextureError::Decode),
            Some((w, h)) => match texture_check(w, h) {
                Some(e) => r == Err::<Texture, TextureError>(e),
                None => r matches Ok(t) && t.width == w && t.height == h && t.pixels@.len() == 4 * w
                    * h,
            },
        },
{
    match decode_rgba8(bytes) {
        Err(_) => Err(TextureError::Decode),
        Ok(d) => texture_from_rgba8(d.width, d.height, d.pixels),
    }
}

} // verus!
