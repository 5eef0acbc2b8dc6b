//! The layout of an uncompressed BMP image, read from its 54-byte header.

use vstd::prelude::*;

verus! {

/// The length of the file and info headers of a BMP image.
pub const BMP_HEADER_LEN: usize = 54;

/// Where the pixel data of a BMP image starts, how many bytes it spans, and
/// the image's size in pixels.
#[derive(Debug, Clone, Copy, PartialEq, Eq, Structural)]
pub struct BmpLayout {
    pub data_offset: u64,
    pub data_len: u64,
    pub width: u32,
    pub height: u32,
}

/// Why a header was not read.
#[derive(Debug, Clone, Copy, PartialEq, Eq, Structural)]
pub enum BmpError {
    /// Fewer than 54 bytes.
    ShortHeader,
    /// The header does not start with `BM`.
    NotBmp,
}

/// The little-endian unsigned 32-bit integer at `b[at..at + 4]`.
pub open spec fn le_u32(b: Seq<u8>, at: int) -> nat {
    b[at] as nat + 256 * (b[at + 1] as nat) + 65536 * (b[at + 2] as nat) + 16777216 * (b[at + 3] as nat)
}

/// The magnitude of the two's-complement 32-bit integer whose bits are `v`.
pub open spec fn magnitude_i32(v: nat) -> nat {
    if v >= 0x8000_0000 {
        (0x1_0000_0000 - v) as nat
    } else {
        v
    }
}

/// The layout that a header gives. The pixel data starts at the offset at
/// byte 10, or right after the header when that is 0; it spans the size at
/// byte 34, or three bytes per pixel when that is 0. Width and height are
/// the magnitudes of the signed integers at bytes 18 and 22.
pub open spec fn bmp_layout_of(h: Seq<u8>) -> Result<BmpLayout, BmpError> {
    if h.len() < BMP_HEADER_LEN {
        Err(BmpError::ShortHeader)
    } else if h[0] != 66u8 || h[1] != 77u8 {
        Err(BmpError::NotBmp)
    } else {
        let width = magnitude_i32(le_u32(h, 18));
        let height = magnitude_i32(le_u32(h, 22));
        Ok(
            BmpLayout {
                data_offset: if le_u32(h, 10) == 0 {
                    BMP_HEADER_LEN as u64
                } else {
                    le_u32(h, 10) as u64
                },
                data_len: if le_u32(h, 34) == 0 {
                    (width * height * 3) as u64
                } else {
                    le_u32(h, 34) as u64
                },
                width: width as u32,
                height: height as u32,
            },
        )
    }
}

/// Reads the little-endian unsigned 32-bit integer at `b[at..at + 4]`.
pub fn read_le_u32(b: &[u8], at: usize) -> (r: u32)
    requires
        at + 4 <= b@.len(),
    ensures
        r == le_u32(b@, at as int),
{
    b[at] as u32 + 256 * (b[at + 1] as u32) + 65536 * (b[at + 2] as u32) + 16777216 * (b[at + 3] as u32)
}

fn magnitude(v: u32) -> (r: u32)
    ensures
        r == magnitude_i32(v as nat),
{
    if v >= 0x8000_0000 {
        (0xFFFF_FFFFu32 - v) + 1
    } else {
        v
    }
}

/// Reads the layout of a BMP image from the start of its file.
pub fn bmp_layout(header: &[u8]) -> (r: Result<BmpLayout, BmpError>)
    ensures
        r == bmp_layout_of(header@),
{
    if header.len() < BMP_HEADER_LEN {
        return Err(BmpError::ShortHeader);
    }
    if header[0] != 66u8 || header[1] != 77u8 {
        return Err(BmpError::NotBmp);
    }
    let offset = read_le_u32(header, 10);
    let size = read_le_u32(header, 34);
    let width = magnitude(read_le_u32(header, 18));
    let height = magnitude(read_le_u32(header, 22));
    let data_offset: u64 = if offset == 0 {
        BMP_HEADER_LEN as u64
    } else {
        offset as u64
    };
    let data_len: u64 = if size == 0 {
        assert((width as nat) * (height as nat) * 3 <= 0x8000_0000nat * 0x8000_0000nat * 3) by (nonlinear_arith)
            requires
                width <= 0x8000_0000u32,
                height <= 0x8000_0000u32,
        ;
        width as u64 * height as u64 * 3
    } else {
        size as u64
    };
    Ok(BmpLayout { data_offset, data_len, width, height })
}

} // verus!
