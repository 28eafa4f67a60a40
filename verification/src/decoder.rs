//! BMP structural decoding.
//!
//! The header phase reads the fixed-offset BMP/DIB header fields and derives
//! row padding and image size; only uncompressed 24-bit-per-pixel images are
//! accepted. The pixel phase walks the pixel array, reading one BGR pixel per
//! 3-byte stride and skipping the padding that aligns each stored row to a
//! 4-byte boundary. Pixels are kept in BMP's bottom-up storage order; the
//! vertical flip is left to the renderer.

use vstd::arithmetic::div_mod::lemma_fundamental_div_mod_converse;
use vstd::arithmetic::mul::lemma_mul_inequality;
use vstd::prelude::*;
use crate::pixel::Pixel;
use crate::read_bytes::{read_uint16_le, read_uint32_le, spec_u16_le, spec_u32_le};

verus! {

pub const SIGNATURE_OFFSET: usize = 0;

pub const FILE_SIZE_OFFSET: usize = 2;

pub const PIXEL_ARRAY_OFFSET_OFFSET: usize = 10;

pub const DIB_HEADER_SIZE_OFFSET: usize = 14;

pub const IMAGE_WIDTH_OFFSET: usize = 18;

pub const IMAGE_HEIGHT_OFFSET: usize = 22;

pub const PLANES_OFFSET: usize = 26;

pub const BITS_PER_PIXEL_OFFSET: usize = 28;

pub const COMPRESSION_OFFSET: usize = 30;

pub const IMAGE_SIZE_OFFSET: usize = 34;

/// The least buffer length that holds every fixed-offset header field.
pub const HEADER_BYTES: usize = 38;

/// The bit depth this decoder supports: 8 bits for each of three channels.
pub const SUPPORTED_BITS_PER_PIXEL: u16 = 24;

/// Failure of a BMP decode.
#[derive(Clone, Copy, Debug, PartialEq, Eq, Structural)]
pub enum BmpDecodeError {
    /// The buffer is too short for the header fields or the pixel array.
    InsufficientBytes,
    /// The image's bits-per-pixel is not 24.
    UnsupportedFormat,
}

/// The header fields the decoder reads, plus the derived image size.
#[derive(Clone, Copy, Debug, PartialEq, Eq, Structural)]
pub struct BmpHeader {
    pub file_size: u32,
    pub pixel_array_offset: u32,
    pub image_width: u32,
    pub image_height: u32,
    pub bits_per_pixel: u16,
    /// The declared image size, or `bytes_per_row * height` when declared 0.
    pub image_size: u128,
}

/// Bytes appended to each stored pixel row to align it to 4 bytes.
pub open spec fn spec_padding(w: int) -> int {
    (3 * w) % 4
}

/// Length in bytes of one stored pixel row, padding included.
pub open spec fn spec_bytes_per_row(w: int) -> int {
    3 * w + spec_padding(w)
}

/// The image size: the declared value when nonzero, else the pixel array's
/// computed extent.
pub open spec fn spec_image_size(declared: int, w: int, h: int) -> int {
    if declared != 0 {
        declared
    } else {
        spec_bytes_per_row(w) * h
    }
}

pub open spec fn spec_file_size(bytes: Seq<u8>) -> u32 {
    spec_u32_le(bytes, FILE_SIZE_OFFSET as int)
}

pub open spec fn spec_pixel_array_offset(bytes: Seq<u8>) -> u32 {
    spec_u32_le(bytes, PIXEL_ARRAY_OFFSET_OFFSET as int)
}

pub open spec fn spec_image_width(bytes: Seq<u8>) -> u32 {
    spec_u32_le(bytes, IMAGE_WIDTH_OFFSET as int)
}

pub open spec fn spec_image_height(bytes: Seq<u8>) -> u32 {
    spec_u32_le(bytes, IMAGE_HEIGHT_OFFSET as int)
}

pub open spec fn spec_bits_per_pixel(bytes: Seq<u8>) -> u16 {
    spec_u16_le(bytes, BITS_PER_PIXEL_OFFSET as int)
}

pub open spec fn spec_declared_image_size(bytes: Seq<u8>) -> u32 {
    spec_u32_le(bytes, IMAGE_SIZE_OFFSET as int)
}

/// The header value decoded from `bytes`, field by field.
pub open spec fn spec_header(bytes: Seq<u8>) -> BmpHeader {
    BmpHeader {
        file_size: spec_file_size(bytes),
        pixel_array_offset: spec_pixel_array_offset(bytes),
        image_width: spec_image_width(bytes),
        image_height: spec_image_height(bytes),
        bits_per_pixel: spec_bits_per_pixel(bytes),
        image_size: spec_image_size(
            spec_declared_image_size(bytes) as int,
            spec_image_width(bytes) as int,
            spec_image_height(bytes) as int,
        ) as u128,
    }
}

/// Reads the fixed-offset BMP/DIB header fields.
///
/// Fails with `InsufficientBytes` exactly when the buffer cannot hold every
/// header field, and with `UnsupportedFormat` exactly when the bits-per-pixel
/// field is not 24.
pub fn decode_header(bytes: &[u8]) -> (r: Result<BmpHeader, BmpDecodeError>)
    ensures
        bytes@.len() < HEADER_BYTES ==> r == Err::<BmpHeader, BmpDecodeError>(
            BmpDecodeError::InsufficientBytes,
        ),
        bytes@.len() >= HEADER_BYTES && spec_bits_per_pixel(bytes@) != SUPPORTED_BITS_PER_PIXEL
            ==> r == Err::<BmpHeader, BmpDecodeError>(BmpDecodeError::UnsupportedFormat),
        bytes@.len() >= HEADER_BYTES && spec_bits_per_pixel(bytes@) == SUPPORTED_BITS_PER_PIXEL
            ==> r == Ok::<BmpHeader, BmpDecodeError>(spec_header(bytes@)),
{
    if bytes.len() < HEADER_BYTES {
        return Err(BmpDecodeError::InsufficientBytes);
    }
    let bits_per_pixel = match read_uint16_le(bytes, BITS_PER_PIXEL_OFFSET) {
        Ok(v) => v,
        Err(_) => {
            return Err(BmpDecodeError::InsufficientBytes);
        },
    };
    if bits_per_pixel != SUPPORTED_BITS_PER_PIXEL {
        return Err(BmpDecodeError::UnsupportedFormat);
    }
    let file_size = match read_uint32_le(bytes, FILE_SIZE_OFFSET) {
        Ok(v) => v,
        Err(_) => {
            return Err(BmpDecodeError::InsufficientBytes);
        },
    };
    let pixel_array_offset = match read_uint32_le(bytes, PIXEL_ARRAY_OFFSET_OFFSET) {
        Ok(v) => v,
        Err(_) => {
            return Err(BmpDecodeError::InsufficientBytes);
        },
    };
    let image_width = match read_uint32_le(bytes, IMAGE_WIDTH_OFFSET) {
        Ok(v) => v,
        Err(_) => {
            return Err(BmpDecodeError::InsufficientBytes);
        },
    };
    let image_height = match read_uint32_le(bytes, IMAGE_HEIGHT_OFFSET) {
        Ok(v) => v,
        Err(_) => {
            return Err(BmpDecodeError::InsufficientBytes);
        },
    };
    let declared_image_size = match read_uint32_le(bytes, IMAGE_SIZE_OFFSET) {
        Ok(v) => v,
        Err(_) => {
            return Err(BmpDecodeError::InsufficientBytes);
        },
    };
    let three_w: u64 = 3 * (image_width as u64);
    let bytes_per_row: u64 = three_w + three_w % 4;
    proof {
        assert((bytes_per_row as int) * (image_height as int) < 0x100000000000000000000000000000000)
            by (nonlinear_arith)
            requires
                0 <= (bytes_per_row as int) < 0x10000000000,
                0 <= (image_height as int) < 0x100000000,
        ;
    }
    let image_size: u128 = if declared_image_size != 0 {
        declared_image_size as u128
    } else {
        (bytes_per_row as u128) * (image_height as u128)
    };
    Ok(
        BmpHeader {
            file_size,
            pixel_array_offset,
            image_width,
            image_height,
            bits_per_pixel,
            image_size,
        },
    )
}

/// An ordered pixel sequence in BMP's bottom-up storage order: the pixel at
/// index `row * width + col` belongs to stored row `row`, where stored row 0
/// is the visually bottom row.
pub struct DecodedImage {
    pub width: u32,
    pub height: u32,
    pub pixels: Vec<Pixel>,
}

impl DecodedImage {
    /// The pixel sequence covers exactly `width * height` pixels.
    pub open spec fn wf(self) -> bool {
        self.pixels@.len() == self.width as int * self.height as int
    }
}

/// Offset in the buffer of the `j`-th decoded pixel (storage order), given
/// the pixel array's start and the image width.
pub open spec fn spec_pixel_offset(pao: int, w: int, j: int) -> int
    recommends
        w > 0,
{
    pao + (j / w) * spec_bytes_per_row(w) + 3 * (j % w)
}

/// The BGR-ordered pixel stored at `off` in `bytes`.
pub open spec fn spec_pixel_at(bytes: Seq<u8>, off: int) -> Pixel {
    Pixel { r: bytes[off + 2], g: bytes[off + 1], b: bytes[off] }
}

/// Holds when `bytes` decodes without error: the header fields fit, the bit
/// depth is 24, and (unless the image is empty) the buffer covers the whole
/// padded pixel array.
pub open spec fn spec_decode_ok(bytes: Seq<u8>) -> bool {
    &&& bytes.len() >= HEADER_BYTES
    &&& spec_bits_per_pixel(bytes) == SUPPORTED_BITS_PER_PIXEL
    &&& (spec_image_width(bytes) as int * spec_image_height(bytes) as int == 0
        || spec_pixel_array_offset(bytes) + spec_image_height(bytes) as int * spec_bytes_per_row(
        spec_image_width(bytes) as int,
    ) <= bytes.len())
}

/// The error a failing decode of `bytes` reports.
pub open spec fn spec_decode_err(bytes: Seq<u8>) -> BmpDecodeError {
    if bytes.len() >= HEADER_BYTES && spec_bits_per_pixel(bytes) != SUPPORTED_BITS_PER_PIXEL {
        BmpDecodeError::UnsupportedFormat
    } else {
        BmpDecodeError::InsufficientBytes
    }
}

/// The full pixel sequence a decode of `bytes` yields, in storage order:
/// pixel `j` is the BGR triple at its computed offset, row padding skipped.
pub open spec fn spec_decoded_pixels(bytes: Seq<u8>) -> Seq<Pixel> {
    Seq::new(
        (spec_image_width(bytes) as int * spec_image_height(bytes) as int) as nat,
        |j: int|
            spec_pixel_at(
                bytes,
                spec_pixel_offset(
                    spec_pixel_array_offset(bytes) as int,
                    spec_image_width(bytes) as int,
                    j,
                ),
            ),
    )
}

/// Relates a successful decode's result to the input buffer: the dimensions
/// come from the header and the pixels are exactly [`spec_decoded_pixels`].
pub open spec fn spec_decoded(bytes: Seq<u8>, img: DecodedImage) -> bool {
    &&& img.width == spec_image_width(bytes)
    &&& img.height == spec_image_height(bytes)
    &&& img.pixels@ == spec_decoded_pixels(bytes)
}

/// Decodes a complete BMP buffer into an ordered pixel sequence.
///
/// Succeeds exactly on buffers that hold the full header, declare 24
/// bits-per-pixel, and (for a nonempty image) cover the whole padded pixel
/// array; the result's every pixel is pinned to its source bytes by
/// [`spec_decoded`]. A zero-width or zero-height image yields an empty
/// sequence.
pub fn decode(bytes: &[u8]) -> (r: Result<DecodedImage, BmpDecodeError>)
    ensures
        r matches Ok(img) ==> spec_decode_ok(bytes@) && spec_decoded(bytes@, img),
        r matches Err(e) ==> !spec_decode_ok(bytes@) && e == spec_decode_err(bytes@),
{
    let header = match decode_header(bytes) {
        Ok(h) => h,
        Err(e) => {
            return Err(e);
        },
    };
    let w = header.image_width;
    let h = header.image_height;
    let pao = header.pixel_array_offset;
    proof {
        assert((w as int) * (h as int) < 0x10000000000000000) by (nonlinear_arith)
            requires
                0 <= (w as int) < 0x100000000,
                0 <= (h as int) < 0x100000000,
        ;
    }
    let total_u64: u64 = (w as u64) * (h as u64);
    if total_u64 == 0 {
        let pixels: Vec<Pixel> = Vec::new();
        proof {
            assert(pixels@ =~= spec_decoded_pixels(bytes@));
        }
        return Ok(DecodedImage { width: w, height: h, pixels });
    }
    let three_w: u64 = 3 * (w as u64);
    let bpr: u64 = three_w + three_w % 4;
    proof {
        assert((h as int) * (bpr as int) < 0x1000000000000000000000000000000) by (nonlinear_arith)
            requires
                0 <= (h as int) < 0x100000000,
                0 <= (bpr as int) < 0x10000000000,
        ;
    }
    let end: u128 = (pao as u128) + (h as u128) * (bpr as u128);
    if end > (bytes.len() as u128) {
        return Err(BmpDecodeError::InsufficientBytes);
    }
    proof {
        assert(3 * (w as int * h as int) <= h as int * bpr as int) by (nonlinear_arith)
            requires
                bpr as int >= 3 * w as int,
                h as int >= 0,
                w as int >= 0,
        ;
    }
    proof {
        assert((w as int) > 0 && (h as int) > 0) by (nonlinear_arith)
            requires
                (w as int) * (h as int) > 0,
                (w as int) >= 0,
                (h as int) >= 0,
        ;
    }
    let total: usize = total_u64 as usize;
    let padding: usize = (three_w % 4) as usize;
    let w_cols: usize = w as usize;
    let mut pixels: Vec<Pixel> = Vec::new();
    let mut i: usize = 0;
    let mut row: usize = 0;
    let mut col: usize = 0;
    let mut cursor: usize = pao as usize;
    while i < total
        invariant
            w as int > 0,
            h as int > 0,
            w_cols == w as int,
            total == w as int * h as int,
            padding == spec_padding(w as int),
            bpr == spec_bytes_per_row(w as int),
            pao as int + h as int * bpr as int <= bytes@.len(),
            i <= total,
            i == row * w as int + col,
            0 <= col < w as int,
            row <= h as int,
            cursor == pao as int + row * bpr as int + 3 * col,
            pixels@.len() == i,
            forall|j: int|
                0 <= j < i ==> pixels@[j] == spec_pixel_at(
                    bytes@,
                    spec_pixel_offset(pao as int, w as int, j),
                ),
        decreases total - i,
    {
        proof {
            assert(row < h as int) by (nonlinear_arith)
                requires
                    i == row * w as int + col,
                    0 <= col < w as int,
                    i < w as int * h as int,
                    w as int > 0,
                    row >= 0,
            ;
            lemma_mul_inequality(row as int + 1, h as int, bpr as int);
            assert((row + 1) * bpr as int == row * bpr as int + bpr as int) by (nonlinear_arith);
        }
        let b = bytes[cursor];
        let g = bytes[cursor + 1];
        let red = bytes[cursor + 2];
        pixels.push(Pixel { r: red, g, b });
        proof {
            lemma_fundamental_div_mod_converse(i as int, w as int, row as int, col as int);
        }
        i = i + 1;
        cursor = cursor + 3;
        col = col + 1;
        if col == w_cols {
            cursor = cursor + padding;
            col = 0;
            row = row + 1;
            proof {
                assert(row * w as int == (row - 1) * w as int + w as int) by (nonlinear_arith);
                assert(row * bpr as int == (row - 1) * bpr as int + bpr as int)
                    by (nonlinear_arith);
            }
        }
    }
    proof {
        assert(pixels@ =~= spec_decoded_pixels(bytes@));
    }
    Ok(DecodedImage { width: w, height: h, pixels })
}

} // verus!
