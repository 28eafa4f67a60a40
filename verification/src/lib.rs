//! Decodes uncompressed 24-bit BMP images and renders them as ASCII art.
//!
//! The pipeline: a raw byte buffer is parsed into header fields
//! ([`read_bytes`], [`decoder`]), the padded bottom-up pixel array is walked
//! into an ordered pixel sequence ([`decoder`], [`pixel`]), and each pixel's
//! brightness is mapped to a glyph of a palette, laid out in rows terminated
//! by line breaks ([`renderer`]). A user-supplied palette string is parsed by
//! [`char_map`].

pub mod char_map;
pub mod decoder;
pub mod pixel;
pub mod read_bytes;
pub mod renderer;
