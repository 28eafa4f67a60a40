//! Little-endian integer extraction from a raw byte buffer.
//!
//! Each reader assembles a fixed-width unsigned integer from consecutive
//! bytes starting at a caller-supplied offset. A buffer shorter than the
//! field width is rejected; offsets themselves are the caller's
//! responsibility, derived from the fixed BMP header layout.

use vstd::prelude::*;

verus! {

/// Failure of a fixed-width field read.
#[derive(Clone, Copy, Debug, PartialEq, Eq, Structural)]
pub enum ReadBytesError {
    /// The buffer is shorter than the width of the requested field.
    NotEnoughBytes,
}

/// The 16-bit little-endian value stored at `offset` in `bytes`.
pub open spec fn spec_u16_le(bytes: Seq<u8>, offset: int) -> u16 {
    (bytes[offset + 1] as u16) << 8 | (bytes[offset] as u16)
}

/// The 32-bit little-endian value stored at `offset` in `bytes`.
pub open spec fn spec_u32_le(bytes: Seq<u8>, offset: int) -> u32 {
    (bytes[offset + 3] as u32) << 24 | (bytes[offset + 2] as u32) << 16 | (bytes[offset + 1]
        as u32) << 8 | (bytes[offset] as u32)
}

/// Reads the 16-bit little-endian integer at `offset`.
///
/// Fails exactly when the whole buffer is shorter than two bytes.
pub fn read_uint16_le(bytes: &[u8], offset: usize) -> (r: Result<u16, ReadBytesError>)
    requires
        bytes@.len() >= 2 ==> offset + 2 <= bytes@.len(),
    ensures
        r matches Ok(v) ==> bytes@.len() >= 2 && v == spec_u16_le(bytes@, offset as int),
        r matches Err(e) ==> bytes@.len() < 2 && e == ReadBytesError::NotEnoughBytes,
{
    if bytes.len() < 2 {
        return Err(ReadBytesError::NotEnoughBytes);
    }
    let result = (bytes[offset + 1] as u16) << 8 | (bytes[offset] as u16);
    Ok(result)
}

/// Reads the 32-bit little-endian integer at `offset`.
///
/// Fails exactly when the whole buffer is shorter than four bytes.
pub fn read_uint32_le(bytes: &[u8], offset: usize) -> (r: Result<u32, ReadBytesError>)
    requires
        bytes@.len() >= 4 ==> offset + 4 <= bytes@.len(),
    ensures
        r matches Ok(v) ==> bytes@.len() >= 4 && v == spec_u32_le(bytes@, offset as int),
        r matches Err(e) ==> bytes@.len() < 4 && e == ReadBytesError::NotEnoughBytes,
{
    if bytes.len() < 4 {
        return Err(ReadBytesError::NotEnoughBytes);
    }
    let result = (bytes[offset + 3] as u32) << 24 | (bytes[offset + 2] as u32) << 16 | (bytes[offset
        + 1] as u32) << 8 | (bytes[offset] as u32);
    Ok(result)
}

} // verus!
