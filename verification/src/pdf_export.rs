//! Page sizes of the PDF export, read from the PNG slides.
use vstd::prelude::*;

verus! {

/// The big-endian 32-bit number in the four bytes at `i`.
pub open spec fn be_u32(b: Seq<u8>, i: int) -> int {
    b[i] * 16777216 + b[i + 1] * 65536 + b[i + 2] * 256 + b[i + 3]
}

/// Extract width and height in pixels from raw PNG bytes without a full
/// decode: they are the two big-endian numbers that follow the 8-byte
/// signature and the IHDR chunk's length and name. Fewer than 24 bytes are
/// refused.
pub fn png_dimensions(bytes: &[u8]) -> (r: Result<(u32, u32), String>)
    ensures
        bytes@.len() < 24 ==> (r matches Err(m) && m@ == "PNG file too short"@),
        bytes@.len() >= 24 ==> (r matches Ok((w, h)) && w == be_u32(bytes@, 16) && h == be_u32(bytes@, 20)),
{
    if bytes.len() < 24 {
        return Err(String::from_str("PNG file too short"));
    }
    let w: u32 = (bytes[16] as u32) * 16777216 + (bytes[17] as u32) * 65536 + (bytes[18] as u32) * 256 + (bytes[19] as u32);
    let h: u32 = (bytes[20] as u32) * 16777216 + (bytes[21] as u32) * 65536 + (bytes[22] as u32) * 256 + (bytes[23] as u32);
    Ok((w, h))
}

} // verus!
