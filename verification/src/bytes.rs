//! Little-endian numbers in a byte image, read with every bound checked.

use vstd::prelude::*;

verus! {

/// Whether the `len` bytes from `at` on all lie in `image`.
pub open spec fn holds(image: Seq<u8>, at: int, len: int) -> bool {
    0 <= at && 0 <= len && at + len <= image.len()
}

/// The 16-bit number whose low byte stands at `at`.
pub open spec fn u16_at(image: Seq<u8>, at: int) -> u16 {
    (image[at] as int + 256 * image[at + 1] as int) as u16
}

/// The 32-bit number whose lowest byte stands at `at`.
pub open spec fn u32_at(image: Seq<u8>, at: int) -> u32 {
    (image[at] as int + 256 * image[at + 1] as int + 65536 * image[at + 2] as int + 16777216
        * image[at + 3] as int) as u32
}

/// The bytes of `image` from `at` on, `len` of them.
pub open spec fn span(image: Seq<u8>, at: int, len: int) -> Seq<u8> {
    image.subrange(at, at + len)
}

/// Whether `len` bytes from `at` on lie in an image of `image_len` bytes.
pub fn fits(image_len: usize, at: u64, len: u64) -> (inside: bool)
    ensures
        inside == (at + len <= image_len),
{
    let total = image_len as u64;
    len <= total && at <= total - len
}

/// Reads the 16-bit number at `at`, if it lies in the image.
pub fn read_u16(image: &[u8], at: u64) -> (number: Option<u16>)
    ensures
        number == if holds(image@, at as int, 2) {
            Some(u16_at(image@, at as int))
        } else {
            None
        },
{
    if !fits(image.len(), at, 2) {
        return None;
    }
    let i = at as usize;
    Some(image[i] as u16 + image[i + 1] as u16 * 256)
}

/// Reads the 32-bit number at `at`, if it lies in the image.
pub fn read_u32(image: &[u8], at: u64) -> (number: Option<u32>)
    ensures
        number == if holds(image@, at as int, 4) {
            Some(u32_at(image@, at as int))
        } else {
            None
        },
{
    if !fits(image.len(), at, 4) {
        return None;
    }
    let i = at as usize;
    Some(
        image[i] as u32 + image[i + 1] as u32 * 256 + image[i + 2] as u32 * 65536 + image[i
            + 3] as u32 * 16777216,
    )
}

/// The bytes from `at` on, `len` of them, if they lie in the image.
pub fn slice_at(image: &[u8], at: u64, len: u32) -> (bytes: Option<&[u8]>)
    ensures
        bytes is Some <==> holds(image@, at as int, len as int),
        bytes is Some ==> bytes->Some_0@ == span(image@, at as int, len as int),
{
    if !fits(image.len(), at, len as u64) {
        return None;
    }
    let start = at as usize;
    let end = start + len as usize;
    Some(&image[start..end])
}

/// The 16-bit number at `at`, which lies in the image.
pub(crate) fn get_u16(image: &[u8], at: u64) -> (number: u16)
    requires
        holds(image@, at as int, 2),
    ensures
        number == u16_at(image@, at as int),
{
    let i = at as usize;
    image[i] as u16 + image[i + 1] as u16 * 256
}

/// The 32-bit number at `at`, which lies in the image.
pub(crate) fn get_u32(image: &[u8], at: u64) -> (number: u32)
    requires
        holds(image@, at as int, 4),
    ensures
        number == u32_at(image@, at as int),
{
    let i = at as usize;
    image[i] as u32 + image[i + 1] as u32 * 256 + image[i + 2] as u32 * 65536 + image[i
        + 3] as u32 * 16777216
}

} // verus!
