//! The version resource of a module: a header, a key, and behind the key the
//! fixed block that holds the file version as two 32-bit words.

use crate::bytes::{fits, get_u16, get_u32, holds, read_u16, u16_at, u32_at};
use crate::file_version::FileVersion;
use vstd::prelude::*;

verus! {

/// The first four bytes of a fixed-info block.
pub const FIXED_INFO_SIGNATURE: u32 = 0xFEEF_04BD;

/// The length of a fixed-info block.
pub const FIXED_INFO_LEN: u64 = 52;

/// Where, in the header of a version resource, the length of the value stands.
/// It is zero where the resource has no fixed-info block.
pub const VALUE_LEN_OFFSET: u64 = 2;

/// Where the key begins: behind the total length, the length of the value and
/// the type, 16 bits each.
pub const KEY_OFFSET: u64 = 6;

/// Where, in a fixed-info block, the more significant word of the file version
/// stands.
pub const FILE_VERSION_MS_OFFSET: u64 = 8;

/// Where, in a fixed-info block, the less significant word of the file version
/// stands.
pub const FILE_VERSION_LS_OFFSET: u64 = 12;

/// Where the 16-bit zero stands that ends the key: the first one at `from` or
/// an even number of bytes behind it; `None` where the resource ends before
/// one is met.
pub open spec fn key_end(resource: Seq<u8>, from: int) -> Option<int>
    decreases resource.len() - from,
{
    if !holds(resource, from, 2) {
        None
    } else if u16_at(resource, from) == 0 {
        Some(from)
    } else {
        key_end(resource, from + 2)
    }
}

/// The next multiple of four at or after `offset`.
pub open spec fn align4(offset: int) -> int {
    (offset + 3) / 4 * 4
}

/// Where the fixed-info block stands: behind the key and its ending zero, at
/// the next multiple of four. `None` where the header says that the value is
/// empty, where the key has no end, where the block does not lie in the
/// resource, or where it does not begin with its signature.
pub open spec fn fixed_info_offset(resource: Seq<u8>) -> Option<int> {
    if holds(resource, 0, KEY_OFFSET as int) && u16_at(resource, VALUE_LEN_OFFSET as int) != 0 {
        match key_end(resource, KEY_OFFSET as int) {
            Some(end) => if holds(resource, align4(end + 2), FIXED_INFO_LEN as int) && u32_at(
                resource,
                align4(end + 2),
            ) == FIXED_INFO_SIGNATURE {
                Some(align4(end + 2))
            } else {
                None
            },
            None => None,
        }
    } else {
        None
    }
}

/// The file version of the fixed-info block at `at` as one 64-bit number: the
/// more significant word, which comes first, in the low half and the less
/// significant word in the high half.
pub open spec fn file_version_bits(resource: Seq<u8>, at: int) -> u64 {
    (u32_at(resource, at + FILE_VERSION_MS_OFFSET) + 0x1_0000_0000 * u32_at(
        resource,
        at + FILE_VERSION_LS_OFFSET,
    )) as u64
}

/// The version packed in 64 bits: minor in bits 0 to 15, major in bits 16 to
/// 31, private in bits 32 to 47, build in bits 48 to 63.
pub open spec fn version_of_bits(bits: u64) -> FileVersion {
    FileVersion::full(
        ((bits / 0x1_0000) % 0x1_0000) as u32,
        (bits % 0x1_0000) as u32,
        (bits / 0x1_0000_0000_0000) as u32,
        ((bits / 0x1_0000_0000) % 0x1_0000) as u32,
    )
}

/// The version that a version resource holds in its fixed-info block, if it has
/// one.
pub open spec fn fixed_version(resource: Seq<u8>) -> Option<FileVersion> {
    match fixed_info_offset(resource) {
        Some(at) => Some(version_of_bits(file_version_bits(resource, at))),
        None => None,
    }
}

/// In terms of the two words: the major and minor numbers are the high and the
/// low half of the more significant word, the build and private numbers those
/// of the less significant word.
pub proof fn lemma_version_of_words(resource: Seq<u8>, at: int)
    ensures
        version_of_bits(file_version_bits(resource, at)) == FileVersion::full(
            u32_at(resource, at + FILE_VERSION_MS_OFFSET) / 0x1_0000,
            u32_at(resource, at + FILE_VERSION_MS_OFFSET) % 0x1_0000,
            u32_at(resource, at + FILE_VERSION_LS_OFFSET) / 0x1_0000,
            u32_at(resource, at + FILE_VERSION_LS_OFFSET) % 0x1_0000,
        ),
{
    let ms = u32_at(resource, at + FILE_VERSION_MS_OFFSET);
    let ls = u32_at(resource, at + FILE_VERSION_LS_OFFSET);
    let bits = file_version_bits(resource, at);
    assert(bits == ms + 0x1_0000_0000 * ls);
    assert(bits % 0x1_0000 == ms % 0x1_0000 && (bits / 0x1_0000) % 0x1_0000 == ms / 0x1_0000
        && bits / 0x1_0000_0000_0000 == ls / 0x1_0000 && (bits / 0x1_0000_0000) % 0x1_0000 == ls
        % 0x1_0000) by (nonlinear_arith)
        requires
            bits == ms + 0x1_0000_0000 * ls,
            0 <= ms < 0x1_0000_0000,
            0 <= ls < 0x1_0000_0000,
    ;
}

/// Unpacks a version from 64 bits by shifting and masking.
pub fn decode_version(bits: u64) -> (version: FileVersion)
    ensures
        version == version_of_bits(bits),
{
    let minor = (bits & 0xFFFF) as u32;
    let major = ((bits >> 16) & 0xFFFF) as u32;
    let private = ((bits >> 32) & 0xFFFF) as u32;
    let build = ((bits >> 48) & 0xFFFF) as u32;
    assert(bits & 0xFFFF == bits % 0x1_0000) by (bit_vector);
    assert((bits >> 16) & 0xFFFF == (bits / 0x1_0000) % 0x1_0000) by (bit_vector);
    assert((bits >> 32) & 0xFFFF == (bits / 0x1_0000_0000) % 0x1_0000) by (bit_vector);
    assert((bits >> 48) & 0xFFFF == bits / 0x1_0000_0000_0000) by (bit_vector);
    FileVersion::new(Some(major), Some(minor), Some(build), Some(private))
}

/// Puts the two words of a file version together.
fn pack_words(more_significant: u32, less_significant: u32) -> (bits: u64)
    ensures
        bits == more_significant + 0x1_0000_0000 * less_significant,
{
    let low = more_significant as u64;
    let high = less_significant as u64;
    assert(low | (high << 32) == low + 0x1_0000_0000 * high) by (bit_vector)
        requires
            low < 0x1_0000_0000,
            high < 0x1_0000_0000,
    ;
    low | (high << 32)
}

/// Finds the zero that ends the key.
fn find_key_end(resource: &[u8]) -> (end: Option<u64>)
    ensures
        end is Some <==> key_end(resource@, KEY_OFFSET as int) is Some,
        end is Some ==> end->Some_0 == key_end(resource@, KEY_OFFSET as int)->Some_0
            && end->Some_0 + 2 <= resource.len(),
{
    let mut at: u64 = KEY_OFFSET;
    loop
        invariant
            KEY_OFFSET <= at <= resource.len() + KEY_OFFSET,
            key_end(resource@, at as int) == key_end(resource@, KEY_OFFSET as int),
        decreases resource.len() + KEY_OFFSET - at,
    {
        match read_u16(resource, at) {
            None => {
                return None;
            },
            Some(unit) => {
                if unit == 0 {
                    return Some(at);
                }
            },
        }
        at += 2;
    }
}

/// Decodes the file version from the bytes of a version resource. A resource
/// without a fixed-info block, or with one that is cut short or does not carry
/// its signature, gives `None`.
pub fn decode_version_info(resource: &[u8]) -> (version: Option<FileVersion>)
    ensures
        version == fixed_version(resource@),
        version is Some ==> version->Some_0.is_full(),
{
    if !fits(resource.len(), 0, KEY_OFFSET) {
        return None;
    }
    if get_u16(resource, VALUE_LEN_OFFSET) == 0 {
        return None;
    }
    let end = match find_key_end(resource) {
        Some(end) => end,
        None => {
            return None;
        },
    };
    let key_len = end + 2;
    let padding = (4 - key_len % 4) % 4;
    assert(key_len + padding == align4(key_len as int));
    if !fits(resource.len(), key_len, padding + FIXED_INFO_LEN) {
        return None;
    }
    let block = key_len + padding;
    if get_u32(resource, block) != FIXED_INFO_SIGNATURE {
        return None;
    }
    Some(
        decode_version(
            pack_words(
                get_u32(resource, block + FILE_VERSION_MS_OFFSET),
                get_u32(resource, block + FILE_VERSION_LS_OFFSET),
            ),
        ),
    )
}

} // verus!
