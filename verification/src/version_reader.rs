//! The file version of a PE image, read from its bytes: headers, then the
//! resource tree, then the fixed block of the version resource.

use crate::bytes::{holds, span, u16_at, u32_at};
use crate::file_version::FileVersion;
use crate::pe_header::{
    is_pe_image, parse_headers, pe_layout, PeLayout, DOS_HEADER_LEN, DOS_MAGIC, FILE_HEADER_END,
    PE32_MAGIC, PE64_MAGIC, PE_POINTER_OFFSET, PE_SIGNATURE,
};
use crate::resources::{
    entry_count, find_version_resource, has_no_entry, lemma_entry_with_id_none,
    resource_directory, version_resource, RT_VERSION,
};
use crate::version_info::{
    decode_version_info, fixed_info_offset, fixed_version, lemma_version_of_words,
    FILE_VERSION_LS_OFFSET, FILE_VERSION_MS_OFFSET,
};
use vstd::prelude::*;

verus! {

/// The version in the version resource of a PE image with the given layout.
pub open spec fn version_in(image: Seq<u8>, layout: PeLayout) -> Option<FileVersion> {
    match version_resource(image, layout) {
        Some((offset, len)) => fixed_version(span(image, offset, len)),
        None => None,
    }
}

/// The file version of an image: `None` where it is no PE image, has no
/// resources or no version resource among them, where that resource has no
/// fixed-info block, or where any of these points outside the image.
pub open spec fn image_version(image: Seq<u8>) -> Option<FileVersion> {
    match pe_layout(image) {
        Some(layout) => version_in(image, layout),
        None => None,
    }
}

/// Reads the version from the version resource of a PE image whose headers
/// gave `layout`.
pub fn extract_version_from_pe(image: &[u8], layout: &PeLayout) -> (version: Option<FileVersion>)
    ensures
        version == version_in(image@, *layout),
        version is Some ==> version->Some_0.is_full(),
{
    match find_version_resource(image, layout) {
        Some(resource) => decode_version_info(resource),
        None => None,
    }
}

/// Reads the file version of a PE image, 32-bit or 64-bit, from the bytes of
/// the file. Whatever keeps the version from being read gives `None`; a version
/// that is read has all four parts.
pub fn read_file_version(image: &[u8]) -> (version: Option<FileVersion>)
    ensures
        version == image_version(image@),
        version is Some ==> version->Some_0.is_full(),
{
    match parse_headers(image) {
        Some(layout) => extract_version_from_pe(image, &layout),
        None => None,
    }
}

/// An image that is no PE image has no version: one that is too short for a DOS
/// header, that does not begin with `MZ`, whose DOS header points where no PE
/// header fits or where no PE signature stands, or whose optional header is
/// cut off or of an unknown kind.
pub proof fn lemma_no_version_unless_pe(image: Seq<u8>)
    ensures
        !is_pe_image(image) ==> image_version(image) is None,
        image.len() < DOS_HEADER_LEN ==> !is_pe_image(image),
        u16_at(image, 0) != DOS_MAGIC ==> !is_pe_image(image),
        !holds(image, u32_at(image, PE_POINTER_OFFSET as int) as int, FILE_HEADER_END as int)
            ==> !is_pe_image(image),
        u32_at(image, u32_at(image, PE_POINTER_OFFSET as int) as int) != PE_SIGNATURE
            ==> !is_pe_image(image),
        !holds(image, u32_at(image, PE_POINTER_OFFSET as int) + FILE_HEADER_END, 2)
            ==> !is_pe_image(image),
        u16_at(image, u32_at(image, PE_POINTER_OFFSET as int) + FILE_HEADER_END) != PE32_MAGIC
            && u16_at(image, u32_at(image, PE_POINTER_OFFSET as int) + FILE_HEADER_END)
            != PE64_MAGIC ==> !is_pe_image(image),
{
}

/// A PE image whose resource tree has no entry of the type `RT_VERSION` at its
/// root has no version.
pub proof fn lemma_no_version_without_version_type(image: Seq<u8>)
    requires
        pe_layout(image) is Some,
        resource_directory(image, pe_layout(image)->Some_0) is Some,
        has_no_entry(resource_directory(image, pe_layout(image)->Some_0)->Some_0, 0, RT_VERSION),
    ensures
        image_version(image) is None,
{
    let tree = resource_directory(image, pe_layout(image)->Some_0)->Some_0;
    if entry_count(tree, 0) is Some {
        lemma_entry_with_id_none(tree, 0, entry_count(tree, 0)->Some_0, RT_VERSION, 0);
    }
}

/// The version of an image whose version resource has a fixed-info block is
/// made of the halves of the block's two version words: major and minor from
/// the first, build and private from the second.
pub proof fn lemma_version_of_image(image: Seq<u8>)
    requires
        pe_layout(image) is Some,
        version_resource(image, pe_layout(image)->Some_0) is Some,
        fixed_info_offset(
            span(
                image,
                version_resource(image, pe_layout(image)->Some_0)->Some_0.0,
                version_resource(image, pe_layout(image)->Some_0)->Some_0.1,
            ),
        ) is Some,
    ensures
        ({
            let found = version_resource(image, pe_layout(image)->Some_0)->Some_0;
            let resource = span(image, found.0, found.1);
            let block = fixed_info_offset(resource)->Some_0;
            image_version(image) == Some(
                FileVersion::full(
                    u32_at(resource, block + FILE_VERSION_MS_OFFSET) / 0x1_0000,
                    u32_at(resource, block + FILE_VERSION_MS_OFFSET) % 0x1_0000,
                    u32_at(resource, block + FILE_VERSION_LS_OFFSET) / 0x1_0000,
                    u32_at(resource, block + FILE_VERSION_LS_OFFSET) % 0x1_0000,
                ),
            )
        }),
{
    let found = version_resource(image, pe_layout(image)->Some_0)->Some_0;
    let resource = span(image, found.0, found.1);
    lemma_version_of_words(resource, fixed_info_offset(resource)->Some_0);
}

} // verus!
