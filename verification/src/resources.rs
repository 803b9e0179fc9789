//! The resource directory of a PE image: a tree of directories, descended by
//! type, then by name, then by language, down to the bytes of the version
//! resource.

use crate::bytes::{fits, get_u16, get_u32, holds, slice_at, span, u16_at, u32_at};
use crate::pe_header::PeLayout;
use vstd::prelude::*;

verus! {

/// The type under which version information is filed.
pub const RT_VERSION: u32 = 16;

/// The name, a number, under which a module's version information is filed.
pub const VERSION_INFO_ID: u32 = 1;

/// The bit that marks an entry's target as a directory. Without it the target
/// is a data entry.
pub const SUBDIRECTORY_FLAG: u32 = 0x8000_0000;

/// The length of a directory's header. Its entries follow it.
pub const DIRECTORY_HEADER_LEN: u64 = 16;

/// Where, in a directory's header, the number of its named entries stands.
/// They come first.
pub const NAMED_COUNT_OFFSET: u64 = 12;

/// Where, in a directory's header, the number of its numbered entries stands.
pub const NUMBERED_COUNT_OFFSET: u64 = 14;

/// The length of one entry of a directory: a name, then a target.
pub const DIRECTORY_ENTRY_LEN: u64 = 8;

/// Where, in an entry, the target stands.
pub const TARGET_OFFSET: u64 = 4;

/// Where, in a data entry, the length of the data stands. Their address comes
/// first.
pub const DATA_LEN_OFFSET: u64 = 4;

/// The length of a data entry: an address and a length, then two fields that
/// are not read here.
pub const DATA_ENTRY_LEN: u64 = 16;

/// The bytes of the resource directory, if they all lie in the image. Offsets
/// inside the tree count from their beginning.
pub open spec fn resource_directory(image: Seq<u8>, layout: PeLayout) -> Option<Seq<u8>> {
    match layout.file_offset(layout.resource_rva) {
        Some(offset) => if holds(image, offset, layout.resource_size as int) {
            Some(span(image, offset, layout.resource_size as int))
        } else {
            None
        },
        None => None,
    }
}

/// How many entries the directory at `dir` has, named ones and numbered ones
/// together; `None` unless its header and all of its entries lie in the tree.
pub open spec fn entry_count(tree: Seq<u8>, dir: int) -> Option<int> {
    if holds(tree, dir, DIRECTORY_HEADER_LEN as int) && holds(
        tree,
        dir + DIRECTORY_HEADER_LEN,
        DIRECTORY_ENTRY_LEN * (u16_at(tree, dir + NAMED_COUNT_OFFSET) + u16_at(
            tree,
            dir + NUMBERED_COUNT_OFFSET,
        )),
    ) {
        Some(u16_at(tree, dir + NAMED_COUNT_OFFSET) + u16_at(tree, dir + NUMBERED_COUNT_OFFSET))
    } else {
        None
    }
}

/// Where entry `i` of the directory at `dir` stands.
pub open spec fn entry_at(dir: int, i: int) -> int {
    dir + DIRECTORY_HEADER_LEN + DIRECTORY_ENTRY_LEN * i
}

/// The first entry, from number `from` on, whose name is the number `id`.
pub open spec fn entry_with_id(tree: Seq<u8>, dir: int, count: int, id: u32, from: int) -> Option<
    int,
>
    decreases count - from,
{
    if from >= count {
        None
    } else if u32_at(tree, entry_at(dir, from)) == id {
        Some(entry_at(dir, from))
    } else {
        entry_with_id(tree, dir, count, id, from + 1)
    }
}

/// Whether no entry of the directory at `dir` is named by the number `id`.
pub open spec fn has_no_entry(tree: Seq<u8>, dir: int, id: u32) -> bool {
    match entry_count(tree, dir) {
        Some(count) => forall|i: int|
            0 <= i < count ==> u32_at(tree, #[trigger] entry_at(dir, i)) != id,
        None => true,
    }
}

/// No entry is found in a directory that has none of that name.
pub proof fn lemma_entry_with_id_none(tree: Seq<u8>, dir: int, count: int, id: u32, from: int)
    requires
        0 <= from,
        forall|i: int| from <= i < count ==> u32_at(tree, #[trigger] entry_at(dir, i)) != id,
    ensures
        entry_with_id(tree, dir, count, id, from) is None,
    decreases count - from,
{
    if from < count {
        lemma_entry_with_id_none(tree, dir, count, id, from + 1);
    }
}

/// The directory that the entry at `entry` leads to, if it leads to one.
pub open spec fn subdirectory_of(tree: Seq<u8>, entry: int) -> Option<int> {
    if u32_at(tree, entry + TARGET_OFFSET) >= SUBDIRECTORY_FLAG {
        Some(u32_at(tree, entry + TARGET_OFFSET) - SUBDIRECTORY_FLAG)
    } else {
        None
    }
}

/// The data entry that the entry at `entry` leads to, if it leads to one.
pub open spec fn data_entry_of(tree: Seq<u8>, entry: int) -> Option<int> {
    if u32_at(tree, entry + TARGET_OFFSET) < SUBDIRECTORY_FLAG {
        Some(u32_at(tree, entry + TARGET_OFFSET) as int)
    } else {
        None
    }
}

/// The directory under the first entry of the directory at `dir` that is named
/// by the number `id`.
pub open spec fn child_directory(tree: Seq<u8>, dir: int, id: u32) -> Option<int> {
    match entry_count(tree, dir) {
        Some(count) => match entry_with_id(tree, dir, count, id, 0) {
            Some(entry) => subdirectory_of(tree, entry),
            None => None,
        },
        None => None,
    }
}

/// The data entry under the first entry of the directory at `dir`.
pub open spec fn first_data_entry(tree: Seq<u8>, dir: int) -> Option<int> {
    match entry_count(tree, dir) {
        Some(count) => if count >= 1 {
            data_entry_of(tree, entry_at(dir, 0))
        } else {
            None
        },
        None => None,
    }
}

/// The address and the length of the version resource: what the data entry
/// says that is reached from the root by the type `RT_VERSION`, then the name
/// `VERSION_INFO_ID`, then the first language there is.
pub open spec fn version_data(tree: Seq<u8>) -> Option<(u32, u32)> {
    match child_directory(tree, 0, RT_VERSION) {
        Some(names) => match child_directory(tree, names, VERSION_INFO_ID) {
            Some(languages) => match first_data_entry(tree, languages) {
                Some(data) => if holds(tree, data, DATA_ENTRY_LEN as int) {
                    Some((u32_at(tree, data), u32_at(tree, data + DATA_LEN_OFFSET)))
                } else {
                    None
                },
                None => None,
            },
            None => None,
        },
        None => None,
    }
}

/// Where the version resource lies in the image and how long it is; `None`
/// where the tree has none, or where it does not lie in the image.
pub open spec fn version_resource(image: Seq<u8>, layout: PeLayout) -> Option<(int, int)> {
    match resource_directory(image, layout) {
        Some(tree) => match version_data(tree) {
            Some((rva, len)) => match layout.file_offset(rva) {
                Some(offset) => if holds(image, offset, len as int) {
                    Some((offset, len as int))
                } else {
                    None
                },
                None => None,
            },
            None => None,
        },
        None => None,
    }
}

/// Counts the entries of the directory at `dir`.
fn read_entry_count(tree: &[u8], dir: u32) -> (count: Option<u32>)
    ensures
        count is Some <==> entry_count(tree@, dir as int) is Some,
        count is Some ==> count->Some_0 == entry_count(tree@, dir as int)->Some_0,
{
    if !fits(tree.len(), dir as u64, DIRECTORY_HEADER_LEN) {
        return None;
    }
    let named = get_u16(tree, dir as u64 + NAMED_COUNT_OFFSET);
    let numbered = get_u16(tree, dir as u64 + NUMBERED_COUNT_OFFSET);
    let count = named as u32 + numbered as u32;
    if !fits(tree.len(), dir as u64 + DIRECTORY_HEADER_LEN, DIRECTORY_ENTRY_LEN * count as u64) {
        return None;
    }
    Some(count)
}

/// Finds the first entry of the directory at `dir` whose name is the number
/// `id`, and gives its target.
fn find_target(tree: &[u8], dir: u32, count: u32, id: u32) -> (target: Option<u32>)
    requires
        entry_count(tree@, dir as int) == Some(count as int),
    ensures
        match entry_with_id(tree@, dir as int, count as int, id, 0) {
            Some(entry) => target == Some(u32_at(tree@, entry + TARGET_OFFSET)),
            None => target is None,
        },
{
    let first = dir as u64 + DIRECTORY_HEADER_LEN;
    let mut i: u32 = 0;
    while i < count
        invariant
            i <= count,
            first == dir + DIRECTORY_HEADER_LEN,
            entry_count(tree@, dir as int) == Some(count as int),
            entry_with_id(tree@, dir as int, count as int, id, i as int) == entry_with_id(
                tree@,
                dir as int,
                count as int,
                id,
                0,
            ),
        decreases count - i,
    {
        let entry = first + DIRECTORY_ENTRY_LEN * i as u64;
        if get_u32(tree, entry) == id {
            return Some(get_u32(tree, entry + TARGET_OFFSET));
        }
        i += 1;
    }
    None
}

/// Descends from the directory at `dir` into the directory named by `id`.
fn find_child_directory(tree: &[u8], dir: u32, id: u32) -> (child: Option<u32>)
    ensures
        child is Some <==> child_directory(tree@, dir as int, id) is Some,
        child is Some ==> child->Some_0 == child_directory(tree@, dir as int, id)->Some_0,
{
    let count = match read_entry_count(tree, dir) {
        Some(count) => count,
        None => {
            return None;
        },
    };
    match find_target(tree, dir, count, id) {
        Some(target) => if target >= SUBDIRECTORY_FLAG {
            Some(target - SUBDIRECTORY_FLAG)
        } else {
            None
        },
        None => None,
    }
}

/// Finds the data entry under the first entry of the directory at `dir`.
fn find_first_data_entry(tree: &[u8], dir: u32) -> (data: Option<u32>)
    ensures
        data is Some <==> first_data_entry(tree@, dir as int) is Some,
        data is Some ==> data->Some_0 == first_data_entry(tree@, dir as int)->Some_0,
{
    let count = match read_entry_count(tree, dir) {
        Some(count) => count,
        None => {
            return None;
        },
    };
    if count == 0 {
        return None;
    }
    let target = get_u32(tree, dir as u64 + DIRECTORY_HEADER_LEN + TARGET_OFFSET);
    if target < SUBDIRECTORY_FLAG {
        Some(target)
    } else {
        None
    }
}

/// Walks the tree to the data entry of the version resource and reads the
/// address and the length it gives.
pub fn find_version_data(tree: &[u8]) -> (data: Option<(u32, u32)>)
    ensures
        data == version_data(tree@),
{
    let names = match find_child_directory(tree, 0, RT_VERSION) {
        Some(names) => names,
        None => {
            return None;
        },
    };
    let languages = match find_child_directory(tree, names, VERSION_INFO_ID) {
        Some(languages) => languages,
        None => {
            return None;
        },
    };
    let entry = match find_first_data_entry(tree, languages) {
        Some(entry) => entry,
        None => {
            return None;
        },
    };
    if !fits(tree.len(), entry as u64, DATA_ENTRY_LEN) {
        return None;
    }
    Some((get_u32(tree, entry as u64), get_u32(tree, entry as u64 + DATA_LEN_OFFSET)))
}

/// Finds the bytes of the version resource in a PE image with the given
/// layout. A tree that does not lie in the image, that has no such resource or
/// that points outside the image gives `None`.
pub fn find_version_resource<'a>(image: &'a [u8], layout: &PeLayout) -> (resource: Option<
    &'a [u8],
>)
    ensures
        match version_resource(image@, *layout) {
            Some((offset, len)) => resource is Some && resource->Some_0@ == span(
                image@,
                offset,
                len,
            ),
            None => resource is None,
        },
{
    let tree_offset = match layout.offset_of(layout.resource_rva) {
        Some(offset) => offset,
        None => {
            return None;
        },
    };
    let tree = match slice_at(image, tree_offset, layout.resource_size) {
        Some(tree) => tree,
        None => {
            return None;
        },
    };
    let (rva, len) = match find_version_data(tree) {
        Some(data) => data,
        None => {
            return None;
        },
    };
    match layout.offset_of(rva) {
        Some(offset) => slice_at(image, offset, len),
        None => None,
    }
}

} // verus!
