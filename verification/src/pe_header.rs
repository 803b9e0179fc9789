//! The headers of a PE image: the DOS and PE signatures, the kind of optional
//! header, the resource entry of the data directory and the section that holds
//! the resource directory.

use crate::bytes::{fits, get_u16, get_u32, holds, read_u16, read_u32, u16_at, u32_at};
use vstd::prelude::*;

verus! {

/// `MZ`, the first two bytes of a DOS header.
pub const DOS_MAGIC: u16 = 0x5A4D;

/// Where the DOS header says at which offset the PE header stands.
pub const PE_POINTER_OFFSET: u64 = 60;

/// The length of a DOS header.
pub const DOS_HEADER_LEN: u64 = 64;

/// `PE\0\0`, the first four bytes of a PE header.
pub const PE_SIGNATURE: u32 = 0x0000_4550;

/// The length of the PE signature and the file header behind it.
pub const FILE_HEADER_END: u64 = 24;

/// The magic number of a 32-bit optional header.
pub const PE32_MAGIC: u16 = 0x010B;

/// The magic number of a 64-bit optional header.
pub const PE64_MAGIC: u16 = 0x020B;

/// Where the data directory begins in a 32-bit optional header.
pub const PE32_DIRECTORY_OFFSET: u64 = 96;

/// Where the data directory begins in a 64-bit optional header.
pub const PE64_DIRECTORY_OFFSET: u64 = 112;

/// The length of the number of entries of the data directory, which stands
/// right before the directory.
pub const DIRECTORY_COUNT_LEN: u64 = 4;

/// The length of one entry of the data directory: an address, then a length.
pub const DIRECTORY_ENTRY_LEN: u64 = 8;

/// Where, in an entry of the data directory, the length stands.
pub const ENTRY_LEN_OFFSET: u64 = 4;

/// The index of the resource entry in the data directory.
pub const RESOURCE_ENTRY_INDEX: u32 = 2;

/// Where, in the PE header, the number of sections stands.
pub const SECTION_COUNT_OFFSET: u64 = 6;

/// Where, in the PE header, the length of the optional header stands. The
/// section table begins behind the optional header.
pub const OPTIONAL_LEN_OFFSET: u64 = 20;

/// The length of one section header.
pub const SECTION_HEADER_LEN: u64 = 40;

/// Where, in a section header, the length of the loaded section stands.
pub const SECTION_LOADED_LEN_OFFSET: u64 = 8;

/// Where, in a section header, the address stands at which the section is
/// loaded.
pub const SECTION_RVA_OFFSET: u64 = 12;

/// Where, in a section header, the length of the section's bytes in the file
/// stands.
pub const SECTION_FILE_LEN_OFFSET: u64 = 16;

/// Where, in a section header, the offset of the section's bytes in the file
/// stands.
pub const SECTION_FILE_OFFSET_OFFSET: u64 = 20;

/// What the version logic needs to know of a PE image's headers.
#[derive(Debug, Clone, Copy, PartialEq, Eq, Structural)]
pub struct PeLayout {
    /// Whether the optional header is the 64-bit one.
    pub is_64bit: bool,
    /// The address at which the resource directory is loaded.
    pub resource_rva: u32,
    /// The length of the resource directory.
    pub resource_size: u32,
    /// The address at which the section that holds the resource directory is
    /// loaded.
    pub section_rva: u32,
    /// Where that section's bytes begin in the file.
    pub section_offset: u32,
}

impl PeLayout {
    /// The file offset of what is loaded at `rva`: as far behind the beginning
    /// of the resource section's bytes as `rva` lies behind the section's
    /// address. `None` where `rva` lies before the section.
    pub open spec fn file_offset(self, rva: u32) -> Option<int> {
        if rva >= self.section_rva {
            Some(rva - self.section_rva + self.section_offset)
        } else {
            None
        }
    }

    /// Turns an address into a file offset.
    pub fn offset_of(&self, rva: u32) -> (offset: Option<u64>)
        ensures
            offset is Some <==> self.file_offset(rva) is Some,
            offset is Some ==> offset->Some_0 == self.file_offset(rva)->Some_0,
    {
        if rva >= self.section_rva {
            Some((rva - self.section_rva) as u64 + self.section_offset as u64)
        } else {
            None
        }
    }
}

/// Where the PE header stands: where the DOS header points, if the image
/// begins with a DOS header and the PE signature and the file header lie in
/// the image at that place.
pub open spec fn pe_header_offset(image: Seq<u8>) -> Option<int> {
    if holds(image, 0, DOS_HEADER_LEN as int) && u16_at(image, 0) == DOS_MAGIC && holds(
        image,
        u32_at(image, PE_POINTER_OFFSET as int) as int,
        FILE_HEADER_END as int,
    ) && u32_at(image, u32_at(image, PE_POINTER_OFFSET as int) as int) == PE_SIGNATURE {
        Some(u32_at(image, PE_POINTER_OFFSET as int) as int)
    } else {
        None
    }
}

/// Whether the image is a 64-bit one, by the magic number of its optional
/// header; `None` where the image is no PE image.
pub open spec fn image_is_64bit(image: Seq<u8>) -> Option<bool> {
    match pe_header_offset(image) {
        Some(pe) => {
            let optional = pe + FILE_HEADER_END;
            if !holds(image, optional, 2) {
                None
            } else if u16_at(image, optional) == PE64_MAGIC {
                Some(true)
            } else if u16_at(image, optional) == PE32_MAGIC {
                Some(false)
            } else {
                None
            }
        },
        None => None,
    }
}

/// Whether both signatures are in place and the optional header is of a known
/// kind.
pub open spec fn is_pe_image(image: Seq<u8>) -> bool {
    image_is_64bit(image) is Some
}

/// Where the data directory begins in an optional header.
pub open spec fn data_directory_offset(is_64bit: bool) -> int {
    if is_64bit {
        PE64_DIRECTORY_OFFSET as int
    } else {
        PE32_DIRECTORY_OFFSET as int
    }
}

/// The address and the length of the resource directory, from the data
/// directory; `None` where the image is no PE image, where the data directory
/// has no resource entry or does not lie in the image, or where the address is
/// zero.
pub open spec fn resource_entry(image: Seq<u8>) -> Option<(u32, u32)> {
    match image_is_64bit(image) {
        Some(is_64bit) => {
            let directory = pe_header_offset(image)->Some_0 + FILE_HEADER_END
                + data_directory_offset(is_64bit);
            let count = directory - DIRECTORY_COUNT_LEN;
            let entry = directory + DIRECTORY_ENTRY_LEN * RESOURCE_ENTRY_INDEX;
            if holds(image, count, DIRECTORY_COUNT_LEN as int) && u32_at(image, count)
                > RESOURCE_ENTRY_INDEX && holds(image, entry, DIRECTORY_ENTRY_LEN as int)
                && u32_at(image, entry) != 0 {
                Some((u32_at(image, entry), u32_at(image, entry + ENTRY_LEN_OFFSET)))
            } else {
                None
            }
        },
        None => None,
    }
}

/// Where the section table begins and how many headers it has; `None` where
/// the image is no PE image or the table does not lie in it.
pub open spec fn section_table(image: Seq<u8>) -> Option<(int, int)> {
    match pe_header_offset(image) {
        Some(pe) => {
            let count = u16_at(image, pe + SECTION_COUNT_OFFSET) as int;
            let table = pe + FILE_HEADER_END + u16_at(image, pe + OPTIONAL_LEN_OFFSET);
            if holds(image, table, SECTION_HEADER_LEN * count) {
                Some((table, count))
            } else {
                None
            }
        },
        None => None,
    }
}

/// Whether the section whose header stands at `header` holds the address
/// `rva`: the section reaches from its address as far as the larger of its
/// loaded length and its length in the file.
pub open spec fn section_holds(image: Seq<u8>, header: int, rva: u32) -> bool {
    let loaded_len = u32_at(image, header + SECTION_LOADED_LEN_OFFSET);
    let address = u32_at(image, header + SECTION_RVA_OFFSET);
    let file_len = u32_at(image, header + SECTION_FILE_LEN_OFFSET);
    address <= rva && rva - address < if loaded_len >= file_len {
        loaded_len
    } else {
        file_len
    }
}

/// The header of the first section, from number `from` on, that holds `rva`.
pub open spec fn section_holding(image: Seq<u8>, table: int, count: int, rva: u32, from: int)
    -> Option<int>
    decreases count - from,
{
    if from >= count {
        None
    } else if section_holds(image, table + SECTION_HEADER_LEN * from, rva) {
        Some(table + SECTION_HEADER_LEN * from)
    } else {
        section_holding(image, table, count, rva, from + 1)
    }
}

/// The layout of a PE image: `None` where the image is no PE image, has no
/// resource directory, or no section of it holds the resource directory.
pub open spec fn pe_layout(image: Seq<u8>) -> Option<PeLayout> {
    match (image_is_64bit(image), resource_entry(image), section_table(image)) {
        (Some(is_64bit), Some((resource_rva, resource_size)), Some((table, count))) => {
            match section_holding(image, table, count, resource_rva, 0) {
                Some(header) => Some(
                    PeLayout {
                        is_64bit,
                        resource_rva,
                        resource_size,
                        section_rva: u32_at(image, header + SECTION_RVA_OFFSET),
                        section_offset: u32_at(image, header + SECTION_FILE_OFFSET_OFFSET),
                    },
                ),
                None => None,
            }
        },
        _ => None,
    }
}

/// Finds the PE header.
fn find_pe_header(image: &[u8]) -> (pe: Option<u64>)
    ensures
        pe is Some <==> pe_header_offset(image@) is Some,
        pe is Some ==> pe->Some_0 == pe_header_offset(image@)->Some_0,
{
    if !fits(image.len(), 0, DOS_HEADER_LEN) {
        return None;
    }
    if get_u16(image, 0) != DOS_MAGIC {
        return None;
    }
    let pe = get_u32(image, PE_POINTER_OFFSET) as u64;
    if !fits(image.len(), pe, FILE_HEADER_END) {
        return None;
    }
    if get_u32(image, pe) != PE_SIGNATURE {
        return None;
    }
    Some(pe)
}

/// Tells a 64-bit image from a 32-bit one by its optional header at `optional`.
fn read_bitness(image: &[u8], optional: u64) -> (is_64bit: Option<bool>)
    requires
        pe_header_offset(image@) == Some(optional - FILE_HEADER_END),
    ensures
        is_64bit == image_is_64bit(image@),
{
    match read_u16(image, optional) {
        Some(magic) => if magic == PE64_MAGIC {
            Some(true)
        } else if magic == PE32_MAGIC {
            Some(false)
        } else {
            None
        },
        None => None,
    }
}

/// Reads the resource entry of the data directory.
fn read_resource_entry(image: &[u8], optional: u64, is_64bit: bool) -> (entry: Option<(u32, u32)>)
    requires
        pe_header_offset(image@) == Some(optional - FILE_HEADER_END),
        image_is_64bit(image@) == Some(is_64bit),
    ensures
        entry == resource_entry(image@),
{
    let directory: u64 = if is_64bit {
        optional + PE64_DIRECTORY_OFFSET
    } else {
        optional + PE32_DIRECTORY_OFFSET
    };
    let count = match read_u32(image, directory - DIRECTORY_COUNT_LEN) {
        Some(count) => count,
        None => {
            return None;
        },
    };
    if count <= RESOURCE_ENTRY_INDEX {
        return None;
    }
    let entry = directory + DIRECTORY_ENTRY_LEN * RESOURCE_ENTRY_INDEX as u64;
    if !fits(image.len(), entry, DIRECTORY_ENTRY_LEN) {
        return None;
    }
    let rva = get_u32(image, entry);
    if rva == 0 {
        return None;
    }
    Some((rva, get_u32(image, entry + ENTRY_LEN_OFFSET)))
}

/// Finds the first section that holds `rva` and gives its address and the
/// offset of its bytes in the file.
fn find_section(image: &[u8], table: u64, count: u16, rva: u32) -> (found: Option<(u32, u32)>)
    requires
        table <= 0x2_0000_0000,
        holds(image@, table as int, SECTION_HEADER_LEN * count),
    ensures
        match section_holding(image@, table as int, count as int, rva, 0) {
            Some(header) => found == Some(
                (
                    u32_at(image@, header + SECTION_RVA_OFFSET),
                    u32_at(image@, header + SECTION_FILE_OFFSET_OFFSET),
                ),
            ),
            None => found is None,
        },
{
    let mut i: u16 = 0;
    while i < count
        invariant
            i <= count,
            table <= 0x2_0000_0000,
            holds(image@, table as int, SECTION_HEADER_LEN * count),
            section_holding(image@, table as int, count as int, rva, i as int) == section_holding(
                image@,
                table as int,
                count as int,
                rva,
                0,
            ),
        decreases count - i,
    {
        let header = table + SECTION_HEADER_LEN * i as u64;
        let loaded_len = get_u32(image, header + SECTION_LOADED_LEN_OFFSET);
        let address = get_u32(image, header + SECTION_RVA_OFFSET);
        let file_len = get_u32(image, header + SECTION_FILE_LEN_OFFSET);
        let reach = if loaded_len >= file_len {
            loaded_len
        } else {
            file_len
        };
        if address <= rva && rva - address < reach {
            return Some((address, get_u32(image, header + SECTION_FILE_OFFSET_OFFSET)));
        }
        i += 1;
    }
    None
}

/// Reads the headers of a PE image. Any field that does not lie in the image,
/// a wrong signature or an unknown kind of optional header gives `None`, and so
/// does an image without a resource directory.
pub fn parse_headers(image: &[u8]) -> (layout: Option<PeLayout>)
    ensures
        layout == pe_layout(image@),
{
    let pe = match find_pe_header(image) {
        Some(pe) => pe,
        None => {
            return None;
        },
    };
    let optional = pe + FILE_HEADER_END;
    let is_64bit = match read_bitness(image, optional) {
        Some(is_64bit) => is_64bit,
        None => {
            return None;
        },
    };
    let (resource_rva, resource_size) = match read_resource_entry(image, optional, is_64bit) {
        Some(entry) => entry,
        None => {
            return None;
        },
    };
    let count = get_u16(image, pe + SECTION_COUNT_OFFSET);
    let table = optional + get_u16(image, pe + OPTIONAL_LEN_OFFSET) as u64;
    if !fits(image.len(), table, SECTION_HEADER_LEN * count as u64) {
        return None;
    }
    match find_section(image, table, count, resource_rva) {
        Some((section_rva, section_offset)) => Some(
            PeLayout { is_64bit, resource_rva, resource_size, section_rva, section_offset },
        ),
        None => None,
    }
}

} // verus!
