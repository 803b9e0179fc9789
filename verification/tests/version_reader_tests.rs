use flist::file_lister::{collect_file_info, file_info};
use flist::file_version::FileVersion;
use flist::pe_header::{parse_headers, PeLayout};
use flist::resources::{find_version_data, find_version_resource};
use flist::version_info::{decode_version, decode_version_info};
use flist::version_reader::{extract_version_from_pe, read_file_version};

const SECTION_RVA: u32 = 0x1000;
const SECTION_OFFSET: u32 = 0x200;
const SECTION_LEN: u32 = 0x200;

fn put_u16(image: &mut [u8], at: usize, value: u16) {
    image[at..at + 2].copy_from_slice(&value.to_le_bytes());
}

fn put_u32(image: &mut [u8], at: usize, value: u32) {
    image[at..at + 4].copy_from_slice(&value.to_le_bytes());
}

/// The bytes of a version resource with the key `VS_VERSION_INFO` and a fixed
/// block that holds the two words.
fn version_resource(more_significant: u32, less_significant: u32) -> Vec<u8> {
    let mut resource = vec![0u8; 92];
    put_u16(&mut resource, 0, 92);
    put_u16(&mut resource, 2, 52);
    put_u16(&mut resource, 4, 0);
    for (i, unit) in "VS_VERSION_INFO".encode_utf16().enumerate() {
        put_u16(&mut resource, 6 + 2 * i, unit);
    }
    put_u32(&mut resource, 40, 0xFEEF04BD);
    put_u32(&mut resource, 44, 0x0001_0000);
    put_u32(&mut resource, 48, more_significant);
    put_u32(&mut resource, 52, less_significant);
    put_u32(&mut resource, 56, more_significant);
    put_u32(&mut resource, 60, less_significant);
    put_u32(&mut resource, 64, 0x3F);
    put_u32(&mut resource, 72, 0x0004_0004);
    put_u32(&mut resource, 76, 2);
    resource
}

/// A resource tree with one resource: type, then name, then language 0x409.
fn resource_tree(type_id: u32, name_id: u32, resource: &[u8]) -> Vec<u8> {
    let mut tree = vec![0u8; 88];
    put_u16(&mut tree, 14, 1);
    put_u32(&mut tree, 16, type_id);
    put_u32(&mut tree, 20, 0x8000_0000 | 24);
    put_u16(&mut tree, 24 + 14, 1);
    put_u32(&mut tree, 40, name_id);
    put_u32(&mut tree, 44, 0x8000_0000 | 48);
    put_u16(&mut tree, 48 + 14, 1);
    put_u32(&mut tree, 64, 0x409);
    put_u32(&mut tree, 68, 72);
    put_u32(&mut tree, 72, SECTION_RVA + 88);
    put_u32(&mut tree, 76, resource.len() as u32);
    tree.extend_from_slice(resource);
    tree
}

/// A PE image with one section, `.rsrc`, that holds `tree`.
fn pe_image(is_64bit: bool, tree: &[u8]) -> Vec<u8> {
    let mut image = vec![0u8; (SECTION_OFFSET + SECTION_LEN) as usize];
    image[0] = b'M';
    image[1] = b'Z';
    put_u32(&mut image, 60, 64);
    let pe = 64;
    put_u32(&mut image, pe, 0x0000_4550);
    put_u16(&mut image, pe + 4, if is_64bit { 0x8664 } else { 0x014C });
    put_u16(&mut image, pe + 6, 1);
    let optional_len: u16 = if is_64bit { 240 } else { 224 };
    put_u16(&mut image, pe + 20, optional_len);
    put_u16(&mut image, pe + 22, 0x2102);
    let optional = pe + 24;
    put_u16(&mut image, optional, if is_64bit { 0x020B } else { 0x010B });
    put_u32(&mut image, optional + 32, 0x1000);
    put_u32(&mut image, optional + 36, 0x200);
    put_u32(&mut image, optional + 56, 0x2000);
    put_u32(&mut image, optional + 60, SECTION_OFFSET);
    let directory = optional + if is_64bit { 112 } else { 96 };
    put_u32(&mut image, directory - 4, 16);
    put_u32(&mut image, directory + 16, SECTION_RVA);
    put_u32(&mut image, directory + 20, tree.len() as u32);
    let section = optional + optional_len as usize;
    image[section..section + 5].copy_from_slice(b".rsrc");
    put_u32(&mut image, section + 8, tree.len() as u32);
    put_u32(&mut image, section + 12, SECTION_RVA);
    put_u32(&mut image, section + 16, SECTION_LEN);
    put_u32(&mut image, section + 20, SECTION_OFFSET);
    put_u32(&mut image, section + 36, 0x4000_0040);
    let start = SECTION_OFFSET as usize;
    image[start..start + tree.len()].copy_from_slice(tree);
    image
}

fn versioned_image(is_64bit: bool, major: u16, minor: u16, build: u16, private: u16) -> Vec<u8> {
    let more_significant = (major as u32) << 16 | minor as u32;
    let less_significant = (build as u32) << 16 | private as u32;
    pe_image(is_64bit, &resource_tree(16, 1, &version_resource(more_significant, less_significant)))
}

fn full(major: u32, minor: u32, build: u32, private: u32) -> FileVersion {
    FileVersion::new(Some(major), Some(minor), Some(build), Some(private))
}

/// What pelite reads from the image, in this library's naming of the parts.
/// pelite reads an image only from an address that is a multiple of four, which
/// the beginning of a vector's buffer is.
fn pelite_version(image: &Vec<u8>) -> Option<FileVersion> {
    let resources = if let Ok(pe) = pelite::pe64::PeFile::from_bytes(image) {
        pelite::pe64::Pe::resources(pe).ok()?
    } else if let Ok(pe) = pelite::pe32::PeFile::from_bytes(image) {
        pelite::pe32::Pe::resources(pe).ok()?
    } else {
        return None;
    };
    let fixed = resources.version_info().ok()?.fixed()?;
    Some(full(
        fixed.dwFileVersion.Major as u32,
        fixed.dwFileVersion.Minor as u32,
        fixed.dwFileVersion.Patch as u32,
        fixed.dwFileVersion.Build as u32,
    ))
}

#[test]
fn reads_the_version_of_a_64_bit_image() {
    let image = versioned_image(true, 10, 0, 19041, 1);
    assert_eq!(read_file_version(&image), Some(full(10, 0, 19041, 1)));
    assert_eq!(read_file_version(&image).unwrap().to_string(), "10.0.19041.1");
}

#[test]
fn reads_the_version_of_a_32_bit_image() {
    let image = versioned_image(false, 6, 1, 7601, 17514);
    assert_eq!(read_file_version(&image), Some(full(6, 1, 7601, 17514)));
}

#[test]
fn reads_the_largest_parts() {
    let image = versioned_image(true, 65535, 65535, 65535, 65535);
    assert_eq!(read_file_version(&image), Some(full(65535, 65535, 65535, 65535)));
    let image = versioned_image(false, 0, 0, 0, 0);
    assert_eq!(read_file_version(&image), Some(full(0, 0, 0, 0)));
}

#[test]
fn agrees_with_pelite_on_built_images() {
    for is_64bit in [true, false] {
        for (major, minor, build, private) in
            [(1, 2, 3, 4), (10, 0, 19041, 1), (65535, 0, 65535, 0), (0, 0, 0, 0), (2, 40000, 7, 9)]
        {
            let image = versioned_image(is_64bit, major, minor, build, private);
            let expected = full(major as u32, minor as u32, build as u32, private as u32);
            assert_eq!(pelite_version(&image), Some(expected));
            assert_eq!(read_file_version(&image), Some(expected));
        }
    }
}

#[test]
fn layout_of_a_built_image() {
    let image = versioned_image(true, 1, 2, 3, 4);
    assert_eq!(
        parse_headers(&image),
        Some(PeLayout {
            is_64bit: true,
            resource_rva: SECTION_RVA,
            resource_size: 88 + 92,
            section_rva: SECTION_RVA,
            section_offset: SECTION_OFFSET,
        })
    );
    let image = versioned_image(false, 1, 2, 3, 4);
    let layout = parse_headers(&image).unwrap();
    assert!(!layout.is_64bit);
    assert_eq!(layout.offset_of(SECTION_RVA + 88), Some(0x200 + 88));
    assert_eq!(layout.offset_of(SECTION_RVA - 1), None);
    let resource = find_version_resource(&image, &layout).unwrap();
    assert_eq!(resource, &version_resource(0x0001_0002, 0x0003_0004)[..]);
    assert_eq!(extract_version_from_pe(&image, &layout), Some(full(1, 2, 3, 4)));
}

#[test]
fn the_resource_section_need_not_be_the_first() {
    let mut image = versioned_image(true, 3, 1, 4, 1);
    // two sections: the first does not hold the resources
    let pe = 64;
    put_u16(&mut image, pe + 6, 2);
    let section = pe + 24 + 240;
    image.copy_within(section..section + 40, section + 40);
    put_u32(&mut image, section + 8, 0x100);
    put_u32(&mut image, section + 12, 0x800);
    put_u32(&mut image, section + 16, 0x100);
    put_u32(&mut image, section + 20, 0x100);
    assert_eq!(read_file_version(&image), Some(full(3, 1, 4, 1)));
    assert_eq!(pelite_version(&image), Some(full(3, 1, 4, 1)));
}

#[test]
fn test_read_version_from_nonexistent_file() {
    // a file that cannot be read has no bytes to hand over
    let path = "nonexistent.dll".to_string();
    let info = file_info(path, None, true);
    assert_eq!(info.version, None);
}

#[test]
fn no_version_in_what_is_no_pe_image() {
    assert_eq!(read_file_version(&[]), None);
    assert_eq!(read_file_version(b"MZ"), None);
    assert_eq!(read_file_version(b"plain text, not a binary at all, but long enough to hold a DOS header"), None);
    let noise: Vec<u8> = (0..4096u32).map(|i| (i.wrapping_mul(2654435761) >> 13) as u8).collect();
    assert_eq!(read_file_version(&noise), None);
    assert_eq!(pelite_version(&noise), None);
    let elf = [0x7Fu8, b'E', b'L', b'F', 2, 1, 1, 0];
    assert_eq!(read_file_version(&elf), None);
}

#[test]
fn no_version_with_a_wrong_magic() {
    let good = versioned_image(true, 1, 2, 3, 4);
    assert!(read_file_version(&good).is_some());
    let mut image = good.clone();
    image[0] = b'Z';
    assert_eq!(read_file_version(&image), None);
    let mut image = good.clone();
    image[64] = b'N';
    assert_eq!(read_file_version(&image), None);
    let mut image = good.clone();
    put_u16(&mut image, 64 + 24, 0x0107);
    assert_eq!(read_file_version(&image), None);
    assert_eq!(parse_headers(&image), None);
    let mut image = good.clone();
    put_u32(&mut image, 60, 0x00FF_FFF0);
    assert_eq!(read_file_version(&image), None);
    let mut image = good.clone();
    put_u32(&mut image, 60, 0xFFFF_FFFC);
    assert_eq!(read_file_version(&image), None);
}

#[test]
fn no_version_in_a_truncated_image() {
    let good = versioned_image(false, 1, 2, 3, 4);
    for len in 0..good.len() {
        let version = read_file_version(&good[..len]);
        if len < 0x200 + 88 + 92 {
            assert_eq!(version, None, "length {}", len);
        } else {
            assert_eq!(version, Some(full(1, 2, 3, 4)));
        }
    }
}

#[test]
fn no_version_without_resources() {
    let good = versioned_image(true, 1, 2, 3, 4);
    let directory = 64 + 24 + 112;
    let mut image = good.clone();
    put_u32(&mut image, directory + 16, 0);
    assert_eq!(read_file_version(&image), None);
    let mut image = good.clone();
    put_u32(&mut image, directory - 4, 2);
    assert_eq!(read_file_version(&image), None);
    let mut image = good.clone();
    put_u32(&mut image, directory + 16, 0x5000);
    assert_eq!(read_file_version(&image), None);
    let mut image = good.clone();
    put_u16(&mut image, 64 + 6, 0);
    assert_eq!(read_file_version(&image), None);
}

#[test]
fn no_version_without_a_version_entry() {
    let resource = version_resource(0x0001_0002, 0x0003_0004);
    // an icon group, not a version
    let image = pe_image(true, &resource_tree(14, 1, &resource));
    assert!(parse_headers(&image).is_some());
    assert_eq!(read_file_version(&image), None);
    assert_eq!(pelite_version(&image), None);
    // a version resource under another name
    let image = pe_image(true, &resource_tree(16, 2, &resource));
    assert_eq!(read_file_version(&image), None);
    assert_eq!(pelite_version(&image), None);
    // a named type
    let image = pe_image(false, &resource_tree(0x8000_0010, 1, &resource));
    assert_eq!(read_file_version(&image), None);
    // an empty root
    let mut tree = resource_tree(16, 1, &resource);
    put_u16(&mut tree, 14, 0);
    assert_eq!(find_version_data(&tree), None);
    assert_eq!(read_file_version(&pe_image(true, &tree)), None);
}

#[test]
fn the_version_entry_need_not_be_the_first() {
    let resource = version_resource(0x0005_0006, 0x0007_0008);
    let mut tree = vec![0u8; 104];
    put_u16(&mut tree, 12, 1);
    put_u16(&mut tree, 14, 2);
    put_u32(&mut tree, 16, 0x8000_0000 | 100);
    put_u32(&mut tree, 20, 0x8000_0000 | 40);
    put_u32(&mut tree, 24, 3);
    put_u32(&mut tree, 28, 0x8000_0000 | 40);
    put_u32(&mut tree, 32, 16);
    put_u32(&mut tree, 36, 0x8000_0000 | 40);
    put_u16(&mut tree, 40 + 14, 1);
    put_u32(&mut tree, 56, 1);
    put_u32(&mut tree, 60, 0x8000_0000 | 64);
    put_u16(&mut tree, 64 + 14, 1);
    put_u32(&mut tree, 80, 0);
    put_u32(&mut tree, 84, 88);
    put_u32(&mut tree, 88, SECTION_RVA + 104);
    put_u32(&mut tree, 92, resource.len() as u32);
    tree.extend_from_slice(&resource);
    assert_eq!(find_version_data(&tree), Some((SECTION_RVA + 104, 92)));
    let image = pe_image(true, &tree);
    assert_eq!(read_file_version(&image), Some(full(5, 6, 7, 8)));
    assert_eq!(pelite_version(&image), Some(full(5, 6, 7, 8)));
}

#[test]
fn no_version_where_the_tree_points_outside() {
    let resource = version_resource(0x0001_0002, 0x0003_0004);
    let good = resource_tree(16, 1, &resource);
    assert_eq!(find_version_data(&good), Some((SECTION_RVA + 88, 92)));
    // a directory where a data entry is expected
    let mut tree = good.clone();
    put_u32(&mut tree, 68, 0x8000_0000 | 72);
    assert_eq!(find_version_data(&tree), None);
    // a data entry where a directory is expected
    let mut tree = good.clone();
    put_u32(&mut tree, 44, 48);
    assert_eq!(find_version_data(&tree), None);
    // a directory behind the end of the tree
    let mut tree = good.clone();
    put_u32(&mut tree, 20, 0x8000_0000 | 4000);
    assert_eq!(find_version_data(&tree), None);
    // more entries than the tree has room for
    let mut tree = good.clone();
    put_u16(&mut tree, 12, 0xFFFF);
    assert_eq!(find_version_data(&tree), None);
    // data before the section, and data behind the end of the image
    let mut tree = good.clone();
    put_u32(&mut tree, 72, SECTION_RVA - 4);
    assert_eq!(read_file_version(&pe_image(true, &tree)), None);
    let mut tree = good.clone();
    put_u32(&mut tree, 76, 0x1000);
    assert_eq!(read_file_version(&pe_image(true, &tree)), None);
    let mut tree = good.clone();
    put_u32(&mut tree, 72, 0xFFFF_FFF0);
    assert_eq!(read_file_version(&pe_image(true, &tree)), None);
}

#[test]
fn decodes_the_fixed_block() {
    let resource = version_resource(0x000A_0000, 0x4A61_0001);
    assert_eq!(decode_version_info(&resource), Some(full(10, 0, 19041, 1)));
}

#[test]
fn the_key_may_be_of_any_length() {
    // a key of one character: the block stands at offset 12
    let mut resource = vec![0u8; 12 + 52];
    put_u16(&mut resource, 0, 64);
    put_u16(&mut resource, 2, 52);
    put_u16(&mut resource, 6, b'V' as u16);
    put_u32(&mut resource, 12, 0xFEEF04BD);
    put_u32(&mut resource, 20, 0x0001_0002);
    put_u32(&mut resource, 24, 0x0003_0004);
    assert_eq!(decode_version_info(&resource), Some(full(1, 2, 3, 4)));
    // an empty key: the block stands at offset 8
    let mut resource = vec![0u8; 8 + 52];
    put_u16(&mut resource, 2, 52);
    put_u32(&mut resource, 8, 0xFEEF04BD);
    put_u32(&mut resource, 16, 0x0009_0008);
    put_u32(&mut resource, 20, 0x0007_0006);
    assert_eq!(decode_version_info(&resource), Some(full(9, 8, 7, 6)));
}

#[test]
fn no_version_without_a_fixed_block() {
    let good = version_resource(0x0001_0002, 0x0003_0004);
    assert!(decode_version_info(&good).is_some());
    // the value is empty
    let mut resource = good.clone();
    put_u16(&mut resource, 2, 0);
    assert_eq!(decode_version_info(&resource), None);
    // the signature is wrong
    let mut resource = good.clone();
    put_u32(&mut resource, 40, 0xFEEF04BE);
    assert_eq!(decode_version_info(&resource), None);
    // the key has no end
    let mut resource = good.clone();
    for at in (6..92).step_by(2) {
        put_u16(&mut resource, at, 0x41);
    }
    assert_eq!(decode_version_info(&resource), None);
    // the block is cut short
    for len in 0..92 {
        assert_eq!(decode_version_info(&good[..len]), None, "length {}", len);
    }
    assert_eq!(read_file_version(&pe_image(true, &resource_tree(16, 1, &good[..80]))), None);
}

#[test]
fn unpacks_the_four_parts_from_64_bits() {
    assert_eq!(decode_version(0), full(0, 0, 0, 0));
    assert_eq!(decode_version(0x0004_0003_0002_0001), full(2, 1, 4, 3));
    assert_eq!(decode_version(0xFFFF_0000_0000_0000), full(0, 0, 65535, 0));
    assert_eq!(decode_version(0x0000_FFFF_0000_0000), full(0, 0, 0, 65535));
    assert_eq!(decode_version(0x0000_0000_FFFF_0000), full(65535, 0, 0, 0));
    assert_eq!(decode_version(0x0000_0000_0000_FFFF), full(0, 65535, 0, 0));
    assert_eq!(decode_version(u64::MAX), full(65535, 65535, 65535, 65535));
}

#[test]
fn collect_reads_versions_where_asked() {
    let paths = vec!["a.dll".to_string(), "b.txt".to_string(), "c.dll".to_string()];
    let images = vec![
        Some(versioned_image(true, 1, 0, 0, 0)),
        Some(b"text".to_vec()),
        None,
    ];
    let infos = collect_file_info(paths.clone(), &images, true);
    assert_eq!(infos[0].version, Some(full(1, 0, 0, 0)));
    assert_eq!(infos[1].version, None);
    assert_eq!(infos[2].version, None);
    assert_eq!(infos[0].path, "a.dll".to_string());
    let infos = collect_file_info(paths, &images, false);
    assert!(infos.iter().all(|info| info.version.is_none()));
}
