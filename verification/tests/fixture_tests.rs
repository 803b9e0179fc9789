use flist::file_version::FileVersion;
use flist::pe_header::parse_headers;
use flist::resources::find_version_resource;
use flist::version_reader::read_file_version;

// Cuts of two small libraries that Visual C++ built from one source, one for
// 32-bit and one for 64-bit Windows, both with the file version 1.0.0.1 in
// their resources. What the reader looks at is kept byte for byte and stands at
// its place: the headers, the directories of the resource tree and the version
// resource. The code and the other resources are left out, zeros in their place.

const LEN_32: usize = 27648;

const TREE_AT_32: usize = 0x2600;

const VERSION_AT_32: usize = 0x6298;

const HEADERS_32: &str = "\
     4d5a90000300000004000000ffff0000b8000000000000004000000000000000000000000000000000000000\
     00000000000000000000000000000000080100000e1fba0e00b409cd21b8014ccd21546869732070726f6772\
     616d2063616e6e6f742062652072756e20696e20444f53206d6f64652e0d0d0a240000000000000099c8089f\
     dda966ccdda966ccdda966ccd0fbbbccdfa966ccd0fbb9ccdfa966ccd0fb86ccd1a966ccd0fb87ccd9a966cc\
     0056adccdea966ccdda967ccfaa966cc683783ccd8a966cc6837baccdca966ccd0fbbdccdca966ccdda9f1cc\
     dca966cc6837b8ccdca966cc52696368dda966cc000000000000000000000000000000000000000000000000\
     504500004c0106005e6b35590000000000000000e00002210b010c0000100000005c00000000000053170000\
     00100000002000000000001000100000000200000600000000000000060000000000000000b0000000040000\
     0000000002004001000010000010000000001000001000000000000010000000e02500006602000048280000\
     3c00000000500000d04100000000000000000000000000000000000000a0000050020000d020000038000000\
     00000000000000000000000000000000f821000018000000b021000040000000000000000000000000200000\
     a00000000000000000000000000000000000000000000000000000002e74657874000000e50e000000100000\
     0010000000040000000000000000000000000000200000602e726461746100001e0c000000200000000e0000\
     00140000000000000000000000000000400000402e6461746100000030040000003000000002000000220000\
     000000000000000000000000400000c02e746c73000000000300000000400000000200000024000000000000\
     0000000000000000400000c02e72737263000000d04100000050000000420000002600000000000000000000\
     00000000400000402e72656c6f6300005002000000a000000004000000680000000000000000000000000000\
     40000042";

const TREE_32: &str = "\
     0000000000000000000000000100060008020080480000800300000060000080060000007800008009000000\
     900000800e000000a800008010000000c000008018000000d800008000000000000000000000000000000100\
     6a000000f0000080000000000000000000000000000001000100000008010080000000000000000000000000\
     0000010007000000200100800000000000000000000000000000010065000000380100800000000000000000\
     0000000000000100670000005001008000000000000000000000000000000100010000006801008000000000\
     0000000000000000000001000200000080010080000000000000000000000000000001000908000098010000\
     0000000000000000000000000000010009080000a80100000000000000000000000000000000010009080000\
     b80100000000000000000000000000000000010009080000c801000000000000000000000000000000000100\
     09080000d80100000000000000000000000000000000010009080000e8010000000000000000000000000000\
     0000010009040000f8010000f0770000a2140000000000000000000030520000a82500000000000000000000\
     508f0000fc000000000000000000000020520000100000000000000000000000d87700001400000000000000\
     00000000988c0000b80200000000000000000000509000007d0100000000000000000000";

const VERSION_32: &str = "\
     b80234000000560053005f00560045005200530049004f004e005f0049004e0046004f0000000000bd04effe\
     00000100000001000100000000000100010000003f0000000000000004000400020000000000000000000000\
     0000000018020000010053007400720069006e006700460069006c00650049006e0066006f000000f4010000\
     01003000380030003900300034006200300000004a001500010043006f006d00700061006e0079004e006100\
     6d0065000000000055006d006200720065006c006c006100200043006f00720070006f007200610074006900\
     6f006e00000000003e000b000100460069006c0065004400650073006300720069007000740069006f006e00\
     0000000054002d005600650072006f006e0069006300610000000000300008000100460069006c0065005600\
     65007200730069006f006e000000000031002e0030002e0030002e003100000032000900010049006e007400\
     650072006e0061006c004e0061006d0065000000440065006d006f002e0064006c006c00000000004a001300\
     01004c006500670061006c0043006f007000790072006900670068007400000043006f007000790072006900\
     670068007400200028004300290020003200300031003700000000003a00090001004f007200690067006900\
     6e0061006c00460069006c0065006e0061006d0065000000440065006d006f002e0064006c006c0000000000\
     2e0007000100500072006f0064007500630074004e0061006d00650000000000410054003100350032003100\
     00000000340008000100500072006f006400750063007400560065007200730069006f006e00000031002e00\
     30002e0030002e0031000000440000000100560061007200460069006c00650049006e0066006f0000000000\
     2400040000005400720061006e0073006c006100740069006f006e00000000000908b004";

const LEN_64: usize = 29184;

const TREE_AT_64: usize = 0x2E00;

const VERSION_AT_64: usize = 0x6A98;

const HEADERS_64: &str = "\
     4d5a90000300000004000000ffff0000b8000000000000004000000000000000000000000000000000000000\
     00000000000000000000000000000000100100000e1fba0e00b409cd21b8014ccd21546869732070726f6772\
     616d2063616e6e6f742062652072756e20696e20444f53206d6f64652e0d0d0a2400000000000000a1a4c49e\
     e5c5aacde5c5aacde5c5aacda39477cde7c5aacd7b656dcde4c5aacda39475cde4c5aacda3944acde9c5aacd\
     a3944bcde1c5aacd383a61cde6c5aacde5c5abcdccc5aacd505b4fcde0c5aacd505b76cde4c5aacde89771cd\
     e4c5aacde5c53dcde4c5aacd505b74cde4c5aacd52696368e5c5aacd00000000000000000000000000000000\
     000000000000000050450000648607005c6b35590000000000000000f00022200b020c000012000000620000\
     0000000068180000001000000000008001000000001000000002000006000000000000000600000000000000\
     00e0000000040000000000000200600100001000000000000010000000000000000010000000000000100000\
     000000000000000010000000303a000076020000a83c00003c00000000800000d041000000600000c8010000\
     000000000000000000d000006000000090310000380000000000000000000000000000000000000070330000\
     2800000000330000700000000000000000000000003000004801000000000000000000000000000000000000\
     00000000000000002e74657874000000bb110000001000000012000000040000000000000000000000000000\
     200000602e726461746100006c11000000300000001200000016000000000000000000000000000040000040\
     2e6461746100000010070000005000000002000000280000000000000000000000000000400000c02e706461\
     74610000c80100000060000000020000002a0000000000000000000000000000400000402e746c7300000000\
     030000000070000000020000002c0000000000000000000000000000400000c02e72737263000000d0410000\
     0080000000420000002e0000000000000000000000000000400000402e72656c6f6300006000000000d00000\
     000200000070000000000000000000000000000040000042";

const TREE_64: &str = "\
     0000000000000000000000000100060008020080480000800300000060000080060000007800008009000000\
     900000800e000000a800008010000000c000008018000000d800008000000000000000000000000000000100\
     6a000000f0000080000000000000000000000000000001000100000008010080000000000000000000000000\
     0000010007000000200100800000000000000000000000000000010065000000380100800000000000000000\
     0000000000000100670000005001008000000000000000000000000000000100010000006801008000000000\
     0000000000000000000001000200000080010080000000000000000000000000000001000908000098010000\
     0000000000000000000000000000010009080000a80100000000000000000000000000000000010009080000\
     b80100000000000000000000000000000000010009080000c801000000000000000000000000000000000100\
     09080000d80100000000000000000000000000000000010009080000e8010000000000000000000000000000\
     0000010009040000f8010000f0a70000a2140000000000000000000030820000a82500000000000000000000\
     50bf0000fc000000000000000000000020820000100000000000000000000000d8a700001400000000000000\
     0000000098bc0000b8020000000000000000000050c000007d0100000000000000000000";

const VERSION_64: &str = "\
     b80234000000560053005f00560045005200530049004f004e005f0049004e0046004f0000000000bd04effe\
     00000100000001000100000000000100010000003f0000000000000004000400020000000000000000000000\
     0000000018020000010053007400720069006e006700460069006c00650049006e0066006f000000f4010000\
     01003000380030003900300034006200300000004a001500010043006f006d00700061006e0079004e006100\
     6d0065000000000055006d006200720065006c006c006100200043006f00720070006f007200610074006900\
     6f006e00000000003e000b000100460069006c0065004400650073006300720069007000740069006f006e00\
     0000000054002d005600650072006f006e0069006300610000000000300008000100460069006c0065005600\
     65007200730069006f006e000000000031002e0030002e0030002e003100000032000900010049006e007400\
     650072006e0061006c004e0061006d0065000000440065006d006f002e0064006c006c00000000004a001300\
     01004c006500670061006c0043006f007000790072006900670068007400000043006f007000790072006900\
     670068007400200028004300290020003200300031003700000000003a00090001004f007200690067006900\
     6e0061006c00460069006c0065006e0061006d0065000000440065006d006f002e0064006c006c0000000000\
     2e0007000100500072006f0064007500630074004e0061006d00650000000000410054003100350032003100\
     00000000340008000100500072006f006400750063007400560065007200730069006f006e00000031002e00\
     30002e0030002e0031000000440000000100560061007200460069006c00650049006e0066006f0000000000\
     2400040000005400720061006e0073006c006100740069006f006e00000000000908b004";

fn bytes_of(hex: &str) -> Vec<u8> {
    let digits: Vec<u8> = hex.chars().map(|c| c.to_digit(16).unwrap() as u8).collect();
    digits.chunks(2).map(|pair| pair[0] * 16 + pair[1]).collect()
}

fn put(image: &mut [u8], at: usize, bytes: &[u8]) {
    image[at..at + bytes.len()].copy_from_slice(bytes);
}

fn library_32() -> Vec<u8> {
    let mut image = vec![0u8; LEN_32];
    put(&mut image, 0, &bytes_of(HEADERS_32));
    put(&mut image, TREE_AT_32, &bytes_of(TREE_32));
    put(&mut image, VERSION_AT_32, &bytes_of(VERSION_32));
    image
}

fn library_64() -> Vec<u8> {
    let mut image = vec![0u8; LEN_64];
    put(&mut image, 0, &bytes_of(HEADERS_64));
    put(&mut image, TREE_AT_64, &bytes_of(TREE_64));
    put(&mut image, VERSION_AT_64, &bytes_of(VERSION_64));
    image
}

fn pelite_file_version(image: &Vec<u8>) -> Option<FileVersion> {
    let resources = if let Ok(pe) = pelite::pe64::PeFile::from_bytes(image) {
        pelite::pe64::Pe::resources(pe).ok()?
    } else if let Ok(pe) = pelite::pe32::PeFile::from_bytes(image) {
        pelite::pe32::Pe::resources(pe).ok()?
    } else {
        return None;
    };
    let fixed = resources.version_info().ok()?.fixed()?;
    Some(FileVersion::new(
        Some(fixed.dwFileVersion.Major as u32),
        Some(fixed.dwFileVersion.Minor as u32),
        Some(fixed.dwFileVersion.Patch as u32),
        Some(fixed.dwFileVersion.Build as u32),
    ))
}

#[test]
fn version_of_a_real_32_bit_library() {
    let image = library_32();
    let expected = FileVersion::new(Some(1), Some(0), Some(0), Some(1));
    assert_eq!(read_file_version(&image), Some(expected));
    assert_eq!(read_file_version(&image).unwrap().to_string(), "1.0.0.1");
    assert_eq!(pelite_file_version(&image), Some(expected));
}

#[test]
fn version_of_a_real_64_bit_library() {
    let image = library_64();
    let expected = FileVersion::new(Some(1), Some(0), Some(0), Some(1));
    assert_eq!(read_file_version(&image), Some(expected));
    assert_eq!(pelite_file_version(&image), Some(expected));
}

#[test]
fn layout_of_the_real_libraries() {
    let image = library_32();
    let layout = parse_headers(&image).unwrap();
    assert!(!layout.is_64bit);
    assert_eq!(layout.resource_rva, 0x5000);
    assert_eq!(layout.resource_size, 0x41D0);
    assert_eq!(layout.section_rva, 0x5000);
    assert_eq!(layout.section_offset, 0x2600);
    assert_eq!(find_version_resource(&image, &layout).unwrap(), &bytes_of(VERSION_32)[..]);

    let image = library_64();
    let layout = parse_headers(&image).unwrap();
    assert!(layout.is_64bit);
    assert_eq!(layout.resource_rva, 0x8000);
    assert_eq!(layout.section_rva, 0x8000);
    assert_eq!(layout.section_offset, 0x2E00);
    assert_eq!(find_version_resource(&image, &layout).unwrap().len(), 0x2B8);
}

#[test]
fn no_version_once_the_version_type_is_renamed() {
    // the entry of the version type is the sixth of the root directory
    let mut image = library_64();
    let entry = TREE_AT_64 + 16 + 8 * 5;
    assert_eq!(image[entry], 16);
    image[entry] = 17;
    assert_eq!(read_file_version(&image), None);
    assert_eq!(pelite_file_version(&image), None);
}
