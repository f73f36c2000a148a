use sigscan::sections::{module_name_matches, parse_elf_sections, parse_pe_sections, plain_program_name};

#[test]
fn module_names_match_exactly_or_by_basename() {
    let path = b"/usr/lib/libminecraftpe.so".to_vec();
    assert!(module_name_matches(&path, &b"/usr/lib/libminecraftpe.so".to_vec()));
    assert!(module_name_matches(&path, &b"libminecraftpe.so".to_vec()));
    assert!(!module_name_matches(&path, &b"libother.so".to_vec()));
    assert!(!module_name_matches(&path, &b"lib".to_vec()));
    assert!(module_name_matches(&b"noslash".to_vec(), &b"noslash".to_vec()));
}

#[test]
fn plain_program_names_have_no_path_or_suffix() {
    assert!(plain_program_name(&b"game".to_vec()));
    assert!(!plain_program_name(&b"libgame.so".to_vec()));
    assert!(!plain_program_name(&b"./game".to_vec()));
    assert!(!plain_program_name(&b"dir/game".to_vec()));
}

fn make_elf64() -> Vec<u8> {
    let mut v = vec![0u8; 0x40 + 0x80 + 7];
    v[0..4].copy_from_slice(&[0x7f, b'E', b'L', b'F']);
    v[4] = 2; // 64-bit
    v[5] = 1; // little-endian
    v[0x28..0x30].copy_from_slice(&0x40u64.to_le_bytes()); // e_shoff
    v[0x3A..0x3C].copy_from_slice(&0x40u16.to_le_bytes()); // e_shentsize
    v[0x3C..0x3E].copy_from_slice(&2u16.to_le_bytes()); // e_shnum
    v[0x3E..0x40].copy_from_slice(&1u16.to_le_bytes()); // e_shstrndx
    // section header 1 (also the string table section), at 0x80
    v[0x80..0x84].copy_from_slice(&1u32.to_le_bytes()); // sh_name -> ".text"
    v[0x98..0xA0].copy_from_slice(&0xC0u64.to_le_bytes()); // sh_offset
    v[0xA0..0xA8].copy_from_slice(&7u64.to_le_bytes()); // sh_size
    // string table at 0xC0: "\0.text\0"
    v[0xC1..0xC7].copy_from_slice(b".text\0");
    v
}

#[test]
fn elf64_sections_parse_with_file_offset_addresses() {
    let img = make_elf64();
    let ss = parse_elf_sections(&img, 0x10000).expect("well-formed image");
    assert_eq!(ss.len(), 2);
    assert_eq!(ss[0].name, "");
    assert_eq!(ss[0].addr, 0x10000);
    assert_eq!(ss[0].size, 0);
    assert_eq!(ss[1].name, ".text");
    assert_eq!(ss[1].addr, 0x10000 + 0xC0);
    assert_eq!(ss[1].size, 7);
}

#[test]
fn elf32_sections_parse() {
    let mut v = vec![0u8; 0x34 + 0x50 + 7];
    v[0..4].copy_from_slice(&[0x7f, b'E', b'L', b'F']);
    v[4] = 1; // 32-bit
    v[5] = 1; // little-endian
    v[0x20..0x24].copy_from_slice(&0x34u32.to_le_bytes()); // e_shoff
    v[0x2E..0x30].copy_from_slice(&0x28u16.to_le_bytes()); // e_shentsize
    v[0x30..0x32].copy_from_slice(&2u16.to_le_bytes()); // e_shnum
    v[0x32..0x34].copy_from_slice(&1u16.to_le_bytes()); // e_shstrndx
    // section header 1 at 0x34 + 0x28 = 0x5C
    v[0x5C..0x60].copy_from_slice(&1u32.to_le_bytes()); // sh_name -> ".data"
    v[0x6C..0x70].copy_from_slice(&0x84u32.to_le_bytes()); // sh_offset
    v[0x70..0x74].copy_from_slice(&7u32.to_le_bytes()); // sh_size
    // string table at 0x84: "\0.data\0"
    v[0x85..0x8B].copy_from_slice(b".data\0");
    let ss = parse_elf_sections(&v, 0x2000).expect("well-formed image");
    assert_eq!(ss.len(), 2);
    assert_eq!(ss[1].name, ".data");
    assert_eq!(ss[1].addr, 0x2000 + 0x84);
    assert_eq!(ss[1].size, 7);
}

#[test]
fn elf64_big_endian_sections_parse() {
    let mut v = vec![0u8; 0x40 + 0x80 + 7];
    v[0..4].copy_from_slice(&[0x7f, b'E', b'L', b'F']);
    v[4] = 2; // 64-bit
    v[5] = 2; // big-endian
    v[0x28..0x30].copy_from_slice(&0x40u64.to_be_bytes()); // e_shoff
    v[0x3A..0x3C].copy_from_slice(&0x40u16.to_be_bytes()); // e_shentsize
    v[0x3C..0x3E].copy_from_slice(&2u16.to_be_bytes()); // e_shnum
    v[0x3E..0x40].copy_from_slice(&1u16.to_be_bytes()); // e_shstrndx
    v[0x80..0x84].copy_from_slice(&1u32.to_be_bytes()); // sh_name -> ".text"
    v[0x98..0xA0].copy_from_slice(&0xC0u64.to_be_bytes()); // sh_offset
    v[0xA0..0xA8].copy_from_slice(&7u64.to_be_bytes()); // sh_size
    v[0xC1..0xC7].copy_from_slice(b".text\0");
    let ss = parse_elf_sections(&v, 0x30000).expect("well-formed image");
    assert_eq!(ss.len(), 2);
    assert_eq!(ss[1].name, ".text");
    assert_eq!(ss[1].addr, 0x30000 + 0xC0);
    assert_eq!(ss[1].size, 7);
}

#[test]
fn elf_truncated_image_is_rejected() {
    let img: Vec<u8> = vec![0x7f, b'E', b'L'];
    assert!(parse_elf_sections(&img, 0).is_err());
}

#[test]
fn elf_bad_magic_is_rejected() {
    let mut img = make_elf64();
    img[0] = 0x7e;
    assert!(parse_elf_sections(&img, 0).is_err());
}

#[test]
fn elf_missing_section_table_is_rejected() {
    let mut img = make_elf64();
    img[0x28..0x30].copy_from_slice(&0u64.to_le_bytes()); // e_shoff = 0
    assert!(parse_elf_sections(&img, 0).is_err());
}

#[test]
fn elf_missing_string_table_is_rejected() {
    let mut img = make_elf64();
    img[0x3E..0x40].copy_from_slice(&0u16.to_le_bytes()); // e_shstrndx = 0
    assert!(parse_elf_sections(&img, 0).is_err());
}

#[test]
fn elf_unterminated_name_is_rejected() {
    let mut img = make_elf64();
    img[0xC6] = b'x'; // the final terminator of the string table is gone
    assert!(parse_elf_sections(&img, 0).is_err());
}

fn make_pe() -> Vec<u8> {
    let mut v = vec![0u8; 0x58 + 40];
    v[0] = 0x4D; // "MZ"
    v[1] = 0x5A;
    v[0x3C..0x40].copy_from_slice(&0x40u32.to_le_bytes()); // e_lfanew
    v[0x40..0x44].copy_from_slice(&0x4550u32.to_le_bytes()); // "PE\0\0"
    v[0x46..0x48].copy_from_slice(&1u16.to_le_bytes()); // NumberOfSections
    v[0x54..0x56].copy_from_slice(&0u16.to_le_bytes()); // SizeOfOptionalHeader
    // section entry at 0x58
    v[0x58..0x5E].copy_from_slice(b".text\0");
    v[0x60..0x64].copy_from_slice(&0x100u32.to_le_bytes()); // VirtualSize
    v[0x64..0x68].copy_from_slice(&0x1000u32.to_le_bytes()); // VirtualAddress
    v
}

#[test]
fn pe_sections_parse_with_virtual_addresses() {
    let img = make_pe();
    let ss = parse_pe_sections(&img, 0x400000).expect("well-formed image");
    assert_eq!(ss.len(), 1);
    assert_eq!(ss[0].name, ".text");
    assert_eq!(ss[0].addr, 0x400000 + 0x1000);
    assert_eq!(ss[0].size, 0x100);
}

#[test]
fn pe_bad_dos_magic_is_rejected() {
    let mut img = make_pe();
    img[0] = 0;
    assert!(parse_pe_sections(&img, 0).is_err());
}

#[test]
fn pe_bad_signature_is_rejected() {
    let mut img = make_pe();
    img[0x40] = 0;
    assert!(parse_pe_sections(&img, 0).is_err());
}

#[test]
fn pe_truncated_table_is_rejected() {
    let mut img = make_pe();
    img.truncate(0x60);
    assert!(parse_pe_sections(&img, 0).is_err());
}
