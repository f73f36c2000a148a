use sigscan::searcher::get_string_addr;
use sigscan::sections::SectionInfo;
use sigscan::utils::{combine_hex, split_hex};
use sigscan::{init, locate_string, SectionImage, TargetArch};

fn section(name: &str, addr: usize, data: Vec<u8>) -> SectionImage {
    let size = data.len();
    SectionImage { info: SectionInfo { name: String::from(name), addr, size }, data }
}

fn arm_bytes(words: &[u32]) -> Vec<u8> {
    let mut v = Vec::new();
    for w in words {
        v.extend_from_slice(&w.to_le_bytes());
    }
    v
}

#[test]
fn terminator_must_match() {
    // "AB" inside "ABC\0" is a substring of a longer constant: no match.
    let data: Vec<u8> = b"ABC\x00".to_vec();
    assert_eq!(get_string_addr(&data, "AB", 0x1000), None);
    // "AB\0" is the exact constant: match at offset 0.
    let data: Vec<u8> = b"AB\x00".to_vec();
    assert_eq!(get_string_addr(&data, "AB", 0x1000), Some(0x1000));
}

#[test]
fn first_occurrence_wins() {
    let mut data = vec![0u8; 80];
    data[10..13].copy_from_slice(b"AB\x00");
    data[50..53].copy_from_slice(b"AB\x00");
    assert_eq!(get_string_addr(&data, "AB", 0x2000), Some(0x2000 + 10));
}

#[test]
fn absent_string_is_not_found() {
    let data: Vec<u8> = b"nothing of note in here".to_vec();
    assert_eq!(get_string_addr(&data, "AB", 0), None);
}

#[test]
fn section_enumeration_order_decides() {
    // The string sits in both .rodata and .data; .rodata is enumerated first,
    // so the result reflects .rodata's address.
    let hit: Vec<u8> = b"needle\x00".to_vec();
    let ss = vec![
        section(".rodata", 0x4000, hit.clone()),
        section(".data", 0x8000, hit.clone()),
    ];
    assert_eq!(locate_string(&ss, "needle"), Some(0x4000));
    // With .data enumerated first, its address wins instead.
    let ss = vec![
        section(".data", 0x8000, hit.clone()),
        section(".rodata", 0x4000, hit),
    ];
    assert_eq!(locate_string(&ss, "needle"), Some(0x8000));
}

#[test]
fn rdata_is_a_candidate_section() {
    let hit: Vec<u8> = b"needle\x00".to_vec();
    let ss = vec![section(".rdata", 0x7000, hit)];
    assert_eq!(locate_string(&ss, "needle"), Some(0x7000));
}

#[test]
fn non_candidate_sections_are_not_searched() {
    let hit: Vec<u8> = b"needle\x00".to_vec();
    let ss = vec![section(".comment", 0x4000, hit)];
    assert_eq!(locate_string(&ss, "needle"), None);
}

#[test]
fn empty_section_list_finds_nothing() {
    let ss: Vec<SectionImage> = Vec::new();
    assert_eq!(locate_string(&ss, "needle"), None);
}

fn pipeline_sections() -> Vec<SectionImage> {
    // .text at 0x1000: stp; adrp x0 reaching page 0x4000; add x0,x0,#8; ret
    let text = arm_bytes(&[0xA9BF7BFD, 0xF0000000, 0x91002000, 0xD65F03C0]);
    // .rodata at 0x4000 with the string constant at offset 8.
    let mut ro = vec![0u8; 8];
    ro.extend_from_slice(b"A dimension task group\x00");
    vec![section(".text", 0x1000, text), section(".rodata", 0x4000, ro)]
}

#[test]
fn full_pipeline_resolves_function_start() {
    let ss = pipeline_sections();
    let r = init(&ss, "A dimension task group", TargetArch::Aarch64);
    assert_eq!(r, Some(0x1000));
}

#[test]
fn full_pipeline_is_idempotent() {
    let ss = pipeline_sections();
    let first = init(&ss, "A dimension task group", TargetArch::Aarch64);
    let second = init(&ss, "A dimension task group", TargetArch::Aarch64);
    assert_eq!(first, second);
    assert_eq!(first, Some(0x1000));
}

#[test]
fn pipeline_without_string_resolves_nothing() {
    let ss = pipeline_sections();
    assert_eq!(init(&ss, "some other constant", TargetArch::Aarch64), None);
}

#[test]
fn pipeline_without_text_section_resolves_nothing() {
    let mut ro = vec![0u8; 8];
    ro.extend_from_slice(b"A dimension task group\x00");
    let ss = vec![section(".rodata", 0x4000, ro)];
    assert_eq!(init(&ss, "A dimension task group", TargetArch::Aarch64), None);
}

#[test]
fn x86_pipeline_resolves_function_start() {
    // push rbp; mov eax,[0x4008]; ret — referencing the string constant.
    let text: Vec<u8> = vec![0x55, 0x8B, 0x04, 0x25, 0x08, 0x40, 0x00, 0x00, 0xC3];
    let mut ro = vec![0u8; 8];
    ro.extend_from_slice(b"A dimension task group\x00");
    let ss = vec![section(".text", 0x1000, text), section(".rodata", 0x4000, ro)];
    let r = init(&ss, "A dimension task group", TargetArch::X64);
    assert_eq!(r, Some(0x1000));
}

#[test]
fn x86_pipeline_is_idempotent() {
    let text: Vec<u8> = vec![0x55, 0x8B, 0x04, 0x25, 0x08, 0x40, 0x00, 0x00, 0xC3];
    let mut ro = vec![0u8; 8];
    ro.extend_from_slice(b"A dimension task group\x00");
    let ss = vec![section(".text", 0x1000, text), section(".rodata", 0x4000, ro)];
    let first = init(&ss, "A dimension task group", TargetArch::X64);
    let second = init(&ss, "A dimension task group", TargetArch::X64);
    assert_eq!(first, second);
    assert_eq!(first, Some(0x1000));
}

#[test]
fn combine_hex_packs_exactly() {
    assert_eq!(combine_hex(0x1234, 0x5678), 0x12345678);
    assert_eq!(combine_hex(-1, -1), -1);
    assert_eq!(combine_hex(-1, 0), 0xFFFF0000u32 as i32);
    assert_eq!(combine_hex(0, -1), 0x0000FFFF);
}

#[test]
fn split_hex_unpacks_exactly() {
    assert_eq!(split_hex(0x12345678), (0x1234, 0x5678));
    assert_eq!(split_hex(-1), (-1, -1));
    assert_eq!(split_hex(0x0000FFFF), (0, -1));
}

#[test]
fn split_undoes_combine() {
    for &(a, b) in &[(0i16, 0i16), (1, 2), (-1, 7), (i16::MIN, i16::MAX), (12345, -12345)] {
        assert_eq!(split_hex(combine_hex(a, b)), (a, b));
    }
}

#[test]
fn combine_undoes_split() {
    for &x in &[0i32, 1, -1, 0x12345678, i32::MIN, i32::MAX] {
        let (hi, lo) = split_hex(x);
        assert_eq!(combine_hex(hi, lo), x);
    }
}
