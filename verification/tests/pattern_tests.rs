use cs2_skin_changer::memory::Memory;
use cs2_skin_changer::pattern::{hex_digit, Pattern};
use cs2_skin_changer::process::{bytes_equal, bytes_start_with, Process};

fn pattern(text: &str) -> Pattern {
    Pattern::parse(text).expect("the text is a pattern")
}

#[test]
fn hex_digits_have_their_values() {
    assert_eq!(hex_digit(b'0'), Some(0));
    assert_eq!(hex_digit(b'9'), Some(9));
    assert_eq!(hex_digit(b'A'), Some(10));
    assert_eq!(hex_digit(b'F'), Some(15));
    assert_eq!(hex_digit(b'a'), Some(10));
    assert_eq!(hex_digit(b'f'), Some(15));
    assert_eq!(hex_digit(b'G'), None);
    assert_eq!(hex_digit(b'g'), None);
    assert_eq!(hex_digit(b'/'), None);
    assert_eq!(hex_digit(b':'), None);
    assert_eq!(hex_digit(b'@'), None);
    assert_eq!(hex_digit(b'`'), None);
    assert_eq!(hex_digit(b' '), None);
    assert_eq!(hex_digit(b'?'), None);
}

#[test]
fn pattern_text_is_parsed() {
    let parsed = pattern("48 8D 3D ? ? ? ? E8");
    assert_eq!(
        parsed.tokens,
        vec![Some(0x48), Some(0x8D), Some(0x3D), None, None, None, None, Some(0xE8)]
    );
    assert_eq!(parsed.len(), 8);
}

#[test]
fn pattern_text_takes_both_wildcard_forms_and_both_cases() {
    assert_eq!(pattern("?? ? ab Cd fF 00").tokens, vec![None, None, Some(0xAB), Some(0xCD), Some(0xFF), Some(0)]);
}

#[test]
fn pattern_text_may_hold_runs_of_spaces() {
    assert_eq!(pattern("  48   ?  ").tokens, vec![Some(0x48), None]);
    assert_eq!(pattern("").tokens, Vec::<Option<u8>>::new());
    assert_eq!(pattern("   ").tokens, Vec::<Option<u8>>::new());
}

#[test]
fn malformed_pattern_text_is_rejected() {
    assert!(Pattern::parse("48 8").is_none());
    assert!(Pattern::parse("488D").is_none());
    assert!(Pattern::parse("48 GG").is_none());
    assert!(Pattern::parse("48 ???").is_none());
    assert!(Pattern::parse("?A").is_none());
    assert!(Pattern::parse("A?").is_none());
    assert!(Pattern::parse("48\t8D").is_none());
    assert!(Pattern::parse("0x48").is_none());
    assert!(Pattern::parse("48 8D 3D zz").is_none());
    assert!(Pattern::parse("é").is_none());
}

#[test]
fn match_at_a_position() {
    let p = pattern("02 ? 04");
    let data = [1u8, 2, 3, 4, 5];
    assert!(!p.matches_at(&data, 0));
    assert!(p.matches_at(&data, 1));
    assert!(!p.matches_at(&data, 2));
    assert!(!p.matches_at(&data, 3));
    assert!(!p.matches_at(&data, 5));
    assert!(!p.matches_at(&data, 6));
    assert!(!p.matches_at(&data, usize::MAX));
}

#[test]
fn find_returns_the_lowest_match() {
    let p = pattern("AA ? CC");
    let data = [0x00, 0xAA, 0x01, 0xCC, 0xAA, 0x02, 0xCC];
    assert_eq!(p.find(&data), Some(1));
    assert_eq!(p.find(&data[2..]), Some(2));
    assert_eq!(p.find(&data[..3]), None);
}

#[test]
fn find_reports_a_match_at_either_end() {
    let p = pattern("01 02");
    assert_eq!(p.find(&[1, 2, 0, 0]), Some(0));
    assert_eq!(p.find(&[0, 0, 1, 2]), Some(2));
    assert_eq!(p.find(&[1, 2]), Some(0));
    assert_eq!(p.find(&[1]), None);
    assert_eq!(p.find(&[]), None);
    assert_eq!(p.find(&[2, 1, 2, 1]), Some(1));
}

#[test]
fn find_with_wildcards_only() {
    let p = pattern("? ?");
    assert_eq!(p.find(&[9, 9, 9]), Some(0));
    assert_eq!(p.find(&[9]), None);
}

#[test]
fn empty_pattern_occurs_at_the_start() {
    let p = pattern("");
    assert_eq!(p.find(&[1, 2, 3]), Some(0));
    assert_eq!(p.find(&[]), Some(0));
    let mut memory = Memory::new();
    memory.map_region(0x1000, vec![1, 2, 3]);
    assert_eq!(memory.scan(&p, 0x1000, 3), Some(0x1000));
    assert_eq!(memory.scan(&p, 0x9000, 0), Some(0x9000));
}

#[test]
fn scan_returns_the_lowest_address() {
    let mut memory = Memory::new();
    memory.map_region(0x1000, vec![0x00, 0xAA, 0x01, 0xCC, 0xAA, 0x02, 0xCC, 0x00]);
    let p = pattern("AA ? CC");
    assert_eq!(memory.scan(&p, 0x1000, 8), Some(0x1001));
    assert_eq!(memory.scan(&p, 0x1002, 6), Some(0x1004));
    assert_eq!(memory.scan(&p, 0x1005, 3), None);
    assert!(memory.matches(&p, 0x1001));
    assert!(memory.matches(&p, 0x1004));
    assert!(!memory.matches(&p, 0x1000));
}

#[test]
fn scan_stays_inside_its_range() {
    let mut memory = Memory::new();
    memory.map_region(0x1000, vec![0x00, 0x00, 0xAA, 0xBB, 0xCC]);
    let p = pattern("AA BB CC");
    assert_eq!(memory.scan(&p, 0x1000, 5), Some(0x1002));
    assert_eq!(memory.scan(&p, 0x1000, 4), None);
    assert_eq!(memory.scan(&p, 0x1003, 16), None);
    assert_eq!(memory.scan(&p, 0x1000, 2), None);
    assert_eq!(memory.scan(&p, 0x1000, 0), None);
}

#[test]
fn scan_passes_over_what_cannot_be_read() {
    let mut memory = Memory::new();
    memory.map_region(0x1000, vec![0xAA, 0xBB]);
    memory.map_region(0x1010, vec![0xAA, 0xBB, 0xCC]);
    let p = pattern("AA BB CC");
    assert_eq!(memory.scan(&p, 0x1000, 0x20), Some(0x1010));
    let wild = pattern("AA BB ?");
    assert_eq!(memory.scan(&wild, 0x1000, 0x20), Some(0x1010));
    assert!(!memory.matches(&wild, 0x1000));
    let absent = pattern("DD");
    assert_eq!(memory.scan(&absent, 0x1000, 0x20), None);
    assert_eq!(memory.scan(&p, 0x8000, 0x20), None);
}

#[test]
fn scan_finds_a_match_across_adjacent_regions() {
    let mut memory = Memory::new();
    memory.map_region(0x1000, vec![0x00, 0xAA]);
    memory.map_region(0x1002, vec![0xBB, 0x00]);
    assert_eq!(memory.scan(&pattern("AA BB"), 0x1000, 4), Some(0x1001));
}

#[test]
fn scan_at_the_end_of_the_address_space() {
    let mut memory = Memory::new();
    memory.map_region(u64::MAX - 3, vec![0x00, 0x00, 0xAA, 0xBB]);
    assert_eq!(memory.scan(&pattern("AA BB"), u64::MAX - 3, 4), Some(u64::MAX - 1));
    assert_eq!(memory.scan(&pattern("AA BB"), u64::MAX - 3, 100), Some(u64::MAX - 1));
    assert_eq!(memory.scan(&pattern("BB 00"), u64::MAX - 3, 100), None);
    assert!(!memory.matches(&pattern("BB ?"), u64::MAX));
}

#[test]
fn process_scan_searches_the_module_at_the_base() {
    let mut process = Process::new(7);
    process.memory.map_region(0x10000, vec![0x90, 0x48, 0x83, 0x3D, 1, 2, 3, 4, 0x00, 0x0F, 0x95, 0xC0, 0xC3]);
    process.add_module("libclient.so", 0x10000, 13);
    process.add_module("short", 0x10001, 11);
    assert_eq!(process.scan("48 83 3D ? ? ? ? 00 0F 95 C0 C3", 0x10000), Some(0x10001));
    assert_eq!(process.scan("48 83 3D ? ? ? ? 00 0F 95 C0 C3", 0x10001), None);
    assert_eq!(process.scan("48 83 3D", 0x10001), Some(0x10001));
    assert_eq!(process.scan("48 83 3D", 0x20000), None);
    assert_eq!(process.scan("48 83 3", 0x10000), None);
    assert_eq!(process.scan("C3", 0x10000), Some(0x1000C));
    assert_eq!(process.scan("C4", 0x10000), None);
}

#[test]
fn relative_address_with_a_positive_displacement() {
    let mut memory = Memory::new();
    let mut code = vec![0x48, 0x8D, 0x3D];
    code.extend_from_slice(&0x1234i32.to_le_bytes());
    memory.map_region(0x10000, code);
    assert_eq!(memory.relative_address(0x10000, 3, 7), 0x10000 + 7 + 0x1234);
}

#[test]
fn relative_address_with_a_negative_displacement() {
    let mut memory = Memory::new();
    let mut code = vec![0x48, 0x8D, 0x3D];
    code.extend_from_slice(&(-0x2000i32).to_le_bytes());
    memory.map_region(0x10000, code);
    assert_eq!(memory.relative_address(0x10000, 3, 7), 0x10000 + 7 - 0x2000);
    let mut process = Process::new(1);
    let mut other = vec![0xE8];
    other.extend_from_slice(&(-1i32).to_le_bytes());
    process.memory.map_region(0x500, other);
    assert_eq!(process.get_relative_address(0x500, 1, 5), 0x504);
}

#[test]
fn relative_address_with_the_extreme_displacements() {
    let mut memory = Memory::new();
    let mut code = i32::MIN.to_le_bytes().to_vec();
    code.extend_from_slice(&i32::MAX.to_le_bytes());
    memory.map_region(0x1_0000_0000, code);
    assert_eq!(memory.relative_address(0x1_0000_0000, 0, 4), 0x1_0000_0004 - 0x8000_0000);
    assert_eq!(memory.relative_address(0x1_0000_0000, 4, 8), 0x1_0000_0008 + 0x7FFF_FFFF);
}

#[test]
fn relative_address_wraps_at_the_ends_of_the_address_space() {
    let mut memory = Memory::new();
    memory.map_region(0x10, (-0x100i32).to_le_bytes().to_vec());
    assert_eq!(memory.relative_address(0x10, 0, 4), u64::MAX - 0x100 + 0x14 + 1);
    let mut top = Memory::new();
    top.map_region(u64::MAX - 3, 0x10i32.to_le_bytes().to_vec());
    assert_eq!(top.relative_address(u64::MAX - 3, 0, 4), 0x10);
    assert_eq!(top.relative_address(u64::MAX, u64::MAX, u64::MAX), u64::MAX - 1);
}

#[test]
fn relative_address_without_a_readable_displacement() {
    let memory = Memory::new();
    assert_eq!(memory.relative_address(0x10000, 3, 7), 0x10007);
}

#[test]
fn byte_strings_are_compared() {
    assert!(bytes_equal(b"abc", b"abc"));
    assert!(bytes_equal(b"", b""));
    assert!(!bytes_equal(b"abc", b"abd"));
    assert!(!bytes_equal(b"abc", b"ab"));
    assert!(!bytes_equal(b"ab", b"abc"));
    assert!(bytes_start_with(b"abc", b"ab"));
    assert!(bytes_start_with(b"abc", b"abc"));
    assert!(bytes_start_with(b"abc", b""));
    assert!(!bytes_start_with(b"abc", b"abcd"));
    assert!(!bytes_start_with(b"abc", b"b"));
}

#[test]
fn scan_reads_each_byte_from_the_region_that_decides_it() {
    let mut memory = Memory::new();
    memory.map_region(0x1004, vec![0xAA, 0xBB]);
    memory.map_region(0x1000, vec![0x11, 0x22, 0x33, 0x44, 0x55, 0x66, 0x77, 0x88]);
    assert_eq!(memory.scan(&pattern("44 AA BB 77"), 0x1000, 8), Some(0x1003));
    assert_eq!(memory.scan(&pattern("55 66"), 0x1000, 8), None);
    assert_eq!(memory.scan(&pattern("AA BB"), 0x1000, 8), Some(0x1004));
    assert_eq!(memory.scan(&pattern("77 88"), 0x1000, 8), Some(0x1006));
    assert_eq!(memory.scan(&pattern("77 88 ?"), 0x1000, 0x10), None);
}

#[test]
fn scan_goes_on_behind_a_hole() {
    let mut memory = Memory::new();
    memory.map_region(0x1000, vec![0xAA]);
    memory.map_region(0x1002, vec![0xAA]);
    memory.map_region(0x1004, vec![0xAA, 0xAA]);
    assert_eq!(memory.scan(&pattern("AA AA"), 0x1000, 0x10), Some(0x1004));
    assert_eq!(memory.scan(&pattern("AA ? AA"), 0x1000, 0x10), None);
    assert_eq!(memory.scan(&pattern("AA"), 0x1001, 0x10), Some(0x1002));
    assert_eq!(memory.scan(&pattern("AA"), 0x1003, 0x10), Some(0x1004));
    assert_eq!(memory.scan(&pattern("AA"), 0x1006, 0x10), None);
}

#[test]
fn scan_of_a_large_range_finds_a_late_match() {
    let mut bytes = vec![0x90u8; 0x200000];
    let at = bytes.len() - 3;
    bytes[at..].copy_from_slice(&[0xDE, 0xAD, 0xBE]);
    let mut memory = Memory::new();
    for i in 0..64u64 {
        memory.map_region(0x10_0000_0000 + i * 0x1000, vec![0; 0x10]);
    }
    memory.map_region(0x4000_0000, bytes);
    assert_eq!(memory.scan(&pattern("DE AD BE"), 0x4000_0000, 0x200000), Some(0x4000_0000 + at as u64));
    assert_eq!(memory.scan(&pattern("DE AD BF"), 0x4000_0000, 0x200000), None);
}
