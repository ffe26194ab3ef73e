//! Byte-level parsing primitives: integers, trimming, tokens, lines.

use systemcheck::meminfo::{get_system_memory_from_proc, parse_meminfo_line};
use systemcheck::numbers::{parse_i64, parse_u64};
use systemcheck::text::{
    bytes_eq, contains_bytes, split_lines, split_on_sep, split_ws_tokens, starts_with, trim_bytes,
};

#[test]
fn parse_u64_accepts_plain_digits() {
    assert_eq!(parse_u64(b"0"), Some(0));
    assert_eq!(parse_u64(b"123"), Some(123));
    assert_eq!(parse_u64(b"536870912"), Some(536870912));
}

#[test]
fn parse_u64_accepts_leading_plus() {
    assert_eq!(parse_u64(b"+123"), Some(123));
}

#[test]
fn parse_u64_rejects_junk() {
    assert_eq!(parse_u64(b""), None);
    assert_eq!(parse_u64(b"+"), None);
    assert_eq!(parse_u64(b"12a"), None);
    assert_eq!(parse_u64(b"a12"), None);
    assert_eq!(parse_u64(b"-1"), None);
    assert_eq!(parse_u64(b"1 2"), None);
    assert_eq!(parse_u64(b"max"), None);
}

#[test]
fn parse_u64_boundary() {
    assert_eq!(parse_u64(b"18446744073709551615"), Some(u64::MAX));
    assert_eq!(parse_u64(b"18446744073709551616"), None);
    assert_eq!(parse_u64(b"99999999999999999999999"), None);
}

#[test]
fn parse_i64_signs() {
    assert_eq!(parse_i64(b"150000"), Some(150000));
    assert_eq!(parse_i64(b"+7"), Some(7));
    assert_eq!(parse_i64(b"-1"), Some(-1));
    assert_eq!(parse_i64(b"--1"), None);
    assert_eq!(parse_i64(b"-"), None);
    assert_eq!(parse_i64(b""), None);
}

#[test]
fn parse_i64_boundary() {
    assert_eq!(parse_i64(b"9223372036854775807"), Some(i64::MAX));
    assert_eq!(parse_i64(b"9223372036854775808"), None);
    assert_eq!(parse_i64(b"-9223372036854775808"), Some(i64::MIN));
    assert_eq!(parse_i64(b"-9223372036854775809"), None);
}

#[test]
fn trim_removes_edge_whitespace() {
    assert_eq!(trim_bytes(b"  100000\n"), b"100000".to_vec());
    assert_eq!(trim_bytes(b"\t max \r\n"), b"max".to_vec());
    assert_eq!(trim_bytes(b""), Vec::<u8>::new());
    assert_eq!(trim_bytes(b"  \n "), Vec::<u8>::new());
    assert_eq!(trim_bytes(b"a b"), b"a b".to_vec());
}

#[test]
fn trim_covers_all_ascii_whitespace() {
    assert_eq!(trim_bytes(b"\x09\x0a\x0b\x0c\x0d x \x0b"), b"x".to_vec());
}

#[test]
fn tokens_split_on_any_whitespace() {
    let toks = split_ws_tokens(b" 100000\t200000 \n");
    assert_eq!(toks, vec![b"100000".to_vec(), b"200000".to_vec()]);
    assert_eq!(split_ws_tokens(b""), Vec::<Vec<u8>>::new());
    assert_eq!(split_ws_tokens(b"   "), Vec::<Vec<u8>>::new());
    assert_eq!(split_ws_tokens(b"one"), vec![b"one".to_vec()]);
}

#[test]
fn lines_split_like_the_runtime() {
    assert_eq!(
        split_lines(b"a\r\nb\nc"),
        vec![b"a".to_vec(), b"b".to_vec(), b"c".to_vec()]
    );
    assert_eq!(split_lines(b"x\n"), vec![b"x".to_vec()]);
    assert_eq!(split_lines(b"x\n\n"), vec![b"x".to_vec(), b"".to_vec()]);
    assert_eq!(split_lines(b""), Vec::<Vec<u8>>::new());
    assert_eq!(split_lines(b"\n"), vec![b"".to_vec()]);
}

#[test]
fn colon_fields_keep_empties() {
    assert_eq!(
        split_on_sep(b"12:memory:/path", 58),
        vec![b"12".to_vec(), b"memory".to_vec(), b"/path".to_vec()]
    );
    assert_eq!(split_on_sep(b"", 58), vec![b"".to_vec()]);
    assert_eq!(split_on_sep(b"a:", 58), vec![b"a".to_vec(), b"".to_vec()]);
}

#[test]
fn prefix_and_substring_search() {
    assert!(starts_with(b"processor : 0", b"processor"));
    assert!(!starts_with(b"proc", b"processor"));
    assert!(contains_bytes(b"4:memory:/x", b":memory:"));
    assert!(!contains_bytes(b"4:cpu,memory:/x", b":memory:"));
    assert!(bytes_eq(b"max", b"max"));
    assert!(!bytes_eq(b"max", b"Max"));
}

#[test]
fn meminfo_line_second_field() {
    assert_eq!(parse_meminfo_line(b"MemTotal:       2048 kB"), Some(2048));
    assert_eq!(parse_meminfo_line(b"MemTotal:"), None);
    assert_eq!(parse_meminfo_line(b"Label garbage kB"), None);
    assert_eq!(parse_meminfo_line(b"x 99"), Some(99));
}

#[test]
fn memory_totals_from_listing() {
    let listing = b"MemTotal:       2097152 kB\nMemFree:         512000 kB\nMemAvailable:   1048576 kB\n";
    let (total, avail) = get_system_memory_from_proc(Some(listing));
    assert_eq!(total, 2097152 * 1024);
    assert_eq!(avail, 1048576 * 1024);
}

#[test]
fn memory_totals_missing_fields_default_to_zero() {
    assert_eq!(get_system_memory_from_proc(None), (0, 0));
    assert_eq!(get_system_memory_from_proc(Some(b"Junk: 1 kB\n")), (0, 0));
    let (total, avail) = get_system_memory_from_proc(Some(b"MemTotal: 100 kB\n"));
    assert_eq!(total, 100 * 1024);
    assert_eq!(avail, 0);
}

#[test]
fn memory_totals_last_match_wins() {
    let listing = b"MemTotal: 100 kB\nMemTotal: 200 kB\n";
    let (total, _) = get_system_memory_from_proc(Some(listing));
    assert_eq!(total, 200 * 1024);
}

#[test]
fn memory_totals_saturate_instead_of_overflowing() {
    let listing = b"MemTotal: 18446744073709551615 kB\n";
    let (total, _) = get_system_memory_from_proc(Some(listing));
    assert_eq!(total, u64::MAX);
}
