use windows_rust_counters::winnt::{LANGIDFROMLCID, MAKELANGID, MAKESORTLCID, SORTIDFROMLCID, SORTVERSIONFROMLCID};
use widestring::U16String;
use windows_rust_counters::format::{
    find_double_null_terminator, join_nul_terminate_double_nul,
    split_nul_delimited_double_nul_terminated,
};

fn units(s: &str) -> Vec<u16> {
    U16String::from_str(s).into_vec()
}

#[test]
fn test_join_empty() {
    let buf = join_nul_terminate_double_nul(&[]).unwrap();
    assert_eq!(buf, units("\0\0"));
}

#[test]
fn test_join_single() {
    let buf = join_nul_terminate_double_nul(&[units("abc")]).unwrap();
    assert_eq!(buf, units("abc\0\0"));
}

#[test]
fn test_join_multi() {
    let buf = join_nul_terminate_double_nul(&[units("abc"), units("def")]).unwrap();
    assert_eq!(buf, units("abc\0def\0\0"));
}

#[test]
fn test_join_has_empty_cstr() {
    let res = join_nul_terminate_double_nul(&[units("abc"), units(""), units("def")]);
    assert_eq!(res, Err(1));
}

#[test]
fn test_find_double_null_terminator_empty() {
    assert_eq!(find_double_null_terminator(&units("\0\0")), 0);
}

#[test]
fn test_find_double_null_terminator_single() {
    assert_eq!(find_double_null_terminator(&units("abc\0\0")), "abc".len());
}

#[test]
fn test_find_double_null_terminator_multi() {
    assert_eq!(find_double_null_terminator(&units("abc\0def\0\0")), "abc\0def".len());
}

#[test]
fn test_find_double_null_terminator_starts_with_single_nul() {
    assert_eq!(find_double_null_terminator(&units("\0def\0\0")), "\0def".len());
}

#[test]
fn test_split_slice_empty() {
    let split = split_nul_delimited_double_nul_terminated(&units("\0\0"));
    assert!(split.is_empty());
}

#[test]
fn test_split_slice_single() {
    let split = split_nul_delimited_double_nul_terminated(&units("abc\0\0"));
    assert_eq!(split, vec![units("abc")]);
}

#[test]
fn test_split_slice_multi() {
    let split = split_nul_delimited_double_nul_terminated(&units("abc\0def\0\0"));
    assert_eq!(split, vec![units("abc"), units("def")]);
}

#[test]
fn test_split_slice_starts_with_single_nul() {
    let split = split_nul_delimited_double_nul_terminated(&units("\0def\0\0"));
    assert_eq!(split, vec![units(""), units("def")]);
}

#[test]
fn split_stops_at_the_first_double_nul() {
    let split = split_nul_delimited_double_nul_terminated(&units("ab\0\0cd\0\0"));
    assert_eq!(split, vec![units("ab")]);
}

#[test]
fn split_of_join_gives_the_strings_back() {
    let strings = vec![units("Morse"), units("Counter"), units("x")];
    let buf = join_nul_terminate_double_nul(&strings).unwrap();
    assert_eq!(split_nul_delimited_double_nul_terminated(&buf), strings);
}

#[test]
fn double_nul_before_more_data() {
    assert_eq!(find_double_null_terminator(&units("ab\0\0cd")), 2);
    let split = split_nul_delimited_double_nul_terminated(&units("ab\0c\0\0de\0\0"));
    assert_eq!(split, vec![units("ab"), units("c")]);
}

#[test]
fn sort_lcid_gives_back_its_parts() {
    let lang = MAKELANGID(0x09, 0x01);
    let lcid = MAKESORTLCID(lang, 1, 2);
    assert_eq!(LANGIDFROMLCID(lcid), lang);
    assert_eq!(SORTIDFROMLCID(lcid), 1);
    assert_eq!(SORTVERSIONFROMLCID(lcid), 2);
}
