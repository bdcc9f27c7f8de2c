use rcc_conformance::bytes::{lf_text_copy, normalize_newlines, strip_one_final_newline, trim_trailing_spaces_per_line};
use rcc_conformance::text::{decimal_i64, truncate_utf8};

#[test]
fn truncation_decodes_lossily_and_counts_characters() {
    assert_eq!(truncate_utf8(b"abc", 2), "ab");
    assert_eq!(truncate_utf8(b"a\xffb", 10), "a\u{fffd}b");
    assert_eq!(truncate_utf8("h\u{e9}llo".as_bytes(), 2), "h\u{e9}");
    assert_eq!(truncate_utf8(b"", 5), "");
}

#[test]
fn newline_normalisation() {
    assert_eq!(normalize_newlines(b"a\r\nb\r\r\n"), b"a\nb\r\n");
    assert_eq!(lf_text_copy(b"x\r\n\xff\r\n"), "x\n\u{fffd}\n".as_bytes());
    assert_eq!(strip_one_final_newline(b"a\n\n".to_vec()), b"a\n");
    assert_eq!(strip_one_final_newline(b"a".to_vec()), b"a");
    assert_eq!(trim_trailing_spaces_per_line(b"a  \nb \nc"), b"a\nb\nc");
}

#[test]
fn signed_decimal_covers_the_whole_i64_range() {
    let s: String = decimal_i64(i64::MIN).into_iter().collect();
    assert_eq!(s, i64::MIN.to_string());
    let s: String = decimal_i64(-42).into_iter().collect();
    assert_eq!(s, "-42");
    let s: String = decimal_i64(i64::MAX).into_iter().collect();
    assert_eq!(s, i64::MAX.to_string());
}
