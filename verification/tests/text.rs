use myrti::text::{
    contains_text, eq_ignore_ascii_case, i64_to_string, parse_u64, starts_with, str_eq,
    to_ascii_lowercase, u64_to_string,
};

#[test]
fn decimal_round_trip() {
    for n in [0u64, 7, 10, 123456789, u64::MAX] {
        assert_eq!(u64_to_string(n), n.to_string());
        assert_eq!(parse_u64(&u64_to_string(n)), Some(n));
    }
    assert_eq!(i64_to_string(i64::MIN), i64::MIN.to_string());
    assert_eq!(i64_to_string(-42), "-42");
}

#[test]
fn parse_u64_like_std() {
    assert_eq!(parse_u64("+12"), Some(12));
    assert_eq!(parse_u64(""), None);
    assert_eq!(parse_u64("1a"), None);
    assert_eq!(parse_u64("18446744073709551616"), None);
}

#[test]
fn string_helpers() {
    assert!(str_eq("abc", "abc"));
    assert!(!str_eq("abc", "abd"));
    assert!(starts_with("video/mp4", "video"));
    assert!(!starts_with("vid", "video"));
    assert_eq!(to_ascii_lowercase("MP4 Ünï"), "mp4 Ünï");
    assert!(eq_ignore_ascii_case("image/VND.FPX", "image/vnd.fpx"));
    assert!(contains_text(&vec!["a".to_owned(), "mp4".to_owned()], "mp4"));
    assert!(!contains_text(&vec![], "mp4"));
}
