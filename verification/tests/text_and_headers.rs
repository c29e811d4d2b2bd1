use tharsis::headers::{accepts_ranges, content_length, header_is_text, parse_i64};
use tharsis::text::{decimal_text, join_path, path_is_absolute, Platform};

#[test]
fn decimal_text_writes_integers_like_display() {
    assert_eq!(decimal_text(0), "0");
    assert_eq!(decimal_text(7), "7");
    assert_eq!(decimal_text(42), "42");
    assert_eq!(decimal_text(1000), "1000");
    assert_eq!(decimal_text(-7), "-7");
    assert_eq!(decimal_text(i64::MAX), i64::MAX.to_string());
    assert_eq!(decimal_text(i64::MIN), "-9223372036854775808");
}

#[test]
fn join_path_follows_unix_path_join() {
    let l = Platform::Linux;
    assert_eq!(join_path(l, "/home/u", "tharsis"), "/home/u/tharsis");
    assert_eq!(join_path(l, "/home/u/", "tharsis"), "/home/u/tharsis");
    assert_eq!(join_path(l, "", "tharsis"), "tharsis");
    assert_eq!(join_path(l, "/home/u", "/etc"), "/etc");
    assert_eq!(join_path(l, ".", "file.bin"), "./file.bin");
    assert_eq!(join_path(Platform::MacOs, "/Users/u", "C:x"), "/Users/u/C:x");
    for (base, name) in [("/home/u", "tharsis"), ("/home/u/", "t"), ("", "t"), ("/a", "/b"), ("a", "b")] {
        let std_join = std::path::Path::new(base).join(name).to_string_lossy().to_string();
        assert_eq!(join_path(l, base, name), std_join);
    }
}

#[test]
fn join_path_follows_windows_drive_paths() {
    let w = Platform::Windows;
    assert_eq!(
        join_path(w, "C:\\Users\\u\\AppData\\Roaming", "tharsis"),
        "C:\\Users\\u\\AppData\\Roaming\\tharsis"
    );
    assert_eq!(join_path(w, "C:\\data\\", "t"), "C:\\data\\t");
    assert_eq!(join_path(w, "C:/data/", "t"), "C:/data/t");
    assert_eq!(join_path(w, "C:", "t"), "C:t");
    assert_eq!(join_path(w, "C:\\a", "\\b"), "C:\\b");
    assert_eq!(join_path(w, "C:\\a", "D:\\b"), "D:\\b");
    assert_eq!(join_path(w, "C:\\a", "D:b"), "D:b");
    assert_eq!(join_path(w, "C:\\a", "\\\\srv\\share"), "\\\\srv\\share");
}

#[test]
fn absolute_paths_per_platform() {
    assert!(path_is_absolute(Platform::Linux, "/home"));
    assert!(!path_is_absolute(Platform::Linux, "home"));
    assert!(!path_is_absolute(Platform::Linux, "C:\\x"));
    assert!(path_is_absolute(Platform::Windows, "C:\\x"));
    assert!(path_is_absolute(Platform::Windows, "c:/x"));
    assert!(path_is_absolute(Platform::Windows, "\\\\srv\\share"));
    assert!(!path_is_absolute(Platform::Windows, "C:x"));
    assert!(!path_is_absolute(Platform::Windows, "\\x"));
    assert!(!path_is_absolute(Platform::Windows, "x"));
}

#[test]
fn header_text_is_visible_ascii_or_tab() {
    assert!(header_is_text(b"bytes"));
    assert!(header_is_text(b"a\tb c~"));
    assert!(header_is_text(b""));
    assert!(!header_is_text(b"a\x7f"));
    assert!(!header_is_text(b"\x01"));
    assert!(!header_is_text("é".as_bytes()));
}

#[test]
fn parse_i64_matches_str_parse() {
    let cases: [&[u8]; 14] = [
        b"123", b"+5", b"-5", b"", b"-", b"+", b"12a", b" 12", b"007",
        b"9223372036854775807", b"9223372036854775808", b"-9223372036854775808",
        b"-9223372036854775809", b"00000000000000000000000000001",
    ];
    for case in cases {
        let expected = std::str::from_utf8(case).unwrap().parse::<i64>().ok();
        assert_eq!(parse_i64(case), expected, "case {:?}", case);
    }
    assert_eq!(parse_i64(b"123"), Some(123));
    assert_eq!(parse_i64(b"-9223372036854775808"), Some(i64::MIN));
    assert_eq!(parse_i64(b"9223372036854775808"), None);
}

#[test]
fn content_length_falls_back_to_zero() {
    assert_eq!(content_length(None), 0);
    assert_eq!(content_length(Some(b"1000")), 1000);
    assert_eq!(content_length(Some(b"-3")), -3);
    assert_eq!(content_length(Some(b"abc")), 0);
    assert_eq!(content_length(Some(b"12\x01")), 0);
    assert_eq!(content_length(Some(b"")), 0);
}

#[test]
fn accept_ranges_needs_a_value_other_than_none() {
    assert!(accepts_ranges(Some(b"bytes")));
    assert!(!accepts_ranges(Some(b"none")));
    assert!(accepts_ranges(Some(b"None")));
    assert!(!accepts_ranges(Some(b"")));
    assert!(!accepts_ranges(None));
    assert!(!accepts_ranges(Some(b"\x7fbytes")));
}
