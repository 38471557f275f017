use os_watchdog::text::{
    blank, contains, format_i64, format_u64, join3, parse_u64, same, split_fields, split_lines,
    starts_with, trim,
};

#[test]
fn trims_unicode_white_space() {
    assert_eq!(trim(" \t1\u{3000}\r\n"), "1");
    assert_eq!(trim("   "), "");
    assert_eq!(trim("a b"), "a b");
}

#[test]
fn white_space_agrees_with_the_standard_library() {
    let mut code: u32 = 0;
    while code <= 0x3100 {
        if let Some(c) = char::from_u32(code) {
            assert_eq!(blank(c), c.is_whitespace());
        }
        code += 1;
    }
}

#[test]
fn finds_substrings() {
    assert!(contains("/dev/sda1", "sda"));
    assert!(contains("/dev/sda1", ""));
    assert!(contains("aaab", "aab"));
    assert!(!contains("/dev/sdb1", "sda"));
    assert!(!contains("sd", "sda"));
}

#[test]
fn compares_prefixes_and_texts() {
    assert!(starts_with("nvme0n1", "nvme"));
    assert!(!starts_with("nvm", "nvme"));
    assert!(same("caf\u{e9}", "caf\u{e9}"));
    assert!(!same("a", "ab"));
    assert!(!same("a", "b"));
}

#[test]
fn splits_fields_and_lines() {
    assert_eq!(split_fields("  8 0\tsda\u{a0}1 "), vec!["8", "0", "sda", "1"]);
    assert!(split_fields(" \n ").is_empty());
    assert_eq!(split_lines("a\nb\n\nc"), vec!["a", "b", "", "c"]);
    assert_eq!(split_lines("a\n"), vec!["a"]);
    assert!(split_lines("").is_empty());
}

#[test]
fn parses_numbers_as_the_standard_library_does() {
    let samples = [
        "0", "7", "+7", "18446744073709551615", "18446744073709551616", "", "+", "-1", " 1", "1 ",
        "00012", "1_000", "0x10", "99999999999999999999",
    ];
    for sample in samples {
        assert_eq!(parse_u64(sample), sample.parse::<u64>().ok(), "{}", sample);
    }
}

#[test]
fn formats_numbers() {
    assert_eq!(format_u64(0), "0");
    assert_eq!(format_u64(1234567890), "1234567890");
    assert_eq!(format_u64(u64::MAX), "18446744073709551615");
    assert_eq!(format_i64(-40), "-40");
    assert_eq!(format_i64(i64::MIN), "-9223372036854775808");
    assert_eq!(join3("a", "b", "c"), "abc");
}

#[test]
fn written_numbers_read_back() {
    for n in [0u64, 9, 10, 30308, u64::MAX] {
        assert_eq!(parse_u64(&format_u64(n)), Some(n));
    }
}
