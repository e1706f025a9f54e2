use pvplay::number::{parse_i64, parse_u32, u32_decimal, u64_decimal};
use pvplay::text::{same_text, split_once, strip_prefix, trim, trim_end, trim_end_char};

#[test]
fn u32_reading_follows_std() {
    for text in ["0", "+7", "007", "4294967295", "4294967296", "", "+", "-1", " 1", "1 ", "1_0", "٣"] {
        assert_eq!(parse_u32(text), text.parse::<u32>().ok(), "{:?}", text);
    }
}

#[test]
fn i64_reading_follows_std() {
    for text in [
        "0", "-0", "+5", "-5", "-", "+", "", "9223372036854775807", "9223372036854775808",
        "-9223372036854775808", "-9223372036854775809", "12a", "--1",
    ] {
        assert_eq!(parse_i64(text), text.parse::<i64>().ok(), "{:?}", text);
    }
}

#[test]
fn decimal_writing_follows_std() {
    for n in [0u64, 9, 10, 99, 100, 12345, u64::MAX] {
        assert_eq!(u64_decimal(n), n.to_string());
    }
    assert_eq!(u32_decimal(u32::MAX), "4294967295");
}

#[test]
fn trimming_follows_std() {
    for text in ["", "  ", " a b ", "\u{3000}x\u{85}", "\t\r\n", "x\n\n", "\u{200b}y"] {
        assert_eq!(trim(text), text.trim(), "{:?}", text);
        assert_eq!(trim_end(text), text.trim_end(), "{:?}", text);
        assert_eq!(trim_end_char(text, '\n'), text.trim_end_matches('\n'), "{:?}", text);
    }
}

#[test]
fn prefix_and_split_follow_std() {
    assert_eq!(strip_prefix("state: play", "state: "), Some("play"));
    assert_eq!(strip_prefix("stat", "state: "), None);
    assert_eq!(strip_prefix("é", ""), Some("é"));
    assert_eq!(split_once("a:b:c", ':'), Some(("a", "b:c")));
    assert_eq!(split_once("abc", ':'), None);
    assert!(same_text("ab", "ab"));
    assert!(!same_text("ab", "abc"));
}
