use rwrk::text::{begins_with, chars_of, decimal_text, is_blank, parse_unsigned, same_text};

#[test]
fn decimal_text_agrees_with_display() {
    for n in [0, 1, 9, 10, 19, 99, 100, 101, 8080, 65535, 1_000_000, u64::MAX - 1, u64::MAX] {
        assert_eq!(decimal_text(n), n.to_string());
    }
    for n in 0..3000u64 {
        assert_eq!(decimal_text(n), n.to_string());
    }
}

#[test]
fn decimal_numbers_read_back() {
    for n in [0, 7, 10, 65535, u64::MAX] {
        assert_eq!(parse_unsigned(&decimal_text(n), u64::MAX), Some(n));
    }
}

#[test]
fn numbers_are_read_as_the_standard_library_reads_them() {
    let texts = [
        "", "+", "-", "0", "00", "007", "+5", "++5", "-5", "-0", " 5", "5 ", "5x", "x5", "1_000",
        "18446744073709551615", "18446744073709551616", "+18446744073709551615",
        "000018446744073709551615", "99999999999999999999", "99999999999999999999x", "٣", "1.5",
    ];
    for text in texts {
        assert_eq!(parse_unsigned(text, u64::MAX), text.parse::<u64>().ok(), "{:?}", text);
        assert_eq!(parse_unsigned(text, 255), text.parse::<u8>().ok().map(u64::from), "{:?}", text);
    }
    for n in 0..1000u64 {
        let text = n.to_string();
        assert_eq!(parse_unsigned(&text, 255), text.parse::<u8>().ok().map(u64::from));
    }
}

#[test]
fn limits_are_inclusive() {
    assert_eq!(parse_unsigned("255", 255), Some(255));
    assert_eq!(parse_unsigned("256", 255), None);
    assert_eq!(parse_unsigned("0", 0), Some(0));
    assert_eq!(parse_unsigned("1", 0), None);
}

#[test]
fn white_space_is_that_of_unicode() {
    for n in 0..=0x10FFFFu32 {
        if let Some(c) = char::from_u32(n) {
            let text = c.to_string();
            assert_eq!(is_blank(&text), text.trim().is_empty(), "{:x}", n);
        }
    }
}

#[test]
fn blank_texts() {
    assert!(is_blank(""));
    assert!(is_blank(" \t\r\n\u{3000}"));
    assert!(!is_blank("  {}  "));
    assert!(!is_blank("\u{200b}"));
}

#[test]
fn prefixes() {
    assert!(begins_with("rwrk:1", "rwrk:"));
    assert!(begins_with("rwrk", ""));
    assert!(begins_with("", ""));
    assert!(!begins_with("rwr", "rwrk"));
    assert!(!begins_with("xrwrk", "rwrk"));
    assert!(begins_with("äöü", "äö"));
}

#[test]
fn texts_and_characters() {
    assert_eq!(chars_of("aä€"), vec!['a', 'ä', '€']);
    assert!(same_text("conn", "conn"));
    assert!(!same_text("conn", "Conn"));
}
