use import_queue::text::{is_white_space_char, parse_usize, trim_quotes, trim_white_space};

#[test]
fn white_space_agrees_with_std_for_every_char() {
    for code in 0u32..=0x10FFFF {
        if let Some(c) = char::from_u32(code) {
            assert_eq!(is_white_space_char(c), c.is_whitespace(), "code point {code:#x}");
        }
    }
}

const SAMPLES: [&str; 16] = [
    "",
    " ",
    "abc",
    "  abc  ",
    "\t\n abc \r\n",
    "\u{3000}x\u{2029}",
    "\u{200b}x",
    "\"5\"",
    "\"\"5\"\"",
    "\"",
    "\" 5 \"",
    "a b",
    "  ",
    "\u{85}\u{a0}z\u{1680}",
    "\"\"",
    "x\"",
];

#[test]
fn trim_agrees_with_std() {
    for s in SAMPLES {
        assert_eq!(trim_white_space(s), s.trim(), "sample {s:?}");
        assert_eq!(trim_quotes(s), s.trim_matches('"'), "sample {s:?}");
    }
}

#[test]
fn parse_usize_examples() {
    assert_eq!(parse_usize("5"), Some(5));
    assert_eq!(parse_usize("0"), Some(0));
    assert_eq!(parse_usize("+12"), Some(12));
    assert_eq!(parse_usize("007"), Some(7));
    assert_eq!(parse_usize(""), None);
    assert_eq!(parse_usize("+"), None);
    assert_eq!(parse_usize("-1"), None);
    assert_eq!(parse_usize("-0"), None);
    assert_eq!(parse_usize(" 5"), None);
    assert_eq!(parse_usize("5 "), None);
    assert_eq!(parse_usize("1_000"), None);
    assert_eq!(parse_usize("++1"), None);
    assert_eq!(parse_usize("٣"), None);
}

#[test]
fn parse_usize_agrees_with_std() {
    let max = usize::MAX.to_string();
    let over = format!("{}0", max);
    let just_over = (usize::MAX as u128 + 1).to_string();
    let samples = [
        "18446744073709551615",
        "18446744073709551616",
        "4294967295",
        "4294967296",
        "99999999999999999999999",
        "1a",
        "a1",
        "12345678901234567890x",
        max.as_str(),
        over.as_str(),
        just_over.as_str(),
        "+0",
        "00000000000000000000000000001",
    ];
    for s in samples {
        assert_eq!(parse_usize(s), s.parse::<usize>().ok(), "sample {s:?}");
    }
}
