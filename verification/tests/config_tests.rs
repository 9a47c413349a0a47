use import_queue::config::{
    dotenv_max_concurrency, import_max_concurrency, DEFAULT_IMPORT_MAX_CONCURRENCY,
};

/// The `.env` reading of the queue, written with the standard library.
fn std_lookup(text: &str) -> Option<String> {
    text.lines()
        .map(str::trim)
        .filter(|line| !line.is_empty() && !line.starts_with('#'))
        .find_map(|line| line.strip_prefix("IMPORT_MAX_CONCURRENCY="))
        .map(|value| value.trim().trim_matches('"').to_string())
}

const FILES: [&str; 14] = [
    "",
    "\n",
    "IMPORT_MAX_CONCURRENCY=8",
    "IMPORT_MAX_CONCURRENCY=8\n",
    "# IMPORT_MAX_CONCURRENCY=8\nIMPORT_MAX_CONCURRENCY=3\n",
    "OTHER=1\r\n  IMPORT_MAX_CONCURRENCY = 4\r\nIMPORT_MAX_CONCURRENCY= \"12\" \r\n",
    "IMPORT_MAX_CONCURRENCY=\nIMPORT_MAX_CONCURRENCY=9",
    "   \t\n\n#x\nIMPORT_MAX_CONCURRENCY=\"\"\"2\"",
    "import_max_concurrency=4",
    "IMPORT_MAX_CONCURRENCY",
    "  IMPORT_MAX_CONCURRENCY=  7  ",
    "IMPORT_MAX_CONCURRENCY=\" 6 \"",
    "A=1\nB=2\nIMPORT_MAX_CONCURRENCY=abc\nIMPORT_MAX_CONCURRENCY=5",
    "\u{3000}IMPORT_MAX_CONCURRENCY=10\u{3000}",
];

#[test]
fn dotenv_reading_agrees_with_std() {
    for text in FILES {
        assert_eq!(dotenv_max_concurrency(text), std_lookup(text), "file {text:?}");
    }
}

#[test]
fn dotenv_examples() {
    assert_eq!(dotenv_max_concurrency("IMPORT_MAX_CONCURRENCY=8\n"), Some("8".to_string()));
    assert_eq!(
        dotenv_max_concurrency("# IMPORT_MAX_CONCURRENCY=8\nIMPORT_MAX_CONCURRENCY=\"3\"\n"),
        Some("3".to_string())
    );
    assert_eq!(dotenv_max_concurrency("OTHER=1\n"), None);
    assert_eq!(dotenv_max_concurrency(""), None);
}

fn some(s: &str) -> Option<String> {
    Some(s.to_string())
}

#[test]
fn concurrency_choice() {
    assert_eq!(DEFAULT_IMPORT_MAX_CONCURRENCY, 5);
    assert_eq!(import_max_concurrency(None, None), 5);
    assert_eq!(import_max_concurrency(some("8"), None), 8);
    assert_eq!(import_max_concurrency(None, some("9")), 9);
    assert_eq!(import_max_concurrency(some("8"), some("9")), 8);
    assert_eq!(import_max_concurrency(some("0"), None), 5);
    assert_eq!(import_max_concurrency(None, some("0")), 5);
    assert_eq!(import_max_concurrency(some("abc"), some("9")), 5);
    assert_eq!(import_max_concurrency(None, some(" 9")), 5);
    assert_eq!(import_max_concurrency(some("+4"), None), 4);
    assert_eq!(import_max_concurrency(some("-4"), None), 5);
}
