use fletch::escape::{escape, unescape, UnescapeError, UnescapeErrorKind};

#[test]
fn test_no_escapes() {
    assert_eq!(unescape("hello world").unwrap(), "hello world");
    assert_eq!(unescape("").unwrap(), "");
}

#[test]
fn test_simple_escapes() {
    assert_eq!(unescape(r"hello\nworld").unwrap(), "hello\nworld");
    assert_eq!(unescape(r"tab\there").unwrap(), "tab\there");
    assert_eq!(unescape(r#"quote\"here"#).unwrap(), "quote\"here");
    assert_eq!(unescape(r"back\\slash").unwrap(), "back\\slash");
    assert_eq!(unescape(r#"null\0char"#).unwrap(), "null\0char");
}

#[test]
fn test_hex_escapes() {
    assert_eq!(unescape(r"\x41").unwrap(), "A");
    assert_eq!(unescape(r"\x20").unwrap(), " ");
    assert_eq!(unescape(r"hello\x20world").unwrap(), "hello world");
}

#[test]
fn test_unicode_escapes() {
    assert_eq!(unescape(r"\u{41}").unwrap(), "A");
    assert_eq!(unescape(r"\u{1F600}").unwrap(), "\u{1F600}");
    assert_eq!(unescape(r"\u{03B1}").unwrap(), "\u{03B1}");
    assert_eq!(unescape(r"hello\u{20}world").unwrap(), "hello world");
}

#[test]
fn test_multiple_escapes() {
    assert_eq!(unescape(r"a\nb\tc\rd").unwrap(), "a\nb\tc\rd");
    assert_eq!(unescape(r#"\"\'\\\0"#).unwrap(), "\"\'\\\0");
}

#[test]
fn test_incomplete_escape() {
    assert!(matches!(
        unescape(r"hello\"),
        Err(UnescapeError { kind: UnescapeErrorKind::IncompleteEscape, .. })
    ));
    assert!(matches!(
        unescape(r"hello\x"),
        Err(UnescapeError { kind: UnescapeErrorKind::IncompleteEscape, .. })
    ));
    assert!(matches!(
        unescape(r"hello\x4"),
        Err(UnescapeError { kind: UnescapeErrorKind::IncompleteEscape, .. })
    ));
}

#[test]
fn test_invalid_escape() {
    assert!(matches!(
        unescape(r"\q"),
        Err(UnescapeError { kind: UnescapeErrorKind::InvalidEscape { .. }, .. })
    ));
    assert!(matches!(
        unescape(r"\xGG"),
        Err(UnescapeError { kind: UnescapeErrorKind::InvalidEscape { .. }, .. })
    ));
}

#[test]
fn test_invalid_unicode() {
    assert!(matches!(
        unescape(r"\u{D800}"),
        Err(UnescapeError { kind: UnescapeErrorKind::InvalidUnicode { .. }, .. })
    ));
    assert!(matches!(
        unescape(r"\u{110000}"),
        Err(UnescapeError { kind: UnescapeErrorKind::InvalidUnicode { .. }, .. })
    ));
}

#[test]
fn test_malformed_unicode() {
    assert!(matches!(
        unescape(r"\u{"),
        Err(UnescapeError { kind: UnescapeErrorKind::UnexpectedEnd, .. })
    ));
    assert!(matches!(
        unescape(r"\u{}"),
        Err(UnescapeError { kind: UnescapeErrorKind::InvalidEscape { .. }, .. })
    ));
    assert!(matches!(
        unescape(r"\u{1234567}"),
        Err(UnescapeError { kind: UnescapeErrorKind::InvalidEscape { .. }, .. })
    ));
}

#[test]
fn test_escape_simple() {
    assert_eq!(escape("hello world"), "hello world");
    assert_eq!(escape(""), "");
}

#[test]
fn test_escape_special_chars() {
    assert_eq!(escape("hello\nworld"), r"hello\nworld");
    assert_eq!(escape("tab\there"), r"tab\there");
    assert_eq!(escape("quote\"here"), r#"quote\"here"#);
    assert_eq!(escape("back\\slash"), r"back\\slash");
    assert_eq!(escape("null\0char"), r"null\0char");
    assert_eq!(escape("carriage\rreturn"), r"carriage\rreturn");
}

#[test]
fn test_escape_roundtrip() {
    let test_cases = vec![
        "hello world",
        "hello\nworld",
        "tab\there",
        r#"quote"here"#,
        "back\\slash",
        "null\0char",
        "multiple\n\t\r\\escapes",
    ];

    for test in test_cases {
        let escaped = escape(test);
        let unescaped = unescape(&escaped).unwrap();
        assert_eq!(test, unescaped, "Roundtrip failed for: {:?}", test);
    }
}

#[test]
fn test_escape_control_chars() {
    let s = "hello\x01\x02world";
    let escaped = escape(s);
    assert!(escaped.contains(r"\x"));
    assert_eq!(unescape(&escaped).unwrap(), s);
}

#[test]
fn test_escape_unicode() {
    let s = "hello α world 😀";
    let escaped = escape(s);
    assert!(escaped.contains(r"\u{"));
    assert_eq!(unescape(&escaped).unwrap(), s);
}

#[test]
fn unescape_error_positions_are_byte_offsets() {
    let err = unescape("αβ\\q").unwrap_err();
    assert_eq!(err.position, 4);
    assert_eq!(err.kind, UnescapeErrorKind::InvalidEscape { sequence: "\\q".to_string() });
    let err = unescape(r"ab\u{D800}").unwrap_err();
    assert_eq!(err.position, 2);
    assert_eq!(err.kind, UnescapeErrorKind::InvalidUnicode { value: 0xD800 });
}

#[test]
fn escape_exact_forms() {
    assert_eq!(escape("\x01"), r"\x01");
    assert_eq!(escape("\x7f"), r"\x7F");
    assert_eq!(escape("é"), r"\u{E9}");
    assert_eq!(escape("'"), r"\'");
}

#[test]
fn unescape_single_quote_and_plus_sign_hex() {
    assert_eq!(unescape(r"\'").unwrap(), "'");
    assert_eq!(unescape(r"\x+1").unwrap(), "\x01");
}
