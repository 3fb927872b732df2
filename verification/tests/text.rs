use rconsole::path::join_path;
use rconsole::text::{
    clone_strings, is_whitespace, join_strings, join_strings_from, push_decimal,
    push_signed_decimal, push_zero_padded, replace_char, str_eq, str_to_chars, trim_end_str,
    trim_str,
};

#[test]
fn trims_like_std() {
    for s in ["", "   ", " a ", "\t\nabc  def\r\n", "\u{00A0}x\u{3000}", "héllo"] {
        assert_eq!(trim_str(s), s.trim());
        assert_eq!(trim_end_str(s), s.trim_end());
    }
}

#[test]
fn trim_is_idempotent() {
    let once = trim_str("  \t value \n");
    assert_eq!(trim_str(&once), once);
}

#[test]
fn whitespace_matches_std() {
    for c in ['\t', '\n', '\r', ' ', '\u{0085}', '\u{00A0}', '\u{1680}', '\u{2000}', '\u{200A}', '\u{2028}', '\u{2029}', '\u{202F}', '\u{205F}', '\u{3000}', 'a', '\u{200B}', '/', '\u{0}'] {
        assert_eq!(is_whitespace(c), c.is_whitespace(), "{:?}", c);
    }
}

#[test]
fn joins_like_std() {
    let parts = vec!["a".to_string(), "".to_string(), "bc".to_string()];
    assert_eq!(join_strings(&parts, ", "), "a, , bc");
    assert_eq!(join_strings(&[], "-"), "");
    assert_eq!(join_strings_from(&parts, 1, "+"), "+bc");
    assert_eq!(join_strings_from(&parts, 3, "+"), "");
}

#[test]
fn replaces_characters() {
    assert_eq!(replace_char("a'b'c", '\'', "\\'"), "a\\'b\\'c");
    assert_eq!(replace_char("no match", 'z', "Z"), "no match");
    assert_eq!(replace_char("", 'a', "b"), "");
}

#[test]
fn formats_numbers() {
    let mut s = String::new();
    push_decimal(&mut s, 0);
    push_decimal(&mut s, 1234567890);
    assert_eq!(s, "01234567890");
    let mut s = String::new();
    push_zero_padded(&mut s, 7, 4);
    assert_eq!(s, "0007");
    let mut s = String::new();
    push_zero_padded(&mut s, 123456, 4);
    assert_eq!(s, "123456");
    let mut s = String::new();
    push_signed_decimal(&mut s, i32::MIN);
    assert_eq!(s, format!("{}", i32::MIN));
    let mut s = String::new();
    push_signed_decimal(&mut s, -3);
    push_signed_decimal(&mut s, 42);
    assert_eq!(s, "-342");
}

#[test]
fn compares_and_copies() {
    assert!(str_eq("abc", "abc"));
    assert!(!str_eq("abc", "abd"));
    assert!(!str_eq("ab", "abc"));
    assert_eq!(str_to_chars("hé"), vec!['h', 'é']);
    let v = vec!["x".to_string(), "y".to_string()];
    assert_eq!(clone_strings(&v), v);
}

#[test]
fn joins_paths_like_unix() {
    assert_eq!(join_path("/work", "session"), "/work/session");
    assert_eq!(join_path("/work/", "session"), "/work/session");
    assert_eq!(join_path("", "session"), "session");
    assert_eq!(join_path("/work", "/abs"), "/abs");
    for (base, name) in [
        ("/tmp/project", ".rconsole"),
        ("/tmp/project/", "logs"),
        ("relative/dir", "app.log"),
        ("", "x"),
        ("/", "x"),
        ("/w", "/abs/path"),
        ("a//", "b"),
    ] {
        assert_eq!(
            join_path(base, name),
            std::path::Path::new(base).join(name).to_string_lossy()
        );
    }
}

#[test]
fn whitespace_matches_std_everywhere() {
    for c in char::MIN..=char::MAX {
        assert_eq!(is_whitespace(c), c.is_whitespace(), "{:?}", c);
    }
}
