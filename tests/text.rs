use web_server::text::{parse_usize, split_text, split_words, trim_text};
use web_server::TextMap;

#[test]
fn trim_removes_unicode_whitespace() {
    assert_eq!(trim_text("  a b \r\n"), "a b");
    assert_eq!(trim_text("\u{3000}x\u{a0}"), "x");
    assert_eq!(trim_text(" \t "), "");
    assert_eq!(trim_text(""), "");
}

#[test]
fn words_split_on_runs_of_whitespace() {
    assert_eq!(split_words("  GET  /  HTTP/1.1\r\n"), vec!["GET", "/", "HTTP/1.1"]);
    assert!(split_words(" \r\n").is_empty());
}

#[test]
fn split_keeps_empty_pieces() {
    assert_eq!(split_text("/a//b/", '/'), vec!["", "a", "", "b", ""]);
    assert_eq!(split_text("", '/'), vec![""]);
}

#[test]
fn parse_usize_follows_from_str() {
    assert_eq!(parse_usize("42"), Some(42));
    assert_eq!(parse_usize("+7"), Some(7));
    assert_eq!(parse_usize("007"), Some(7));
    assert_eq!(parse_usize(""), None);
    assert_eq!(parse_usize("+"), None);
    assert_eq!(parse_usize("-1"), None);
    assert_eq!(parse_usize("1a"), None);
    assert_eq!(parse_usize(" 1"), None);
    assert_eq!(parse_usize("99999999999999999999999"), None);
    assert_eq!(parse_usize("18446744073709551615"), "18446744073709551615".parse::<usize>().ok());
}

#[test]
fn text_map_insert_replaces_in_place() {
    let mut m = TextMap::new();
    assert!(m.is_empty());
    m.insert("a".to_string(), "1".to_string());
    m.insert("b".to_string(), "2".to_string());
    m.insert("a".to_string(), "3".to_string());
    assert_eq!(m.len(), 2);
    assert_eq!(m.get("a").unwrap(), "3");
    assert_eq!(m.get("b").unwrap(), "2");
    assert_eq!(m.get("c"), None);
    assert!(m.contains_key("b"));
    let (k, v) = m.pair_at(0);
    assert_eq!((k.as_str(), v.as_str()), ("a", "3"));
}

#[test]
fn white_space_agrees_with_std_on_every_char() {
    for code in 0u32..=0x10FFFF {
        if let Some(c) = char::from_u32(code) {
            assert_eq!(web_server::text::is_white_space(c), c.is_whitespace(), "{code:#x}");
        }
    }
}

#[test]
fn text_functions_agree_with_std() {
    let samples = [
        "",
        " ",
        "a",
        "  lead",
        "trail \u{2028}",
        "\u{85}mid dle\u{a0}",
        "x\ty\r\nz",
        "\u{200b}zero-width\u{200b}",
        "GET /p\u{3000}HTTP/1.1",
        "+12",
        "0012",
        "-0",
        "18446744073709551616",
        "4294967296",
        "١٢٣",
    ];
    for s in samples {
        assert_eq!(trim_text(s), s.trim(), "{s:?}");
        assert_eq!(split_words(s), s.split_whitespace().collect::<Vec<_>>(), "{s:?}");
        assert_eq!(parse_usize(s), s.parse::<usize>().ok(), "{s:?}");
        assert_eq!(split_text(s, ' '), s.split(' ').collect::<Vec<_>>(), "{s:?}");
    }
}
