use drone_notify::text;

#[test]
fn white_space_agrees_with_the_standard_library() {
    for n in 0..=0x10ffffu32 {
        if let Some(c) = char::from_u32(n) {
            assert_eq!(text::white_space(c), c.is_whitespace(), "{n:#x}");
        }
    }
}

#[test]
fn trim_agrees_with_the_standard_library() {
    for s in ["", " ", "a", "  a b\t", "\u{3000}仓库\u{a0}", "\r\n x \u{2028}", "\u{200b}x\u{200b}"] {
        assert_eq!(text::trim(s), s.trim());
        assert_eq!(text::blank(s), s.trim().is_empty());
    }
}

#[test]
fn trimming_twice_is_trimming_once() {
    for s in ["  a  ", "\t\u{85}b c\n", "", " \n "] {
        assert_eq!(text::trim(text::trim(s)), text::trim(s));
    }
}

#[test]
fn texts_are_ordered_as_in_the_standard_library() {
    let texts = ["", "a", "A", "ab", "b", "é", "z", "仓", "\u{ffff}", "\u{10000}", "a仓", "a\u{10000}"];
    for a in texts {
        for b in texts {
            assert_eq!(text::text_before(a, b), a < b, "{a:?} {b:?}");
            assert_eq!(text::same_text(a, b), a == b);
        }
    }
}

#[test]
fn the_order_of_texts_is_transitive() {
    assert!(text::text_before("a", "ab"));
    assert!(text::text_before("ab", "b"));
    assert!(text::text_before("a", "b"));
    assert!(!text::text_before("a", "a"));
}

#[test]
fn texts_are_split_at_the_first_separator() {
    assert_eq!(text::split_once("a/b/c", '/'), Some(("a", "b/c")));
    assert_eq!(text::split_once("/b", '/'), Some(("", "b")));
    assert_eq!(text::split_once("仓/库", '/'), Some(("仓", "库")));
    assert_eq!(text::split_once("abc", '/'), None);
}

#[test]
fn the_last_segment_follows_the_last_separator() {
    assert_eq!(text::last_segment("refs/heads/main", '/'), "main");
    assert_eq!(text::last_segment("main", '/'), "main");
    assert_eq!(text::last_segment("refs/heads/", '/'), "");
    assert_eq!(text::last_segment("", '/'), "");
}

#[test]
fn trailing_characters_are_stripped() {
    assert_eq!(text::strip_end("a//", '/'), "a");
    assert_eq!(text::strip_end("//", '/'), "");
    assert_eq!(text::strip_end("/a", '/'), "/a");
}

#[test]
fn prefixes_are_recognised() {
    assert!(text::starts_with("https://x", "https://"));
    assert!(!text::starts_with("http", "https://"));
    assert!(text::starts_with("x", ""));
}

#[test]
fn ascii_case_is_ignored() {
    for (a, b) in [("Success", "success"), ("SUCCESS", "success"), ("succes", "success"), ("É", "é"), ("ſ", "s"), ("", "")] {
        assert_eq!(text::same_text_ignoring_ascii_case(a, b), a.eq_ignore_ascii_case(b));
    }
}

#[test]
fn numbers_are_written_in_decimal() {
    for n in [0, 7, 10, 99, 100, 1783390000, u64::MAX] {
        assert_eq!(text::decimal_text(n), n.to_string());
    }
}

#[test]
fn a_missing_text_is_copied_as_missing() {
    assert_eq!(text::copy_opt(&None), None);
    assert_eq!(text::copy_opt(&Some("x".to_string())), Some("x".to_string()));
}
