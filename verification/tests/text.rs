use hurry::text;

#[test]
fn white_space_is_that_of_unicode() {
    for n in 0..0x11_0000u32 {
        if let Some(c) = char::from_u32(n) {
            assert_eq!(text::is_space_char(c), c.is_whitespace(), "{n:x}");
        }
    }
}

#[test]
fn lines_end_at_newlines() {
    for s in ["", "\n", "a", "a\n", "a\nb", "a\r\nb\r\n", "\n\na\r", "a\r\r\n", "\r\n", "a\rb\n"] {
        let want: Vec<&str> = s.lines().collect();
        assert_eq!(text::lines(s), want, "{s:?}");
    }
}

#[test]
fn words_are_parted_by_white_space() {
    for s in ["", " ", "a", " a  b\tc\n", "a\u{a0}b", "\u{3000}x y"] {
        let want: Vec<&str> = s.split_whitespace().collect();
        assert_eq!(text::split_whitespace(s), want, "{s:?}");
        assert_eq!(text::trim(s), s.trim());
        assert_eq!(text::trim_start(s), s.trim_start());
        assert_eq!(text::trim_end(s), s.trim_end());
    }
}

#[test]
fn parts_of_texts() {
    for s in ["", "=", "a=b", "a=b=c", "=a", "a=", "äö=ü"] {
        let pair = |p: Option<(&str, &str)>| p.map(|(a, b)| (String::from(a), String::from(b)));
        assert_eq!(text::split_once(s, '='), pair(s.split_once('=')));
        assert_eq!(text::rsplit_once(s, '='), pair(s.rsplit_once('=')));
        let want: Vec<&str> = s.split('=').collect();
        assert_eq!(text::split(s, '='), want);
    }
    for s in ["", ": ", "a: b", "a: b: c", "a:b", "a: ", ": a"] {
        let want = s.split_once(": ").map(|(a, b)| (String::from(a), String::from(b)));
        assert_eq!(text::split_once_str(s, ": "), want);
    }
    assert_eq!(text::strip_prefix("cargo::a", "cargo:").unwrap(), ":a");
    assert_eq!(text::strip_prefix("ab", "abc"), None);
    assert_eq!(text::strip_suffix("a.rs", ".rs").unwrap(), "a");
    assert_eq!(text::strip_suffix("rs", ".rs"), None);
    assert_eq!(text::part("äbc", 1, 2), "b");
    assert_eq!(text::find_char("abc", 'c'), 2);
    assert_eq!(text::find_char("abc", 'd'), 3);
}

#[test]
fn joined_texts_are_read_back() {
    let lines = vec![String::from("a"), String::new(), String::from("b c")];
    assert_eq!(text::join(&lines, "\n"), "a\n\nb c");
    assert_eq!(text::lines(&text::join(&lines, "\n")), lines);
    let words = vec![String::from("a"), String::from("b")];
    assert_eq!(text::split_whitespace(&text::join(&words, " ")), words);
    assert_eq!(text::join(&vec![], ", "), "");
    assert_eq!(text::concat4("a", "b", "c", "d"), "abcd");
    assert_eq!(text::replace_char("a-b-c", '-', "_"), "a_b_c");
    assert!(text::list_contains(&words, "b"));
    assert!(!text::list_contains(&words, "c"));
}

#[test]
fn numbers_and_their_digits() {
    for s in [
        "0", "7", "+7", "007", "4294967295", "4294967296", "", "+", "-1", "1a", " 1", "++1",
        "99999999999999999999",
    ] {
        assert_eq!(text::parse_u32(s), s.parse::<u32>().ok(), "{s:?}");
    }
    for n in [0, 9, 10, 105, 4294967295] {
        assert_eq!(text::decimal_text(n), n.to_string());
        assert_eq!(text::parse_u32(&text::decimal_text(n)), Some(n));
    }
}

#[test]
fn the_order_of_a_dictionary() {
    let all = ["", "a", "ab", "b", "ä", "\u{10000}", "a\u{ffff}", "B"];
    for a in all {
        for b in all {
            assert_eq!(text::is_at_most(a, b), a <= b, "{a:?} {b:?}");
        }
    }
}
