use mirror_host::text::{
    contains, decimal, is_text, is_white, join, labelled, labelled_int, lines, parse_number,
    push_all, replace, same, split_once, starts_with, tagged, trim, trim_start, word,
};

fn list(items: &[&str]) -> Vec<String> {
    items.iter().map(|s| s.to_string()).collect()
}

#[test]
fn lines_agree_with_the_standard_library() {
    for s in ["", "a", "a\n", "a\r\nb", "\n\n", "a\rb\r\n\r\r\nc\r", "\r\n", "x\n\ny\r"] {
        assert_eq!(lines(s), s.lines().map(str::to_string).collect::<Vec<_>>(), "{s:?}");
    }
}

#[test]
fn white_space_agrees_with_the_standard_library() {
    for u in 0..0x11_0000u32 {
        if let Some(c) = char::from_u32(u) {
            assert_eq!(is_white(c), c.is_whitespace(), "{u:x}");
        }
    }
    for s in ["", "  ", " a b ", "\u{a0}x\u{3000}", "\u{200b} y", "z"] {
        assert_eq!(trim(s), s.trim());
        assert_eq!(trim_start(s), s.trim_start());
        assert_eq!(word(s), s.split_whitespace().next().map(str::to_string));
    }
}

#[test]
fn searching_agrees_with_the_standard_library() {
    for s in ["", "aaa", "abcabc", "xaay", "aab"] {
        for p in ["", "a", "aa", "bc", "abc", "aab", "abcabcd"] {
            assert_eq!(contains(s, p), s.contains(p));
            assert_eq!(starts_with(s, p), s.starts_with(p));
            assert_eq!(same(s, p), s == p);
            if !p.is_empty() {
                assert_eq!(replace(s, p, "--"), s.replace(p, "--"));
            }
        }
        let split = s.split_once('b').map(|(a, b)| (a.to_string(), b.to_string()));
        assert_eq!(split_once(s, 'b'), split);
    }
}

#[test]
fn numbers_agree_with_the_standard_library() {
    for s in ["", "+", "-1", "0", "007", "+12", "++1", "4294967295", "4294967296", "1a", " 1", "٣",
        "99999999999999999999"]
    {
        assert_eq!(parse_number(s), s.parse::<u32>().ok(), "{s:?}");
    }
    for n in [0, 9, 10, 1234567890, u64::MAX] {
        assert_eq!(decimal(n), n.to_string());
        assert_eq!(labelled("n=", n), format!("n={n}"));
    }
    for n in [0i64, -1, 5, -1080, i64::MAX, -i64::MAX] {
        assert_eq!(labelled_int("n=", n), format!("n={n}"));
    }
    for n in [0u32, 60, u32::MAX] {
        assert_eq!(parse_number(&decimal(n as u64)), Some(n));
    }
}

#[test]
fn lists_of_texts() {
    assert_eq!(join(&list(&[]), ", "), "");
    assert_eq!(join(&list(&["a"]), ", "), "a");
    assert_eq!(join(&list(&["a", "", "c"]), ", "), "a, , c");
    let mut v = list(&["a"]);
    push_all(&mut v, &list(&["b", "c"]));
    assert_eq!(v, list(&["a", "b", "c"]));
    assert_eq!(tagged("a", "b"), "ab");
    assert!(is_text(&Some("lite".to_string()), "lite"));
    assert!(!is_text(&None, "lite"));
}
