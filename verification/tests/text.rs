use osaio_proxy::text;

fn chars(s: &str) -> Vec<char> {
    s.chars().collect()
}

#[test]
fn white_space_agrees_with_unicode() {
    for n in 0..=0x10ffffu32 {
        if let Some(c) = char::from_u32(n) {
            assert_eq!(text::is_white_space(c), c.is_whitespace(), "{n:x}");
            assert_eq!(text::is_digit(c), c.is_ascii_digit(), "{n:x}");
        }
    }
}

#[test]
fn same_compares_all_characters() {
    assert!(text::same("", ""));
    assert!(text::same("käse", "käse"));
    assert!(!text::same("käse", "kase"));
    assert!(!text::same("a", "ab"));
}

#[test]
fn finds_the_first_occurrence() {
    let s = chars("abcabc");
    assert_eq!(text::find_from(&s, &chars("bc"), 0), Some(1));
    assert_eq!(text::find_from(&s, &chars("bc"), 2), Some(4));
    assert_eq!(text::find_from(&s, &chars("bc"), 5), None);
    assert_eq!(text::find_from(&s, &[], 6), Some(6));
    assert_eq!(text::find_from(&s, &[], 7), None);
    assert_eq!(text::find_from(&[], &[], 0), Some(0));
}

#[test]
fn splits_at_the_first_separator() {
    assert_eq!(text::split_once("a:b:c", ":"), Some(("a", "b:c")));
    assert_eq!(text::split_once("ä:", ":"), Some(("ä", "")));
    assert_eq!(text::split_once("abc", ":"), None);
    assert_eq!(text::last_part("a:b:c", ':'), "c");
    assert_eq!(text::last_part("abc", ':'), "abc");
    assert_eq!(text::last_part("abc:", ':'), "");
}

#[test]
fn lines_end_as_those_of_std() {
    for s in [
        "", "\n", "a", "a\n", "a\r\n", "a\r", "a\rb\n", "\r\n\r\n", "a\n\nb", "x\r\r\ny\r", "ä\nö",
    ] {
        let c = chars(s);
        let mut off = 0;
        let mut got: Vec<String> = Vec::new();
        while off < c.len() {
            let (end, next) = text::next_line(&c, off);
            got.push(c[off..end].iter().collect());
            off = next;
        }
        let want: Vec<String> = s.lines().map(|l| l.to_string()).collect();
        assert_eq!(got, want, "{s:?}");
    }
}

#[test]
fn written_lines_split_into_the_same_lines() {
    let lines: Vec<String> = vec!["v=0".into(), "".into(), "x\r".into()];
    let t = text::write_lines(&lines);
    assert_eq!(t, "v=0\r\n\r\nx\r\r\n");
    let back: Vec<String> = t.lines().map(|l| l.to_string()).collect();
    assert_eq!(back, lines);
}

#[test]
fn trims_as_std_does() {
    for s in ["", " ", " a ", "\u{3000}a b\t\r", "\u{a0}x", "x"] {
        let c = chars(s);
        let (a, b) = text::trim_range(&c, 0, c.len());
        let got: String = c[a..b].iter().collect();
        assert_eq!(got, s.trim());
    }
}

#[test]
fn numerals() {
    for n in [0, 7, 10, 99, 100, 1_700_000_000, u64::MAX] {
        assert_eq!(text::decimal_text(n), n.to_string());
    }
    for n in [0, -1, 42, i64::MIN, i64::MAX] {
        assert_eq!(text::signed_text(n), n.to_string());
    }
}

#[test]
fn reads_small_numbers_as_std_does() {
    for s in [
        "", "+", "-", "-0", "0", "+5", "007", "255", "256", "0000000255", "0000000256", "1 ", " 1",
        "12a", "99999999999999999999", "٣", "++1",
    ] {
        assert_eq!(text::parse_u8(s), s.parse::<u8>().ok(), "{s:?}");
    }
    for n in 0..=255u8 {
        assert_eq!(text::parse_u8(&text::decimal_text(n as u64)), Some(n));
    }
}
