use rescope::text::{
    after_last, contains, ends_with, find, fit, from_chars, is_cut_at, is_whitespace, parse_usize,
    starts_with, strip_prefix, to_ascii_lowercase, to_chars, to_decimal, trim, utf8_width,
};

#[test]
fn characters_are_told_as_std_tells_them() {
    for code in 0..=0x10ffff_u32 {
        if let Some(c) = char::from_u32(code) {
            assert_eq!(is_whitespace(c), c.is_whitespace(), "{code:x}");
            assert_eq!(utf8_width(c), c.len_utf8(), "{code:x}");
        }
    }
}

#[test]
fn texts_are_taken_apart_as_std_does() {
    for s in ["", " ", "a", " a b\t", "\u{3000}x\u{85}", "Bearer a:b", "\u{e9}\u{20ac}\u{1f600}"] {
        assert_eq!(trim(s), s.trim());
        assert_eq!(to_ascii_lowercase(s), s.to_ascii_lowercase());
        assert_eq!(from_chars(&to_chars(s), 0, s.chars().count()), s);
        for part in ["", "a", "Bearer ", " ", "b\t", "\u{1f600}"] {
            assert_eq!(starts_with(s, part), s.starts_with(part));
            assert_eq!(ends_with(s, part), s.ends_with(part));
            assert_eq!(strip_prefix(s, part).as_deref(), s.strip_prefix(part));
        }
        assert_eq!(contains(s, ':'), s.contains(':'));
        for n in 0..12 {
            assert_eq!(is_cut_at(s, n), s.is_char_boundary(n), "{s} {n}");
        }
    }
    for s in ["", "/", "a", "a/b", "/a/b/", "//x", "a/b/\u{e9}"] {
        assert_eq!(after_last(s, '/'), s.rsplit('/').next().unwrap());
    }
    assert_eq!(find(&to_chars("ab:c:d"), ':'), 2);
    assert_eq!(find(&to_chars("abc"), ':'), 3);
    assert_eq!(fit(&to_chars("a\u{20ac}b"), 3), (1, 1));
    assert_eq!(fit(&to_chars("a\u{20ac}b"), 4), (2, 4));
}

#[test]
fn numbers_are_written_and_read() {
    for n in [0_u128, 7, 10, 256, 1_700_003_600, u128::MAX] {
        assert_eq!(to_decimal(n), n.to_string());
    }
    assert_eq!(parse_usize("0256"), Some(256));
    assert_eq!(parse_usize("+1"), Some(1));
    assert_eq!(parse_usize("1a"), None);
    assert_eq!(parse_usize(&usize::MAX.to_string()), Some(usize::MAX));
    assert_eq!(parse_usize("99999999999999999999999"), None);
}
