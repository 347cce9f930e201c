use jev_cli::text::{
    chars_of, concat_str, is_whitespace, push_decimal, push_octal4, split_once_chars,
    str_is_blank, string_of, trim_chars,
};

#[test]
fn whitespace_matches_std_for_every_char() {
    for c in (0u32..=0x10FFFF).filter_map(char::from_u32) {
        assert_eq!(is_whitespace(c), c.is_whitespace(), "{:?}", c);
    }
}

#[test]
fn trim_matches_std() {
    for s in ["", "  ", " a ", "\u{a0}x y\u{2028}", "\t\n", "abc", "\u{85}", " é "] {
        let trimmed = string_of(&trim_chars(&chars_of(s)));
        assert_eq!(trimmed, s.trim(), "{:?}", s);
        assert_eq!(str_is_blank(s), s.trim().is_empty(), "{:?}", s);
    }
}

#[test]
fn split_once_matches_std() {
    for s in ["a=b", "=x", "x=", "noeq", "a=b=c", ""] {
        let got = split_once_chars(&chars_of(s), '=')
            .map(|(a, b)| (string_of(&a), string_of(&b)));
        let want = s.split_once('=').map(|(a, b)| (a.to_owned(), b.to_owned()));
        assert_eq!(got, want, "{:?}", s);
    }
}

#[test]
fn decimal_and_octal_rendering() {
    for n in [0u64, 7, 10, 99, 100, 16 * 1024 * 1024, u64::MAX] {
        let mut s = String::new();
        push_decimal(&mut s, n);
        assert_eq!(s, n.to_string());
    }
    for m in [0u32, 0o7, 0o644, 0o600, 0o777] {
        let mut s = String::new();
        push_octal4(&mut s, m);
        assert_eq!(s, format!("{m:04o}"));
    }
}

#[test]
fn concatenation() {
    assert_eq!(concat_str("ab", "cd"), "abcd");
}
