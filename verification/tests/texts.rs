use rs_server::text::{
    chars_of, decimal_string, digit_text, find_from, is_space, same_text, split_once_str,
    split_str, split_whitespace,
};

#[test]
fn split_gives_the_pieces_between_separators() {
    assert_eq!(split_str("/post/42/comments", '/'), vec!["", "post", "42", "comments"]);
    assert_eq!(split_str("", '/'), vec![""]);
    assert_eq!(split_str("/", '/'), vec!["", ""]);
    assert_eq!(split_str("a", '/'), vec!["a"]);
    assert_eq!(split_str("a/", '/'), vec!["a", ""]);
    assert_eq!(split_str("a//b", '/'), vec!["a", "", "b"]);
    assert_eq!(split_str("é/ü", '/'), vec!["é", "ü"]);
    assert_eq!(split_str("x=1&y=2", '&'), vec!["x=1", "y=2"]);
}

#[test]
fn split_agrees_with_the_standard_library() {
    for s in ["", "/", "//", "a/b/c", "/a/", "no separator", "/ü/é//x", "///a///"] {
        let expected: Vec<&str> = s.split('/').collect();
        assert_eq!(split_str(s, '/'), expected, "{:?}", s);
    }
}

#[test]
fn split_once_cuts_at_the_first_separator() {
    assert_eq!(split_once_str("a=b=c", '='), Some(("a", "b=c")));
    assert_eq!(split_once_str("=b", '='), Some(("", "b")));
    assert_eq!(split_once_str("a=", '='), Some(("a", "")));
    assert_eq!(split_once_str("=", '='), Some(("", "")));
    assert_eq!(split_once_str("abc", '='), None);
    assert_eq!(split_once_str("", '='), None);
    assert_eq!(split_once_str("é?ü", '?'), Some(("é", "ü")));
}

#[test]
fn words_are_the_runs_between_white_space() {
    assert_eq!(split_whitespace("GET / HTTP/1.1"), vec!["GET", "/", "HTTP/1.1"]);
    assert_eq!(split_whitespace("  a\t\tb\r\n"), vec!["a", "b"]);
    assert_eq!(split_whitespace(""), Vec::<&str>::new());
    assert_eq!(split_whitespace(" \u{3000}\u{85} "), Vec::<&str>::new());
    assert_eq!(split_whitespace("one"), vec!["one"]);
    assert_eq!(split_whitespace("a\u{a0}b\u{2003}c"), vec!["a", "b", "c"]);
}

#[test]
fn words_agree_with_the_standard_library() {
    for s in
        ["", " ", "a", " a ", "a  b", "\ta\nb\rc ", "é ü", "x\u{2028}y\u{205f}z", "a\u{200b}b"]
    {
        let expected: Vec<&str> = s.split_whitespace().collect();
        assert_eq!(split_whitespace(s), expected, "{:?}", s);
    }
}

#[test]
fn white_space_is_what_the_standard_library_calls_so() {
    for n in 0..=0x10FFFFu32 {
        if let Some(c) = char::from_u32(n) {
            assert_eq!(is_space(c), c.is_whitespace(), "U+{:04X}", n);
        }
    }
}

#[test]
fn decimal_text_has_no_leading_zeros() {
    assert_eq!(decimal_string(0), "0");
    assert_eq!(decimal_string(7), "7");
    assert_eq!(decimal_string(10), "10");
    assert_eq!(decimal_string(404), "404");
    assert_eq!(decimal_string(1_000_000), "1000000");
    assert_eq!(decimal_string(usize::MAX), format!("{}", usize::MAX));
    for d in 0..10usize {
        assert_eq!(digit_text(d), format!("{}", d));
    }
}

#[test]
fn same_text_compares_characters() {
    assert!(same_text("", ""));
    assert!(same_text("abc", "abc"));
    assert!(!same_text("abc", "abd"));
    assert!(!same_text("abc", "ab"));
    assert!(!same_text("e\u{301}", "é"));
}

#[test]
fn characters_and_positions() {
    assert_eq!(chars_of("aé/"), vec!['a', 'é', '/']);
    let chars = chars_of("a/b/c");
    assert_eq!(find_from(&chars, 0, '/'), 1);
    assert_eq!(find_from(&chars, 2, '/'), 3);
    assert_eq!(find_from(&chars, 4, '/'), 5);
    assert_eq!(find_from(&chars, 5, '/'), 5);
}
