use impress::text::{
    append_chars, char_is_whitespace, chars_of, contains, count, occurs_at_index, replace_all,
    str_eq, string_of, trim,
};

fn cs(s: &str) -> Vec<char> {
    s.chars().collect()
}

#[test]
fn chars_and_back() {
    assert_eq!(chars_of("héllo"), vec!['h', 'é', 'l', 'l', 'o']);
    assert_eq!(string_of(&cs("héllo wörld")), "héllo wörld");
    assert_eq!(string_of(&Vec::new()), "");
}

#[test]
fn equality_of_texts() {
    assert!(str_eq("abc", "abc"));
    assert!(!str_eq("abc", "abd"));
    assert!(!str_eq("abc", "ab"));
    assert!(str_eq("", ""));
}

#[test]
fn finding_a_text() {
    assert!(occurs_at_index(&cs("hello"), &cs("ll"), 2));
    assert!(!occurs_at_index(&cs("hello"), &cs("ll"), 1));
    assert!(!occurs_at_index(&cs("hello"), &cs("lo"), 4));
    assert!(occurs_at_index(&cs("hello"), &cs(""), 5));
    assert!(!occurs_at_index(&cs("hello"), &cs(""), 6));
    assert!(contains(&cs("a{size}b"), &cs("{size}")));
    assert!(!contains(&cs("a{siz}b"), &cs("{size}")));
    assert!(contains(&cs(""), &cs("")));
}

#[test]
fn replacing_every_occurrence() {
    assert_eq!(replace_all(&cs("a.b.c"), &cs("."), &cs("::")), cs("a::b::c"));
    assert_eq!(replace_all(&cs("aaa"), &cs("aa"), &cs("b")), cs("ba"));
    assert_eq!(replace_all(&cs("abc"), &cs(""), &cs("x")), cs("abc"));
    assert_eq!(replace_all(&cs("abc"), &cs("abcd"), &cs("x")), cs("abc"));
    assert_eq!(replace_all(&cs("xx"), &cs("x"), &cs("xx")), cs("xxxx"));
    assert_eq!(replace_all(&cs(""), &cs("x"), &cs("y")), cs(""));
}

#[test]
fn counting_and_appending() {
    assert_eq!(count(&cs("(a(b)c)"), '('), 2);
    assert_eq!(count(&cs("(a(b)c)"), ')'), 2);
    assert_eq!(count(&cs(""), ')'), 0);
    let mut v = cs("ab");
    append_chars(&mut v, &cs("cd"));
    assert_eq!(v, cs("abcd"));
}

#[test]
fn trimming_white_space() {
    assert_eq!(trim(&cs("  a b \t\n")), cs("a b"));
    assert_eq!(trim(&cs("\u{a0}\u{2003}x\u{3000}")), cs("x"));
    assert_eq!(trim(&cs("   ")), cs(""));
    assert_eq!(trim(&cs("")), cs(""));
    assert_eq!(trim(&cs("*/*")), cs("*/*"));
}

#[test]
fn white_space_is_what_the_standard_library_calls_so() {
    let mut code: u32 = 0;
    while code <= 0x3100 {
        if let Some(c) = char::from_u32(code) {
            assert_eq!(char_is_whitespace(c), c.is_whitespace(), "at {:x}", code);
        }
        code += 1;
    }
}

#[test]
fn trim_agrees_with_the_standard_library() {
    for sample in ["", " ", " a", "a ", "\t a b \r\n", "\u{85}x\u{2028}", "no space"] {
        assert_eq!(string_of(&trim(&chars_of(sample))), sample.trim());
    }
}

#[test]
fn replace_agrees_with_the_standard_library() {
    for (hay, from, to) in [
        ("a.b.c", ".", "::"),
        ("aaaa", "aa", "b"),
        ("abab", "ab", ""),
        ("\\{size\\}/\\{path\\}", "\\{size\\}", "(?<size>\\w+)"),
    ] {
        assert_eq!(
            string_of(&replace_all(&chars_of(hay), &chars_of(from), &chars_of(to))),
            hay.replace(from, to)
        );
    }
}
