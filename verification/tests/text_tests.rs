use appforge::text::{
    contains, ends_with, is_whitespace, lines_of, locate_byte, occurs, parse_int, pieces_of,
    push_chars, push_decimal, push_signed, remove_all, same_text, slice_chars, starts_with,
    strip, to_chars, to_text, trim, trim_range, utf8_len_of, words_of,
};

fn chars(s: &str) -> Vec<char> {
    s.chars().collect()
}

fn text(v: &[char]) -> String {
    v.iter().collect()
}

fn texts(v: &[Vec<char>]) -> Vec<String> {
    v.iter().map(|p| text(p)).collect()
}

const SAMPLES: [&str; 22] = [
    "",
    " ",
    "\n",
    "\r\n",
    "a",
    "a\n",
    "a\r\n",
    "a\r",
    "a\n\nb",
    "\na",
    "\r\na\r\n\r\nb\r",
    "  lead and trail \t",
    "one two\tthree\u{a0}four\u{3000}five",
    "x=1=2",
    "=",
    "a,b,,c,",
    "héllo wörld\nünïcode\r\nend",
    "a\u{85}b\u{2028}c\u{2029}d",
    "\u{1680}x\u{2000}y\u{200a}z\u{202f}\u{205f}",
    "\u{200b}zero width is no space\u{200b}",
    "tab\x0bvertical\x0cfeed",
    "  \n  \n",
];

#[test]
fn to_chars_and_back() {
    for s in SAMPLES {
        let v = to_chars(s);
        assert_eq!(v, chars(s));
        assert_eq!(to_text(&v, 0, v.len()), s);
    }
    let v = to_chars("abcdef");
    assert_eq!(to_text(&v, 2, 4), "cd");
    assert_eq!(to_text(&v, 3, 3), "");
    assert_eq!(slice_chars(&v, 1, 5), chars("bcde"));
}

#[test]
fn same_text_is_equality() {
    for a in SAMPLES {
        for b in SAMPLES {
            assert_eq!(same_text(a, b), a == b);
        }
    }
    assert!(!same_text("é", "e\u{301}"));
}

#[test]
fn whitespace_is_the_unicode_property() {
    for code in 0u32..=0x10FFFF {
        if let Some(c) = char::from_u32(code) {
            assert_eq!(is_whitespace(c), c.is_whitespace(), "U+{:04X}", code);
        }
    }
}

#[test]
fn utf8_length_of_every_character() {
    for code in 0u32..=0x10FFFF {
        if let Some(c) = char::from_u32(code) {
            assert_eq!(utf8_len_of(c), c.len_utf8(), "U+{:04X}", code);
        }
    }
}

#[test]
fn trim_is_str_trim() {
    for s in SAMPLES {
        assert_eq!(text(&trim(&chars(s))), s.trim(), "{:?}", s);
    }
    let v = chars("ab  cd  ef");
    assert_eq!(trim_range(&v, 2, 8), (4, 6));
    assert_eq!(trim_range(&v, 2, 4), (4, 4));
    assert_eq!(trim_range(&v, 0, 10), (0, 10));
}

#[test]
fn lines_are_str_lines() {
    for s in SAMPLES {
        let expected: Vec<String> = s.lines().map(|l| l.to_string()).collect();
        assert_eq!(texts(&lines_of(&chars(s))), expected, "{:?}", s);
    }
    assert_eq!(texts(&lines_of(&chars("a\r\nb\rc\n\rd\r"))), vec!["a", "b\rc", "\rd\r"]);
}

#[test]
fn words_are_split_whitespace() {
    for s in SAMPLES {
        let expected: Vec<String> = s.split_whitespace().map(|l| l.to_string()).collect();
        assert_eq!(texts(&words_of(&chars(s))), expected, "{:?}", s);
    }
    assert_eq!(texts(&words_of(&chars("  a  bc d "))), vec!["a", "bc", "d"]);
}

#[test]
fn pieces_are_str_split() {
    for s in SAMPLES {
        for sep in [',', '=', '.', ' ', '\n'] {
            let expected: Vec<String> = s.split(sep).map(|l| l.to_string()).collect();
            assert_eq!(texts(&pieces_of(&chars(s), sep)), expected, "{:?} {:?}", s, sep);
        }
    }
    assert_eq!(texts(&pieces_of(&chars("1.0.0"), '.')), vec!["1", "0", "0"]);
    assert_eq!(texts(&pieces_of(&chars(""), '.')), vec![""]);
}

#[test]
fn prefix_suffix_and_search() {
    let parts = ["", "a", "ab", "b", "ba", "aba", "abab", "xyz", "é", "hé"];
    for a in parts {
        for b in parts {
            assert_eq!(starts_with(&chars(a), &chars(b)), a.starts_with(b), "{} {}", a, b);
            assert_eq!(ends_with(&chars(a), &chars(b)), a.ends_with(b), "{} {}", a, b);
            assert_eq!(contains(&chars(a), &chars(b)), a.contains(b), "{} {}", a, b);
        }
    }
    assert!(occurs(&chars("hello"), &chars("ll"), 2));
    assert!(!occurs(&chars("hello"), &chars("ll"), 3));
    assert!(occurs(&chars("hello"), &chars(""), 5));
    assert!(!occurs(&chars("hello"), &chars(""), 6));
    assert!(!occurs(&chars("hello"), &chars("lo!"), 3));
}

#[test]
fn remove_all_is_str_replace_with_nothing() {
    let cases = [
        ("model:Pixel_XL", "model:"),
        ("model:model:x", "model:"),
        ("aaa", "aa"),
        ("abcabc", "bc"),
        ("abc", ""),
        ("", "x"),
        ("xmodel:model:", "model:"),
        ("ababab", "aba"),
    ];
    for (s, part) in cases {
        assert_eq!(text(&remove_all(&chars(s), &chars(part))), s.replace(part, ""), "{} {}", s, part);
    }
}

#[test]
fn parse_int_is_i32_from_str() {
    let cases = [
        "0", "1", "-1", "+1", "007", "-0", "+0", "2147483647", "2147483648", "-2147483648",
        "-2147483649", "99999999999999999999", "", "+", "-", " 1", "1 ", "1a", "a1", "--1", "+-1",
        "1.0", "١٢", "1_000", "0x10", "-00000000000000000001", "00000000002147483647",
        "21474836470",
    ];
    for s in cases {
        assert_eq!(parse_int(&chars(s)), s.parse::<i32>().ok(), "{:?}", s);
    }
}

#[test]
fn decimal_is_display() {
    for n in [0u64, 1, 9, 10, 11, 99, 100, 512, 1024, 4294967295, u64::MAX] {
        let mut s = String::from("n=");
        push_decimal(&mut s, n);
        assert_eq!(s, format!("n={}", n));
    }
    for n in [0i32, 1, -1, 10, -10, 2147483647, -2147483648, 42, -999] {
        let mut s = String::new();
        push_signed(&mut s, n);
        assert_eq!(s, format!("{}", n));
    }
}

#[test]
fn strip_is_trim_matches() {
    for s in ["\"1.0.0\"", "1.0.0", "\"\"", "\"", "\"\"a\"b\"\"", "", "a\""] {
        assert_eq!(text(&strip(&chars(s), '"')), s.trim_matches('"'), "{:?}", s);
    }
}

#[test]
fn push_chars_appends() {
    let mut s = String::from("ab");
    push_chars(&mut s, &chars("cdé"));
    assert_eq!(s, "abcdé");
    push_chars(&mut s, &[]);
    assert_eq!(s, "abcdé");
}

#[test]
fn locate_byte_finds_character_boundaries() {
    for s in ["", "a", "ab", "abc", "abcd", "éa", "aé", "aéb", "€", "€a", "😀", "a😀", "ab😀", "ééé"] {
        let v = chars(s);
        for at in 0..6usize {
            for least in 0..6usize {
                let (cut, long_enough) = locate_byte(&v, at, least);
                assert_eq!(long_enough, s.len() >= least, "{:?} {}", s, least);
                let expected = if at <= s.len() && s.is_char_boundary(at) {
                    Some(s[..at].chars().count())
                } else {
                    None
                };
                assert_eq!(cut, expected, "{:?} {}", s, at);
            }
        }
    }
}
