use proc_dash::text::{
    chars_equal, chars_of, contains_chars, dec_chars, dec_chars_wide, find_first_char,
    find_last_char, i32_to_string, is_whitespace, lex_compare_chars, pad_left_chars,
    pad_right_chars, parse_i32_chars, parse_unsigned_chars, split_chars, split_lines, split_words,
    starts_with, string_from, string_of, strip_prefix, subrange, trim_chars, u64_to_string,
};

fn cs(s: &str) -> Vec<char> {
    s.chars().collect()
}

fn strs(v: &[Vec<char>]) -> Vec<String> {
    v.iter().map(|w| w.iter().collect()).collect()
}

const SAMPLES: &[&str] = &[
    "",
    " ",
    "abc",
    "  a b  c ",
    "\tx\ny\r\n",
    "one\ntwo\n",
    "one\r\ntwo",
    "\n\n",
    "a::b:",
    "\u{a0}nb\u{2003}sp\u{3000}",
    "Name:\tbash\nUid:\t1000\t1000\n",
    "héllo wörld",
];

#[test]
fn chars_and_strings_round_trip() {
    for s in SAMPLES {
        let c = chars_of(s);
        assert_eq!(c, cs(s));
        assert_eq!(string_of(&c), s.to_string());
        assert_eq!(string_from(s), s.to_string());
    }
}

#[test]
fn whitespace_matches_char_is_whitespace() {
    for u in 0u32..0x3100 {
        if let Some(c) = char::from_u32(u) {
            assert_eq!(is_whitespace(c), c.is_whitespace(), "{:?}", c);
        }
    }
    for c in ['\u{feff}', '\u{200b}', '\u{180e}', 'a', '0'] {
        assert_eq!(is_whitespace(c), c.is_whitespace(), "{:?}", c);
    }
}

#[test]
fn trim_matches_str_trim() {
    for s in SAMPLES {
        let t: String = trim_chars(&cs(s)).iter().collect();
        assert_eq!(t, s.trim());
    }
}

#[test]
fn words_match_split_whitespace() {
    for s in SAMPLES {
        let expected: Vec<String> = s.split_whitespace().map(|w| w.to_string()).collect();
        assert_eq!(strs(&split_words(&cs(s))), expected);
    }
}

#[test]
fn split_on_matches_str_split() {
    for s in SAMPLES {
        let expected: Vec<String> = s.split(':').map(|w| w.to_string()).collect();
        assert_eq!(strs(&split_chars(&cs(s), ':')), expected);
    }
}

#[test]
fn lines_match_str_lines() {
    for s in SAMPLES {
        let expected: Vec<String> = s.lines().map(|w| w.to_string()).collect();
        assert_eq!(strs(&split_lines(&cs(s))), expected, "{:?}", s);
    }
}

#[test]
fn prefixes() {
    assert!(starts_with(&cs("MemTotal: 12 kB"), "MemTotal:"));
    assert!(!starts_with(&cs("Mem"), "MemTotal:"));
    assert!(starts_with(&cs("x"), ""));
    let rest: String = strip_prefix(&cs("Uid:\t1000"), "Uid:").unwrap().iter().collect();
    assert_eq!(rest, "\t1000");
    assert!(strip_prefix(&cs("Gid:\t1000"), "Uid:").is_none());
    let mid: String = subrange(&cs("abcdef"), 1, 4).iter().collect();
    assert_eq!(mid, "bcd");
}

#[test]
fn contains_matches_str_contains() {
    let hays = ["firefox", "Web Content", "", "aaab"];
    let needles = ["", "fox", "content", "aab", "x", "firefox!"];
    for h in hays {
        for n in needles {
            assert_eq!(contains_chars(&cs(h), &cs(n)), h.contains(n), "{} {}", h, n);
        }
    }
}

#[test]
fn unsigned_parse_matches_str_parse() {
    let inputs = [
        "0", "7", "42", "007", "4294967295", "4294967296", "18446744073709551615",
        "18446744073709551616", "", "+5", "-1", "1a", " 1", "99999999999999999999999",
    ];
    for s in inputs {
        let as_u64 = parse_unsigned_chars(&cs(s), u64::MAX);
        assert_eq!(as_u64, s.parse::<u64>().ok(), "u64 {:?}", s);
        let as_u32 = parse_unsigned_chars(&cs(s), u32::MAX as u64);
        assert_eq!(as_u32, s.parse::<u32>().ok().map(|v| v as u64), "u32 {:?}", s);
        let as_u8 = parse_unsigned_chars(&cs(s), u8::MAX as u64);
        assert_eq!(as_u8, s.parse::<u8>().ok().map(|v| v as u64), "u8 {:?}", s);
    }
}

#[test]
fn signed_parse_matches_str_parse() {
    let inputs = [
        "0", "-0", "5", "-5", "+5", "19", "-20", "2147483647", "2147483648", "-2147483648",
        "-2147483649", "", "-", "+", "--1", "1-", "12a",
    ];
    for s in inputs {
        assert_eq!(parse_i32_chars(&cs(s)), s.parse::<i32>().ok(), "{:?}", s);
    }
}

#[test]
fn decimal_text_matches_to_string() {
    for n in [0u64, 1, 9, 10, 99, 100, 12345, u32::MAX as u64, u64::MAX] {
        let d: String = dec_chars(n).iter().collect();
        assert_eq!(d, n.to_string());
        assert_eq!(u64_to_string(n), n.to_string());
        let w: String = dec_chars_wide(n as u128 * 1000).iter().collect();
        assert_eq!(w, (n as u128 * 1000).to_string());
    }
    for n in [0i32, 5, -5, 19, -20, i32::MAX, i32::MIN] {
        assert_eq!(i32_to_string(n), n.to_string());
    }
}

#[test]
fn padding_matches_format() {
    for s in ["", "ab", "abcdefgh", "héllo"] {
        for w in [0usize, 3, 8] {
            let r: String = pad_right_chars(&cs(s), w).iter().collect();
            assert_eq!(r, format!("{:<w$}", s, w = w));
            let l: String = pad_left_chars(&cs(s), w, ' ').iter().collect();
            assert_eq!(l, format!("{:>w$}", s, w = w));
        }
    }
    let z: String = pad_left_chars(&cs("7"), 2, '0').iter().collect();
    assert_eq!(z, "07");
}

#[test]
fn finding_characters() {
    let s = cs("123 (a (b) c) S 1");
    assert_eq!(find_first_char(&s, '('), Some(4));
    assert_eq!(find_last_char(&s, ')'), Some(12));
    assert_eq!(find_first_char(&s, 'z'), None);
    assert_eq!(find_last_char(&cs(""), ')'), None);
}

#[test]
fn equality_with_text() {
    assert!(chars_equal(&cs("bash"), "bash"));
    assert!(!chars_equal(&cs("bash"), "bas"));
    assert!(!chars_equal(&cs("bash"), "bash "));
    assert!(chars_equal(&cs(""), ""));
}

#[test]
fn lexicographic_order_matches_str_cmp() {
    let words = ["", "a", "ab", "b", "B", "abc", "root", "rooT", "zz", "é"];
    for a in words {
        for b in words {
            let expected = match a.cmp(b) {
                std::cmp::Ordering::Less => -1,
                std::cmp::Ordering::Equal => 0,
                std::cmp::Ordering::Greater => 1,
            };
            assert_eq!(lex_compare_chars(&cs(a), &cs(b)), expected, "{:?} {:?}", a, b);
        }
    }
}

#[test]
fn decimal_text_reads_back() {
    for n in [0u64, 1, 10, 4096, 1 << 32, u64::MAX] {
        let text = dec_chars(n);
        assert_eq!(parse_unsigned_chars(&text, u64::MAX), Some(n));
    }
    for n in [0i32, -1, 19, -20, i32::MIN, i32::MAX] {
        assert_eq!(parse_i32_chars(&cs(&i32_to_string(n))), Some(n));
    }
}
