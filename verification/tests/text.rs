use httpclient::text::{
    char_is_whitespace, chars_of, find, matches_at, parse_decimal, run_end, trailing_run_start,
    trim_bounds,
};

fn chars(s: &str) -> Vec<char> {
    s.chars().collect()
}

#[test]
fn chars_of_yields_the_characters_in_order() {
    assert_eq!(chars_of(""), Vec::<char>::new());
    assert_eq!(chars_of("a\u{e9}\u{1f600}z"), vec!['a', '\u{e9}', '\u{1f600}', 'z']);
}

#[test]
fn whitespace_is_what_the_standard_library_calls_whitespace() {
    for code in 0u32..0x11_0000 {
        if let Some(c) = char::from_u32(code) {
            assert_eq!(char_is_whitespace(c), c.is_whitespace(), "U+{:04X}", code);
        }
    }
}

#[test]
fn matches_at_compares_in_place() {
    let v = chars("abcabd");
    assert!(matches_at(&v, 0, &chars("abc")));
    assert!(!matches_at(&v, 3, &chars("abc")));
    assert!(matches_at(&v, 3, &chars("abd")));
    assert!(matches_at(&v, 6, &chars("")));
}

#[test]
fn find_names_the_first_occurrence_in_the_range() {
    let v = chars("ab://cd://ef");
    let n = v.len();
    assert_eq!(find(&v, 0, n, &chars("://")), Some(2));
    assert_eq!(find(&v, 3, n, &chars("://")), Some(7));
    assert_eq!(find(&v, 8, n, &chars("://")), None);
    assert_eq!(find(&v, 0, 4, &chars("://")), None);
    assert_eq!(find(&v, 0, 5, &chars("://")), Some(2));
    assert_eq!(find(&v, 0, n, &chars("f")), Some(n - 1));
    assert_eq!(find(&v, 0, n, &chars("x")), None);
    assert_eq!(find(&v, 4, n, &chars("")), Some(4));
    assert_eq!(find(&v, 0, 0, &chars("a")), None);
    assert_eq!(find(&chars("aab"), 0, 3, &chars("ab")), Some(1));
}

#[test]
fn run_end_stops_where_the_kind_of_character_changes() {
    let v = chars(" \t ab c");
    let n = v.len();
    assert_eq!(run_end(&v, 0, n, true), 3);
    assert_eq!(run_end(&v, 0, n, false), 0);
    assert_eq!(run_end(&v, 3, n, false), 5);
    assert_eq!(run_end(&v, 3, 4, false), 4);
    assert_eq!(run_end(&v, 5, n, true), 6);
    assert_eq!(run_end(&v, 6, n, false), n);
    assert_eq!(run_end(&v, n, n, true), n);
}

#[test]
fn trailing_run_start_stops_at_the_last_other_character() {
    let v = chars("a b \r\n");
    let n = v.len();
    assert_eq!(trailing_run_start(&v, 0, n), 3);
    assert_eq!(trailing_run_start(&v, 0, 3), 3);
    assert_eq!(trailing_run_start(&v, 0, 2), 1);
    assert_eq!(trailing_run_start(&v, 3, n), 3);
    assert_eq!(trailing_run_start(&v, 4, n), 4);
}

#[test]
fn trim_bounds_cuts_whitespace_at_both_ends() {
    let v = chars(": text/html; q=1 \r\n");
    let n = v.len();
    assert_eq!(trim_bounds(&v, 1, n), (2, 16));
    assert_eq!(trim_bounds(&v, 0, n), (0, 16));
    let blank = chars(" \u{a0}\u{3000}\t");
    assert_eq!(trim_bounds(&blank, 0, 4), (4, 4));
    assert_eq!(trim_bounds(&blank, 2, 2), (2, 2));
}

#[test]
fn parse_decimal_reads_digits_after_an_optional_plus() {
    let v = chars("x+0123y65535z");
    assert_eq!(parse_decimal(&v, 1, 6, 0xffff), Some(123));
    assert_eq!(parse_decimal(&v, 2, 6, 0xffff), Some(123));
    assert_eq!(parse_decimal(&v, 2, 3, 0), Some(0));
    assert_eq!(parse_decimal(&v, 7, 12, 0xffff), Some(65535));
    assert_eq!(parse_decimal(&v, 7, 12, 65534), None);
    assert_eq!(parse_decimal(&v, 7, 12, u64::MAX), Some(65535));
    assert_eq!(parse_decimal(&v, 1, 2, 0xffff), None);
    assert_eq!(parse_decimal(&v, 3, 3, 0xffff), None);
    assert_eq!(parse_decimal(&v, 0, 6, 0xffff), None);
    assert_eq!(parse_decimal(&v, 1, 7, 0xffff), None);
}

#[test]
fn parse_decimal_decides_at_the_bound() {
    for (text, max, expected) in [
        ("18446744073709551615", u64::MAX, Some(u64::MAX)),
        ("18446744073709551616", u64::MAX, None),
        ("99999999999999999999999999", u64::MAX, None),
        ("00000000000000000000000007", 7, Some(7)),
        ("8", 7, None),
        ("10", 9, None),
        ("\u{663}", 9, None),
        ("-1", 9, None),
        ("1 ", 9, None),
    ] {
        let v = chars(text);
        assert_eq!(parse_decimal(&v, 0, v.len(), max), expected, "{}", text);
        assert_eq!(text.parse::<u64>().ok().filter(|n| *n <= max), expected, "{}", text);
    }
}
