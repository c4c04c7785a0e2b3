use rxscope::number::{format_hex_padded, format_signed, parse_hex_chars, parse_signed_chars};
use rxscope::text::{
    chars_of, eq_ignore_case, find_from, is_whitespace, lines_of, split_chars, str_eq, string_of,
    trim_chars,
};

fn chars(s: &str) -> Vec<char> {
    s.chars().collect()
}

fn strings(v: Vec<Vec<char>>) -> Vec<String> {
    v.into_iter().map(|l| l.into_iter().collect()).collect()
}

#[test]
fn characters_and_strings_convert_both_ways() {
    let v = chars_of("añb");
    assert_eq!(v, vec!['a', 'ñ', 'b']);
    assert_eq!(string_of(&v), "añb");
    assert!(str_eq("tab", "tab"));
    assert!(!str_eq("tab", "Tab"));
}

#[test]
fn trimming_removes_unicode_white_space_as_std_does() {
    for s in ["  x y \t", "\u{3000}wide\u{2028}", "\u{85}", "", "a", " \r\n "] {
        let got: String = trim_chars(&chars(s)).into_iter().collect();
        assert_eq!(got, s.trim(), "input {:?}", s);
    }
    for c in ['\u{a0}', '\u{1680}', '\u{2009}', '\u{205f}', 'x', '\u{200b}'] {
        assert_eq!(is_whitespace(c), c.is_whitespace(), "char {:?}", c);
    }
}

#[test]
fn lines_split_like_std_lines() {
    for s in ["a\r\nb\nc", "a\n\nb\n", "", "\n", "x\r", "only"] {
        let got = strings(lines_of(&chars(s)));
        let want: Vec<String> = s.lines().map(String::from).collect();
        assert_eq!(got, want, "input {:?}", s);
    }
}

#[test]
fn split_on_a_character_keeps_empty_fields() {
    for s in ["a,b,,c", "", ",", "abc,"] {
        let got = strings(split_chars(&chars(s), ','));
        let want: Vec<String> = s.split(',').map(String::from).collect();
        assert_eq!(got, want, "input {:?}", s);
    }
    assert_eq!(find_from(&chars("a=b=c"), 2, '='), 3);
    assert_eq!(find_from(&chars("abc"), 0, '='), 3);
}

#[test]
fn case_is_folded_for_ascii_letters_only() {
    assert!(eq_ignore_case(&chars("MiXeD"), &chars("mixed")));
    assert!(!eq_ignore_case(&chars("Ñ"), &chars("ñ")));
    assert!(!eq_ignore_case(&chars("ab"), &chars("abc")));
}

#[test]
fn signed_and_hex_numbers_follow_the_std_grammar() {
    assert_eq!(parse_signed_chars(&chars("-42"), -100, 100), Some(-42));
    assert_eq!(parse_signed_chars(&chars("+7"), -100, 100), Some(7));
    assert_eq!(parse_signed_chars(&chars("-"), -100, 100), None);
    assert_eq!(parse_signed_chars(&chars("101"), -100, 100), None);
    assert_eq!(format_signed(-9_223_372_036_854_775_808), i64::MIN.to_string());
    assert_eq!(parse_hex_chars(&chars("fF"), 255), Some(255));
    assert_eq!(parse_hex_chars(&chars("100"), 255), None);
    assert_eq!(format_hex_padded(0x1a, 6), "00001A");
}
