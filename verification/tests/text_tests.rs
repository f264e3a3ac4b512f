use supgit::text::{
    append_chars, byte_len_below, char_is_whitespace, char_offset_exec, char_utf8_width,
    copy_string, ends_with_exec, find_char_from, find_exec, from_chars, is_blank, join_args, lines_of,
    parse_u64, position_of_string, push_decimal, push_str, push_string, starts_with_exec,
    str_contains, str_has_whitespace, to_chars, trim_bounds, trim_end_string, trim_string,
};

fn chars(s: &str) -> Vec<char> {
    to_chars(s)
}

#[test]
fn to_chars_keeps_every_character() {
    assert_eq!(to_chars("añb"), vec!['a', 'ñ', 'b']);
    assert!(to_chars("").is_empty());
}

#[test]
fn from_chars_takes_the_range() {
    let v = chars("hello world");
    assert_eq!(from_chars(&v, 6, 11), "world");
    assert_eq!(from_chars(&v, 3, 3), "");
}

#[test]
fn append_chars_appends_the_range() {
    let v = chars("0123456789");
    let mut s = String::from(">");
    append_chars(&mut s, &v, 2, 5);
    assert_eq!(s, ">234");
}

#[test]
fn copy_string_is_equal() {
    let s = String::from("copy me");
    assert_eq!(copy_string(&s), "copy me");
}

#[test]
fn whitespace_follows_unicode() {
    assert!(char_is_whitespace(' '));
    assert!(char_is_whitespace('\t'));
    assert!(char_is_whitespace('\n'));
    assert!(char_is_whitespace('\u{3000}'));
    assert!(char_is_whitespace('\u{a0}'));
    assert!(!char_is_whitespace('x'));
    assert!(!char_is_whitespace('\u{200b}'));
    for c in ['a', ' ', '\u{85}', '\u{2028}', '\u{1680}', '_'] {
        assert_eq!(char_is_whitespace(c), c.is_whitespace());
    }
}

#[test]
fn trim_matches_std() {
    for s in ["  a b  ", "\t\nx\r\n", "", "   ", "no-space", "\u{3000}wide\u{3000}"] {
        assert_eq!(trim_string(s), s.trim());
        assert_eq!(trim_end_string(s), s.trim_end());
    }
}

#[test]
fn trim_is_idempotent_on_examples() {
    for s in ["  a  ", "\tb\t", "c"] {
        let once = trim_string(s);
        assert_eq!(trim_string(&once), once);
    }
}

#[test]
fn trim_bounds_inside_a_range() {
    let v = chars("xx  mid  yy");
    assert_eq!(trim_bounds(&v, 2, 9), (4, 7));
    assert_eq!(trim_bounds(&v, 2, 4), (4, 4));
}

#[test]
fn find_char_from_counts_from_the_start() {
    let v = chars("a:b:c");
    assert_eq!(find_char_from(&v, 0, ':'), Some(1));
    assert_eq!(find_char_from(&v, 2, ':'), Some(3));
    assert_eq!(find_char_from(&v, 4, ':'), None);
}

#[test]
fn find_exec_matches_str_find_in_characters() {
    assert_eq!(find_exec(&chars("abcabc"), &chars("ca")), Some(2));
    assert_eq!(find_exec(&chars("abc"), &chars("")), Some(0));
    assert_eq!(find_exec(&chars("abc"), &chars("abcd")), None);
    assert_eq!(find_exec(&chars("ñx"), &chars("x")), Some(1));
}

#[test]
fn contains_starts_ends() {
    assert!(str_contains("hello world", "o w"));
    assert!(!str_contains("hello", "world"));
    assert!(starts_with_exec(&chars("stash@{0}"), &chars("stash@")));
    assert!(!starts_with_exec(&chars("st"), &chars("stash")));
    assert!(ends_with_exec(&chars("file.rs"), &chars(".rs")));
    assert!(!ends_with_exec(&chars("file.rs"), &chars(".py")));
}

#[test]
fn lines_of_matches_str_lines() {
    for s in ["a\nb\r\nc", "a\n", "", "\n\n", "x\r\n\r\n", "one"] {
        let got = lines_of(&chars(s));
        let want: Vec<String> = s.lines().map(|l| l.to_string()).collect();
        assert_eq!(got, want);
    }
}

#[test]
fn lines_have_no_newline_on_example() {
    for l in lines_of(&chars("a\nb\r\n\nc")) {
        assert!(!l.contains('\n'));
    }
}

#[test]
fn utf8_widths() {
    assert_eq!(char_utf8_width('a'), 1);
    assert_eq!(char_utf8_width('ñ'), 2);
    assert_eq!(char_utf8_width('€'), 3);
    assert_eq!(char_utf8_width('😀'), 4);
}

#[test]
fn char_offset_maps_byte_offsets() {
    let v = chars("añb");
    assert_eq!(char_offset_exec(&v, 0), Some(0));
    assert_eq!(char_offset_exec(&v, 1), Some(1));
    assert_eq!(char_offset_exec(&v, 2), None);
    assert_eq!(char_offset_exec(&v, 3), Some(2));
    assert_eq!(char_offset_exec(&v, 4), Some(3));
    assert_eq!(char_offset_exec(&v, 5), None);
}

#[test]
fn byte_len_below_counts_bytes() {
    assert!(byte_len_below(&chars("abc"), 4));
    assert!(!byte_len_below(&chars("abc"), 3));
    assert!(!byte_len_below(&chars("ññ"), 4));
    assert!(byte_len_below(&chars("ññ"), 5));
}

#[test]
fn parse_u64_matches_std() {
    for s in ["0", "42", "+7", "007", "18446744073709551615"] {
        assert_eq!(parse_u64(&chars(s)), s.parse::<u64>().ok());
    }
    for s in ["", "-1", "1a", " 1", "18446744073709551616", "+"] {
        assert_eq!(parse_u64(&chars(s)), None);
    }
}

#[test]
fn push_decimal_writes_like_display() {
    for n in [0u64, 7, 10, 99, 100, 1234567890, u64::MAX] {
        let mut s = String::from("n=");
        push_decimal(&mut s, n);
        assert_eq!(s, format!("n={}", n));
    }
}

#[test]
fn decimal_round_trip_on_examples() {
    for n in [0u64, 5, 12, 300, 259200, u64::MAX] {
        let mut s = String::new();
        push_decimal(&mut s, n);
        assert_eq!(parse_u64(&chars(&s)), Some(n));
    }
}

#[test]
fn join_args_uses_single_spaces() {
    let args = vec!["commit".to_string(), "-m".to_string(), "msg".to_string()];
    assert_eq!(join_args(&args), "commit -m msg");
    assert_eq!(join_args(&Vec::new()), "");
    assert_eq!(join_args(&vec!["one".to_string()]), "one");
}

#[test]
fn position_of_string_finds_the_first() {
    let v = vec!["a".to_string(), "b".to_string(), "b".to_string()];
    assert_eq!(position_of_string(&v, &"b".to_string()), Some(1));
    assert_eq!(position_of_string(&v, &"z".to_string()), None);
}

#[test]
fn push_string_and_push_str_append() {
    let mut v: Vec<String> = Vec::new();
    push_str(&mut v, "x");
    push_string(&mut v, "y".to_string());
    assert_eq!(v, vec!["x".to_string(), "y".to_string()]);
}

#[test]
fn whitespace_and_blank() {
    assert!(str_has_whitespace("a b"));
    assert!(str_has_whitespace("a\tb"));
    assert!(!str_has_whitespace("ab"));
    assert!(is_blank("  \t"));
    assert!(is_blank(""));
    assert!(!is_blank(" x "));
}
