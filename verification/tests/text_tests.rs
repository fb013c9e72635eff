use ytdownloader::text::{
    char_is_space, chars_contain, chars_equal, chars_less, chars_occur_at, chars_of,
    decimal_string, first_non_empty_line, first_nonblank_line_of_text, lossy_decode, parse_i32,
    slice_chars, str_contains, str_equal, str_starts_with, str_strip_prefix, string_of,
    to_ascii_lowercase, to_lowercase, to_uppercase, trim, trim_chars,
};

#[test]
fn chars_and_back() {
    let v = chars_of("héllo 下载");
    assert_eq!(v, vec!['h', 'é', 'l', 'l', 'o', ' ', '下', '载']);
    assert_eq!(string_of(&v), "héllo 下载");
    assert_eq!(string_of(&slice_chars(&v, 1, 4)), "éll");
    assert_eq!(string_of(&slice_chars(&v, 3, 3)), "");
}

#[test]
fn joining_strings() {
    assert_eq!(ytdownloader::text::concat("ab", "cd"), "abcd");
    assert_eq!(ytdownloader::text::concat("", "x"), "x");
    assert_eq!(ytdownloader::text::concat("拾流", ""), "拾流");
}

#[test]
fn trim_matches_std() {
    for s in ["  a b \n", "\t\r\nx", "", "   ", "no-space", "\u{3000}全角\u{3000}", "a\u{a0}"] {
        assert_eq!(trim(s), s.trim(), "input {:?}", s);
        assert_eq!(string_of(&trim_chars(&chars_of(s))), s.trim());
    }
}

#[test]
fn whitespace_matches_std() {
    for c in [' ', '\t', '\n', '\r', '\u{b}', '\u{c}', '\u{85}', '\u{a0}', '\u{2028}', '\u{3000}', 'a', '0', '下'] {
        assert_eq!(char_is_space(c), c.is_whitespace(), "char {:?}", c);
    }
}

#[test]
fn equality_and_search() {
    assert!(str_equal("abc", "abc"));
    assert!(!str_equal("abc", "abd"));
    assert!(!str_equal("abc", "ab"));
    assert!(chars_equal(&chars_of("x"), &chars_of("x")));
    assert!(str_contains("hello world", "lo w"));
    assert!(str_contains("abc", ""));
    assert!(!str_contains("abc", "abcd"));
    assert!(chars_contain(&chars_of("youtube.com/watch"), &chars_of("youtube.com/")));
    assert!(chars_occur_at(&chars_of("abcabc"), &chars_of("ca"), 2));
    assert!(!chars_occur_at(&chars_of("abcabc"), &chars_of("ca"), 3));
    assert!(!chars_occur_at(&chars_of("ab"), &chars_of("b"), 5));
    assert!(str_starts_with("[download] 5%", "[download]"));
    assert!(!str_starts_with("[down", "[download]"));
}

#[test]
fn strip_prefix_matches_std() {
    assert_eq!(str_strip_prefix("~/Movies", "~/"), Some("Movies".to_string()));
    assert_eq!(str_strip_prefix("~", "~/"), None);
    assert_eq!(str_strip_prefix("~/", "~/"), Some(String::new()));
}

#[test]
fn case_conversions() {
    assert_eq!(to_ascii_lowercase(" EN-us "), " en-us ");
    assert_eq!(to_ascii_lowercase("ÉN"), "Én");
    assert_eq!(to_lowercase("YouTube.COM/Watch"), "youtube.com/watch");
    assert_eq!(to_lowercase("ÉCOLE"), "école");
    assert_eq!(to_uppercase("mp4"), "MP4");
    assert_eq!(to_uppercase("straße"), "STRASSE");
}

#[test]
fn first_lines() {
    assert_eq!(first_nonblank_line_of_text("\n  \n first line \nsecond"), Some("first line".to_string()));
    assert_eq!(first_nonblank_line_of_text(" \n\t\n"), None);
    assert_eq!(first_nonblank_line_of_text(""), None);
    assert_eq!(first_nonblank_line_of_text("a\r\nb"), Some("a".to_string()));
    assert_eq!(first_non_empty_line(b"\n\nERROR: boom\nmore"), Some("ERROR: boom".to_string()));
    assert_eq!(first_non_empty_line(b""), None);
}

#[test]
fn lossy_decoding_replaces_invalid_bytes() {
    assert_eq!(lossy_decode(b"plain"), "plain");
    assert_eq!(lossy_decode(&[0x66, 0xff, 0x6f]), "f\u{fffd}o");
    assert_eq!(first_non_empty_line(&[0xff, b'\n', b'x']), Some("\u{fffd}".to_string()));
}

#[test]
fn decimal_strings() {
    assert_eq!(decimal_string(0), "0");
    assert_eq!(decimal_string(7), "7");
    assert_eq!(decimal_string(1700000000123), "1700000000123");
    assert_eq!(decimal_string(u128::MAX), u128::MAX.to_string());
}

#[test]
fn text_order_matches_str_order() {
    let words = ["", "a", "ab", "b", "task-1", "task-10", "task-2", "下载", "Z"];
    for a in words {
        for b in words {
            assert_eq!(chars_less(&chars_of(a), &chars_of(b)), a < b, "{:?} < {:?}", a, b);
        }
    }
}

#[test]
fn integer_parsing_matches_std() {
    for s in ["0", "42", "-42", "+7", "", "-", "+", "1a", " 1", "2147483647", "2147483648", "-2147483648", "-2147483649", "007", "1080"] {
        assert_eq!(parse_i32(&chars_of(s)), s.parse::<i32>().ok(), "input {:?}", s);
    }
}

#[test]
fn case_mapping_on_ascii_is_ascii_mapping() {
    for s in ["YouTube.COM/Watch?v=AbC", "mp4", "M4A", "already INSTALLED 123 !@#", ""] {
        assert_eq!(to_lowercase(s), s.to_ascii_lowercase());
        assert_eq!(to_uppercase(s), s.to_ascii_uppercase());
        assert_eq!(to_ascii_lowercase(s), s.to_ascii_lowercase());
    }
}
