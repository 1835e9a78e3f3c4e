use telegramail::text::{
    chars_of, is_whitespace, push_decimal, remove_ws_chars, replace_chars, string_of, to_ascii_lower,
    trim_chars,
};

#[test]
fn whitespace_is_unicode_white_space() {
    for u in 0..=0x10FFFFu32 {
        if let Some(c) = char::from_u32(u) {
            assert_eq!(is_whitespace(c), c.is_whitespace(), "{u:#x}");
            assert_eq!(to_ascii_lower(c), c.to_ascii_lowercase(), "{u:#x}");
        }
    }
}

fn s(v: Vec<char>) -> String {
    string_of(&v)
}

#[test]
fn trimming_matches_str_trim() {
    for t in ["", "  ", " a b ", "\u{3000}x\u{a0}", "\r\n\tq\n", "plain"] {
        assert_eq!(s(trim_chars(&chars_of(t))), t.trim());
        assert_eq!(
            s(remove_ws_chars(&chars_of(t))),
            t.split_whitespace().collect::<String>()
        );
    }
}

#[test]
fn replacing_matches_str_replace() {
    for (t, p, r) in [("aaa", "aa", "b"), ("x\r\n y", "\r\n ", " "), ("", "a", "b"), ("abc", "c", "")] {
        assert_eq!(s(replace_chars(&chars_of(t), &chars_of(p), &chars_of(r))), t.replace(p, r));
    }
}

#[test]
fn decimals_match_to_string() {
    for n in [0u64, 7, 10, 99, 100, 65535, u64::MAX] {
        let mut v = Vec::new();
        push_decimal(&mut v, n);
        assert_eq!(s(v), n.to_string());
    }
}
