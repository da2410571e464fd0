use eyes_on_me::text::{
    chars_of, has_suffix, has_text, head_before, lower_text, read_u64, same_text, string_of,
    tail_after, trim_text, words_of, CharClass,
};

#[test]
fn white_space_is_that_of_the_standard_library() {
    for n in 0..=0x10ffffu32 {
        if let Some(c) = char::from_u32(n) {
            let listed = matches!(n,
                0x9..=0xd | 0x20 | 0x85 | 0xa0 | 0x1680 | 0x2000..=0x200a | 0x2028 | 0x2029
                | 0x202f | 0x205f | 0x3000);
            assert_eq!(c.is_whitespace(), listed);
            assert_eq!(CharClass::WhiteSpace.test(c), listed);
        }
    }
}

#[test]
fn simple_case_is_that_of_the_standard_library() {
    for n in (0..0x80u32).chain(0x4e00..=0x9fff) {
        let c = char::from_u32(n).unwrap();
        let s = format!("{}Q{}", c, c);
        assert_eq!(s.to_lowercase(), s.to_ascii_lowercase());
    }
}

#[test]
fn text_is_cut_as_the_standard_library_cuts_it() {
    for s in ["", " ", " a b ", "\u{3000}x\ty\n", "a@b@c", "/x/y\\z", "\"q\" \"", "..a.b.", "ab#c?d/e"] {
        let v = chars_of(s);
        assert_eq!(string_of(&v), s);
        assert_eq!(trim_text(s), s.trim());
        let words: Vec<String> = words_of(&v).iter().map(|w| w.iter().collect()).collect();
        let expected: Vec<String> = s.split_whitespace().map(|w| w.to_string()).collect();
        assert_eq!(words, expected);
        let tail: String = tail_after(&v, CharClass::PathSeparator).iter().collect();
        assert_eq!(tail, s.rsplit(['/', '\\']).next().unwrap());
        let head: String = head_before(&v, CharClass::HostEnd).iter().collect();
        assert_eq!(head, s.split(['/', '?', '#']).next().unwrap());
        assert_eq!(lower_text(&v), s.to_ascii_lowercase());
        for t in ["", "a", "a b", "b.", "@c", " "] {
            let w = chars_of(t);
            assert_eq!(has_text(&v, &w), s.contains(t));
            assert_eq!(has_suffix(&v, &w), s.ends_with(t));
            assert_eq!(same_text(s, t), s == t);
        }
    }
}

#[test]
fn numbers_are_read_as_the_standard_library_reads_them() {
    for s in ["", "+", "-", "0", "-0", "+0", "007", "18446744073709551615", "18446744073709551616",
        "99999999999999999999", "1a", " 1", "1 ", "1_0", "++1", "\u{661}"] {
        assert_eq!(read_u64(&chars_of(s)), s.parse::<u64>().ok());
    }
}
