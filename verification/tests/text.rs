use cmd_queue::text::{
    chars_of, clone_strings, contains, decimal, extend, find_all, find_from, is_blank,
    is_whitespace, join, lines, matches_at, position_from, replace, same_chars, slice_of, split,
    starts_with, string_of, trim, trim_end,
};

fn c(s: &str) -> Vec<char> {
    s.chars().collect()
}

#[test]
fn a_string_and_its_characters_are_the_same_text() {
    assert_eq!(chars_of("héllo"), vec!['h', 'é', 'l', 'l', 'o']);
    assert_eq!(chars_of(""), Vec::<char>::new());
    assert_eq!(string_of(&c("héllo wörld")), "héllo wörld");
    assert_eq!(string_of(&vec![]), "");
    assert_eq!(clone_strings(&vec!["a".to_string(), "".to_string()]), vec!["a", ""]);
}

#[test]
fn a_slice_holds_the_characters_between_two_places() {
    assert_eq!(slice_of(&c("abcdef"), 1, 4), c("bcd"));
    assert_eq!(slice_of(&c("abcdef"), 0, 6), c("abcdef"));
    assert_eq!(slice_of(&c("abcdef"), 3, 3), c(""));
    let mut text = c("ab");
    extend(&mut text, &c("cd"));
    assert_eq!(text, c("abcd"));
    extend(&mut text, &c(""));
    assert_eq!(text, c("abcd"));
}

#[test]
fn texts_are_compared_character_by_character() {
    assert!(same_chars(&c("abc"), &c("abc")));
    assert!(same_chars(&c(""), &c("")));
    assert!(!same_chars(&c("abc"), &c("abd")));
    assert!(!same_chars(&c("abc"), &c("ab")));
    assert!(!same_chars(&c("ab"), &c("abc")));
}

#[test]
fn a_needle_is_found_where_it_stands() {
    let hay = c("abcabcabc");
    assert!(matches_at(&hay, &c("abc"), 0));
    assert!(matches_at(&hay, &c("abc"), 6));
    assert!(!matches_at(&hay, &c("abc"), 7));
    assert!(!matches_at(&hay, &c("abc"), 1));
    assert!(matches_at(&hay, &c(""), 9));
    assert!(!matches_at(&hay, &c(""), 10));
    assert_eq!(find_from(&hay, &c("bc"), 0), Some(1));
    assert_eq!(find_from(&hay, &c("bc"), 2), Some(4));
    assert_eq!(find_from(&hay, &c("bc"), 8), None);
    assert_eq!(find_from(&hay, &c("x"), 0), None);
    assert_eq!(find_from(&hay, &c("abcabcabcd"), 0), None);
    assert_eq!(find_from(&hay, &c(""), 9), Some(9));
    assert!(contains(&hay, &c("cab")));
    assert!(!contains(&hay, &c("cc")));
    assert!(starts_with(&hay, &c("abca")));
    assert!(!starts_with(&hay, &c("bca")));
    assert!(starts_with(&hay, &c("")));
}

#[test]
fn occurrences_do_not_overlap() {
    assert_eq!(find_all(&c("aaaa"), &c("aa")), vec![0, 2]);
    assert_eq!(find_all(&c("aaaaa"), &c("aa")), vec![0, 2]);
    assert_eq!(find_all(&c("abcabc"), &c("bc")), vec![1, 4]);
    assert_eq!(find_all(&c("abcabc"), &c("x")), Vec::<usize>::new());
    assert_eq!(find_all(&c("abcabc"), &c("")), Vec::<usize>::new());
    assert_eq!(find_all(&c(""), &c("a")), Vec::<usize>::new());
}

#[test]
fn replace_puts_one_text_in_place_of_another() {
    assert_eq!(replace(&c("a.b.c"), &c("."), &c("--")), c("a--b--c"));
    assert_eq!(replace(&c("aaaa"), &c("aa"), &c("b")), c("bb"));
    assert_eq!(replace(&c("aaaaa"), &c("aa"), &c("b")), c("bba"));
    assert_eq!(replace(&c("photo.jpg"), &c(".jpg"), &c("")), c("photo"));
    assert_eq!(replace(&c("abc"), &c("x"), &c("y")), c("abc"));
    assert_eq!(replace(&c("abc"), &c(""), &c("y")), c("abc"));
    assert_eq!(replace(&c(""), &c("a"), &c("y")), c(""));
    assert_eq!(replace(&c("abc"), &c("abc"), &c("")), c(""));
}

#[test]
fn white_space_is_what_unicode_says() {
    for ch in [' ', '\t', '\n', '\r', '\u{b}', '\u{c}', '\u{85}', '\u{a0}', '\u{1680}', '\u{2000}', '\u{200a}', '\u{2028}', '\u{2029}', '\u{202f}', '\u{205f}', '\u{3000}'] {
        assert!(is_whitespace(ch), "{:?}", ch);
    }
    for ch in ['a', '0', '\u{0}', '\u{200b}', '\u{feff}', '_', '\u{180e}'] {
        assert!(!is_whitespace(ch), "{:?}", ch);
    }
    for n in 0..0x3100u32 {
        if let Some(ch) = char::from_u32(n) {
            assert_eq!(is_whitespace(ch), ch.is_whitespace(), "{:?}", ch);
        }
    }
    assert!(is_blank(&c(" \t\n")));
    assert!(is_blank(&c("")));
    assert!(!is_blank(&c(" a ")));
}

#[test]
fn trimming_takes_the_white_space_at_the_ends() {
    assert_eq!(trim(&c("  a b \n")), c("a b"));
    assert_eq!(trim(&c("a")), c("a"));
    assert_eq!(trim(&c(" \t ")), c(""));
    assert_eq!(trim(&c("")), c(""));
    assert_eq!(trim_end(&c("  a b \n")), c("  a b"));
    assert_eq!(trim_end(&c("   ")), c(""));
    for s in ["", " ", "x", " x", "x ", "\u{a0}x\u{3000}", " a  b "] {
        assert_eq!(string_of(&trim(&c(s))), s.trim());
        assert_eq!(string_of(&trim_end(&c(s))), s.trim_end());
    }
}

#[test]
fn a_character_is_looked_for_from_a_place_on() {
    assert_eq!(position_from(&c("a,b,c"), ',', 0), 1);
    assert_eq!(position_from(&c("a,b,c"), ',', 2), 3);
    assert_eq!(position_from(&c("a,b,c"), ',', 4), 5);
    assert_eq!(position_from(&c(""), ',', 0), 0);
}

#[test]
fn split_cuts_at_every_separator() {
    assert_eq!(split(&c("a;b;c"), ';'), vec![c("a"), c("b"), c("c")]);
    assert_eq!(split(&c(";a;"), ';'), vec![c(""), c("a"), c("")]);
    assert_eq!(split(&c("abc"), ';'), vec![c("abc")]);
    assert_eq!(split(&c(""), ';'), vec![c("")]);
    for s in ["", "a", ";", "a;;b", ";;", "x;y;"] {
        let expected: Vec<Vec<char>> = s.split(';').map(|p| p.chars().collect()).collect();
        assert_eq!(split(&c(s), ';'), expected, "{:?}", s);
    }
}

#[test]
fn lines_end_at_line_feeds_and_lose_a_carriage_return() {
    assert_eq!(lines(&c("a\nb\r\nc")), vec![c("a"), c("b"), c("c")]);
    assert_eq!(lines(&c("a\n")), vec![c("a")]);
    assert_eq!(lines(&c("\n\n")), vec![c(""), c("")]);
    assert_eq!(lines(&c("")), Vec::<Vec<char>>::new());
    for s in ["", "a", "a\n", "a\r\n", "\n", "\r\n\r\n", "a\rb\n", "x\n\ny", "x\r"] {
        let expected: Vec<Vec<char>> = s.lines().map(|p| p.chars().collect()).collect();
        assert_eq!(lines(&c(s)), expected, "{:?}", s);
    }
}

#[test]
fn join_sets_the_separator_between_the_parts() {
    let parts = vec!["a".to_string(), "b".to_string(), "c".to_string()];
    assert_eq!(join(&parts, ", "), "a, b, c");
    assert_eq!(join(&vec!["a".to_string()], ", "), "a");
    assert_eq!(join(&vec![], ", "), "");
    assert_eq!(join(&vec!["".to_string(), "".to_string()], "-"), "-");
}

#[test]
fn a_number_is_written_in_decimal() {
    assert_eq!(decimal(0), c("0"));
    assert_eq!(decimal(7), c("7"));
    assert_eq!(decimal(10), c("10"));
    assert_eq!(decimal(1_700_000_000), c("1700000000"));
    assert_eq!(decimal(u64::MAX), c("18446744073709551615"));
}
