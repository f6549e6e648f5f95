use zeroday_scan::text::{
    begins_with, chars_of, concat_all, cut_second, find, is_white_space, occurs_here, trim,
};

fn chars(s: &str) -> Vec<char> {
    s.chars().collect()
}

#[test]
fn chars_of_keeps_every_character() {
    assert_eq!(chars_of("a\u{98a8}b"), vec!['a', '\u{98a8}', 'b']);
    assert_eq!(chars_of(""), Vec::<char>::new());
}

#[test]
fn concat_all_joins_in_order() {
    let parts = vec![String::from("ab"), String::new(), String::from("c d")];
    assert_eq!(concat_all(&parts), "abc d");
    assert_eq!(concat_all(&Vec::new()), "");
}

#[test]
fn white_space_follows_unicode() {
    for c in [' ', '\t', '\n', '\u{b}', '\u{c}', '\r', '\u{85}', '\u{a0}', '\u{1680}', '\u{2000}',
        '\u{200a}', '\u{2028}', '\u{2029}', '\u{202f}', '\u{205f}', '\u{3000}']
    {
        assert!(is_white_space(c));
        assert!(c.is_whitespace());
    }
    for c in ['a', '0', '\u{8}', '\u{e}', '\u{200b}', '\u{ff1a}', '\u{feff}'] {
        assert!(!is_white_space(c));
        assert!(!c.is_whitespace());
    }
}

#[test]
fn white_space_agrees_with_std_on_the_basic_plane() {
    for code in 0u32..0x1_0000 {
        if let Some(c) = char::from_u32(code) {
            assert_eq!(is_white_space(c), c.is_whitespace());
        }
    }
}

#[test]
fn trim_removes_surrounding_white_space() {
    assert_eq!(trim("  \t a b \n"), "a b");
    assert_eq!(trim("\u{3000}x\u{a0}"), "x");
    assert_eq!(trim("abc"), "abc");
}

#[test]
fn trim_of_blank_text_is_empty() {
    assert_eq!(trim(""), "");
    assert_eq!(trim(" \n\t "), "");
}

#[test]
fn trim_agrees_with_std() {
    for text in ["", " ", "a", " a", "a ", "  a  b  ", "\n\u{98a8} \u{96aa}\r\n", "\u{2003}7\u{2003}"] {
        assert_eq!(trim(text), text.trim());
    }
}

#[test]
fn occurs_here_checks_one_position() {
    let text = chars("abcabc");
    let pat = chars("bc");
    assert!(occurs_here(&text, &pat, 1));
    assert!(occurs_here(&text, &pat, 4));
    assert!(!occurs_here(&text, &pat, 0));
    assert!(!occurs_here(&text, &pat, 5));
    assert!(!occurs_here(&text, &pat, 7));
    assert!(occurs_here(&text, &Vec::new(), 6));
}

#[test]
fn find_gives_the_leftmost_occurrence() {
    let text = chars("abcabc");
    let pat = chars("bc");
    assert_eq!(find(&text, &pat, 0), Some(1));
    assert_eq!(find(&text, &pat, 1), Some(1));
    assert_eq!(find(&text, &pat, 2), Some(4));
    assert_eq!(find(&text, &pat, 5), None);
    assert_eq!(find(&text, &pat, 9), None);
    assert_eq!(find(&text, &chars("abcabcd"), 0), None);
    assert_eq!(find(&text, &Vec::new(), 3), Some(3));
}

#[test]
fn begins_with_compares_the_start() {
    assert!(begins_with("\u{98a8}\u{96aa}\u{ff1a}x", "\u{98a8}\u{96aa}"));
    assert!(!begins_with(" \u{98a8}\u{96aa}", "\u{98a8}\u{96aa}"));
    assert!(!begins_with("\u{98a8}", "\u{98a8}\u{96aa}"));
    assert!(begins_with("abc", ""));
}

#[test]
fn cut_second_takes_text_between_separators() {
    assert_eq!(cut_second("a : b : c", " : "), Some(String::from("b")));
    assert_eq!(cut_second("a : b", " : "), Some(String::from("b")));
    assert_eq!(cut_second("a : ", " : "), Some(String::new()));
    assert_eq!(cut_second(" : b", " : "), Some(String::from("b")));
    assert_eq!(cut_second(" :  : ", " : "), Some(String::new()));
}

#[test]
fn cut_second_without_separator_is_none() {
    assert_eq!(cut_second("no separator", " : "), None);
    assert_eq!(cut_second("a: b", " : "), None);
    assert_eq!(cut_second("", " : "), None);
}

#[test]
fn cut_second_takes_non_overlapping_occurrences() {
    assert_eq!(cut_second("a : : b", " : "), Some(String::from(": b")));
    assert_eq!(cut_second("xaaay", "aa"), Some(String::from("ay")));
}

#[test]
fn cut_second_agrees_with_std_split() {
    for text in ["a : b : c", "a : b", "x", " : ", "a :  : b", "\u{98a8}\u{96aa} : 1 : 2 : 3", "a : : b"] {
        let pieces: Vec<&str> = text.split(" : ").collect();
        let expected = pieces.get(1).map(|s| s.to_string());
        assert_eq!(cut_second(text, " : "), expected);
    }
}
