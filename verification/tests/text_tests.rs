use git_util::text::{
    find, join_first, keep_non_empty, lines, matches_at, number_to_text, parse_decimal,
    skip_leading, skip_trailing, split, split_runs, split_text, to_chars, to_text, to_texts, trim,
    CharClass,
};

fn chars(s: &str) -> Vec<char> {
    s.chars().collect()
}

fn texts(parts: Vec<Vec<char>>) -> Vec<String> {
    parts.into_iter().map(|p| p.into_iter().collect()).collect()
}

#[test]
fn trim_removes_surrounding_white_space() {
    let chars = to_chars("  \t hello world \n");
    assert_eq!(to_text(trim(&chars)), "hello world");
}

#[test]
fn characters_and_text_convert_both_ways() {
    for s in ["", "abc", "héllo wörld", "日本語\n", "a\0b"] {
        assert_eq!(to_chars(s), chars(s));
        assert_eq!(to_text(&chars(s)), s);
    }
}

#[test]
fn blank_class_is_the_white_space_of_the_standard_library() {
    for code in 0..=0x10FFFFu32 {
        if let Some(c) = char::from_u32(code) {
            assert_eq!(CharClass::Blank.contains(c), c.is_whitespace(), "U+{:04X}", code);
            assert_eq!(
                CharClass::AsciiBlank.contains(c),
                c.is_ascii_whitespace(),
                "U+{:04X}",
                code
            );
        }
    }
    assert!(CharClass::Only('*').contains('*'));
    assert!(!CharClass::Only('*').contains(' '));
}

#[test]
fn trim_agrees_with_the_standard_library() {
    for s in ["", " ", "a", " a", "a ", "\u{a0}a\u{2003}b\u{3000}", "\n\t x \r\n", "\u{b}x\u{85}"] {
        assert_eq!(to_text(trim(&chars(s))), s.trim(), "{:?}", s);
        assert_eq!(to_text(skip_leading(&chars(s), CharClass::Blank)), s.trim_start());
        assert_eq!(to_text(skip_trailing(&chars(s), CharClass::Blank)), s.trim_end());
    }
}

#[test]
fn one_character_is_stripped_as_often_as_it_stands() {
    assert_eq!(to_text(skip_leading(&chars("**a*"), CharClass::Only('*'))), "a*");
    assert_eq!(to_text(skip_trailing(&chars("a\n\n\n"), CharClass::Only('\n'))), "a");
    assert_eq!(to_text(skip_trailing(&chars(")))"), CharClass::Only(')'))), "");
}

#[test]
fn find_gives_the_first_occurrence() {
    assert_eq!(find(&chars("abcabc"), &chars("bc")), Some(1));
    assert_eq!(find(&chars("abcabc"), &chars("cb")), None);
    assert_eq!(find(&chars("aaa"), &chars("aa")), Some(0));
    assert_eq!(find(&chars(""), &chars("a")), None);
    assert_eq!(find(&chars("abc"), &chars("")), Some(0));
    assert_eq!(find(&chars(""), &chars("")), Some(0));
    assert_eq!(find(&chars("abc"), &chars("abcd")), None);
    assert_eq!(find(&chars("xabc"), &chars("abc")), Some(1));
}

#[test]
fn matches_at_checks_one_place() {
    assert!(matches_at(&chars("hello"), &chars("ll"), 2));
    assert!(!matches_at(&chars("hello"), &chars("ll"), 3));
    assert!(!matches_at(&chars("hello"), &chars("lo"), 4));
    assert!(matches_at(&chars("hello"), &chars(""), 5));
    assert!(!matches_at(&chars("hello"), &chars(""), 6));
}

#[test]
fn split_agrees_with_the_standard_library() {
    let cases = [
        ("", ","),
        ("a", ","),
        ("a,b,c", ","),
        (",a,,b,", ","),
        ("a<<>>b<<>>", "<<>>"),
        ("aaaa", "aa"),
        ("aaa", "aa"),
        ("a\nb\n\nc", "\n"),
        ("abc", "abc"),
        ("ab", "abc"),
    ];
    for (s, sep) in cases {
        let expected: Vec<String> = s.split(sep).map(|p| p.to_string()).collect();
        assert_eq!(texts(split(&chars(s), &chars(sep))), expected, "{:?} at {:?}", s, sep);
        assert_eq!(split_text(s, sep), expected, "{:?} at {:?}", s, sep);
    }
}

#[test]
fn empty_separator_divides_nothing() {
    assert_eq!(split_text("abc", ""), vec!["abc"]);
    assert_eq!(split_text("", ""), vec![""]);
}

#[test]
fn runs_agree_with_the_standard_library() {
    for s in ["", "  ", "a", " a  b\tc\n", "\u{a0}x\u{2003}y", "one\u{b}two", "a\u{c}b"] {
        let expected: Vec<String> = s.split_whitespace().map(|p| p.to_string()).collect();
        assert_eq!(texts(split_runs(&chars(s), CharClass::Blank)), expected, "{:?}", s);
        let expected: Vec<String> = s.split_ascii_whitespace().map(|p| p.to_string()).collect();
        assert_eq!(texts(split_runs(&chars(s), CharClass::AsciiBlank)), expected, "{:?}", s);
    }
    assert_eq!(texts(split_runs(&chars("a\tb\t\tc"), CharClass::Only('\t'))), vec!["a", "b", "c"]);
}

#[test]
fn lines_drop_one_empty_piece_at_the_end() {
    assert_eq!(texts(lines(&chars(""))), Vec::<String>::new());
    assert_eq!(texts(lines(&chars("a"))), vec!["a"]);
    assert_eq!(texts(lines(&chars("a\n"))), vec!["a"]);
    assert_eq!(texts(lines(&chars("a\n\n"))), vec!["a", ""]);
    assert_eq!(texts(lines(&chars("\na\nb"))), vec!["", "a", "b"]);
    assert_eq!(texts(lines(&chars("a\r\nb"))), vec!["a\r", "b"]);
}

#[test]
fn empty_items_are_dropped() {
    let parts = vec![chars(""), chars("a"), chars(""), chars(" "), chars("")];
    assert_eq!(texts(keep_non_empty(parts)), vec!["a", " "]);
    assert_eq!(texts(keep_non_empty(vec![])), Vec::<String>::new());
}

#[test]
fn decimal_reads_digits_that_fit() {
    assert_eq!(parse_decimal(&chars("0")), Some(0));
    assert_eq!(parse_decimal(&chars("007")), Some(7));
    assert_eq!(parse_decimal(&chars("12345")), Some(12345));
    assert_eq!(parse_decimal(&chars("2147483647")), Some(i32::MAX));
    assert_eq!(parse_decimal(&chars("2147483648")), None);
    assert_eq!(parse_decimal(&chars("99999999999999999999")), None);
    assert_eq!(parse_decimal(&chars("")), None);
    assert_eq!(parse_decimal(&chars("-1")), None);
    assert_eq!(parse_decimal(&chars("+1")), None);
    assert_eq!(parse_decimal(&chars("1a")), None);
    assert_eq!(parse_decimal(&chars("١٢")), None);
}

#[test]
fn numbers_are_written_as_the_standard_library_writes_them() {
    for n in [0, 1, 9, 10, 11, 99, 100, 12345, i32::MAX, -1, -10, -12345, i32::MIN + 1, i32::MIN] {
        assert_eq!(number_to_text(n), n.to_string());
    }
}

#[test]
fn join_takes_the_first_items() {
    let parts = vec!["a".to_string(), "b".to_string(), "c".to_string()];
    assert_eq!(join_first(&parts, 0, "/"), "");
    assert_eq!(join_first(&parts, 1, "/"), "a");
    assert_eq!(join_first(&parts, 2, "/"), "a/b");
    assert_eq!(join_first(&parts, 3, ", "), "a, b, c");
    let parts = vec!["".to_string(), "".to_string()];
    assert_eq!(join_first(&parts, 2, "/"), "/");
}

#[test]
fn vectors_of_characters_become_strings() {
    assert_eq!(to_texts(&vec![chars("a"), chars(""), chars("bc")]), vec!["a", "", "bc"]);
}
