use masklint::text::{
    chars_of, contains, equal, is_whitespace, join, lines, matches_at, replace, starts_with,
    string_of, subrange, trim,
};

fn chars(text: &str) -> Vec<char> {
    text.chars().collect()
}

fn text(chars: &Vec<char>) -> String {
    chars.iter().collect()
}

#[test]
fn whitespace_is_what_the_standard_library_says() {
    let mut code: u32 = 0;
    while code <= 0x10ffff {
        if let Some(c) = char::from_u32(code) {
            assert_eq!(is_whitespace(c), c.is_whitespace(), "U+{:04X}", code);
        }
        code += 1;
    }
}

#[test]
fn chars_and_strings_convert_both_ways() {
    assert_eq!(chars_of("a ü\n"), vec!['a', ' ', 'ü', '\n']);
    assert_eq!(string_of(&vec!['a', ' ', 'ü', '\n']), "a ü\n");
    assert_eq!(chars_of(""), Vec::<char>::new());
    assert_eq!(string_of(&Vec::new()), "");
}

#[test]
fn trim_removes_white_space_at_both_ends() {
    for sample in [
        "",
        " ",
        "\n\t \r",
        "a",
        " a",
        "a ",
        "  a b  ",
        "\u{a0}x\u{3000}",
        "\n\nline one\nline two\n\n",
        "a\u{200b}",
    ] {
        assert_eq!(text(&trim(&chars(sample))), sample.trim(), "{:?}", sample);
    }
    assert_eq!(text(&trim(&chars("  a b \n"))), "a b");
}

#[test]
fn subrange_copies_a_part() {
    assert_eq!(text(&subrange(&chars("hello"), 1, 4)), "ell");
    assert_eq!(text(&subrange(&chars("hello"), 2, 2)), "");
    assert_eq!(text(&subrange(&chars("hello"), 0, 5)), "hello");
}

#[test]
fn matches_at_and_starts_with() {
    assert!(matches_at(&chars("hello"), 1, &chars("ell")));
    assert!(!matches_at(&chars("hello"), 2, &chars("ell")));
    assert!(!matches_at(&chars("hello"), 4, &chars("ob")));
    assert!(matches_at(&chars("hello"), 5, &chars("")));
    assert!(!matches_at(&chars("hello"), 6, &chars("")));
    assert!(starts_with(&chars("Found 1 error."), &chars("Found ")));
    assert!(!starts_with(&chars(" Found 1 error."), &chars("Found ")));
    assert!(!starts_with(&chars("Foun"), &chars("Found ")));
    assert!(starts_with(&chars(""), &chars("")));
}

#[test]
fn equal_compares_letter_for_letter() {
    assert!(equal(&chars("sh"), &chars("sh")));
    assert!(!equal(&chars("sh"), &chars("Sh")));
    assert!(!equal(&chars("sh"), &chars("sh ")));
    assert!(!equal(&chars("bash"), &chars("sh")));
    assert!(equal(&chars(""), &chars("")));
}

#[test]
fn contains_finds_a_pattern_anywhere() {
    for (sample, pattern) in [
        ("1 file inspected, no offenses detected", "1 file inspected"),
        ("21 files inspected", "1 file inspected"),
        ("x 1 file inspected", "1 file inspected"),
        ("", "a"),
        ("", ""),
        ("abc", ""),
        ("abc", "c"),
        ("abc", "abcd"),
        ("aab", "ab"),
    ] {
        assert_eq!(
            contains(&chars(sample), &chars(pattern)),
            sample.contains(pattern),
            "{:?} {:?}",
            sample,
            pattern
        );
    }
}

#[test]
fn replace_is_what_the_standard_library_does() {
    for (sample, from, to) in [
        ("/tmp/a.sh:1:1: note", "/tmp/a.sh:", "line "),
        ("In /tmp/a.sh line 2:\n/tmp/a.sh x", "/tmp/a.sh ", ""),
        ("aaa", "aa", "b"),
        ("aaaa", "aa", "b"),
        ("abab", "ab", "abab"),
        ("abc", "", "-"),
        ("", "", "-"),
        ("", "a", "b"),
        ("abc", "abcd", "x"),
        ("ünï", "n", "nn"),
    ] {
        assert_eq!(
            text(&replace(&chars(sample), &chars(from), &chars(to))),
            sample.replace(from, to),
            "{:?} {:?} {:?}",
            sample,
            from,
            to
        );
    }
    assert_eq!(text(&replace(&chars("aaa"), &chars("aa"), &chars("b"))), "ba");
}

#[test]
fn lines_are_what_the_standard_library_says() {
    for sample in [
        "",
        "\n",
        "a",
        "a\n",
        "a\nb",
        "a\r\nb\r\n",
        "a\r",
        "a\rb\n",
        "\r\n",
        "\n\n",
        "a\n\nb\n",
        "a\r\r\n",
    ] {
        let expected: Vec<String> = sample.lines().map(|line| line.to_string()).collect();
        let found: Vec<String> = lines(&chars(sample)).iter().map(text).collect();
        assert_eq!(found, expected, "{:?}", sample);
    }
    let found: Vec<String> = lines(&chars("one\r\ntwo\n\nfour")).iter().map(text).collect();
    assert_eq!(found, vec!["one", "two", "", "four"]);
}

#[test]
fn join_puts_the_separator_between_the_parts() {
    let none: Vec<Vec<char>> = Vec::new();
    assert_eq!(text(&join(&none, &chars("\n"))), "");
    assert_eq!(text(&join(&vec![chars("a")], &chars("\n"))), "a");
    assert_eq!(text(&join(&vec![chars("a"), chars(""), chars("b")], &chars("\n"))), "a\n\nb");
    assert_eq!(text(&join(&vec![chars(""), chars("")], &chars(", "))), ", ");
}
