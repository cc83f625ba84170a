use git_bp::text::{
    begins_with, char_is_space, chars_of, clone_strings, contains_text, hashes_match,
    join_strings, pop_front, same_text, split_lines, split_trimmed_lines, split_words, string_of,
    strings_of, text_precedes, trimmed,
};

const SAMPLES: &[&str] = &[
    "",
    " ",
    "\n",
    "\r\n",
    "a",
    "abc def",
    "  leading and trailing \t",
    "one\ntwo\nthree",
    "one\ntwo\nthree\n",
    "one\r\ntwo\r\n",
    "bare\rreturn",
    "ends with return\r",
    "double\r\r\nreturn",
    "\n\nblank lines\n\n",
    "tabs\tand\u{a0}no-break\u{2003}em\u{3000}wide",
    "\u{85}next line\u{2028}separator\u{2029}",
    "\u{feff}bom is no space",
    "héllo wörld",
    "\u{1680}ogham\u{202f}narrow\u{205f}math",
    "zero\u{200b}width is no space",
];

fn chars(s: &str) -> Vec<char> {
    s.chars().collect()
}

fn rows(v: Vec<Vec<char>>) -> Vec<String> {
    v.into_iter().map(|r| r.into_iter().collect()).collect()
}

#[test]
fn white_space_is_that_of_the_standard_library() {
    for n in 0..=0x10ffffu32 {
        if let Some(c) = char::from_u32(n) {
            assert_eq!(char_is_space(c), c.is_whitespace(), "code point {:x}", n);
        }
    }
}

#[test]
fn conversions_keep_the_characters() {
    for s in SAMPLES {
        assert_eq!(chars_of(s), chars(s));
        assert_eq!(string_of(&chars(s)), *s);
    }
}

#[test]
fn trimming_is_that_of_the_standard_library() {
    for s in SAMPLES {
        let t: String = trimmed(&chars(s)).into_iter().collect();
        assert_eq!(t, s.trim(), "{:?}", s);
    }
}

#[test]
fn words_are_those_of_the_standard_library() {
    for s in SAMPLES {
        let expected: Vec<String> = s.split_whitespace().map(|w| w.to_string()).collect();
        assert_eq!(rows(split_words(&chars(s))), expected, "{:?}", s);
    }
}

#[test]
fn lines_are_those_of_the_standard_library() {
    for s in SAMPLES {
        let expected: Vec<String> = s.lines().map(|l| l.to_string()).collect();
        assert_eq!(rows(split_lines(&chars(s))), expected, "{:?}", s);
    }
}

#[test]
fn trimmed_lines_drop_blank_ones() {
    for s in SAMPLES {
        let expected: Vec<String> =
            s.lines().map(|l| l.trim().to_string()).filter(|l| !l.is_empty()).collect();
        assert_eq!(rows(split_trimmed_lines(&chars(s))), expected, "{:?}", s);
    }
}

#[test]
fn joining_is_that_of_the_standard_library() {
    let lists: Vec<Vec<String>> = vec![
        vec![],
        vec!["one".to_string()],
        vec!["one".to_string(), "two".to_string()],
        vec!["".to_string(), "".to_string(), "x".to_string()],
    ];
    for list in &lists {
        for sep in [" ", "\n", "", ", "] {
            assert_eq!(join_strings(list, sep), list.join(sep));
        }
    }
}

#[test]
fn order_is_that_of_strings() {
    for a in SAMPLES {
        for b in SAMPLES {
            assert_eq!(text_precedes(a, b), a < b, "{:?} {:?}", a, b);
            assert_eq!(same_text(a, b), a == b, "{:?} {:?}", a, b);
        }
    }
    assert!(text_precedes("a", "b"));
    assert!(text_precedes("a", "ab"));
    assert!(!text_precedes("ab", "a"));
    assert!(!text_precedes("a", "a"));
    assert!(text_precedes("Z", "a"));
    assert!(text_precedes("z", "é"));
}

#[test]
fn prefixes() {
    for a in SAMPLES {
        for b in SAMPLES {
            assert_eq!(begins_with(&chars(a), &chars(b)), a.starts_with(b));
            assert_eq!(
                hashes_match(&chars(a), &chars(b)),
                a.starts_with(b) || b.starts_with(a)
            );
        }
    }
    assert!(hashes_match(&chars("deadbee"), &chars("deadbeef00")));
    assert!(hashes_match(&chars("deadbeef00"), &chars("deadbee")));
    assert!(!hashes_match(&chars("deadbee"), &chars("deadc0de")));
    assert!(hashes_match(&chars(""), &chars("anything")));
}

#[test]
fn lists_of_strings() {
    let list = vec!["a".to_string(), "b".to_string(), "c".to_string()];
    assert_eq!(clone_strings(&list), list);
    assert!(contains_text(&list, "b"));
    assert!(!contains_text(&list, "d"));
    assert_eq!(strings_of(&vec![chars("x y"), chars("")]), vec!["x y".to_string(), "".to_string()]);
    let (first, rest) = pop_front(list);
    assert_eq!(first.as_deref(), Some("a"));
    assert_eq!(rest, vec!["b".to_string(), "c".to_string()]);
    let (first, rest) = pop_front(vec![]);
    assert_eq!(first, None);
    assert!(rest.is_empty());
}
