use conductor::text::{
    characters, decimal, find, find_last_end, holds, is_blank, join, lines, replace, same,
    same_texts, starts_with, text_between, to_ascii_lower, trim, trim_line_end, trim_quotes,
    white_space,
};

const SAMPLES: [&str; 24] = [
    "",
    " ",
    "\n",
    "\r\n",
    "abc",
    "  abc  ",
    "\tabc\u{a0}",
    "\u{2003}wide\u{3000}",
    "a\nb",
    "a\r\nb\r\n",
    "a\rb",
    "a\n\nb",
    "\n\n",
    "end\r",
    "end\r\n\r",
    "\"quoted\"",
    "\"\"",
    "\"",
    "aaaa",
    "aXbXc",
    "XX",
    "nämlich ß ☃",
    "\u{feff}mark",
    "x\u{200b}",
];

#[test]
fn white_space_is_that_of_std() {
    for n in 0..=0x10ffffu32 {
        if let Some(c) = char::from_u32(n) {
            assert_eq!(white_space(c), c.is_whitespace(), "{n:x}");
        }
    }
}

#[test]
fn only_ascii_letters_become_the_letters_of_false() {
    // Lower case beyond ASCII never yields one of these letters.
    for n in 0..=0x10ffffu32 {
        if let Some(c) = char::from_u32(n) {
            let lower: String = c.to_lowercase().collect();
            if "false".contains(lower.as_str()) {
                assert_eq!(lower, c.to_ascii_lowercase().to_string());
            }
            assert_eq!(to_ascii_lower(&c.to_string()), c.to_ascii_lowercase().to_string());
        }
    }
}

#[test]
fn trimming_is_that_of_std() {
    for s in SAMPLES {
        assert_eq!(trim(s), s.trim(), "{s:?}");
        assert_eq!(is_blank(s), s.trim().is_empty(), "{s:?}");
        assert_eq!(trim_quotes(s), s.trim_matches('"'), "{s:?}");
        assert_eq!(trim_line_end(s), s.trim_end_matches(['\r', '\n']), "{s:?}");
    }
}

#[test]
fn lines_are_those_of_std() {
    for s in SAMPLES {
        let expected: Vec<String> = s.lines().map(|line| line.to_string()).collect();
        assert_eq!(lines(s), expected, "{s:?}");
    }
}

#[test]
fn searching_is_that_of_std() {
    for s in SAMPLES {
        for pattern in SAMPLES {
            assert_eq!(holds(s, pattern), s.contains(pattern), "{s:?} {pattern:?}");
            assert_eq!(starts_with(s, pattern), s.starts_with(pattern), "{s:?} {pattern:?}");
            assert_eq!(same(s, pattern), s == pattern, "{s:?} {pattern:?}");
        }
    }
    assert!(holds("prefix name suffix", "name"));
    assert!(!holds("nam", "name"));
}

#[test]
fn replacing_is_that_of_std() {
    for s in SAMPLES {
        for pattern in ["", "a", "aa", "X", "aX", "\n", "\"", "ß", "bXc"] {
            for with in ["", "a", "XX", "<\n>"] {
                assert_eq!(replace(s, pattern, with), s.replace(pattern, with), "{s:?} {pattern:?}");
            }
        }
    }
}

#[test]
fn joining_is_that_of_std() {
    let none: Vec<String> = Vec::new();
    assert_eq!(join(&none, ", "), "");
    let one = vec!["a".to_string()];
    assert_eq!(join(&one, ", "), "a");
    let three = vec!["a".to_string(), String::new(), "c".to_string()];
    assert_eq!(join(&three, ", "), three.join(", "));
}

#[test]
fn numbers_are_written_in_decimal() {
    for n in [0u128, 1, 9, 10, 42, 99, 100, 1_000_000, u64::MAX as u128, u128::MAX] {
        assert_eq!(decimal(n), n.to_string());
    }
}

#[test]
fn positions_count_characters() {
    let chars = characters("ä{b}c}");
    assert_eq!(chars.len(), 6);
    assert_eq!(find(&chars, '{'), 1);
    assert_eq!(find_last_end(&chars, '}'), 6);
    assert_eq!(find(&chars, 'z'), 6);
    assert_eq!(find_last_end(&chars, 'z'), 0);
    assert_eq!(text_between(&chars, 1, 4), "{b}");
}

#[test]
fn lists_are_the_same_item_by_item() {
    let a = vec!["x".to_string(), "y".to_string()];
    let b = vec!["x".to_string(), "z".to_string()];
    assert!(same_texts(&a, &a.clone()));
    assert!(!same_texts(&a, &b));
    assert!(!same_texts(&a, &vec!["x".to_string()]));
}
