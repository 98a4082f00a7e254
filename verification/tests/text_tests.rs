use browser_agent::text::{chars_of, contains, contains_chars, is_whitespace, join_strings};

#[test]
fn white_space_is_what_the_standard_library_calls_white_space() {
    let mut code: u32 = 0;
    while code <= 0x10ffff {
        if let Some(c) = char::from_u32(code) {
            assert_eq!(is_whitespace(c), c.is_whitespace(), "U+{:04X}", code);
        }
        code += 1;
    }
}

#[test]
fn white_space_examples() {
    assert!(is_whitespace(' '));
    assert!(is_whitespace('\t'));
    assert!(is_whitespace('\n'));
    assert!(is_whitespace('\r'));
    assert!(is_whitespace('\u{a0}'));
    assert!(is_whitespace('\u{3000}'));
    assert!(!is_whitespace('a'));
    assert!(!is_whitespace('\u{200b}'));
    assert!(!is_whitespace('\u{180e}'));
}

#[test]
fn chars_of_counts_characters_not_bytes() {
    assert_eq!(chars_of(""), Vec::<char>::new());
    assert_eq!(chars_of("añ価"), vec!['a', 'ñ', '価']);
}

#[test]
fn contains_finds_a_text_inside_another() {
    assert!(contains("Thought: done\nFinal Answer: 42", "Final Answer:"));
    assert!(contains("Final Answer:", "Final Answer:"));
    assert!(contains("xFinal Answer:", "Final Answer:"));
    assert!(!contains("Final Answer", "Final Answer:"));
    assert!(!contains("final answer:", "Final Answer:"));
    assert!(!contains("", "a"));
    assert!(!contains("ab", "abc"));
}

#[test]
fn every_text_contains_the_empty_text() {
    assert!(contains("", ""));
    assert!(contains("abc", ""));
}

#[test]
fn contains_handles_overlapping_starts() {
    assert!(contains("aaab", "aab"));
    assert!(contains("abababc", "ababc"));
    assert!(!contains("ababab", "ababc"));
}

#[test]
fn contains_chars_agrees_with_contains() {
    let hay = chars_of("the cheapest price");
    assert!(contains_chars(&hay, &chars_of("price")));
    assert!(!contains_chars(&hay, &chars_of("table")));
}

#[test]
fn join_separates_neighbours_only() {
    let none: Vec<String> = Vec::new();
    assert_eq!(join_strings(&none, "\n\n"), "");
    assert_eq!(join_strings(&vec!["a".to_string()], "\n\n"), "a");
    assert_eq!(join_strings(&vec!["a".to_string(), "b".to_string()], "\n\n"), "a\n\nb");
    assert_eq!(
        join_strings(&vec!["a".to_string(), String::new(), "c".to_string()], ", "),
        "a, , c"
    );
}
