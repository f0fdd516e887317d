use ripple::text::{
    characters, decimal_digits, is_spelling, substituted, text_of, trimmed,
};

fn trim(text: &str) -> String {
    text_of(trimmed(&characters(text)))
}

fn replace(text: &str, from: &str, to: &str) -> String {
    text_of(&substituted(&characters(text), &characters(from), &characters(to)))
}

#[test]
fn trimming_knows_every_white_space_character() {
    for code in 0..=0x10ffffu32 {
        if let Some(c) = char::from_u32(code) {
            let expected = if c.is_whitespace() { 0 } else { 1 };
            assert_eq!(trimmed(&[c]).len(), expected, "{:x}", code);
        }
    }
}

#[test]
fn trimming_matches_the_standard_library() {
    for text in ["", " ", " a", "a ", " a b ", "\n\t a\u{a0}b \r\n", "\u{3000}\u{feff} x"] {
        assert_eq!(trim(text), text.trim());
    }
    assert_eq!(trim("  a b\n"), "a b");
}

#[test]
fn substitution_matches_the_standard_library() {
    let texts = ["", "a", "aa", "aaa", "ab", "abab", "aab", "b\u{e9}b", "aabaab", "xaax"];
    let words = ["", "a", "aa", "ab", "b", "aab", "\u{e9}", "abc"];
    for text in texts {
        for from in words {
            for to in ["", "a", "selected file", "ab"] {
                assert_eq!(replace(text, from, to), text.replace(from, to), "{} {}", text, from);
            }
        }
    }
    assert_eq!(replace("aaa", "aa", "b"), "ba");
    assert_eq!(replace("ab", "", "-"), "-a-b-");
}

#[test]
fn digits_are_those_of_the_number() {
    for n in [0u32, 7, 10, 99, 100, 1234567890, u32::MAX] {
        assert_eq!(decimal_digits(n), format!("{}", n).into_bytes());
    }
    assert_eq!(decimal_digits(4021), b"4021".to_vec());
}

#[test]
fn spelling_ignores_the_case_of_ascii_letters() {
    assert!(is_spelling(b"MP4", "mp4"));
    assert!(is_spelling(b"mP4", "mp4"));
    assert!(!is_spelling(b"mp3", "mp4"));
    assert!(!is_spelling(b"mp", "mp4"));
    assert!(!is_spelling(b"", "mp4"));
    assert!(!is_spelling(&[0xed, 0x70, 0x34], "mp4"));
}

#[test]
fn characters_make_up_the_text() {
    let text = "r\u{e9}sum\u{e9} \u{1f600}";
    assert_eq!(characters(text).len(), 8);
    assert_eq!(text_of(&characters(text)), text);
}
