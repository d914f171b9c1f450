use knightingale_core::metrics::levenshtein;
use knightingale_core::scoring::{char_errors, clip_correct, sentence_errors, word_errors};

fn rate((errors, len): (usize, usize)) -> f64 {
    if len == 0 {
        return if errors == 0 { 0.0 } else { 1.0 };
    }
    errors as f64 / len as f64
}

#[test]
fn wer_perfect_match() {
    assert_eq!(rate(word_errors("hello world", "hello world")), 0.0);
}

#[test]
fn wer_one_substitution() {
    // "hello world" vs "hello earth": 1 substitution / 2 ref words.
    assert_eq!(rate(word_errors("hello world", "hello earth")), 0.5);
}

#[test]
fn cer_substitution() {
    assert_eq!(rate(char_errors("cat", "bat")), 1.0 / 3.0);
}

#[test]
fn word_errors_count_insertions_deletions_and_whitespace() {
    assert_eq!(word_errors("the cat sat", "the cat sat down"), (1, 3));
    assert_eq!(word_errors("the cat sat", "cat sat"), (1, 3));
    assert_eq!(word_errors("  the\tcat\n", "the   cat"), (0, 2));
    assert_eq!(word_errors("", "two words"), (2, 0));
    assert_eq!(word_errors("", "   "), (0, 0));
    assert_eq!(word_errors("a b c d", "d c b a"), (4, 4));
}

#[test]
fn char_errors_on_unicode_text() {
    assert_eq!(char_errors("kitten", "sitting"), (3, 6));
    assert_eq!(char_errors("naïve", "naive"), (1, 5));
    assert_eq!(char_errors("", "abc"), (3, 0));
    assert_eq!(char_errors("same", "same"), (0, 4));
}

#[test]
fn sentence_errors_compare_trimmed_text() {
    let pairs = [
        ("hello world", " hello world\n"),
        ("good morning", "good evening"),
        ("Yes", "yes"),
    ];
    assert_eq!(sentence_errors(&pairs), 2);
    let none: [(&str, &str); 0] = [];
    assert_eq!(sentence_errors(&none), 0);
}

#[test]
fn clip_correct_ignores_ascii_case_and_edges() {
    assert!(clip_correct("  Hello World ", "hello world"));
    assert!(!clip_correct("hello world.", "hello world"));
    assert!(clip_correct("ÉCOLE", "ÉCOLE"));
    assert!(!clip_correct("ÉCOLE", "école"));
    assert!(clip_correct("", "   "));
}

#[test]
fn levenshtein_laws_on_examples() {
    let a: Vec<u8> = b"kitten".to_vec();
    let b: Vec<u8> = b"sitting".to_vec();
    let c: Vec<u8> = b"sit".to_vec();
    assert_eq!(levenshtein(&a, &a), 0);
    assert_ne!(levenshtein(&a, &b), 0);
    assert_eq!(levenshtein(&a, &b), levenshtein(&b, &a));
    assert!(levenshtein(&b, &c) >= b.len() - c.len());
    assert!(levenshtein(&a, &c) <= levenshtein(&a, &b) + levenshtein(&b, &c));
    assert_eq!(levenshtein(&a, &c), 4);
    assert_eq!(levenshtein(&b, &c), 4);
}

#[test]
fn levenshtein_with_an_empty_side_needs_no_comparison() {
    let empty: [f64; 0] = [];
    assert_eq!(levenshtein(&empty, &[1.0, 2.0]), 2);
    assert_eq!(levenshtein(&[1.0, 2.0, 3.0], &empty), 3);
}
