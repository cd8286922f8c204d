use activestorage_ocr::confidence::{
    analyze_char_frequency, analyze_whitespace, analyze_word_lengths, calculate_confidence,
    detect_repetition, whitespace, ConfidenceSignal, ONE,
};

fn unit(score: u32) -> f32 {
    score as f32 / ONE as f32
}

#[test]
fn test_empty_text_returns_zero() {
    assert_eq!(unit(calculate_confidence("")), 0.0);
}

#[test]
fn test_short_text_returns_half() {
    assert_eq!(unit(calculate_confidence("Hi")), 0.5);
    assert_eq!(unit(calculate_confidence("Test")), 0.5);
}

#[test]
fn test_clean_text_high_confidence() {
    let text = "Hello World OCR Test 12345";
    let confidence = unit(calculate_confidence(text));
    assert!(confidence > 0.7, "Expected > 0.7, got {}", confidence);
}

#[test]
fn test_garbled_text_low_confidence() {
    let text = "§±®©¥€£¢¤";
    let confidence = unit(calculate_confidence(text));
    assert!(confidence < 0.5, "Expected < 0.5, got {}", confidence);
}

#[test]
fn test_repeated_chars_lower_confidence() {
    let text = "Hello aaaaaaaaaaaa World";
    let confidence = unit(calculate_confidence(text));
    assert!(confidence < 0.9, "Expected < 0.9, got {}", confidence);
}

#[test]
fn test_single_char_words_lower_confidence() {
    let text = "a b c d e f g h i j k l m n o p";
    let confidence = unit(calculate_confidence(text));
    assert!(confidence < 0.7, "Expected < 0.7, got {}", confidence);
}

#[test]
fn test_normal_sentence_good_confidence() {
    let text = "The quick brown fox jumps over the lazy dog.";
    let confidence = unit(calculate_confidence(text));
    assert!(confidence > 0.75, "Expected > 0.75, got {}", confidence);
}

#[test]
fn test_analyze_char_frequency_normal() {
    let score = unit(analyze_char_frequency("Hello World"));
    assert!(score > 0.8, "Expected > 0.8, got {}", score);
}

#[test]
fn test_analyze_char_frequency_special() {
    let score = unit(analyze_char_frequency("§±®©¥€£¢¤ƒ"));
    assert!(score < 0.5, "Expected < 0.5, got {}", score);
}

#[test]
fn test_analyze_word_lengths_normal() {
    let score = unit(analyze_word_lengths("Hello World Test"));
    assert!(score > 0.8, "Expected > 0.8, got {}", score);
}

#[test]
fn test_analyze_whitespace_normal() {
    let text = "Hello World Test String";
    let score = unit(analyze_whitespace(text));
    assert!(score > 0.7, "Expected > 0.7, got {}", score);
}

#[test]
fn test_detect_repetition_none() {
    assert_eq!(unit(detect_repetition("Hello World")), 1.0);
}

#[test]
fn test_detect_repetition_some() {
    let score = unit(detect_repetition("Hellooooo World"));
    assert!(score < 1.0, "Expected < 1.0, got {}", score);
}

#[test]
fn confidence_exact_values() {
    assert_eq!(calculate_confidence(""), 0);
    assert_eq!(calculate_confidence("Hi"), 500_000);
    assert_eq!(calculate_confidence("§±®©¥€£¢¤"), 345_000);
    assert_eq!(calculate_confidence("The quick brown fox jumps over the lazy dog."), 1_000_000);
    assert_eq!(calculate_confidence("Hello World OCR Test 12345"), 996_922);
    assert_eq!(calculate_confidence("Hello aaaaaaaaaaaa World"), 850_000);
    assert_eq!(calculate_confidence("a b c d e f g h i j k l m n o p"), 603_870);
}

#[test]
fn short_text_is_judged_by_bytes() {
    // Two characters of three bytes each: six bytes, so the heuristics apply.
    assert_ne!(calculate_confidence("€€"), 500_000);
    // Four ASCII characters: too short.
    assert_eq!(calculate_confidence("abcd"), 500_000);
    assert_ne!(calculate_confidence("abcde"), 500_000);
}

#[test]
fn char_frequency_exact_values() {
    assert_eq!(analyze_char_frequency(""), 0);
    assert_eq!(analyze_char_frequency("Hello World"), 1_000_000);
    assert_eq!(analyze_char_frequency("Hello World OCR Test 12345"), 992_307);
    assert_eq!(analyze_char_frequency("§±®©¥€£¢¤ƒ"), 60_000);
    // One special character in twenty: the penalty is a half.
    assert_eq!(analyze_char_frequency("aaaaaaaaaaaaaaaaaaa§"), 700_000);
    // Digits only: no penalty, no letters.
    assert_eq!(analyze_char_frequency("12345"), 600_000);
}

#[test]
fn word_length_exact_values() {
    assert_eq!(analyze_word_lengths(""), 500_000);
    assert_eq!(analyze_word_lengths("   \t\n"), 500_000);
    assert_eq!(analyze_word_lengths("Hello World Test"), 1_000_000);
    assert_eq!(analyze_word_lengths("a b c d"), 150_000);
    assert_eq!(analyze_word_lengths("ab cd"), 700_000);
    assert_eq!(analyze_word_lengths("abcdefghi"), 800_000);
    assert_eq!(analyze_word_lengths("abcdefghijklm"), 400_000);
    // One single-character word in four: the penalty is three eighths.
    assert_eq!(analyze_word_lengths("word word word a"), 437_500);
    // A single character counts as one whatever its bytes, which count for the average.
    assert_eq!(analyze_word_lengths("é"), 350_000);
    assert_eq!(analyze_word_lengths("\u{10348}"), 500_000);
}

#[test]
fn whitespace_exact_values() {
    assert_eq!(analyze_whitespace(""), 0);
    assert_eq!(analyze_whitespace("abc"), 500_000);
    assert_eq!(analyze_whitespace("abcdefghijklmnopqrs "), 500_000);
    assert_eq!(analyze_whitespace("abcdefghi "), 800_000);
    assert_eq!(analyze_whitespace("abc "), 1_000_000);
    assert_eq!(analyze_whitespace("ab "), 700_000);
    assert_eq!(analyze_whitespace("a  "), 300_000);
    assert_eq!(analyze_whitespace("Hello World Test String"), 1_000_000);
}

#[test]
fn repetition_exact_values() {
    assert_eq!(detect_repetition(""), 1_000_000);
    assert_eq!(detect_repetition("aaa"), 1_000_000);
    assert_eq!(detect_repetition("aaaa"), 800_000);
    assert_eq!(detect_repetition("aaaaa"), 800_000);
    assert_eq!(detect_repetition("aaaaaa"), 500_000);
    assert_eq!(detect_repetition("aaaaaaaaaa"), 500_000);
    assert_eq!(detect_repetition("aaaaaaaaaaa"), 200_000);
    // Whitespace never forms a run.
    assert_eq!(detect_repetition("a          b"), 1_000_000);
    assert_eq!(detect_repetition("Hellooooo World"), 800_000);
}

#[test]
fn combine_weighs_the_four_scores() {
    let signal = ConfidenceSignal {
        char_frequency: 1_000_000,
        word_length: 0,
        whitespace: 0,
        repetition: 0,
    };
    assert_eq!(signal.combine(), 400_000);
    let signal = ConfidenceSignal {
        char_frequency: 0,
        word_length: 1_000_000,
        whitespace: 0,
        repetition: 0,
    };
    assert_eq!(signal.combine(), 300_000);
    let signal = ConfidenceSignal {
        char_frequency: 0,
        word_length: 0,
        whitespace: 1_000_000,
        repetition: 1_000_000,
    };
    assert_eq!(signal.combine(), 300_000);
    let signal = ConfidenceSignal {
        char_frequency: u32::MAX,
        word_length: u32::MAX,
        whitespace: u32::MAX,
        repetition: u32::MAX,
    };
    assert_eq!(signal.combine(), 1_000_000);
}

#[test]
fn confidence_stays_in_range() {
    let samples = [
        "",
        "x",
        "     ",
        "!!!!!!!!!!!!!!!!",
        "§§§§§§§§§§§§§§§§§§§§§§§§",
        "Lorem ipsum dolor sit amet, consectetur adipiscing elit.",
        "a\u{3000}b\u{2003}c\u{00a0}d e f",
        "\u{10ffff}\u{10ffff}\u{10ffff}",
    ];
    for text in samples {
        assert!(calculate_confidence(text) <= 1_000_000);
        let signal = ConfidenceSignal::measure(text);
        assert!(signal.char_frequency <= 1_000_000);
        assert!(signal.word_length <= 1_000_000);
        assert!(signal.whitespace <= 1_000_000);
        assert!(signal.repetition <= 1_000_000);
    }
}

#[test]
fn whitespace_is_the_unicode_property() {
    let mut count = 0;
    for v in 0..=0x10ffffu32 {
        if let Some(c) = char::from_u32(v) {
            assert_eq!(whitespace(c), c.is_whitespace(), "U+{:04X}", v);
            if whitespace(c) {
                count += 1;
            }
        }
    }
    assert_eq!(count, 25);
    // A text of one character is all whitespace or has none.
    assert_eq!(analyze_whitespace("\u{2003}"), 300_000);
    assert_eq!(analyze_whitespace("\u{200b}"), 500_000);
}
