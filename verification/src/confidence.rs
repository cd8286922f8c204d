//! Heuristic confidence in recognised text.
//!
//! Scores are fixed-point numbers in millionths: `ONE` stands for 1.0.

use crate::text::chars_of;
use vstd::prelude::*;

verus! {

/// The score 1.0.
pub const ONE: u32 = 1_000_000;

/// Texts of fewer bytes than this are too short to judge.
pub const MIN_JUDGED_BYTES: u128 = 5;

/// The score of a text that is too short to judge.
pub const UNJUDGED: u32 = 500_000;

/// Whether `char::is_alphabetic` holds of a character.
pub uninterp spec fn is_alphabetic(c: char) -> bool;

/// Whether `char::is_alphanumeric` holds of a character.
pub uninterp spec fn is_alphanumeric(c: char) -> bool;

/// Whether a character is whitespace: one of the 25 characters with the
/// Unicode property White_Space. These are tab to carriage return, the
/// space, next line, the no-break space, the Ogham space mark, en quad to
/// hair space, the line and the paragraph separator, the narrow no-break
/// space, the medium mathematical space and the ideographic space.
pub open spec fn is_whitespace(c: char) -> bool {
    let v = c as u32;
    ||| 0x09 <= v <= 0x0d
    ||| v == 0x20
    ||| v == 0x85
    ||| v == 0xa0
    ||| v == 0x1680
    ||| 0x2000 <= v <= 0x200a
    ||| v == 0x2028
    ||| v == 0x2029
    ||| v == 0x202f
    ||| v == 0x205f
    ||| v == 0x3000
}

/// `char::is_alphabetic`: whether the character has the Unicode property
/// Alphabetic. `is_alphabetic` names the answer, which depends on the
/// character alone.
#[verifier::external_body]
fn alphabetic(c: char) -> (r: bool)
    ensures
        r == is_alphabetic(c),
{
    c.is_alphabetic()
}

/// `char::is_alphanumeric`: whether the character is alphabetic or
/// numeric as Unicode defines it. `is_alphanumeric` names the answer, which
/// depends on the character alone.
#[verifier::external_body]
fn alphanumeric(c: char) -> (r: bool)
    ensures
        r == is_alphanumeric(c),
{
    c.is_alphanumeric()
}

/// Computes `is_whitespace`.
pub fn whitespace(c: char) -> (r: bool)
    ensures
        r == is_whitespace(c),
{
    let v = c as u32;
    (0x09 <= v && v <= 0x0d) || v == 0x20 || v == 0x85 || v == 0xa0 || v == 0x1680 || (0x2000 <= v
        && v <= 0x200a) || v == 0x2028 || v == 0x2029 || v == 0x202f || v == 0x205f || v == 0x3000
}

/// Whether a character is ASCII punctuation: one of
/// ``!"#$%&'()*+,-./``, `:;<=>?@`, ``[\]^_` `` and `{|}~`.
pub open spec fn is_ascii_punctuation(c: char) -> bool {
    let v = c as u32;
    (33 <= v <= 47) || (58 <= v <= 64) || (91 <= v <= 96) || (123 <= v <= 126)
}

/// Computes `is_ascii_punctuation`.
pub fn ascii_punctuation(c: char) -> (r: bool)
    ensures
        r == is_ascii_punctuation(c),
{
    let v = c as u32;
    (33 <= v && v <= 47) || (58 <= v && v <= 64) || (91 <= v && v <= 96) || (123 <= v && v <= 126)
}

/// Whether a character is special: neither alphanumeric, nor whitespace,
/// nor ASCII punctuation.
pub open spec fn is_special(c: char) -> bool {
    !is_alphanumeric(c) && !is_whitespace(c) && !is_ascii_punctuation(c)
}

/// Number of bytes of a character in UTF-8.
pub open spec fn utf8_width(c: char) -> nat {
    let v = c as u32;
    if v < 0x80 {
        1
    } else if v < 0x800 {
        2
    } else if v < 0x10000 {
        3
    } else {
        4
    }
}

/// Computes `utf8_width`.
pub fn utf8_width_exec(c: char) -> (r: u128)
    ensures
        r == utf8_width(c),
        1 <= r <= 4,
{
    let v = c as u32;
    if v < 0x80 {
        1
    } else if v < 0x800 {
        2
    } else if v < 0x10000 {
        3
    } else {
        4
    }
}

/// Number of bytes of the first `upto` characters in UTF-8.
pub open spec fn byte_len(chars: Seq<char>, upto: int) -> nat
    decreases upto,
{
    if upto <= 0 {
        0
    } else {
        byte_len(chars, upto - 1) + utf8_width(chars[upto - 1])
    }
}

/// How many of the first `upto` characters are alphabetic.
pub open spec fn letters(chars: Seq<char>, upto: int) -> nat
    decreases upto,
{
    if upto <= 0 {
        0
    } else {
        letters(chars, upto - 1) + if is_alphabetic(chars[upto - 1]) {
            1nat
        } else {
            0nat
        }
    }
}

/// How many of the first `upto` characters are special.
pub open spec fn specials(chars: Seq<char>, upto: int) -> nat
    decreases upto,
{
    if upto <= 0 {
        0
    } else {
        specials(chars, upto - 1) + if is_special(chars[upto - 1]) {
            1nat
        } else {
            0nat
        }
    }
}

/// How many of the first `upto` characters are whitespace.
pub open spec fn spaces(chars: Seq<char>, upto: int) -> nat
    decreases upto,
{
    if upto <= 0 {
        0
    } else {
        spaces(chars, upto - 1) + if is_whitespace(chars[upto - 1]) {
            1nat
        } else {
            0nat
        }
    }
}

/// The smaller of two integers.
pub open spec fn least(a: int, b: int) -> int {
    if a <= b {
        a
    } else {
        b
    }
}

/// The character frequency score of a text:
/// `0.6 * (1 - min(1, 10 * special / total)) + 0.4 * min(1, 1.5 * letters / total)`
/// in millionths, rounded down; 0 for the empty text. Over the common
/// denominator `5 * total` the first term is `3 * (total - min(total, 10 *
/// special))` and the second `min(2 * total, 3 * letters)`.
pub open spec fn char_frequency_score(chars: Seq<char>) -> int {
    let total = chars.len() as int;
    if total == 0 {
        0
    } else {
        let special = specials(chars, total) as int;
        let letter = letters(chars, total) as int;
        let penalty_part = 3 * (total - least(total, 10 * special));
        let letter_part = least(2 * total, 3 * letter);
        200_000 * (penalty_part + letter_part) / total
    }
}

/// The score of a share of whitespace given in whole percent.
pub open spec fn whitespace_table(percent: int) -> int {
    if percent <= 5 {
        500_000
    } else if percent <= 10 {
        800_000
    } else if percent <= 25 {
        1_000_000
    } else if percent <= 40 {
        700_000
    } else {
        300_000
    }
}

/// The whitespace score of a text: the table value of its share of
/// whitespace characters in percent, rounded down; 0 for the empty text.
pub open spec fn whitespace_score(chars: Seq<char>) -> int {
    let total = chars.len() as int;
    if total == 0 {
        0
    } else {
        whitespace_table(100 * (spaces(chars, total) as int) / total)
    }
}

/// No count exceeds the number of characters counted, and the bytes are
/// between one and four for each character.
pub proof fn lemma_counts_bounded(chars: Seq<char>, upto: int)
    requires
        0 <= upto,
    ensures
        letters(chars, upto) <= upto,
        specials(chars, upto) <= upto,
        spaces(chars, upto) <= upto,
        upto <= byte_len(chars, upto) <= 4 * upto,
    decreases upto,
{
    if upto > 0 {
        lemma_counts_bounded(chars, upto - 1);
    }
}

/// What a pass over a text counts.
pub struct Tally {
    /// Characters.
    pub total: u128,
    /// Alphabetic characters.
    pub letters: u128,
    /// Special characters.
    pub specials: u128,
    /// Whitespace characters.
    pub spaces: u128,
    /// Bytes in UTF-8.
    pub bytes: u128,
}

/// Counts the characters of a text by kind.
pub fn tally(chars: &Vec<char>) -> (t: Tally)
    ensures
        t.total == chars@.len(),
        t.total <= usize::MAX,
        t.letters == letters(chars@, chars@.len() as int),
        t.specials == specials(chars@, chars@.len() as int),
        t.spaces == spaces(chars@, chars@.len() as int),
        t.bytes == byte_len(chars@, chars@.len() as int),
{
    let mut t = Tally { total: 0, letters: 0, specials: 0, spaces: 0, bytes: 0 };
    let mut i: usize = 0;
    while i < chars.len()
        invariant
            i <= chars@.len(),
            t.total == i,
            t.letters == letters(chars@, i as int),
            t.specials == specials(chars@, i as int),
            t.spaces == spaces(chars@, i as int),
            t.bytes == byte_len(chars@, i as int),
        decreases chars@.len() - i,
    {
        let c = chars[i];
        proof {
            lemma_counts_bounded(chars@, i as int);
        }
        let space = whitespace(c);
        if alphabetic(c) {
            t.letters = t.letters + 1;
        }
        if !alphanumeric(c) && !space && !ascii_punctuation(c) {
            t.specials = t.specials + 1;
        }
        if space {
            t.spaces = t.spaces + 1;
        }
        t.bytes = t.bytes + utf8_width_exec(c);
        t.total = t.total + 1;
        i += 1;
    }
    t
}

/// Computes `char_frequency_score` from the counts of a text.
pub fn char_frequency_from(total: u128, special: u128, letter: u128) -> (score: u32)
    requires
        total <= usize::MAX,
        special <= total,
        letter <= total,
    ensures
        score == (if total == 0 {
            0
        } else {
            200_000 * (3 * (total - least(total as int, 10 * special)) + least(
                2 * total,
                3 * letter,
            )) / (total as int)
        }),
        score <= ONE,
{
    if total == 0 {
        return 0;
    }
    let tenfold = 10 * special;
    let penalty_part: u128 = 3 * (total - if tenfold < total {
        tenfold
    } else {
        total
    });
    let letter_part: u128 = if 3 * letter < 2 * total {
        3 * letter
    } else {
        2 * total
    };
    let parts = penalty_part + letter_part;
    assert(200_000 * parts / (total as int) <= 1_000_000) by (nonlinear_arith)
        requires
            0 <= parts <= 5 * total,
            total > 0,
    ;
    (200_000 * parts / total) as u32
}

/// Computes `whitespace_table` of the share of `space` in `total`.
pub fn whitespace_from(total: u128, space: u128) -> (score: u32)
    requires
        total <= usize::MAX,
        space <= total,
    ensures
        score == (if total == 0 {
            0
        } else {
            whitespace_table(100 * space / (total as int))
        }),
        score <= ONE,
{
    if total == 0 {
        return 0;
    }
    let percent = 100 * space / total;
    if percent <= 5 {
        500_000
    } else if percent <= 10 {
        800_000
    } else if percent <= 25 {
        1_000_000
    } else if percent <= 40 {
        700_000
    } else {
        300_000
    }
}

/// Scores how far the characters of a text look like text: special
/// characters lower the score, letters raise it.
pub fn analyze_char_frequency(text: &str) -> (score: u32)
    ensures
        score == char_frequency_score(text@),
        score <= ONE,
{
    let chars = chars_of(text);
    let t = tally(&chars);
    proof {
        lemma_counts_bounded(chars@, chars@.len() as int);
    }
    char_frequency_from(t.total, t.specials, t.letters)
}

/// Scores the share of whitespace in a text: between a tenth and a
/// quarter is best.
pub fn analyze_whitespace(text: &str) -> (score: u32)
    ensures
        score == whitespace_score(text@),
        score <= ONE,
{
    let chars = chars_of(text);
    let t = tally(&chars);
    proof {
        lemma_counts_bounded(chars@, chars@.len() as int);
    }
    whitespace_from(t.total, t.spaces)
}

} // verus!

verus! {

/// Whether a word starts at position `at`: the character there is not
/// whitespace, and the one before it is, or there is none before it.
pub open spec fn starts_word(chars: Seq<char>, at: int) -> bool {
    !is_whitespace(chars[at]) && (at == 0 || is_whitespace(chars[at - 1]))
}

/// Whether a word of a single character stands at position `at`.
pub open spec fn is_single(chars: Seq<char>, at: int) -> bool {
    &&& starts_word(chars, at)
    &&& (at + 1 == chars.len() || is_whitespace(chars[at + 1]))
}

/// How many words start among the first `upto` characters. Words are the
/// longest runs of characters that are not whitespace.
pub open spec fn word_count(chars: Seq<char>, upto: int) -> nat
    decreases upto,
{
    if upto <= 0 {
        0
    } else {
        word_count(chars, upto - 1) + if starts_word(chars, upto - 1) {
            1nat
        } else {
            0nat
        }
    }
}

/// How many words of a single character start among the first `upto`
/// characters.
pub open spec fn single_count(chars: Seq<char>, upto: int) -> nat
    decreases upto,
{
    if upto <= 0 {
        0
    } else {
        single_count(chars, upto - 1) + if is_single(chars, upto - 1) {
            1nat
        } else {
            0nat
        }
    }
}

/// Bytes of the words among the first `upto` characters: the bytes of the
/// characters that are not whitespace.
pub open spec fn word_bytes(chars: Seq<char>, upto: int) -> nat
    decreases upto,
{
    if upto <= 0 {
        0
    } else {
        word_bytes(chars, upto - 1) + if is_whitespace(chars[upto - 1]) {
            0nat
        } else {
            utf8_width(chars[upto - 1])
        }
    }
}

/// The score of an average word length in whole bytes, in tenths.
pub open spec fn average_table(average: int) -> int {
    if average <= 1 {
        3
    } else if average <= 3 {
        7
    } else if average <= 8 {
        10
    } else if average <= 12 {
        8
    } else {
        4
    }
}

/// The word length score of a text: the table value of the average word
/// length in bytes, rounded down, times `1 - min(0.5, 1.5 * single /
/// words)`, in millionths, rounded down; 0.5 for a text without words.
/// Over the denominator `2 * words` the second factor is `2 * words -
/// min(words, 3 * single)`.
pub open spec fn word_length_score(chars: Seq<char>) -> int {
    let n = chars.len() as int;
    let words = word_count(chars, n) as int;
    if words == 0 {
        500_000
    } else {
        let tenths = average_table((word_bytes(chars, n) as int) / words);
        let single = single_count(chars, n) as int;
        50_000 * tenths * (2 * words - least(words, 3 * single)) / words
    }
}

/// Length of the run of equal characters that ends at position `at`.
/// Whitespace never continues a run.
pub open spec fn run_at(chars: Seq<char>, at: int) -> nat
    decreases at,
{
    if at > 0 && chars[at] == chars[at - 1] && !is_whitespace(chars[at]) {
        run_at(chars, at - 1) + 1
    } else {
        1
    }
}

/// The longest run that ends among the first `upto` characters; 1 where
/// there is none.
pub open spec fn longest_run(chars: Seq<char>, upto: int) -> nat
    decreases upto,
{
    if upto <= 0 {
        1
    } else {
        let before = longest_run(chars, upto - 1);
        let here = run_at(chars, upto - 1);
        if here > before {
            here
        } else {
            before
        }
    }
}

/// The score of a longest run.
pub open spec fn repetition_table(run: int) -> int {
    if run <= 3 {
        1_000_000
    } else if run <= 5 {
        800_000
    } else if run <= 10 {
        500_000
    } else {
        200_000
    }
}

/// The repetition score of a text: the table value of its longest run of
/// one character that is not whitespace.
pub open spec fn repetition_score(chars: Seq<char>) -> int {
    repetition_table(longest_run(chars, chars.len() as int) as int)
}

/// Word counts are bounded by the number of characters counted, and the
/// words of a single character by the words.
pub proof fn lemma_words_bounded(chars: Seq<char>, upto: int)
    requires
        0 <= upto,
    ensures
        single_count(chars, upto) <= word_count(chars, upto) <= upto,
        word_bytes(chars, upto) <= 4 * upto,
    decreases upto,
{
    if upto > 0 {
        lemma_words_bounded(chars, upto - 1);
    }
}

/// A run is no longer than the text up to its end.
pub proof fn lemma_run_bounded(chars: Seq<char>, at: int)
    requires
        0 <= at,
    ensures
        1 <= run_at(chars, at) <= at + 1,
    decreases at,
{
    if at > 0 {
        lemma_run_bounded(chars, at - 1);
    }
}

/// Computes `word_length_score` from the counts of a text.
pub fn word_length_from(words: u128, single: u128, bytes: u128) -> (score: u32)
    requires
        words <= usize::MAX,
        single <= words,
        bytes <= 4 * usize::MAX,
    ensures
        score == (if words == 0 {
            500_000
        } else {
            50_000 * average_table((bytes as int) / (words as int)) * (2 * words - least(
                words as int,
                3 * single,
            )) / (words as int)
        }),
        score <= ONE,
{
    if words == 0 {
        return 500_000;
    }
    let average = bytes / words;
    let tenths: u128 = if average <= 1 {
        3
    } else if average <= 3 {
        7
    } else if average <= 8 {
        10
    } else if average <= 12 {
        8
    } else {
        4
    };
    let threefold = 3 * single;
    let kept: u128 = 2 * words - if threefold < words {
        threefold
    } else {
        words
    };
    let weight: u128 = 50_000 * tenths;
    assert(0 <= weight * kept <= 1_000_000 * words) by (nonlinear_arith)
        requires
            0 <= weight <= 500_000,
            0 <= kept <= 2 * words,
    ;
    let product: u128 = weight * kept;
    assert(product / words <= 1_000_000) by (nonlinear_arith)
        requires
            0 <= product <= 1_000_000 * words,
            words > 0,
    ;
    (product / words) as u32
}

/// Scores the lengths of the words of a text: an average of four to eight
/// bytes is best, and words of a single character lower the score.
pub fn analyze_word_lengths(text: &str) -> (score: u32)
    ensures
        score == word_length_score(text@),
        score <= ONE,
{
    let chars = chars_of(text);
    let n = chars.len();
    let mut words: u128 = 0;
    let mut single: u128 = 0;
    let mut bytes: u128 = 0;
    let mut i: usize = 0;
    while i < n
        invariant
            i <= n,
            n == chars@.len(),
            words == word_count(chars@, i as int),
            single == single_count(chars@, i as int),
            bytes == word_bytes(chars@, i as int),
        decreases n - i,
    {
        proof {
            lemma_words_bounded(chars@, i as int);
        }
        let c = chars[i];
        if !whitespace(c) {
            let width = utf8_width_exec(c);
            bytes = bytes + width;
            if i == 0 || whitespace(chars[i - 1]) {
                words = words + 1;
                if i + 1 == n || whitespace(chars[i + 1]) {
                    single = single + 1;
                }
            }
        }
        i += 1;
    }
    proof {
        lemma_words_bounded(chars@, n as int);
    }
    word_length_from(words, single, bytes)
}

/// Computes `repetition_table`.
pub fn repetition_from(run: usize) -> (score: u32)
    ensures
        score == repetition_table(run as int),
        score <= ONE,
{
    if run <= 3 {
        1_000_000
    } else if run <= 5 {
        800_000
    } else if run <= 10 {
        500_000
    } else {
        200_000
    }
}

/// Scores the longest run of one character in a text: runs of more than
/// three lower the score.
pub fn detect_repetition(text: &str) -> (score: u32)
    ensures
        score == repetition_score(text@),
        score <= ONE,
{
    let chars = chars_of(text);
    let n = chars.len();
    let mut longest: usize = 1;
    let mut current: usize = 1;
    let mut i: usize = 0;
    while i < n
        invariant
            i <= n,
            n == chars@.len(),
            longest == longest_run(chars@, i as int),
            i > 0 ==> current == run_at(chars@, i - 1),
            i == 0 ==> current == 1,
        decreases n - i,
    {
        proof {
            lemma_run_bounded(chars@, i as int);
        }
        let c = chars[i];
        if i > 0 && c == chars[i - 1] && !whitespace(c) {
            current = current + 1;
        } else {
            current = 1;
        }
        if current > longest {
            longest = current;
        }
        i += 1;
    }
    repetition_from(longest)
}

/// The four heuristics on a text, each a score between 0 and `ONE`.
#[derive(Debug, Clone, Copy, PartialEq, Eq)]
pub struct ConfidenceSignal {
    pub char_frequency: u32,
    pub word_length: u32,
    pub whitespace: u32,
    pub repetition: u32,
}

/// The weighted sum of the four scores, `0.40 * char + 0.30 * word + 0.15
/// * whitespace + 0.15 * repetition`, rounded down and kept between 0 and
/// `ONE`.
pub open spec fn combined(char_frequency: int, word_length: int, whitespace: int, repetition: int) -> int {
    let sum = (40 * char_frequency + 30 * word_length + 15 * whitespace + 15 * repetition) / 100;
    if sum < 0 {
        0
    } else if sum > ONE {
        ONE as int
    } else {
        sum
    }
}

/// The confidence in a text: 0 for the empty text, 0.5 for a text of
/// fewer than five bytes, else the combination of the four heuristics.
pub open spec fn confidence(chars: Seq<char>) -> int {
    if chars.len() == 0 {
        0
    } else if byte_len(chars, chars.len() as int) < MIN_JUDGED_BYTES {
        UNJUDGED as int
    } else {
        combined(
            char_frequency_score(chars),
            word_length_score(chars),
            whitespace_score(chars),
            repetition_score(chars),
        )
    }
}

impl ConfidenceSignal {
    /// Combines the four scores into one.
    pub fn combine(&self) -> (score: u32)
        ensures
            score == combined(
                self.char_frequency as int,
                self.word_length as int,
                self.whitespace as int,
                self.repetition as int,
            ),
            score <= ONE,
    {
        let sum: u64 = (40 * (self.char_frequency as u64) + 30 * (self.word_length as u64) + 15 * (
        self.whitespace as u64) + 15 * (self.repetition as u64)) / 100;
        if sum > ONE as u64 {
            ONE
        } else {
            sum as u32
        }
    }

    /// Measures a text by the four heuristics.
    pub fn measure(text: &str) -> (signal: ConfidenceSignal)
        ensures
            signal.char_frequency == char_frequency_score(text@),
            signal.word_length == word_length_score(text@),
            signal.whitespace == whitespace_score(text@),
            signal.repetition == repetition_score(text@),
    {
        ConfidenceSignal {
            char_frequency: analyze_char_frequency(text),
            word_length: analyze_word_lengths(text),
            whitespace: analyze_whitespace(text),
            repetition: detect_repetition(text),
        }
    }
}

/// The confidence in a recognised text, between 0 and `ONE`. Never fails.
pub fn calculate_confidence(text: &str) -> (score: u32)
    ensures
        score == confidence(text@),
        score <= ONE,
{
    let chars = chars_of(text);
    if chars.len() == 0 {
        return 0;
    }
    let t = tally(&chars);
    if t.bytes < MIN_JUDGED_BYTES {
        return UNJUDGED;
    }
    ConfidenceSignal::measure(text).combine()
}

} // verus!
