//! Small operations on text that the other modules share.

use crate::confidence::{is_whitespace, whitespace};
use vstd::prelude::*;
use vstd::string::{StrSliceExecFns, StringExecFns};

verus! {

/// The characters of a text.
pub fn chars_of(text: &str) -> (chars: Vec<char>)
    ensures
        chars@ == text@,
{
    let mut chars: Vec<char> = Vec::new();
    for c in it: text.chars()
        invariant
            it.seq() == text@,
            chars@ == it.seq().take(it.index() as int),
    {
        chars.push(c);
        proof {
            assert(chars@ =~= it.seq().take(it.index() + 1));
        }
    }
    proof {
        assert(chars@ =~= text@);
    }
    chars
}

/// Whether two strings hold the same characters.
pub fn same_text(a: &str, b: &str) -> (r: bool)
    ensures
        r == (a@ == b@),
{
    let x = String::from_str(a);
    let y = String::from_str(b);
    x == y
}

/// The lower-case form that `str::to_lowercase` gives a text.
pub uninterp spec fn lowercase_of(text: Seq<char>) -> Seq<char>;

/// `str::to_lowercase`: the text with every character replaced by its
/// lower-case form as Unicode defines it. `lowercase_of` names the result,
/// which depends on the text alone.
#[verifier::external_body]
pub(crate) fn to_lowercase(text: &str) -> (lower: String)
    ensures
        lower@ == lowercase_of(text@),
{
    text.to_lowercase()
}

/// How many characters at the start of a text are whitespace.
pub open spec fn leading_whitespace(text: Seq<char>) -> nat
    decreases text.len(),
{
    if text.len() > 0 && is_whitespace(text[0]) {
        1 + leading_whitespace(text.drop_first())
    } else {
        0
    }
}

/// How many characters at the end of a text are whitespace.
pub open spec fn trailing_whitespace(text: Seq<char>) -> nat
    decreases text.len(),
{
    if text.len() > 0 && is_whitespace(text.last()) {
        1 + trailing_whitespace(text.drop_last())
    } else {
        0
    }
}

/// A text without the whitespace at its start and at its end.
pub open spec fn trimmed(text: Seq<char>) -> Seq<char> {
    let start = leading_whitespace(text) as int;
    if start >= text.len() {
        Seq::empty()
    } else {
        text.subrange(start, text.len() - trailing_whitespace(text))
    }
}

/// A text without the whitespace at its start and at its end.
pub fn trim(text: &str) -> (inner: &str)
    ensures
        inner@ == trimmed(text@),
{
    let chars = chars_of(text);
    let n = chars.len();
    let mut start: usize = 0;
    let mut scanning = true;
    proof {
        assert(text@.skip(0) =~= text@);
    }
    while scanning && start < n
        invariant
            start <= n,
            n == text@.len(),
            chars@ == text@,
            leading_whitespace(text@) == start + leading_whitespace(text@.skip(start as int)),
            !scanning ==> leading_whitespace(text@.skip(start as int)) == 0,
            !scanning ==> start < n && !is_whitespace(text@[start as int]),
        decreases n - start + if scanning { 1int } else { 0int },
    {
        proof {
            assert(text@.skip(start as int).drop_first() =~= text@.skip(start + 1));
            assert(text@.skip(start as int)[0] == text@[start as int]);
        }
        if whitespace(chars[start]) {
            start += 1;
        } else {
            scanning = false;
        }
    }
    if start == n {
        let inner = text.substring_char(n, n);
        proof {
            assert(text@.skip(n as int).len() == 0);
            assert(inner@ =~= Seq::<char>::empty());
        }
        return inner;
    }
    assert(leading_whitespace(text@) == start && !is_whitespace(text@[start as int]));
    let mut end: usize = n;
    let mut scanning = true;
    proof {
        assert(text@.take(n as int) =~= text@);
    }
    while scanning && end > start
        invariant
            start < end <= n,
            n == text@.len(),
            chars@ == text@,
            !is_whitespace(text@[start as int]),
            leading_whitespace(text@) == start,
            trailing_whitespace(text@) == (n - end) + trailing_whitespace(text@.take(end as int)),
            !scanning ==> trailing_whitespace(text@.take(end as int)) == 0,
        decreases end - start + if scanning { 1int } else { 0int },
    {
        proof {
            assert(text@.take(end as int).drop_last() =~= text@.take(end - 1));
            assert(text@.take(end as int).last() == text@[end - 1]);
        }
        if whitespace(chars[end - 1]) {
            end -= 1;
        } else {
            scanning = false;
        }
    }
    text.substring_char(start, end)
}

/// The character of a decimal digit.
pub open spec fn digit_char(digit: int) -> char
    recommends
        0 <= digit < 10,
{
    (48 + digit) as char
}

/// The decimal digits of a number, most significant first.
pub open spec fn decimal_digits(n: nat) -> Seq<char>
    decreases n,
{
    if n < 10 {
        seq![digit_char(n as int)]
    } else {
        decimal_digits(n / 10).push(digit_char((n % 10) as int))
    }
}

/// One decimal digit as text.
fn digit_text(digit: u128) -> (text: &'static str)
    requires
        digit < 10,
    ensures
        text@ == seq![digit_char(digit as int)],
{
    proof {
        reveal_strlit("0");
        reveal_strlit("1");
        reveal_strlit("2");
        reveal_strlit("3");
        reveal_strlit("4");
        reveal_strlit("5");
        reveal_strlit("6");
        reveal_strlit("7");
        reveal_strlit("8");
        reveal_strlit("9");
    }
    let text = if digit == 0 {
        "0"
    } else if digit == 1 {
        "1"
    } else if digit == 2 {
        "2"
    } else if digit == 3 {
        "3"
    } else if digit == 4 {
        "4"
    } else if digit == 5 {
        "5"
    } else if digit == 6 {
        "6"
    } else if digit == 7 {
        "7"
    } else if digit == 8 {
        "8"
    } else {
        "9"
    };
    assert(text@ =~= seq![digit_char(digit as int)]);
    text
}

/// A number of up to 128 bits in decimal.
pub fn decimal_wide(n: u128) -> (text: String)
    ensures
        text@ == decimal_digits(n as nat),
    decreases n,
{
    if n < 10 {
        String::from_str(digit_text(n))
    } else {
        let mut text = decimal_wide(n / 10);
        text.append(digit_text(n % 10));
        text
    }
}

/// A number in decimal.
pub fn decimal(n: usize) -> (text: String)
    ensures
        text@ == decimal_digits(n as nat),
{
    decimal_wide(n as u128)
}

/// The decimal digits of an integer, after a minus sign where it is
/// negative.
pub open spec fn signed_digits(value: int) -> Seq<char> {
    if value < 0 {
        seq!['-'] + decimal_digits((-value) as nat)
    } else {
        decimal_digits(value as nat)
    }
}

/// An integer in decimal.
pub fn signed_decimal(value: i64) -> (text: String)
    ensures
        text@ == signed_digits(value as int),
{
    if value < 0 {
        proof {
            reveal_strlit("-");
        }
        let magnitude: u128 = (-(value as i128)) as u128;
        let mut text = String::from_str("-");
        text.append(decimal_wide(magnitude).as_str());
        assert(text@ =~= seq!['-'] + decimal_digits((-value) as nat));
        text
    } else {
        decimal_wide(value as u128)
    }
}

/// The texts joined, with `separator` between each two.
pub open spec fn joined(texts: Seq<Seq<char>>, separator: Seq<char>) -> Seq<char>
    decreases texts.len(),
{
    if texts.len() == 0 {
        Seq::empty()
    } else if texts.len() == 1 {
        texts[0]
    } else {
        joined(texts.drop_last(), separator) + separator + texts.last()
    }
}

/// The views of a vector of strings.
pub open spec fn views(texts: Seq<String>) -> Seq<Seq<char>> {
    Seq::new(texts.len(), |i: int| texts[i]@)
}

/// Joins texts, with `separator` between each two.
pub fn join(texts: &Vec<String>, separator: &str) -> (text: String)
    ensures
        text@ == joined(views(texts@), separator@),
{
    let mut text = String::new();
    let mut i: usize = 0;
    while i < texts.len()
        invariant
            i <= texts@.len(),
            text@ == joined(views(texts@).take(i as int), separator@),
        decreases texts@.len() - i,
    {
        proof {
            let all = views(texts@);
            assert(all.take(i + 1).drop_last() =~= all.take(i as int));
            assert(all.take(i + 1).last() == texts@[i as int]@);
        }
        if i > 0 {
            text.append(separator);
        }
        text.append(texts[i].as_str());
        proof {
            let all = views(texts@);
            if i == 0 {
                assert(all.take(1)[0] == texts@[0]@);
                assert(text@ =~= texts@[0]@);
            }
        }
        i += 1;
    }
    proof {
        assert(views(texts@).take(i as int) =~= views(texts@));
    }
    text
}

/// Concatenates three texts.
pub fn concat3(a: &str, b: &str, c: &str) -> (text: String)
    ensures
        text@ == a@ + b@ + c@,
{
    let mut text = String::from_str(a);
    text.append(b);
    text.append(c);
    text
}

} // verus!
