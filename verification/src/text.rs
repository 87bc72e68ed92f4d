//! Text as sequences of characters: substring search, and decimal counts.

use vstd::prelude::*;

verus! {

/// Whether `pattern` occurs somewhere in `text`.
pub open spec fn occurs_in(pattern: Seq<char>, text: Seq<char>) -> bool {
    exists|i: int|
        0 <= i <= text.len() - pattern.len() && #[trigger] text.subrange(i, i + pattern.len())
            == pattern
}

/// Whether `c` is one of the ten ASCII digits.
pub open spec fn is_digit(c: char) -> bool {
    '0' <= c <= '9'
}

/// The number that a sequence of digits writes in base ten.
pub open spec fn decimal_value(digits: Seq<char>) -> nat
    decreases digits.len(),
{
    if digits.len() == 0 {
        0
    } else {
        decimal_value(digits.drop_last()) * 10 + (digits.last() as nat - '0' as nat) as nat
    }
}

/// What follows an optional leading `+`.
pub open spec fn unsigned_part(text: Seq<char>) -> Seq<char> {
    if text.len() > 0 && text[0] == '+' {
        text.skip(1)
    } else {
        text
    }
}

/// The count that `text` writes: an optional `+`, then one or more digits and nothing else.
pub open spec fn count_written(text: Seq<char>) -> Option<nat> {
    let digits = unsigned_part(text);
    if digits.len() > 0 && (forall|i: int| 0 <= i < digits.len() ==> is_digit(#[trigger] digits[i])) {
        Some(decimal_value(digits))
    } else {
        None
    }
}

/// A longer run of digits never writes a smaller number than its beginning does.
proof fn lemma_decimal_value_grows(digits: Seq<char>, n: int)
    requires
        0 <= n <= digits.len(),
        forall|i: int| 0 <= i < digits.len() ==> is_digit(#[trigger] digits[i]),
    ensures
        decimal_value(digits.take(n)) <= decimal_value(digits),
    decreases digits.len() - n,
{
    if n < digits.len() {
        lemma_decimal_value_grows(digits, n + 1);
        assert(digits.take(n + 1).drop_last() =~= digits.take(n));
        assert(is_digit(digits[n]));
    } else {
        assert(digits.take(n) =~= digits);
    }
}

/// The characters of `text`, in order.
fn characters(text: &str) -> (chars: Vec<char>)
    ensures
        chars@ == text@,
{
    let mut chars: Vec<char> = Vec::new();
    for c in it: text.chars()
        invariant
            chars@ == it.seq().take(it.index()),
            it.seq() == text@,
    {
        chars.push(c);
    }
    chars
}

/// Whether `pattern` begins at position `at` of `text`.
fn occurs_at(text: &Vec<char>, pattern: &Vec<char>, at: usize) -> (found: bool)
    requires
        at + pattern.len() <= text.len(),
    ensures
        found == (text@.subrange(at as int, at + pattern.len()) == pattern@),
{
    for j in 0..pattern.len()
        invariant
            at + pattern.len() <= text.len(),
            forall|k: int| 0 <= k < j ==> text[at + k] == pattern[k],
    {
        if text[at + j] != pattern[j] {
            assert(text@.subrange(at as int, at + pattern.len())[j as int] != pattern@[j as int]);
            return false;
        }
    }
    assert(text@.subrange(at as int, at + pattern.len()) =~= pattern@);
    true
}

/// Tells whether `pattern` occurs in `text`.
pub fn contains(text: &str, pattern: &str) -> (found: bool)
    ensures
        found == occurs_in(pattern@, text@),
{
    let chars = characters(text);
    let wanted = characters(pattern);
    if wanted.len() > chars.len() {
        return false;
    }
    let last: usize = chars.len() - wanted.len();
    let mut i: usize = 0;
    while i <= last
        invariant
            chars@ == text@,
            wanted@ == pattern@,
            last + wanted.len() == chars.len(),
            i <= last + 1,
            forall|k: int|
                0 <= k < i ==> #[trigger] chars@.subrange(k, k + wanted.len()) != wanted@,
        decreases last + 1 - i,
    {
        if occurs_at(&chars, &wanted, i) {
            return true;
        }
        if i == last {
            return false;
        }
        i += 1;
    }
    false
}

/// Reads a count: an optional `+` followed by decimal digits only. Gives nothing for any other
/// text, and nothing for a number too large for `usize`.
pub fn parse_count(text: &str) -> (count: Option<usize>)
    ensures
        match count {
            Some(n) => count_written(text@) == Some(n as nat),
            None => count_written(text@) is None || count_written(text@)->0 > usize::MAX,
        },
{
    let chars = characters(text);
    let ghost digits = unsigned_part(text@);
    let start: usize = if chars.len() > 0 && chars[0] == '+' {
        1
    } else {
        0
    };
    if chars.len() == start {
        return None;
    }
    let mut i: usize = start;
    while i < chars.len()
        invariant
            start <= i <= chars.len(),
            digits == unsigned_part(text@),
            chars@.skip(start as int) == digits,
            forall|k: int| 0 <= k < i - start ==> is_digit(#[trigger] digits[k]),
        decreases chars.len() - i,
    {
        let c = chars[i];
        assert(c == digits[i - start]);
        if c < '0' || c > '9' {
            assert(!is_digit(digits[i - start]));
            return None;
        }
        i += 1;
    }
    let mut value: usize = 0;
    let mut j: usize = start;
    while j < chars.len()
        invariant
            start <= j <= chars.len(),
            chars@.skip(start as int) == digits,
            forall|k: int| 0 <= k < digits.len() ==> is_digit(#[trigger] digits[k]),
            count_written(text@) == Some(decimal_value(digits)),
            value as nat == decimal_value(digits.take(j - start)),
        decreases chars.len() - j,
    {
        let c = chars[j];
        assert(c == digits[j - start]);
        let digit: usize = (c as u32 - '0' as u32) as usize;
        proof {
            lemma_decimal_value_grows(digits, j - start + 1);
            assert(digits.take(j - start + 1).drop_last() =~= digits.take(j - start));
        }
        if value > (usize::MAX - digit) / 10 {
            return None;
        }
        value = value * 10 + digit;
        j += 1;
    }
    assert(digits.take(digits.len() as int) =~= digits);
    Some(value)
}

/// The digit for a number below ten.
pub open spec fn digit(n: nat) -> char {
    ('0' as nat + n) as char
}

/// A number in decimal notation, without needless zeros.
pub open spec fn decimal_digits(n: nat) -> Seq<char>
    decreases n,
{
    if n < 10 {
        seq![digit(n)]
    } else {
        decimal_digits(n / 10).push(digit(n % 10))
    }
}

/// So many zeros.
pub open spec fn zeros(n: nat) -> Seq<char> {
    Seq::new(n, |i: int| '0')
}

/// Whether `text` is `n` in decimal notation, with `more` zeros in front and, before them, a plus
/// sign if there is one.
pub open spec fn is_decimal(text: Seq<char>, n: nat, more: nat) -> bool {
    ||| text == zeros(more) + decimal_digits(n)
    ||| text == seq!['+'] + (zeros(more) + decimal_digits(n))
}

/// Whether `text` writes `n` in decimal notation: an optional plus sign, any number of zeros, and
/// the digits of the number.
pub open spec fn writes(text: Seq<char>, n: nat) -> bool {
    exists|more: nat| #[trigger] is_decimal(text, n, more)
}

/// Decimal notation consists of digits and has the value of its number.
proof fn lemma_decimal_digits(n: nat)
    ensures
        decimal_digits(n).len() > 0,
        forall|i: int|
            0 <= i < decimal_digits(n).len() ==> is_digit(#[trigger] decimal_digits(n)[i]),
        decimal_value(decimal_digits(n)) == n,
    decreases n,
{
    let digits = decimal_digits(n);
    if n < 10 {
        assert(digits.drop_last() =~= Seq::empty());
        assert(decimal_value(digits.drop_last()) == 0);
    } else {
        lemma_decimal_digits(n / 10);
        assert(digits.drop_last() =~= decimal_digits(n / 10));
    }
}

/// Zeros in front of a number do not change its value.
proof fn lemma_zeros_in_front(more: nat, digits: Seq<char>)
    ensures
        decimal_value(zeros(more) + digits) == decimal_value(digits),
    decreases more + digits.len(),
{
    let whole = zeros(more) + digits;
    if digits.len() > 0 {
        lemma_zeros_in_front(more, digits.drop_last());
        assert(whole.drop_last() =~= zeros(more) + digits.drop_last());
    } else if more > 0 {
        let fewer = (more - 1) as nat;
        lemma_zeros_in_front(fewer, digits);
        assert(whole.drop_last() =~= zeros(fewer) + digits);
    } else {
        assert(whole =~= digits);
    }
}

/// Every run of digits is the notation of its value, with zeros in front.
proof fn lemma_digits_are_notation(digits: Seq<char>) -> (more: nat)
    requires
        digits.len() > 0,
        forall|i: int| 0 <= i < digits.len() ==> is_digit(#[trigger] digits[i]),
    ensures
        digits == zeros(more) + decimal_digits(decimal_value(digits)),
    decreases digits.len(),
{
    let value = decimal_value(digits);
    let front = digits.drop_last();
    let last = digits.last();
    assert(is_digit(digits[digits.len() - 1]));
    let last_value = (last as nat - '0' as nat) as nat;
    assert(digit(last_value) == last);
    if front.len() == 0 {
        assert(decimal_value(front) == 0);
        assert(digits =~= zeros(0) + decimal_digits(value));
        0
    } else {
        let more = lemma_digits_are_notation(front);
        let front_value = decimal_value(front);
        assert(value == front_value * 10 + last_value);
        assert(digits =~= front.push(last));
        if front_value == 0 {
            assert(decimal_digits(0) =~= seq!['0']);
            assert(front =~= zeros(more + 1));
            assert(decimal_digits(value) =~= seq![last]);
            assert(digits =~= zeros(more + 1) + decimal_digits(value));
            more + 1
        } else {
            assert(value / 10 == front_value && value % 10 == last_value);
            assert(decimal_digits(value) =~= decimal_digits(front_value).push(last));
            assert(digits =~= zeros(more) + decimal_digits(value));
            more
        }
    }
}

/// A text writes a number exactly if that is the count it is read as.
pub proof fn lemma_count_is_what_is_written(text: Seq<char>, n: nat)
    ensures
        writes(text, n) <==> count_written(text) == Some(n),
{
    if writes(text, n) {
        let more = choose|more: nat| #[trigger] is_decimal(text, n, more);
        let digits = zeros(more) + decimal_digits(n);
        lemma_decimal_digits(n);
        lemma_zeros_in_front(more, decimal_digits(n));
        assert forall|i: int| 0 <= i < digits.len() implies is_digit(#[trigger] digits[i]) by {
            if i >= more {
                assert(digits[i] == decimal_digits(n)[i - more]);
            }
        }
        assert(is_digit(digits[0]));
        if text != digits {
            assert(text[0] == '+');
            assert(text.skip(1) =~= digits);
        }
        assert(unsigned_part(text) == digits);
    }
    if count_written(text) == Some(n) {
        let digits = unsigned_part(text);
        let more = lemma_digits_are_notation(digits);
        if text != digits {
            assert(text =~= seq!['+'] + digits);
        }
        assert(is_decimal(text, n, more));
    }
}

/// A count is read from a text exactly if the text writes it in decimal notation: every number
/// that fits is read as itself, and nothing else is read as a number.
pub proof fn law_counts_are_read_as_written(text: &str, count: Option<usize>, n: usize)
    requires
        call_ensures(parse_count, (text,), count),
    ensures
        count == Some(n) <==> writes(text@, n as nat),
{
    lemma_count_is_what_is_written(text@, n as nat);
}

/// A pattern is found exactly in the texts that have something, possibly nothing, before it and
/// behind it.
pub proof fn law_patterns_are_found_anywhere(
    text: &str,
    pattern: &str,
    found: bool,
    before: Seq<char>,
    behind: Seq<char>,
)
    requires
        call_ensures(contains, (text, pattern), found),
    ensures
        text@ == before + pattern@ + behind ==> found,
        found ==> exists|before: Seq<char>, behind: Seq<char>|
            text@ == #[trigger] (before + pattern@ + behind),
{
    if text@ == before + pattern@ + behind {
        let at = before.len() as int;
        assert(text@.subrange(at, at + pattern@.len()) =~= pattern@);
    }
    if found {
        let at = choose|i: int|
            0 <= i <= text@.len() - pattern@.len() && #[trigger] text@.subrange(
                i,
                i + pattern@.len(),
            ) == pattern@;
        let before = text@.take(at);
        let behind = text@.skip(at + pattern@.len());
        assert(text@ =~= before + pattern@ + behind);
    }
}

} // verus!
