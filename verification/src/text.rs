//! Reading numbers and fields out of configuration text.
//!
//! Text is handled as a sequence of characters. A number is a run of decimal
//! digits; a list is cut into fields at a separator.
use vstd::prelude::*;

verus! {

/// A decimal digit.
pub open spec fn is_digit(c: char) -> bool {
    '0' <= c && c <= '9'
}

/// The number that a decimal digit stands for.
pub open spec fn digit_value(c: char) -> nat {
    (c as int - '0' as int) as nat
}

/// Every character is a decimal digit.
pub open spec fn all_digits(s: Seq<char>) -> bool {
    forall|i: int| 0 <= i < s.len() ==> is_digit(#[trigger] s[i])
}

/// The number that a run of decimal digits stands for, the first digit
/// counting most.
pub open spec fn decimal_value(s: Seq<char>) -> nat
    decreases s.len(),
{
    if s.len() == 0 {
        0
    } else {
        decimal_value(s.drop_last()) * 10 + digit_value(s.last())
    }
}

/// The number written by `s`, if `s` is a non-empty run of digits whose value
/// is at most `limit`. Leading zeros are accepted.
pub open spec fn spec_parse_decimal(s: Seq<char>, limit: nat) -> Option<nat> {
    if s.len() > 0 && all_digits(s) && decimal_value(s) <= limit {
        Some(decimal_value(s))
    } else {
        None
    }
}

/// Position of the first `sep` in `s`, or the length of `s` if there is none.
pub open spec fn first_index(s: Seq<char>, sep: char) -> int
    decreases s.len(),
{
    if s.len() == 0 || s[0] == sep {
        0
    } else {
        1 + first_index(s.drop_first(), sep)
    }
}

/// The fields of `s` between occurrences of `sep`. There is always at least
/// one field; a separator at either end gives an empty field there.
pub open spec fn split(s: Seq<char>, sep: char) -> Seq<Seq<char>>
    decreases s.len(),
{
    let k = first_index(s, sep);
    if 0 <= k < s.len() {
        seq![s.take(k)] + split(s.skip(k + 1), sep)
    } else {
        seq![s]
    }
}

/// The character sequences that a vector of fields holds.
pub open spec fn texts(fields: Seq<Vec<char>>) -> Seq<Seq<char>> {
    fields.map_values(|field: Vec<char>| field@)
}

/// A longer run of digits never stands for a smaller number than its start.
pub proof fn lemma_decimal_value_grows(s: Seq<char>, n: int)
    requires
        0 <= n <= s.len(),
    ensures
        decimal_value(s.take(n)) <= decimal_value(s),
    decreases s.len(),
{
    if n == s.len() {
        assert(s.take(n) == s);
    } else {
        assert(s.drop_last().take(n) == s.take(n));
        lemma_decimal_value_grows(s.drop_last(), n);
    }
}

/// The first separator is where no earlier character is one.
pub proof fn lemma_first_index(s: Seq<char>, sep: char, k: int)
    requires
        0 <= k <= s.len(),
        forall|j: int| 0 <= j < k ==> s[j] != sep,
        k == s.len() || s[k] == sep,
    ensures
        first_index(s, sep) == k,
    decreases k,
{
    if k > 0 {
        let rest = s.drop_first();
        assert forall|j: int| 0 <= j < k - 1 implies rest[j] != sep by {
            assert(rest[j] == s[j + 1]);
        }
        lemma_first_index(rest, sep, k - 1);
    }
}

/// A text has at least one field.
pub proof fn lemma_split_not_empty(s: Seq<char>, sep: char)
    ensures
        split(s, sep).len() > 0,
{
}

/// The characters of a text, one element each.
pub fn chars_of(text: &str) -> (chars: Vec<char>)
    ensures
        chars@ == text@,
{
    let mut chars: Vec<char> = Vec::new();
    for c in it: text.chars()
        invariant
            it.seq() == text@,
            chars@ == text@.take(it.index() as int),
    {
        chars.push(c);
    }
    chars
}

/// Tells whether two texts hold the same characters.
pub fn same_text(a: &[char], b: &[char]) -> (same: bool)
    ensures
        same == (a@ == b@),
{
    if a.len() != b.len() {
        return false;
    }
    let mut i: usize = 0;
    while i < a.len()
        invariant
            a.len() == b.len(),
            0 <= i <= a.len(),
            forall|j: int| 0 <= j < i ==> a[j] == b[j],
        decreases a.len() - i,
    {
        if a[i] != b[i] {
            return false;
        }
        i += 1;
    }
    assert(a@ =~= b@);
    true
}

/// Finds the first `sep` in a text; the length of the text if there is none.
pub fn find_first(s: &[char], sep: char) -> (k: usize)
    ensures
        k == first_index(s@, sep),
        k <= s.len(),
        k < s.len() ==> s[k as int] == sep,
{
    let mut k: usize = 0;
    while k < s.len() && s[k] != sep
        invariant
            0 <= k <= s.len(),
            forall|j: int| 0 <= j < k ==> s[j] != sep,
        decreases s.len() - k,
    {
        k += 1;
    }
    proof {
        lemma_first_index(s@, sep, k as int);
    }
    k
}

/// Reads a decimal number of at most `limit`.
pub fn parse_decimal(s: &[char], limit: u32) -> (number: Option<u32>)
    ensures
        match spec_parse_decimal(s@, limit as nat) {
            Some(n) => number == Some(n as u32),
            None => number is None,
        },
{
    if s.len() == 0 {
        return None;
    }
    let mut value: u64 = 0;
    let mut i: usize = 0;
    while i < s.len()
        invariant
            0 <= i <= s.len(),
            all_digits(s@.take(i as int)),
            value == decimal_value(s@.take(i as int)),
            value <= limit,
        decreases s.len() - i,
    {
        let c = s[i];
        if c < '0' || c > '9' {
            return None;
        }
        let digit: u64 = (c as u32 - '0' as u32) as u64;
        proof {
            let next = s@.take(i + 1);
            assert(next.drop_last() == s@.take(i as int));
            assert(next.last() == c);
            lemma_decimal_value_grows(s@, i + 1);
        }
        value = value * 10 + digit;
        if value > limit as u64 {
            return None;
        }
        i += 1;
    }
    assert(s@.take(i as int) == s@);
    Some(value as u32)
}

/// Cuts a text into its fields at every `sep`.
pub fn split_fields(s: &[char], sep: char) -> (fields: Vec<Vec<char>>)
    ensures
        texts(fields@) == split(s@, sep),
{
    let mut fields: Vec<Vec<char>> = Vec::new();
    let mut current: Vec<char> = Vec::new();
    let mut i: usize = 0;
    let ghost start: int = 0;
    proof {
        assert(s@.skip(0) == s@);
        assert(texts(fields@) + split(s@, sep) == split(s@, sep));
    }
    while i < s.len()
        invariant
            0 <= start <= i <= s.len(),
            current@ == s@.subrange(start, i as int),
            forall|j: int| start <= j < i ==> s[j] != sep,
            texts(fields@) + split(s@.skip(start), sep) == split(s@, sep),
        decreases s.len() - i,
    {
        if s[i] == sep {
            proof {
                let tail = s@.skip(start);
                lemma_first_index(tail, sep, i - start);
                assert(tail.take(i - start) == current@);
                assert(tail.skip(i - start + 1) == s@.skip(i + 1));
                assert(texts(fields@.push(current)) == texts(fields@).push(current@));
                assert(texts(fields@).push(current@) + split(s@.skip(i + 1), sep) == texts(fields@)
                    + split(tail, sep));
                start = i + 1;
            }
            fields.push(current);
            current = Vec::new();
        } else {
            current.push(s[i]);
        }
        i += 1;
    }
    proof {
        let tail = s@.skip(start);
        lemma_first_index(tail, sep, s.len() - start);
        assert(tail == current@);
        assert(texts(fields@.push(current)) == texts(fields@).push(current@));
        assert(texts(fields@).push(current@) == texts(fields@) + split(tail, sep));
    }
    fields.push(current);
    fields
}

} // verus!
