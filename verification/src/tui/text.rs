//! Text handling for the operator's input: trimming, splitting at a
//! character, and reading decimal port numbers.

use vstd::prelude::*;
use vstd::string::*;

verus! {

/// True iff `c` is white space in the sense of Unicode.
pub open spec fn is_white_space(c: char) -> bool {
    let code = c as u32;
    ||| 0x09 <= code <= 0x0D
    ||| code == 0x20
    ||| code == 0x85
    ||| code == 0xA0
    ||| code == 0x1680
    ||| 0x2000 <= code <= 0x200A
    ||| code == 0x2028
    ||| code == 0x2029
    ||| code == 0x202F
    ||| code == 0x205F
    ||| code == 0x3000
}

/// `s` without its leading white space.
pub open spec fn trimmed_front(s: Seq<char>) -> Seq<char>
    decreases s.len(),
{
    if s.len() > 0 && is_white_space(s[0]) {
        trimmed_front(s.drop_first())
    } else {
        s
    }
}

/// `s` without its trailing white space.
pub open spec fn trimmed_back(s: Seq<char>) -> Seq<char>
    decreases s.len(),
{
    if s.len() > 0 && is_white_space(s.last()) {
        trimmed_back(s.drop_last())
    } else {
        s
    }
}

/// `s` without its leading and trailing white space.
pub open spec fn trimmed(s: Seq<char>) -> Seq<char> {
    trimmed_back(trimmed_front(s))
}

/// The position of the first `c` in `s`; the length of `s` if there is none.
pub open spec fn first_index(s: Seq<char>, c: char) -> int
    decreases s.len(),
{
    if s.len() == 0 || s[0] == c {
        0
    } else {
        1 + first_index(s.drop_first(), c)
    }
}

/// The position of the last `c` in `s`; `-1` if there is none.
pub open spec fn last_index(s: Seq<char>, c: char) -> int
    decreases s.len(),
{
    if s.len() == 0 {
        -1
    } else if s.last() == c {
        s.len() - 1
    } else {
        last_index(s.drop_last(), c)
    }
}

/// The parts of `s` before and after the first `c`; `None` without a `c`.
pub open spec fn split_first(s: Seq<char>, c: char) -> Option<(Seq<char>, Seq<char>)> {
    let at = first_index(s, c);
    if at < s.len() {
        Some((s.take(at), s.skip(at + 1)))
    } else {
        None
    }
}

/// The parts of `s` before and after the last `c`; `None` without a `c`.
pub open spec fn split_last(s: Seq<char>, c: char) -> Option<(Seq<char>, Seq<char>)> {
    let at = last_index(s, c);
    if at >= 0 {
        Some((s.take(at), s.skip(at + 1)))
    } else {
        None
    }
}

/// True iff `c` is a decimal digit.
pub open spec fn is_digit(c: char) -> bool {
    '0' <= c <= '9'
}

/// The number that the decimal digits of `s` write.
pub open spec fn decimal_value(s: Seq<char>) -> nat
    decreases s.len(),
{
    if s.len() == 0 {
        0
    } else {
        decimal_value(s.drop_last()) * 10 + (s.last() as u32 - '0' as u32) as nat
    }
}

/// `s` without a leading plus sign.
pub open spec fn without_sign(s: Seq<char>) -> Seq<char> {
    if s.len() > 0 && s[0] == '+' {
        s.drop_first()
    } else {
        s
    }
}

/// True iff every character of `s` is a decimal digit.
pub open spec fn all_digits(s: Seq<char>) -> bool {
    forall|i: int| 0 <= i < s.len() ==> is_digit(#[trigger] s[i])
}

/// The port number that `s` writes: an optional plus sign, then one or more
/// decimal digits whose value is at most 65535.
pub open spec fn decimal_u16(s: Seq<char>) -> Option<u16> {
    let digits = without_sign(s);
    if digits.len() > 0 && all_digits(digits) && decimal_value(digits) <= u16::MAX {
        Some(decimal_value(digits) as u16)
    } else {
        None
    }
}

/// The first position of a character is within the text and no earlier
/// position holds the character.
pub proof fn lemma_first_index(s: Seq<char>, c: char)
    ensures
        0 <= first_index(s, c) <= s.len(),
        first_index(s, c) < s.len() ==> s[first_index(s, c)] == c,
        forall|j: int| 0 <= j < first_index(s, c) ==> s[j] != c,
    decreases s.len(),
{
    if s.len() == 0 || s[0] == c {
    } else {
        lemma_first_index(s.drop_first(), c);
        assert forall|j: int| 0 <= j < first_index(s, c) implies s[j] != c by {
            if j > 0 {
                assert(s.drop_first()[j - 1] == s[j]);
            }
        }
    }
}

/// The last position of a character is within the text and no later
/// position holds the character.
pub proof fn lemma_last_index(s: Seq<char>, c: char)
    ensures
        -1 <= last_index(s, c) < s.len(),
        last_index(s, c) >= 0 ==> s[last_index(s, c)] == c,
        forall|j: int| last_index(s, c) < j < s.len() ==> s[j] != c,
    decreases s.len(),
{
    if s.len() == 0 || s.last() == c {
    } else {
        lemma_last_index(s.drop_last(), c);
        assert forall|j: int| last_index(s, c) < j < s.len() implies s[j] != c by {
            if j < s.len() - 1 {
                assert(s.drop_last()[j] == s[j]);
            }
        }
    }
}

/// A position that holds the character and has none before it is the first.
pub proof fn lemma_first_index_is(s: Seq<char>, c: char, at: int)
    requires
        0 <= at <= s.len(),
        at < s.len() ==> s[at] == c,
        forall|j: int| 0 <= j < at ==> s[j] != c,
    ensures
        first_index(s, c) == at,
{
    lemma_first_index(s, c);
    let found = first_index(s, c);
    if found < at {
        assert(s[found] != c);
    }
}

/// A position that holds the character and has none after it is the last.
pub proof fn lemma_last_index_is(s: Seq<char>, c: char, at: int)
    requires
        -1 <= at < s.len(),
        at >= 0 ==> s[at] == c,
        forall|j: int| at < j < s.len() ==> s[j] != c,
    ensures
        last_index(s, c) == at,
{
    lemma_last_index(s, c);
    let found = last_index(s, c);
    if found > at {
        assert(s[found] != c);
    }
}

/// Tells white space from other characters.
pub fn is_white_space_char(c: char) -> (r: bool)
    ensures
        r == is_white_space(c),
{
    let code = c as u32;
    (0x09 <= code && code <= 0x0D) || code == 0x20 || code == 0x85 || code == 0xA0 || code
        == 0x1680 || (0x2000 <= code && code <= 0x200A) || code == 0x2028 || code == 0x2029
        || code == 0x202F || code == 0x205F || code == 0x3000
}

/// The text without its leading and trailing white space.
pub fn trim(s: &str) -> (r: &str)
    ensures
        r@ == trimmed(s@),
{
    let n = s.unicode_len();
    let mut start: usize = 0;
    assert(s@.skip(0) =~= s@);
    while start < n && is_white_space_char(s.get_char(start))
        invariant
            start <= n == s@.len(),
            trimmed_front(s@) == trimmed_front(s@.skip(start as int)),
        decreases n - start,
    {
        assert(s@.skip(start as int).drop_first() =~= s@.skip(start + 1));
        start += 1;
    }
    let ghost front = s@.skip(start as int);
    assert(trimmed_front(s@) == front);
    let mut end: usize = n;
    assert(front.take(n - start) =~= front);
    while end > start && is_white_space_char(s.get_char(end - 1))
        invariant
            start <= end <= n == s@.len(),
            front == s@.skip(start as int),
            trimmed_back(front) == trimmed_back(front.take(end - start)),
        decreases end,
    {
        assert(front.take(end - start).drop_last() =~= front.take(end - 1 - start));
        assert(front.take(end - start).last() == s@[end - 1]);
        end -= 1;
    }
    proof {
        let kept = front.take(end - start);
        if end > start {
            assert(kept.last() == s@[end - 1]);
        }
        assert(trimmed_back(kept) == kept);
        assert(kept =~= s@.subrange(start as int, end as int));
    }
    s.substring_char(start, end)
}

/// Splits the text at the first `c`: the parts before and after it.
pub fn split_at_first(s: &str, c: char) -> (r: Option<(&str, &str)>)
    ensures
        match split_first(s@, c) {
            Some((head, tail)) => r matches Some((a, b)) && a@ == head && b@ == tail,
            None => r is None,
        },
{
    let n = s.unicode_len();
    let mut i: usize = 0;
    while i < n && s.get_char(i) != c
        invariant
            i <= n == s@.len(),
            forall|j: int| 0 <= j < i ==> s@[j] != c,
        decreases n - i,
    {
        i += 1;
    }
    proof {
        lemma_first_index_is(s@, c, i as int);
    }
    if i < n {
        let head = s.substring_char(0, i);
        let tail = s.substring_char(i + 1, n);
        assert(head@ =~= s@.take(i as int));
        assert(tail@ =~= s@.skip(i + 1));
        Some((head, tail))
    } else {
        None
    }
}

/// Splits the text at the last `c`: the parts before and after it.
pub fn split_at_last(s: &str, c: char) -> (r: Option<(&str, &str)>)
    ensures
        match split_last(s@, c) {
            Some((head, tail)) => r matches Some((a, b)) && a@ == head && b@ == tail,
            None => r is None,
        },
{
    let n = s.unicode_len();
    let mut i: usize = n;
    while i > 0 && s.get_char(i - 1) != c
        invariant
            i <= n == s@.len(),
            forall|j: int| i <= j < n ==> s@[j] != c,
        decreases i,
    {
        i -= 1;
    }
    proof {
        lemma_last_index_is(s@, c, i - 1);
    }
    if i > 0 {
        let head = s.substring_char(0, i - 1);
        let tail = s.substring_char(i, n);
        assert(head@ =~= s@.take(i - 1));
        assert(tail@ =~= s@.skip(i as int));
        Some((head, tail))
    } else {
        None
    }
}

/// Reads a port number: an optional plus sign, then decimal digits.
pub fn parse_u16(s: &str) -> (r: Option<u16>)
    ensures
        r == decimal_u16(s@),
{
    let n = s.unicode_len();
    let start: usize = if n > 0 && s.get_char(0) == '+' {
        1
    } else {
        0
    };
    let ghost digits = s@.skip(start as int);
    assert(start == 1 ==> digits =~= s@.drop_first());
    assert(start == 0 ==> digits =~= s@);
    if start == n {
        return None;
    }
    let mut value: u32 = 0;
    let mut i: usize = start;
    assert(digits.take(0) =~= Seq::<char>::empty());
    while i < n
        invariant
            start <= i <= n == s@.len(),
            digits == s@.skip(start as int),
            digits.len() > 0,
            digits == without_sign(s@),
            forall|j: int| 0 <= j < i - start ==> is_digit(#[trigger] digits[j]),
            value == decimal_value(digits.take(i - start)),
            value <= u16::MAX,
        decreases n - i,
    {
        let c = s.get_char(i);
        let ghost seen = digits.take(i + 1 - start);
        proof {
            assert(seen.drop_last() =~= digits.take(i - start));
            assert(seen.last() == c);
        }
        if !('0' <= c && c <= '9') {
            assert(!is_digit(digits[i - start]));
            return None;
        }
        let digit = c as u32 - '0' as u32;
        let next = value * 10 + digit;
        if next > 65535 {
            proof {
                lemma_decimal_value_grows(digits, i + 1 - start);
            }
            return None;
        }
        value = next;
        i += 1;
    }
    assert(digits.take(n - start) =~= digits);
    Some(value as u16)
}

/// The value of a prefix of digits is at most the value of all the digits.
pub proof fn lemma_decimal_value_grows(s: Seq<char>, n: int)
    requires
        0 <= n <= s.len(),
    ensures
        decimal_value(s.take(n)) <= decimal_value(s),
    decreases s.len() - n,
{
    if n < s.len() {
        lemma_decimal_value_grows(s, n + 1);
        assert(s.take(n + 1).drop_last() =~= s.take(n));
        assert(decimal_value(s.take(n + 1)) >= decimal_value(s.take(n)) * 10);
    } else {
        assert(s.take(n) =~= s);
    }
}

/// Compares two texts.
pub fn text_eq(a: &str, b: &str) -> (same: bool)
    ensures
        same == (a@ == b@),
{
    let x = a.to_owned();
    let y = b.to_owned();
    x == y
}

} // verus!
