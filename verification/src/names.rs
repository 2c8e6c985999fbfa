//! Entity names: an alphabetic prefix followed by a decimal number, as in `v12` or `ebb3`.

use crate::charclass::{decimal_digit, decimal_digit_value, digit_value, is_decimal_digit};
use crate::text::to_chars;
use vstd::prelude::*;
use vstd::slice::slice_subrange;

verus! {

/// The number of decimal digits at the end of `s`: the length of the longest suffix of
/// `s` that holds decimal digits only.
pub open spec fn trailing_digit_count(s: Seq<char>) -> nat
    decreases s.len(),
{
    if s.len() > 0 && is_decimal_digit(s.last()) {
        1 + trailing_digit_count(s.drop_last())
    } else {
        0
    }
}

/// Every character of `s` is a decimal digit.
pub open spec fn all_decimal_digits(s: Seq<char>) -> bool {
    forall|i: int| 0 <= i < s.len() ==> is_decimal_digit(#[trigger] s[i])
}

/// The number that the decimal digits `s` denote, most significant digit first. The
/// empty sequence denotes 0.
pub open spec fn decimal_value(s: Seq<char>) -> nat
    decreases s.len(),
{
    if s.len() == 0 {
        0
    } else {
        10 * decimal_value(s.drop_last()) + digit_value(s.last())
    }
}

/// The 32-bit number that the digits `s` denote: there is none when `s` is empty, holds
/// anything but decimal digits, or denotes a number that does not fit.
pub open spec fn parsed_decimal(s: Seq<char>) -> Option<u32> {
    if s.len() > 0 && all_decimal_digits(s) && decimal_value(s) <= u32::MAX {
        Some(decimal_value(s) as u32)
    } else {
        None
    }
}

/// The prefix of an entity name: all of it but its trailing digits.
pub open spec fn entity_head(name: Seq<char>) -> Seq<char> {
    name.take(name.len() - trailing_digit_count(name))
}

/// The numeric suffix of an entity name: its trailing digits.
pub open spec fn entity_tail(name: Seq<char>) -> Seq<char> {
    name.skip(name.len() - trailing_digit_count(name))
}

/// A numeric suffix is canonical when it is `0` or does not begin with `0`.
pub open spec fn is_canonical(tail: Seq<char>) -> bool {
    !(tail.len() > 1 && tail[0] == '0')
}

/// An entity name split into its prefix and its number. There is no split when the name
/// has no trailing digits, when they are not canonical, or when they denote a number that
/// does not fit in 32 bits.
pub open spec fn split_entity(name: Seq<char>) -> Option<(Seq<char>, u32)> {
    let tail = entity_tail(name);
    if is_canonical(tail) && parsed_decimal(tail) is Some {
        Some((entity_head(name), parsed_decimal(tail)->0))
    } else {
        None
    }
}

/// The trailing digits of `s` are a suffix of `s`, hold digits only, and cannot be
/// extended to the left.
pub proof fn lemma_trailing_digit_count(s: Seq<char>)
    ensures
        trailing_digit_count(s) <= s.len(),
        all_decimal_digits(s.skip(s.len() - trailing_digit_count(s))),
        trailing_digit_count(s) < s.len() ==> !is_decimal_digit(
            s[s.len() - trailing_digit_count(s) - 1],
        ),
    decreases s.len(),
{
    if s.len() > 0 && is_decimal_digit(s.last()) {
        let t = s.drop_last();
        lemma_trailing_digit_count(t);
        let k = trailing_digit_count(t);
        let tail = s.skip(s.len() - (k + 1));
        assert forall|i: int| 0 <= i < tail.len() implies is_decimal_digit(#[trigger] tail[i]) by {
            if i < k {
                assert(tail[i] == t.skip(t.len() - k)[i]);
            }
        }
    }
}

/// A name that splits is its prefix followed by its number: the prefix does not end in a
/// digit, and the digits behind it are canonical and denote the number.
pub proof fn lemma_split_entity(name: Seq<char>)
    requires
        split_entity(name) is Some,
    ensures
        ({
            let (head, number) = split_entity(name)->0;
            let tail = entity_tail(name);
            &&& name == head + tail
            &&& head.len() > 0 ==> !is_decimal_digit(head.last())
            &&& tail.len() > 0
            &&& all_decimal_digits(tail)
            &&& is_canonical(tail)
            &&& decimal_value(tail) == number
        }),
{
    lemma_trailing_digit_count(name);
    assert(name =~= entity_head(name) + entity_tail(name));
}

/// A prefix of a digit sequence denotes no more than the whole sequence.
pub proof fn lemma_decimal_value_prefix(s: Seq<char>, i: int)
    requires
        0 <= i <= s.len(),
    ensures
        decimal_value(s.take(i)) <= decimal_value(s),
    decreases s.len() - i,
{
    if i < s.len() {
        lemma_decimal_value_prefix(s, i + 1);
        assert(s.take(i + 1).drop_last() =~= s.take(i));
    } else {
        assert(s.take(i) =~= s);
    }
}

/// Counts the decimal digits at the end of `s`.
pub fn trailing_digits_in(s: &[char]) -> (k: usize)
    ensures
        k == trailing_digit_count(s@),
        k <= s@.len(),
{
    let n = s.len();
    let mut k: usize = 0;
    assert(s@.take(n as int) =~= s@);
    while k < n && decimal_digit(s[n - 1 - k])
        invariant
            n == s@.len(),
            k <= n,
            trailing_digit_count(s@) == k + trailing_digit_count(s@.take(n - k)),
        decreases n - k,
    {
        proof {
            let t = s@.take(n - k);
            assert(t.last() == s@[n - 1 - k]);
            assert(t.drop_last() =~= s@.take(n - (k + 1)));
        }
        k += 1;
    }
    proof {
        let t = s@.take(n - k);
        if k < n {
            assert(t.last() == s@[n - 1 - k]);
        }
    }
    k
}

/// Get the number of decimal digits at the end of `s`.
pub fn trailing_digits(s: &str) -> (k: usize)
    ensures
        k == trailing_digit_count(s@),
{
    let chars = to_chars(s);
    trailing_digits_in(chars.as_slice())
}

/// Reads `s` as an unsigned 32-bit number in decimal digits.
pub fn parse_decimal(s: &[char]) -> (r: Option<u32>)
    ensures
        r == parsed_decimal(s@),
{
    let n = s.len();
    if n == 0 {
        return None;
    }
    let mut acc: u32 = 0;
    let mut i: usize = 0;
    while i < n
        invariant
            n == s@.len(),
            i <= n,
            all_decimal_digits(s@.take(i as int)),
            acc == decimal_value(s@.take(i as int)),
        decreases n - i,
    {
        if !decimal_digit(s[i]) {
            return None;
        }
        let d = decimal_digit_value(s[i]);
        let wide: u64 = acc as u64 * 10 + d as u64;
        proof {
            let t = s@.take(i + 1);
            assert(t.last() == s@[i as int]);
            assert(t.drop_last() =~= s@.take(i as int));
            assert(decimal_value(t) == wide);
            lemma_decimal_value_prefix(s@, i + 1);
            assert forall|j: int| 0 <= j < t.len() implies is_decimal_digit(#[trigger] t[j]) by {
                if j < i {
                    assert(t[j] == s@.take(i as int)[j]);
                }
            }
        }
        if wide > 0xffff_ffff {
            return None;
        }
        acc = wide as u32;
        i += 1;
    }
    proof {
        assert(s@.take(n as int) =~= s@);
    }
    Some(acc)
}

/// Splits an entity name, given as characters, into its prefix and its number.
pub fn split_entity_chars<'a>(name: &'a [char]) -> (r: Option<(&'a [char], u32)>)
    ensures
        match r {
            Some((head, number)) => split_entity(name@) == Some((head@, number)),
            None => split_entity(name@) is None,
        },
{
    let n = name.len();
    let k = trailing_digits_in(name);
    proof {
        lemma_trailing_digit_count(name@);
    }
    let head = slice_subrange(name, 0, n - k);
    let tail = slice_subrange(name, n - k, n);
    assert(tail@ =~= entity_tail(name@));
    assert(head@ =~= entity_head(name@));
    if k > 1 && tail[0] == '0' {
        None
    } else {
        match parse_decimal(tail) {
            Some(number) => Some((head, number)),
            None => None,
        }
    }
}

/// Pre-parse a supposed entity name by splitting it into two parts: a head and a
/// canonical decimal number. `inst01` is not split: its number is padded with a zero.
pub fn split_entity_name(name: &str) -> (r: Option<(&str, u32)>)
    ensures
        match r {
            Some((head, number)) => split_entity(name@) == Some((head@, number)),
            None => split_entity(name@) is None,
        },
{
    let chars = to_chars(name);
    match split_entity_chars(chars.as_slice()) {
        Some((head, number)) => {
            proof {
                lemma_trailing_digit_count(name@);
            }
            let prefix = name.substring_char(0, head.len());
            assert(prefix@ =~= head@);
            Some((prefix, number))
        },
        None => None,
    }
}

} // verus!
