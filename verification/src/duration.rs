//! Lengths of tracks as the probing tool writes them: seconds in decimal
//! digits, read here as whole milliseconds.

use vstd::prelude::*;
use crate::text::{chars_of, first_line, first_line_trimmed};

verus! {

/// Whether `c` is a decimal digit.
pub open spec fn is_digit(c: char) -> bool {
    '0' <= c && c <= '9'
}

/// The value of a decimal digit.
pub open spec fn digit_value(c: char) -> nat {
    ((c as u8) - ('0' as u8)) as nat
}

/// Whether `s` holds decimal digits only.
pub open spec fn all_digits(s: Seq<char>) -> bool {
    forall|i: int| 0 <= i < s.len() ==> is_digit(#[trigger] s[i])
}

/// The number that a sequence of decimal digits stands for; 0 for none.
pub open spec fn digits_value(s: Seq<char>) -> nat
    decreases s.len(),
{
    if s.len() == 0 {
        0
    } else {
        digits_value(s.drop_last()) * 10 + digit_value(s.last())
    }
}

/// The index of the first `.` of `s`, or its length where it holds none.
pub open spec fn dot_index(s: Seq<char>) -> int
    decreases s.len(),
{
    if s.len() == 0 {
        0
    } else if s[0] == '.' {
        0
    } else {
        1 + dot_index(s.drop_first())
    }
}

/// The milliseconds that the digits behind the point stand for: the first
/// three count, what follows is cut off.
pub open spec fn fraction_ms(fraction: Seq<char>) -> nat {
    (if fraction.len() > 0 {
        digit_value(fraction[0]) * 100
    } else {
        0
    }) + (if fraction.len() > 1 {
        digit_value(fraction[1]) * 10
    } else {
        0
    }) + (if fraction.len() > 2 {
        digit_value(fraction[2])
    } else {
        0
    })
}

/// The digits behind the point of `text`.
pub open spec fn fraction_part(text: Seq<char>) -> Seq<char> {
    if dot_index(text) < text.len() {
        text.skip(dot_index(text) + 1)
    } else {
        Seq::empty()
    }
}

/// The milliseconds that a text of seconds stands for. The text is made of
/// decimal digits, with at most one point among them and one digit at
/// least; any other text stands for nothing. This is the form in which the
/// probing tool writes a length. It is narrower than what the reading of
/// floating-point numbers takes: a text with a sign, with an exponent, or
/// one that names infinity stands for nothing here. Of the digits behind the
/// point the first three count, so a length is cut to whole milliseconds,
/// not rounded.
pub open spec fn seconds_to_ms(text: Seq<char>) -> Option<nat> {
    let whole = text.take(dot_index(text));
    let fraction = fraction_part(text);
    if whole.len() + fraction.len() == 0 || !all_digits(whole) || !all_digits(fraction) {
        None
    } else {
        Some(digits_value(whole) * 1000 + fraction_ms(fraction))
    }
}

/// The milliseconds as a `u64`, where they fit in one.
pub open spec fn ms_in_range(ms: Option<nat>) -> Option<u64> {
    match ms {
        Some(n) => if n <= u64::MAX {
            Some(n as u64)
        } else {
            None
        },
        None => None,
    }
}

/// A number in digits is no less than the number in fewer of its digits.
pub proof fn lemma_digits_value_grows(s: Seq<char>, shorter: int)
    requires
        0 <= shorter <= s.len(),
    ensures
        digits_value(s.take(shorter)) <= digits_value(s),
    decreases s.len(),
{
    if shorter == s.len() {
        assert(s.take(shorter) =~= s);
    } else {
        lemma_digits_value_grows(s.drop_last(), shorter);
        assert(s.drop_last().take(shorter) =~= s.take(shorter));
    }
}

/// The greatest number of whole seconds whose milliseconds fit in a `u64`.
pub const MAX_WHOLE_SECONDS: u64 = 18_446_744_073_709_551;

/// The milliseconds that a text of seconds stands for; `None` where the
/// text stands for nothing or for more than a `u64` holds. Only digits and
/// one point are read: a sign or an exponent makes a text stand for nothing.
#[verifier::loop_isolation(false)]
pub fn parse_seconds_ms(text: &str) -> (r: Option<u64>)
    ensures
        r == ms_in_range(seconds_to_ms(text@)),
{
    let chars = chars_of(text);
    let n = chars.len();
    let mut d: usize = 0;
    assert(chars@.skip(0) =~= chars@);
    while d < n && chars[d] != '.'
        invariant
            d <= n == chars@.len(),
            dot_index(chars@) == d + dot_index(chars@.skip(d as int)),
        decreases n - d,
    {
        assert(chars@.skip(d as int)[0] == chars@[d as int]);
        assert(chars@.skip(d as int).drop_first() =~= chars@.skip(d + 1));
        d = d + 1;
    }
    proof {
        if d < n {
            assert(chars@.skip(d as int)[0] == '.');
        }
        assert(dot_index(chars@) == d);
    }
    let ghost whole_part = chars@.take(d as int);
    let ghost fraction = fraction_part(chars@);
    let mut whole: u64 = 0;
    let mut i: usize = 0;
    assert(whole_part.take(0) =~= Seq::<char>::empty());
    while i < d
        invariant
            i <= d <= n == chars@.len(),
            whole_part == chars@.take(d as int),
            all_digits(whole_part.take(i as int)),
            whole == digits_value(whole_part.take(i as int)),
            whole <= MAX_WHOLE_SECONDS,
        decreases d - i,
    {
        let c = chars[i];
        if !('0' <= c && c <= '9') {
            assert(!is_digit(whole_part[i as int]));
            return None;
        }
        let digit: u64 = ((c as u8) - 48u8) as u64;
        assert('0' as u8 == 48u8);
        let next: u64 = whole * 10 + digit;
        proof {
            assert(whole_part.take(i + 1).drop_last() =~= whole_part.take(i as int));
            assert(whole_part.take(i + 1).last() == c);
            assert(next == digits_value(whole_part.take(i + 1)));
            assert forall|j: int| 0 <= j < i + 1 implies is_digit(
                #[trigger] whole_part.take(i + 1)[j],
            ) by {
                if j < i {
                    assert(whole_part.take(i as int)[j] == whole_part.take(i + 1)[j]);
                }
            }
        }
        if next > MAX_WHOLE_SECONDS {
            proof {
                // Whatever follows, the text stands for nothing or for too much.
                lemma_digits_value_grows(whole_part, i + 1);
                assert(digits_value(whole_part) * 1000 > u64::MAX);
            }
            return None;
        }
        whole = next;
        i = i + 1;
    }
    assert(whole_part.take(d as int) =~= whole_part);
    let mut ms: u128 = (whole as u128) * 1000;
    let mut k: usize = if d < n {
        d + 1
    } else {
        n
    };
    let start = k;
    proof {
        if d < n {
            assert(fraction =~= chars@.skip(d + 1));
        }
        assert(fraction.len() == n - start);
        assert(fraction.take(0) =~= Seq::<char>::empty());
    }
    while k < n
        invariant
            start <= k <= n == chars@.len(),
            fraction.len() == n - start,
            forall|j: int| 0 <= j < fraction.len() ==> fraction[j] == chars@[start + j],
            all_digits(fraction.take(k - start)),
            ms == whole * 1000 + fraction_ms(fraction.take(k - start)),
            ms <= whole * 1000 + 999,
            whole <= MAX_WHOLE_SECONDS,
        decreases n - k,
    {
        let c = chars[k];
        if !('0' <= c && c <= '9') {
            assert(!is_digit(fraction[k - start]));
            return None;
        }
        let digit: u128 = ((c as u8) - 48u8) as u128;
        assert('0' as u8 == 48u8);
        let place = k - start;
        proof {
            let before = fraction.take(k - start);
            let after = fraction.take(k - start + 1);
            assert(after.len() == before.len() + 1);
            assert forall|j: int| 0 <= j < after.len() implies is_digit(#[trigger] after[j]) by {
                if j < before.len() {
                    assert(before[j] == after[j]);
                }
            }
            assert(forall|j: int| 0 <= j < before.len() ==> before[j] == after[j]);
            assert(after[place as int] == c);
        }
        if place == 0 {
            ms = ms + digit * 100;
        } else if place == 1 {
            ms = ms + digit * 10;
        } else if place == 2 {
            ms = ms + digit;
        }
        k = k + 1;
    }
    assert(fraction.take(n - start) =~= fraction);
    if d + (n - start) == 0 || ms > 0xffff_ffff_ffff_ffff {
        return None;
    }
    Some(ms as u64)
}

/// The length that the probing tool wrote, in milliseconds: its first line,
/// read as seconds. `None` where the line stands for no length.
pub fn probe_duration(output: &str) -> (r: Option<u64>)
    ensures
        r == ms_in_range(seconds_to_ms(first_line_trimmed(output@))),
{
    let line = first_line(output);
    parse_seconds_ms(line.as_str())
}

} // verus!
