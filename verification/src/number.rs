//! Decimal digits and the numbers they spell.

use vstd::prelude::*;
use vstd::slice::slice_subrange;

verus! {

/// Whether `c` is one of the ten ASCII digits.
pub open spec fn is_digit(c: char) -> bool {
    0x30 <= c as u32 <= 0x39
}

/// The value of the digit `c`.
pub open spec fn digit_value(c: char) -> int
    recommends
        is_digit(c),
{
    c as u32 - 0x30
}

/// Whether every character of `s` is a digit.
pub open spec fn all_digits(s: Seq<char>) -> bool {
    forall|i: int| 0 <= i < s.len() ==> is_digit(#[trigger] s[i])
}

/// The number that the digits `s` spell in base ten; zero for no digits.
pub open spec fn digits_value(s: Seq<char>) -> int
    decreases s.len(),
{
    if s.len() == 0 {
        0
    } else {
        10 * digits_value(s.drop_last()) + digit_value(s.last())
    }
}

/// Ten to the power `n`.
pub open spec fn pow10(n: nat) -> int
    decreases n,
{
    if n == 0 {
        1
    } else {
        10 * pow10((n - 1) as nat)
    }
}

/// Powers of ten are positive.
pub proof fn lemma_pow10_positive(n: nat)
    ensures
        pow10(n) >= 1,
    decreases n,
{
    if n > 0 {
        lemma_pow10_positive((n - 1) as nat);
    }
}

/// Ten to a sum is the product of the powers.
pub proof fn lemma_pow10_adds(a: nat, b: nat)
    ensures
        pow10(a + b) == pow10(a) * pow10(b),
    decreases b,
{
    if b == 0 {
        assert(pow10(a) * 1 == pow10(a));
    } else {
        lemma_pow10_adds(a, (b - 1) as nat);
        assert(pow10(a + b) == 10 * pow10((a + b - 1) as nat));
        assert(10 * (pow10(a) * pow10((b - 1) as nat)) == pow10(a) * (10 * pow10((b - 1) as nat)))
            by (nonlinear_arith);
    }
}

/// Digits written after digits: the first number shifts left by the length
/// of the second.
pub proof fn lemma_digits_value_concat(a: Seq<char>, b: Seq<char>)
    ensures
        digits_value(a + b) == digits_value(a) * pow10(b.len()) + digits_value(b),
    decreases b.len(),
{
    if b.len() == 0 {
        assert(a + b == a);
        assert(digits_value(a) * 1 == digits_value(a));
    } else {
        lemma_digits_value_concat(a, b.drop_last());
        assert((a + b).drop_last() == a + b.drop_last());
        assert((a + b).last() == b.last());
        let x = digits_value(a);
        let p = pow10((b.len() - 1) as nat);
        let y = digits_value(b.drop_last());
        assert(10 * (x * p + y) == x * (10 * p) + 10 * y) by (nonlinear_arith);
    }
}

/// A number of `n` digits is at least zero and below ten to the `n`.
pub proof fn lemma_digits_value_bounds(s: Seq<char>)
    requires
        all_digits(s),
    ensures
        0 <= digits_value(s) < pow10(s.len()),
    decreases s.len(),
{
    if s.len() > 0 {
        assert(is_digit(s[s.len() - 1]));
        assert forall|i: int| 0 <= i < s.drop_last().len() implies is_digit(
            #[trigger] s.drop_last()[i],
        ) by {
            assert(s.drop_last()[i] == s[i]);
        }
        lemma_digits_value_bounds(s.drop_last());
    }
}

/// Whether every character of `s` is a digit.
pub fn only_digits(s: &[char]) -> (r: bool)
    ensures
        r == all_digits(s@),
{
    let mut i: usize = 0;
    while i < s.len()
        invariant
            i <= s@.len(),
            forall|k: int| 0 <= k < i ==> is_digit(#[trigger] s@[k]),
        decreases s@.len() - i,
    {
        let n: u32 = s[i] as u32;
        if n < 0x30 || n > 0x39 {
            assert(!is_digit(s@[i as int]));
            return false;
        }
        i = i + 1;
    }
    true
}

/// The number that the digits `s` spell, added behind `start`; `None` as
/// soon as the running value passes `limit`.
pub fn append_digits(start: u128, s: &[char], limit: u128) -> (r: Option<u128>)
    requires
        all_digits(s@),
        start <= limit,
        limit <= 0x1000_0000_0000_0000_0000,
    ensures
        match r {
            Some(v) => v == start * pow10(s@.len()) + digits_value(s@) && v <= limit,
            None => start * pow10(s@.len()) + digits_value(s@) > limit,
        },
{
    let mut acc: u128 = start;
    let mut i: usize = 0;
    assert(s@.take(0) == Seq::<char>::empty());
    assert(start * 1 == start);
    while i < s.len()
        invariant
            i <= s@.len(),
            all_digits(s@),
            limit <= 0x1000_0000_0000_0000_0000,
            acc <= limit,
            acc == start * pow10(i as nat) + digits_value(s@.take(i as int)),
        decreases s@.len() - i,
    {
        assert(is_digit(s@[i as int]));
        let d: u128 = (s[i] as u32 - 0x30) as u128;
        let next: u128 = acc * 10 + d;
        proof {
            assert(s@.take(i + 1).drop_last() == s@.take(i as int));
            assert(s@.take(i + 1).last() == s@[i as int]);
            let x = start as int;
            let p = pow10(i as nat);
            let y = digits_value(s@.take(i as int));
            assert(10 * (x * p + y) == x * (10 * p) + 10 * y) by (nonlinear_arith);
            assert(next == start * pow10((i + 1) as nat) + digits_value(s@.take(i + 1)));
        }
        if next > limit {
            proof {
                let rest = s@.skip(i + 1);
                assert(s@ == s@.take(i + 1) + rest);
                lemma_digits_value_concat(s@.take(i + 1), rest);
                lemma_pow10_adds((i + 1) as nat, rest.len());
                lemma_pow10_positive(rest.len());
                assert forall|k: int| 0 <= k < rest.len() implies is_digit(#[trigger] rest[k]) by {
                    assert(rest[k] == s@[i + 1 + k]);
                }
                lemma_digits_value_bounds(rest);
                lemma_pow10_positive((i + 1) as nat);
                assert forall|k: int| 0 <= k < s@.take(i + 1).len() implies is_digit(
                    #[trigger] s@.take(i + 1)[k],
                ) by {
                    assert(s@.take(i + 1)[k] == s@[k]);
                }
                lemma_digits_value_bounds(s@.take(i + 1));
                let x = start as int;
                let p1 = pow10((i + 1) as nat);
                let p2 = pow10(rest.len());
                let y1 = digits_value(s@.take(i + 1));
                let y2 = digits_value(rest);
                assert(x * (p1 * p2) + (y1 * p2 + y2) >= x * p1 + y1) by (nonlinear_arith)
                    requires
                        x >= 0,
                        p1 >= 1,
                        y1 >= 0,
                        y2 >= 0,
                        p2 >= 1,
                ;
            }
            return None;
        }
        acc = next;
        i = i + 1;
    }
    assert(s@.take(i as int) == s@);
    Some(acc)
}

/// The serving count that `s` spells: digits, after an optional plus sign,
/// whose value is from 1 to 255.
pub open spec fn serving_count_of(s: Seq<char>) -> Option<u8> {
    let digits = if s.len() > 0 && s[0] == '+' {
        s.drop_first()
    } else {
        s
    };
    if digits.len() > 0 && all_digits(digits) && 1 <= digits_value(digits) <= 255 {
        Some(digits_value(digits) as u8)
    } else {
        None
    }
}

/// The serving count that `s` spells: digits, after an optional plus sign,
/// whose value is from 1 to 255.
pub fn parse_serving_count(s: &[char]) -> (r: Option<u8>)
    ensures
        r == serving_count_of(s@),
{
    let signed: bool = s.len() > 0 && s[0] == '+';
    let digits: &[char] = if signed {
        slice_subrange(s, 1, s.len())
    } else {
        s
    };
    if signed {
        assert(s@.drop_first() == s@.subrange(1, s@.len() as int));
    }
    if digits.len() == 0 || !only_digits(digits) {
        return None;
    }
    assert(0 * pow10(digits@.len()) == 0);
    match append_digits(0, digits, 255) {
        Some(v) => {
            if v == 0 {
                None
            } else {
                Some(v as u8)
            }
        },
        None => None,
    }
}

} // verus!
