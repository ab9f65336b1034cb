//! Ingredient quantities as exact fixed-point decimals.
//!
//! A quantity is a signed whole number of millionths of a unit. Scaling and
//! summing are done in integer arithmetic, so the same inputs give the same
//! digits everywhere. A result that would leave the range of `i64` stays at
//! the nearest end of it.

use crate::number::{
    all_digits, append_digits, digit_value, digits_value, is_digit, lemma_digits_value_bounds,
    lemma_digits_value_concat, lemma_pow10_adds, lemma_pow10_positive, only_digits, pow10,
};
use crate::text::{lemma_split_is_not_empty, split, split_on, views};
use vstd::arithmetic::div_mod::{lemma_fundamental_div_mod, lemma_fundamental_div_mod_converse};
use vstd::prelude::*;
use vstd::slice::slice_subrange;

verus! {

/// Millionths in one unit.
pub const MICROS_PER_UNIT: i64 = 1_000_000;

/// Millionths in one hundredth of a unit, the step scaled quantities are rounded to.
pub const MICROS_PER_HUNDREDTH: i64 = 10_000;

/// A signed decimal quantity with six fractional digits.
#[derive(Clone, Copy, Debug, PartialEq, Eq, Structural)]
pub struct Quantity {
    pub micros: i64,
}

/// The integer nearest to `n / d`, a tie going to the one farther from zero.
pub open spec fn round_half_away(n: int, d: int) -> int
    recommends
        d > 0,
{
    if n >= 0 {
        (2 * n + d) / (2 * d)
    } else {
        -((2 * (-n) + d) / (2 * d))
    }
}

/// `v` brought into the range of `i64`.
pub open spec fn clamp_micros(v: int) -> int {
    if v > i64::MAX {
        i64::MAX as int
    } else if v < i64::MIN {
        i64::MIN as int
    } else {
        v
    }
}

/// The quantity `micros`, written for `base` servings, restated for
/// `configured` servings and rounded to hundredths.
pub open spec fn scaled_micros(micros: int, base: int, configured: int) -> int
    recommends
        base > 0,
{
    clamp_micros(
        MICROS_PER_HUNDREDTH * round_half_away(micros * configured, base * MICROS_PER_HUNDREDTH),
    )
}

/// Whether the scaled quantity is in range as it is, so that nothing is cut
/// off at either end.
pub open spec fn scaling_fits(micros: int, base: int, configured: int) -> bool {
    i64::MIN <= MICROS_PER_HUNDREDTH * round_half_away(
        micros * configured,
        base * MICROS_PER_HUNDREDTH,
    ) <= i64::MAX
}

/// The sum of two quantities, kept in range.
pub open spec fn sum_micros(a: int, b: int) -> int {
    clamp_micros(a + b)
}

/// `s` without its sign, if it begins with one.
pub open spec fn unsigned_part(s: Seq<char>) -> Seq<char> {
    if s.len() > 0 && (s[0] == '+' || s[0] == '-') {
        s.drop_first()
    } else {
        s
    }
}

/// The digits of a decimal numeral before its point.
pub open spec fn whole_digits(s: Seq<char>) -> Seq<char> {
    split(unsigned_part(s), '.')[0]
}

/// The digits of a decimal numeral after its point; none without a point.
pub open spec fn fraction_digits(s: Seq<char>) -> Seq<char> {
    let parts = split(unsigned_part(s), '.');
    if parts.len() >= 2 {
        parts[1]
    } else {
        Seq::<char>::empty()
    }
}

/// Whether `s` is a decimal numeral: an optional sign, then digits with at
/// most one point among them, and at least one digit.
pub open spec fn is_decimal(s: Seq<char>) -> bool {
    &&& split(unsigned_part(s), '.').len() <= 2
    &&& all_digits(whole_digits(s))
    &&& all_digits(fraction_digits(s))
    &&& whole_digits(s).len() + fraction_digits(s).len() > 0
}

/// The magnitude of the decimal numeral `s` in millionths, rounded to the
/// nearest with ties away from zero.
pub open spec fn decimal_magnitude(s: Seq<char>) -> int {
    round_half_away(
        digits_value(whole_digits(s) + fraction_digits(s)) * MICROS_PER_UNIT,
        pow10(fraction_digits(s).len()),
    )
}

/// The quantity that `s` spells, if `s` is a decimal numeral within range.
pub open spec fn quantity_of(s: Seq<char>) -> Option<Quantity> {
    if is_decimal(s) && decimal_magnitude(s) <= i64::MAX {
        if s[0] == '-' {
            Some(Quantity { micros: (-decimal_magnitude(s)) as i64 })
        } else {
            Some(Quantity { micros: decimal_magnitude(s) as i64 })
        }
    } else {
        None
    }
}

/// A whole multiple of the divisor rounds to the multiplier.
pub proof fn lemma_round_exact(k: int, d: int)
    requires
        k >= 0,
        d > 0,
    ensures
        round_half_away(k * d, d) == k,
{
    assert(k * d >= 0) by (nonlinear_arith)
        requires
            k >= 0,
            d > 0,
    ;
    assert(2 * (k * d) + d == k * (2 * d) + d) by (nonlinear_arith);
    lemma_fundamental_div_mod_converse(2 * (k * d) + d, 2 * d, k, d);
}

/// Rounding `a + b / p` goes up exactly when `b` is at least half of `p`.
pub proof fn lemma_round_split(a: int, b: int, p: int, m: int)
    requires
        a >= 0,
        0 <= b < p,
        m > 0,
    ensures
        round_half_away((a * p + b) * m, p * m) == a + if 2 * b >= p {
            1int
        } else {
            0int
        },
{
    let u: int = if 2 * b >= p {
        1
    } else {
        0
    };
    let n = (a * p + b) * m;
    let d = p * m;
    assert(n >= 0) by (nonlinear_arith)
        requires
            a >= 0,
            0 <= b < p,
            m > 0,
            n == (a * p + b) * m,
    ;
    assert(d > 0) by (nonlinear_arith)
        requires
            p > 0,
            m > 0,
            d == p * m,
    ;
    let t: int = if 2 * b >= p {
        2 * b - p
    } else {
        2 * b + p
    };
    let r = t * m;
    assert(2 * n + d == (a + u) * (2 * d) + r) by (nonlinear_arith)
        requires
            n == (a * p + b) * m,
            d == p * m,
            r == t * m,
            (u == 0 && t == 2 * b + p) || (u == 1 && t == 2 * b - p),
    ;
    assert(0 <= r < 2 * d) by (nonlinear_arith)
        requires
            r == t * m,
            d == p * m,
            m > 0,
            0 <= t < 2 * p,
    ;
    lemma_fundamental_div_mod_converse(2 * n + d, 2 * d, a + u, r);
}

/// How a decimal numeral rounds to millionths: up to six fraction digits are
/// kept as they are, and the seventh decides whether the last one goes up.
pub proof fn lemma_decimal_rounding(whole: Seq<char>, fraction: Seq<char>)
    requires
        all_digits(whole),
        all_digits(fraction),
    ensures
        fraction.len() <= 6 ==> round_half_away(
            digits_value(whole + fraction) * MICROS_PER_UNIT,
            pow10(fraction.len()),
        ) == digits_value(whole + fraction) * pow10((6 - fraction.len()) as nat),
        fraction.len() > 6 ==> round_half_away(
            digits_value(whole + fraction) * MICROS_PER_UNIT,
            pow10(fraction.len()),
        ) == digits_value(whole + fraction.take(6)) + if digit_value(fraction[6]) >= 5 {
            1int
        } else {
            0int
        },
{
    reveal_with_fuel(pow10, 7);
    assert(pow10(6) == MICROS_PER_UNIT);
    let len = fraction.len();
    assert forall|i: int| 0 <= i < (whole + fraction).len() implies is_digit(
        #[trigger] (whole + fraction)[i],
    ) by {
        if i < whole.len() {
            assert((whole + fraction)[i] == whole[i]);
        } else {
            assert((whole + fraction)[i] == fraction[i - whole.len()]);
        }
    }
    if len <= 6 {
        let n = digits_value(whole + fraction);
        lemma_digits_value_bounds(whole + fraction);
        lemma_pow10_adds(len, (6 - len) as nat);
        lemma_pow10_positive(len);
        lemma_pow10_positive((6 - len) as nat);
        let k = n * pow10((6 - len) as nat);
        assert(k >= 0) by (nonlinear_arith)
            requires
                n >= 0,
                pow10((6 - len) as nat) >= 1,
                k == n * pow10((6 - len) as nat),
        ;
        assert(k * pow10(len) == n * MICROS_PER_UNIT) by (nonlinear_arith)
            requires
                k == n * pow10((6 - len) as nat),
                pow10(len) * pow10((6 - len) as nat) == MICROS_PER_UNIT,
        ;
        lemma_round_exact(k, pow10(len));
    } else {
        let kept = fraction.take(6);
        let rest = fraction.skip(6);
        let tail = rest.skip(1);
        assert(fraction == kept + rest);
        assert(whole + fraction == (whole + kept) + rest);
        assert(rest == seq![rest[0]] + tail);
        assert(rest[0] == fraction[6]);
        assert(is_digit(fraction[6]));
        assert forall|i: int| 0 <= i < whole.len() + 6 implies is_digit(
            #[trigger] (whole + kept)[i],
        ) by {
            assert((whole + kept)[i] == (whole + fraction)[i]);
        }
        assert forall|i: int| 0 <= i < tail.len() implies is_digit(#[trigger] tail[i]) by {
            assert(tail[i] == fraction[i + 7]);
        }
        lemma_digits_value_concat(whole + kept, rest);
        lemma_digits_value_concat(seq![rest[0]], tail);
        lemma_digits_value_bounds(whole + kept);
        lemma_digits_value_bounds(tail);
        assert(seq![rest[0]].drop_last() == Seq::<char>::empty());
        assert(digits_value(seq![rest[0]]) == digit_value(rest[0])) by {
            reveal_with_fuel(digits_value, 2);
        }
        let q = pow10((len - 7) as nat);
        let p = pow10((len - 6) as nat);
        lemma_pow10_adds(6, (len - 6) as nat);
        let a = digits_value(whole + kept);
        let d7 = digit_value(rest[0]);
        let c = digits_value(tail);
        let b = digits_value(rest);
        assert(b == d7 * q + c);
        assert(p == 10 * q);
        assert(0 <= b < p && (2 * b >= p <==> d7 >= 5)) by (nonlinear_arith)
            requires
                b == d7 * q + c,
                p == 10 * q,
                0 <= c < q,
                0 <= d7 <= 9,
        ;
        assert(p * MICROS_PER_UNIT == pow10(len));
        lemma_round_split(a, b, p, MICROS_PER_UNIT as int);
    }
}

/// Multiplying numerator and divisor by the same positive number does not
/// change what the quotient rounds to.
pub proof fn lemma_round_cancel(n: int, d: int, b: int)
    requires
        d > 0,
        b > 0,
    ensures
        round_half_away(n * b, d * b) == round_half_away(n, d),
{
    let m: int = if n >= 0 {
        n
    } else {
        -n
    };
    let x = 2 * m + d;
    let y = 2 * d;
    let q = x / y;
    let r = x % y;
    lemma_fundamental_div_mod(x, y);
    assert(0 <= r < y) by (nonlinear_arith)
        requires
            r == x % y,
            y > 0,
    ;
    assert(2 * (m * b) + d * b == q * (2 * (d * b)) + r * b) by (nonlinear_arith)
        requires
            2 * m + d == y * q + r,
            y == 2 * d,
    ;
    assert(0 <= r * b < 2 * (d * b)) by (nonlinear_arith)
        requires
            0 <= r < 2 * d,
            b > 0,
    ;
    lemma_fundamental_div_mod_converse(2 * (m * b) + d * b, 2 * (d * b), q, r * b);
    if n >= 0 {
        assert(n * b >= 0) by (nonlinear_arith)
            requires
                n >= 0,
                b > 0,
        ;
    } else {
        assert(n * b < 0 && -(n * b) == m * b) by (nonlinear_arith)
            requires
                n < 0,
                b > 0,
                m == -n,
        ;
    }
}

/// A rounded quotient is within half a unit of the quotient.
pub proof fn lemma_round_is_nearest(n: int, d: int)
    requires
        d > 0,
    ensures
        2 * n - d <= 2 * d * round_half_away(n, d) <= 2 * n + d,
{
    let m: int = if n >= 0 {
        n
    } else {
        -n
    };
    let x = 2 * m + d;
    let y = 2 * d;
    let q = x / y;
    let r = x % y;
    lemma_fundamental_div_mod(x, y);
    assert(0 <= r < y) by (nonlinear_arith)
        requires
            r == x % y,
            y > 0,
    ;
    assert(2 * d * q == y * q) by (nonlinear_arith)
        requires
            y == 2 * d,
    ;
    assert(2 * d * (-q) == -(y * q)) by (nonlinear_arith)
        requires
            y == 2 * d,
    ;
}

/// Scaling a quantity to the servings it is written for only rounds it to
/// hundredths: the result is within half a hundredth of the quantity, and
/// scaling it once more changes nothing.
pub proof fn lemma_scaled_same_servings(micros: int, base: int)
    requires
        i64::MIN <= micros <= i64::MAX,
        base >= 1,
    ensures
        scaled_micros(micros, base, base) == clamp_micros(
            MICROS_PER_HUNDREDTH * round_half_away(micros, MICROS_PER_HUNDREDTH as int),
        ),
        -5_000 <= scaled_micros(micros, base, base) - micros <= 5_000,
        scaled_micros(scaled_micros(micros, base, base), base, base) == scaled_micros(
            micros,
            base,
            base,
        ),
{
    let h: int = MICROS_PER_HUNDREDTH as int;
    lemma_round_cancel(micros, h, base);
    assert(base * h == h * base) by (nonlinear_arith);
    lemma_round_is_nearest(micros, h);
    let once = scaled_micros(micros, base, base);
    lemma_round_cancel(once, h, base);
}

/// Doubling the servings asked for doubles the scaled quantity, to within
/// one hundredth, as long as the doubled quantity is in range.
pub proof fn lemma_scaled_doubling(micros: int, base: int, configured: int)
    requires
        i64::MIN <= micros <= i64::MAX,
        base >= 1,
        configured >= 0,
        scaling_fits(micros, base, 2 * configured),
    ensures
        -MICROS_PER_HUNDREDTH <= scaled_micros(micros, base, 2 * configured) - 2 * scaled_micros(
            micros,
            base,
            configured,
        ) <= MICROS_PER_HUNDREDTH,
{
    let n = micros * configured;
    let d = base * MICROS_PER_HUNDREDTH;
    assert(micros * (2 * configured) == 2 * n) by (nonlinear_arith)
        requires
            n == micros * configured,
    ;
    let r1 = round_half_away(n, d);
    let r2 = round_half_away(2 * n, d);
    lemma_round_is_nearest(n, d);
    lemma_round_is_nearest(2 * n, d);
    assert(-1 <= r2 - 2 * r1 <= 1) by (nonlinear_arith)
        requires
            d > 0,
            2 * n - d <= 2 * d * r1 <= 2 * n + d,
            4 * n - d <= 2 * d * r2 <= 4 * n + d,
    ;
}

impl Quantity {
    /// The quantity of `micros` millionths.
    pub fn from_micros(micros: i64) -> (q: Quantity)
        ensures
            q.micros == micros,
    {
        Quantity { micros }
    }

    /// This quantity, written for `base` servings, restated for `configured`
    /// servings: `self / base * configured`, rounded to hundredths with ties
    /// away from zero.
    pub fn scaled(self, base: u8, configured: u8) -> (q: Quantity)
        requires
            base > 0,
        ensures
            q.micros == scaled_micros(self.micros as int, base as int, configured as int),
    {
        let negative: bool = self.micros < 0;
        let magnitude: u128 = if negative {
            (-(self.micros as i128)) as u128
        } else {
            self.micros as u128
        };
        assert(magnitude * configured <= 0x8000_0000_0000_0000 * 255) by (nonlinear_arith)
            requires
                magnitude <= 0x8000_0000_0000_0000,
                configured <= 255,
        ;
        let n: u128 = magnitude * (configured as u128);
        let d: u128 = (base as u128) * 10_000u128;
        let hundredths: u128 = (2 * n + d) / (2 * d);
        proof {
            let mi = self.micros as int;
            let ni = mi * (configured as int);
            assert(d == base * MICROS_PER_HUNDREDTH);
            if negative {
                assert(ni <= 0) by (nonlinear_arith)
                    requires
                        mi < 0,
                        configured >= 0,
                        ni == mi * (configured as int),
                ;
                assert(n as int == -ni) by (nonlinear_arith)
                    requires
                        n as int == (-mi) * (configured as int),
                        ni == mi * (configured as int),
                ;
                if ni == 0 {
                    assert((d as int) / (2 * (d as int)) == 0) by (nonlinear_arith)
                        requires
                            d > 0,
                    ;
                }
                assert(round_half_away(ni, d as int) == -(hundredths as int));
            } else {
                assert(ni >= 0) by (nonlinear_arith)
                    requires
                        mi >= 0,
                        configured >= 0,
                        ni == mi * (configured as int),
                ;
                assert(n as int == ni);
                assert(round_half_away(ni, d as int) == hundredths as int);
            }
        }
        if hundredths > 922_337_203_685_477u128 {
            if negative {
                Quantity { micros: i64::MIN }
            } else {
                Quantity { micros: i64::MAX }
            }
        } else {
            let micros: i64 = (hundredths * 10_000u128) as i64;
            if negative {
                Quantity { micros: -micros }
            } else {
                Quantity { micros }
            }
        }
    }

    /// The quantity that the decimal numeral `s` spells: an optional sign,
    /// digits, and at most one point among them. Digits past the sixth
    /// fraction digit round to the nearest millionth, ties away from zero.
    /// `None` where `s` is no such numeral or spells more than `i64::MAX`
    /// millionths, with either sign.
    pub fn parse(s: &[char]) -> (r: Option<Quantity>)
        ensures
            r == quantity_of(s@),
    {
        let negative: bool = s.len() > 0 && s[0] == '-';
        let signed: bool = s.len() > 0 && (s[0] == '-' || s[0] == '+');
        let body: &[char] = if signed {
            slice_subrange(s, 1, s.len())
        } else {
            s
        };
        if signed {
            assert(s@.drop_first() == s@.subrange(1, s@.len() as int));
        }
        let parts: Vec<&[char]> = split_on(body, '.');
        proof {
            lemma_split_is_not_empty(body@, '.');
            assert(views(parts@).len() == parts@.len());
        }
        if parts.len() > 2 {
            return None;
        }
        let whole: &[char] = parts[0];
        let fraction: &[char] = if parts.len() == 2 {
            parts[1]
        } else {
            slice_subrange(body, 0, 0)
        };
        assert(whole@ == views(parts@)[0]);
        assert(parts@.len() == 2 ==> fraction@ == views(parts@)[1]);
        assert(whole@ == whole_digits(s@));
        assert(fraction@ == fraction_digits(s@));
        if !only_digits(whole) || !only_digits(fraction) {
            return None;
        }
        if whole.len() == 0 && fraction.len() == 0 {
            return None;
        }
        assert(is_decimal(s@));
        let kept_len: usize = if fraction.len() < 6 {
            fraction.len()
        } else {
            6
        };
        let kept: &[char] = slice_subrange(fraction, 0, kept_len);
        let limit: u128 = i64::MAX as u128;
        proof {
            lemma_decimal_rounding(whole@, fraction@);
            assert(kept@ == fraction@.take(kept_len as int));
            assert(fraction@.len() <= 6 ==> kept@ == fraction@);
            lemma_digits_value_concat(whole@, kept@);
            lemma_digits_value_bounds(whole@);
            assert forall|i: int| 0 <= i < kept@.len() implies is_digit(#[trigger] kept@[i]) by {
                assert(kept@[i] == fraction@[i]);
            }
            lemma_digits_value_bounds(kept@);
            lemma_pow10_positive(kept@.len());
            lemma_pow10_positive((6 - kept_len) as nat);
            reveal_with_fuel(pow10, 7);
        }
        let ghost dw = digits_value(whole@);
        let ghost dk = digits_value(kept@);
        let ghost pk = pow10(kept@.len());
        let ghost pad = pow10((6 - kept_len) as nat);
        let ghost up: int = if fraction@.len() > 6 && digit_value(fraction@[6]) >= 5 {
            1
        } else {
            0
        };
        proof {
            if fraction@.len() <= 6 {
                assert(kept@ == fraction@);
            } else {
                assert(pad == 1);
                assert((dw * pk + dk) * 1 == dw * pk + dk);
            }
        }
        assert(decimal_magnitude(s@) == (dw * pk + dk) * pad + up);
        let first: u128 = match append_digits(0, whole, limit) {
            Some(v) => v,
            None => {
                assert(0 * pow10(whole@.len()) == 0);
                assert((dw * pk + dk) * pad + up > i64::MAX) by (nonlinear_arith)
                    requires
                        dw > i64::MAX,
                        pk >= 1,
                        dk >= 0,
                        pad >= 1,
                        up >= 0,
                ;
                return None;
            },
        };
        assert(0 * pow10(whole@.len()) == 0);
        let second: u128 = match append_digits(first, kept, limit) {
            Some(v) => v,
            None => {
                assert((dw * pk + dk) * pad + up > i64::MAX) by (nonlinear_arith)
                    requires
                        dw * pk + dk > i64::MAX,
                        pad >= 1,
                        up >= 0,
                ;
                return None;
            },
        };
        let factor: u128 = if kept_len == 0 {
            1_000_000
        } else if kept_len == 1 {
            100_000
        } else if kept_len == 2 {
            10_000
        } else if kept_len == 3 {
            1_000
        } else if kept_len == 4 {
            100
        } else if kept_len == 5 {
            10
        } else {
            1
        };
        assert(factor == pad);
        let round_up: bool = fraction.len() > 6 && fraction[6] as u32 >= 0x35;
        assert(second * factor <= 0x8000_0000_0000_0000 * 1_000_000) by (nonlinear_arith)
            requires
                second <= 0x8000_0000_0000_0000,
                factor <= 1_000_000,
        ;
        let total: u128 = second * factor + if round_up {
            1u128
        } else {
            0u128
        };
        assert(total == decimal_magnitude(s@));
        if total > limit {
            return None;
        }
        if negative {
            Some(Quantity { micros: -(total as i64) })
        } else {
            Some(Quantity { micros: total as i64 })
        }
    }

    /// The sum of this quantity and `other`, kept in range.
    pub fn plus(self, other: Quantity) -> (q: Quantity)
        ensures
            q.micros == sum_micros(self.micros as int, other.micros as int),
    {
        let total: i128 = (self.micros as i128) + (other.micros as i128);
        if total > i64::MAX as i128 {
            Quantity { micros: i64::MAX }
        } else if total < i64::MIN as i128 {
            Quantity { micros: i64::MIN }
        } else {
            Quantity { micros: total as i64 }
        }
    }
}

} // verus!
