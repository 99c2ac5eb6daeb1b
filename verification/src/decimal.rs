//! Money as decimal text: reading an amount from text, and writing one.

use bigdecimal::num_bigint::BigInt;
use bigdecimal::{BigDecimal, ToPrimitive};
use vstd::arithmetic::div_mod::{
    lemma_basic_div, lemma_div_denominator, lemma_fundamental_div_mod, lemma_mod_bound,
};
use vstd::prelude::*;

use crate::money::{representable, Money};

verus! {

/// What the decimal parser of `bigdecimal` reads from a text: the digits as a
/// signed integer and the scale (the count of digits after the point, less any
/// exponent), or `None` where the text is no decimal number or its digits do
/// not fit 128 bits.
pub uninterp spec fn decimal_parts(text: Seq<char>) -> Option<(i128, i64)>;

/// The text `bigdecimal` writes for an amount of this many hundredths.
pub uninterp spec fn decimal_text(minor_units: i128) -> Seq<char>;

/// Calls `BigDecimal`'s `FromStr` (through `str::parse`), splits the result
/// with `BigDecimal::into_bigint_and_exponent` and narrows the digits with
/// `BigInt::to_i128`. Trusted: the result is a function of the text alone,
/// named [`decimal_parts`].
#[verifier::external_body]
fn parse_decimal(text: &str) -> (r: Option<(i128, i64)>)
    ensures
        r == decimal_parts(text@),
{
    text.parse::<BigDecimal>().ok().and_then(
        |parsed| {
            let (digits, scale) = parsed.into_bigint_and_exponent();
            digits.to_i128().map(|narrow| (narrow, scale))
        },
    )
}

/// Calls `BigDecimal::new` on the hundredths with scale 2 and formats it with
/// its `Display`. Trusted: the result is a function of the number alone (for
/// the formatting thresholds `bigdecimal` was built with), named
/// [`decimal_text`].
#[verifier::external_body]
fn format_decimal(minor_units: i128) -> (s: String)
    ensures
        s@ == decimal_text(minor_units),
{
    BigDecimal::new(BigInt::from(minor_units), 2).to_string()
}

/// Ten to the power `k`.
pub open spec fn pow10(k: nat) -> int
    decreases k,
{
    if k == 0 {
        1
    } else {
        10 * pow10((k - 1) as nat)
    }
}

/// The quotient of `n` by a positive `d`, rounded toward zero.
pub open spec fn truncated(n: int, d: int) -> int {
    if n >= 0 {
        n / d
    } else {
        -((-n) / d)
    }
}

/// The count of hundredths in the decimal of these digits and scale: digits
/// beyond the second after the point are dropped, missing ones are zeros.
pub open spec fn hundredths(digits: int, scale: int) -> int {
    if scale <= 2 {
        digits * pow10((2 - scale) as nat)
    } else {
        truncated(digits, pow10((scale - 2) as nat))
    }
}

/// The money a parsed decimal stands for, where it is representable.
pub open spec fn money_of_parts(parts: Option<(i128, i64)>) -> Option<Money> {
    match parts {
        None => None,
        Some((digits, scale)) => if representable(hundredths(digits as int, scale as int)) {
            Some(Money { minor_units: hundredths(digits as int, scale as int) as i128 })
        } else {
            None
        },
    }
}

/// Powers of ten are positive and grow with the exponent.
pub proof fn lemma_pow10_grows(a: nat, b: nat)
    requires
        a <= b,
    ensures
        0 < pow10(a) <= pow10(b),
    decreases b,
{
    if b == 0 {
    } else if a == b {
        lemma_pow10_grows(0, (b - 1) as nat);
    } else {
        lemma_pow10_grows(a, (b - 1) as nat);
    }
}

/// A product with a power of ten that left the representable range stays out
/// of it for every higher power.
proof fn lemma_out_of_range_stays(digits: int, a: nat, b: nat)
    requires
        digits != 0,
        a <= b,
        !representable(digits * pow10(a)),
    ensures
        !representable(digits * pow10(b)),
{
    lemma_pow10_grows(a, b);
    lemma_pow10_grows(0, a);
    let low = pow10(a);
    let high = pow10(b);
    if digits > 0 {
        assert(digits * high >= digits * low) by (nonlinear_arith)
            requires
                digits > 0,
                high >= low,
        {}
        assert(digits * low > 0) by (nonlinear_arith)
            requires
                digits > 0,
                low > 0,
        {}
    } else {
        assert(digits * high <= digits * low) by (nonlinear_arith)
            requires
                digits < 0,
                high >= low,
        {}
        assert(digits * low < 0) by (nonlinear_arith)
            requires
                digits < 0,
                low > 0,
        {}
    }
}

/// A magnitude that a power of ten already divides down to zero is divided
/// down to zero by every higher power.
proof fn lemma_zero_stays(magnitude: int, a: nat, b: nat)
    requires
        magnitude >= 0,
        a <= b,
        magnitude / pow10(a) == 0,
    ensures
        magnitude / pow10(b) == 0,
{
    lemma_pow10_grows(a, b);
    lemma_fundamental_div_mod(magnitude, pow10(a));
    lemma_mod_bound(magnitude, pow10(a));
    assert(pow10(a) * 0 == 0);
    lemma_basic_div(magnitude, pow10(b));
}

/// The hundredths of a decimal given by its digits and scale, or `None` where
/// they are not representable.
pub fn to_hundredths(digits: i128, scale: i64) -> (r: Option<i128>)
    ensures
        representable(hundredths(digits as int, scale as int)) ==> r == Some(
            hundredths(digits as int, scale as int) as i128,
        ),
        !representable(hundredths(digits as int, scale as int)) ==> r.is_none(),
{
    if digits == 0 {
        proof {
            let k = if scale <= 2 {
                (2 - scale) as nat
            } else {
                (scale - 2) as nat
            };
            lemma_pow10_grows(0, k);
            assert(0 * pow10(k) == 0) by (nonlinear_arith);
            lemma_basic_div(0, pow10(k));
        }
        return Some(0);
    }
    if scale <= 2 {
        let steps: i128 = 2 - (scale as i128);
        let mut value: i128 = digits;
        let mut i: i128 = 0;
        assert(digits * pow10(0) == digits) by (nonlinear_arith)
            requires
                pow10(0) == 1,
        {}
        while i < steps
            invariant
                0 <= i <= steps,
                steps == 2 - scale,
                digits != 0,
                value == digits * pow10(i as nat),
            decreases steps - i,
        {
            assert(digits * pow10((i + 1) as nat) == value * 10) by (nonlinear_arith)
                requires
                    value == digits * pow10(i as nat),
                    pow10((i + 1) as nat) == 10 * pow10(i as nat),
            {}
            match value.checked_mul(10) {
                None => {
                    proof {
                        lemma_out_of_range_stays(digits as int, (i + 1) as nat, steps as nat);
                    }
                    return None;
                },
                Some(next) => {
                    value = next;
                },
            }
            i = i + 1;
        }
        Some(value)
    } else {
        let steps: i128 = (scale as i128) - 2;
        let negative = digits < 0;
        let mut magnitude: u128 = if negative {
            ((-(digits + 1)) as u128) + 1
        } else {
            digits as u128
        };
        let ghost whole: int = magnitude as int;
        let mut i: i128 = 0;
        assert(whole / pow10(0) == whole) by {
            assert(pow10(0) == 1);
        }
        while i < steps && magnitude > 0
            invariant
                0 <= i <= steps,
                whole >= 0,
                magnitude == whole / pow10(i as nat),
                i == 0 ==> magnitude == whole,
                i > 0 ==> magnitude <= i128::MAX,
            decreases steps - i,
        {
            proof {
                lemma_pow10_grows(0, i as nat);
                lemma_div_denominator(whole, pow10(i as nat), 10);
                assert(pow10((i + 1) as nat) == pow10(i as nat) * 10) by (nonlinear_arith)
                    requires
                        pow10((i + 1) as nat) == 10 * pow10(i as nat),
                {}
            }
            magnitude = magnitude / 10;
            i = i + 1;
        }
        proof {
            if i < steps {
                lemma_zero_stays(whole, i as nat, steps as nat);
            }
        }
        assert(magnitude == whole / pow10(steps as nat));
        if negative {
            Some(0 - (magnitude as i128))
        } else {
            Some(magnitude as i128)
        }
    }
}

impl Money {
    /// The money a parsed decimal stands for: its value in hundredths, digits
    /// beyond the second after the point dropped, or `None` where nothing was
    /// parsed or the value is not representable.
    pub fn from_parts(parts: Option<(i128, i64)>) -> (r: Option<Money>)
        ensures
            r == money_of_parts(parts),
    {
        match parts {
            None => None,
            Some((digits, scale)) => match to_hundredths(digits, scale) {
                None => None,
                Some(minor_units) => Some(Money { minor_units }),
            },
        }
    }

    /// Reads an amount from decimal text such as `"99.99"`, `"-5"` or `"1e2"`.
    pub fn parse(text: &str) -> (r: Option<Money>)
        ensures
            r == money_of_parts(decimal_parts(text@)),
    {
        Money::from_parts(parse_decimal(text))
    }

    /// Writes the amount as decimal text.
    pub fn to_text(&self) -> (s: String)
        ensures
            s@ == decimal_text(self.minor_units),
    {
        format_decimal(self.minor_units)
    }
}

} // verus!
