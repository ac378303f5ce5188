//! Exact decimal numbers.
//!
//! A number is an integer mantissa with a decimal scale: it stands for
//! `mantissa / 10^scale`. The arithmetic itself is done by `rust_decimal`.

use vstd::prelude::*;
use vstd::arithmetic::power::pow;
use crate::text::count_text;
use rust_decimal::Decimal;
use std::str::FromStr;

verus! {

/// The largest mantissa that a number can hold: 96 bits.
pub const MAX_MANTISSA: i128 = 0xFFFF_FFFF_FFFF_FFFF_FFFF_FFFF;

/// The largest scale that a number can hold.
pub const MAX_SCALE: u32 = 28;

/// A number as a pair of mathematical integers.
pub struct NumberView {
    pub mantissa: int,
    pub scale: nat,
}

/// An exact decimal number.
#[derive(Clone, Copy, Debug)]
pub struct Number {
    mantissa: i128,
    scale: u32,
}

impl View for Number {
    type V = NumberView;

    closed spec fn view(&self) -> NumberView {
        NumberView { mantissa: self.mantissa as int, scale: self.scale as nat }
    }
}

/// The sum that `Decimal::checked_add` gives for two numbers, or `None`
/// where it reports an overflow.
pub uninterp spec fn decimal_sum(am: int, asc: nat, bm: int, bsc: nat) -> Option<(int, nat)>;

/// The difference that `Decimal::checked_sub` gives for two numbers.
pub uninterp spec fn decimal_difference(am: int, asc: nat, bm: int, bsc: nat) -> Option<(int, nat)>;

/// The product that `Decimal::checked_mul` gives for two numbers.
pub uninterp spec fn decimal_product(am: int, asc: nat, bm: int, bsc: nat) -> Option<(int, nat)>;

/// The quotient that `Decimal::checked_div` gives for two numbers, or `None`
/// where it reports an overflow or a division by zero.
pub uninterp spec fn decimal_quotient(am: int, asc: nat, bm: int, bsc: nat) -> Option<(int, nat)>;

/// The number that `Decimal::from_str` reads from a text, or `None` where
/// it refuses the text.
pub uninterp spec fn decimal_parse(text: Seq<char>) -> Option<(int, nat)>;

/// A named result as a number.
pub open spec fn as_number(r: Option<(int, nat)>) -> Option<NumberView> {
    match r {
        Some(p) => Some(NumberView { mantissa: p.0, scale: p.1 }),
        None => None,
    }
}

/// The view of an optional number.
pub open spec fn number_view(r: Option<Number>) -> Option<NumberView> {
    match r {
        Some(n) => Some(n@),
        None => None,
    }
}

/// `a < b` as numbers.
pub open spec fn number_less(a: NumberView, b: NumberView) -> bool {
    a.mantissa * pow(10, b.scale) < b.mantissa * pow(10, a.scale)
}

/// `a == b` as numbers: `1.0` and `1.00` are the same number.
pub open spec fn number_same(a: NumberView, b: NumberView) -> bool {
    a.mantissa * pow(10, b.scale) == b.mantissa * pow(10, a.scale)
}

/// `a + b`, where it can be represented.
pub open spec fn number_sum(a: NumberView, b: NumberView) -> Option<NumberView> {
    as_number(decimal_sum(a.mantissa, a.scale, b.mantissa, b.scale))
}

/// `a - b`, where it can be represented.
pub open spec fn number_difference(a: NumberView, b: NumberView) -> Option<NumberView> {
    as_number(decimal_difference(a.mantissa, a.scale, b.mantissa, b.scale))
}

/// `a * b`, where it can be represented.
pub open spec fn number_product(a: NumberView, b: NumberView) -> Option<NumberView> {
    as_number(decimal_product(a.mantissa, a.scale, b.mantissa, b.scale))
}

/// `a / b`, where it is defined and can be represented.
pub open spec fn number_quotient(a: NumberView, b: NumberView) -> Option<NumberView> {
    as_number(decimal_quotient(a.mantissa, a.scale, b.mantissa, b.scale))
}

/// The digits of a number without its sign and its point: those of the
/// mantissa, with zeros before them where there are not more of them
/// than the scale, so that a digit is left to stand before the point.
pub open spec fn number_digits(a: NumberView) -> Seq<char> {
    let digits = count_text(vstd::math::abs(a.mantissa) as nat);
    if digits.len() <= a.scale {
        Seq::new((a.scale + 1 - digits.len()) as nat, |i: int| '0') + digits
    } else {
        digits
    }
}

/// The text of a number: a minus sign where the number is below zero,
/// then its digits, with a point before the last `scale` of them where
/// the scale is not zero. There is no exponent, and the zeros at the end
/// stay: `1.50` is written as it is.
pub open spec fn number_text(a: NumberView) -> Seq<char> {
    let digits = number_digits(a);
    let point = digits.len() - a.scale;
    let sign = if a.mantissa < 0 {
        seq!['-']
    } else {
        Seq::<char>::empty()
    };
    if a.scale == 0 {
        sign + digits
    } else {
        sign + digits.subrange(0, point) + seq!['.'] + digits.subrange(point, digits.len() as int)
    }
}

/// The number that a text denotes, if it denotes one.
pub open spec fn number_parse(text: Seq<char>) -> Option<NumberView> {
    as_number(decimal_parse(text))
}

impl Number {
    /// Every number keeps its mantissa within 96 bits and its scale at 28
    /// or below, the range that `rust_decimal` represents.
    #[verifier::type_invariant]
    closed spec fn in_range(self) -> bool {
        -MAX_MANTISSA <= self.mantissa <= MAX_MANTISSA && self.scale <= MAX_SCALE
    }

    /// The number `mantissa / 10^scale`, if it is in range.
    pub fn new(mantissa: i128, scale: u32) -> (r: Option<Number>)
        ensures
            r is Some <==> -MAX_MANTISSA <= mantissa <= MAX_MANTISSA && scale <= MAX_SCALE,
            r matches Some(n) ==> n@.mantissa == mantissa && n@.scale == scale,
    {
        if -MAX_MANTISSA <= mantissa && mantissa <= MAX_MANTISSA && scale <= MAX_SCALE {
            Some(Number { mantissa, scale })
        } else {
            None
        }
    }

    /// The whole number `n`.
    pub fn from_i64(n: i64) -> (r: Number)
        ensures
            r@.mantissa == n,
            r@.scale == 0,
    {
        Number { mantissa: n as i128, scale: 0 }
    }

    /// The mantissa.
    pub fn mantissa(&self) -> (m: i128)
        ensures
            m == self@.mantissa,
            -MAX_MANTISSA <= m <= MAX_MANTISSA,
    {
        proof {
            use_type_invariant(self);
        }
        self.mantissa
    }

    /// The scale.
    pub fn scale(&self) -> (s: u32)
        ensures
            s == self@.scale,
            s <= MAX_SCALE,
    {
        proof {
            use_type_invariant(self);
        }
        self.scale
    }

    /// Adds with `Decimal::checked_add`: the result is what it gives for
    /// the two numbers, and `None` where it reports an overflow. A number
    /// is always in the range of `Decimal`, so making a `Decimal` of it
    /// does not fail, here and below; and the numbers handed out are those
    /// that a `Decimal` holds, so they are in range.
    #[verifier::external_body]
    pub(crate) fn checked_add(self, other: Number) -> (r: Option<Number>)
        ensures
            number_view(r) == as_number(
                decimal_sum(self@.mantissa, self@.scale, other@.mantissa, other@.scale),
            ),
    {
        let a = Decimal::from_i128_with_scale(self.mantissa, self.scale);
        let b = Decimal::from_i128_with_scale(other.mantissa, other.scale);
        a.checked_add(b).map(|d| Number { mantissa: d.mantissa(), scale: d.scale() })
    }

    /// Subtracts with `Decimal::checked_sub`: the result is what it gives
    /// for the two numbers, and `None` where it reports an overflow.
    #[verifier::external_body]
    pub(crate) fn checked_sub(self, other: Number) -> (r: Option<Number>)
        ensures
            number_view(r) == as_number(
                decimal_difference(self@.mantissa, self@.scale, other@.mantissa, other@.scale),
            ),
    {
        let a = Decimal::from_i128_with_scale(self.mantissa, self.scale);
        let b = Decimal::from_i128_with_scale(other.mantissa, other.scale);
        a.checked_sub(b).map(|d| Number { mantissa: d.mantissa(), scale: d.scale() })
    }

    /// Multiplies with `Decimal::checked_mul`: the result is what it
    /// gives for the two numbers, and `None` where it reports an overflow.
    #[verifier::external_body]
    pub(crate) fn checked_mul(self, other: Number) -> (r: Option<Number>)
        ensures
            number_view(r) == as_number(
                decimal_product(self@.mantissa, self@.scale, other@.mantissa, other@.scale),
            ),
    {
        let a = Decimal::from_i128_with_scale(self.mantissa, self.scale);
        let b = Decimal::from_i128_with_scale(other.mantissa, other.scale);
        a.checked_mul(b).map(|d| Number { mantissa: d.mantissa(), scale: d.scale() })
    }

    /// Divides with `Decimal::checked_div`: the result is what it gives
    /// for the two numbers, and `None` where it reports an overflow or a
    /// zero divisor.
    #[verifier::external_body]
    pub(crate) fn checked_div(self, other: Number) -> (r: Option<Number>)
        ensures
            number_view(r) == as_number(
                decimal_quotient(self@.mantissa, self@.scale, other@.mantissa, other@.scale),
            ),
    {
        let a = Decimal::from_i128_with_scale(self.mantissa, self.scale);
        let b = Decimal::from_i128_with_scale(other.mantissa, other.scale);
        a.checked_div(b).map(|d| Number { mantissa: d.mantissa(), scale: d.scale() })
    }

    /// Compares with `Decimal`'s `<`, which orders decimals by the numbers
    /// they stand for, whatever their scales.
    #[verifier::external_body]
    pub(crate) fn less_than(self, other: Number) -> (r: bool)
        ensures
            r == number_less(self@, other@),
    {
        let a = Decimal::from_i128_with_scale(self.mantissa, self.scale);
        let b = Decimal::from_i128_with_scale(other.mantissa, other.scale);
        a < b
    }

    /// Compares with `Decimal`'s `==`, which holds when both stand for the
    /// same number, whatever their scales.
    #[verifier::external_body]
    pub(crate) fn same_as(self, other: Number) -> (r: bool)
        ensures
            r == number_same(self@, other@),
    {
        let a = Decimal::from_i128_with_scale(self.mantissa, self.scale);
        let b = Decimal::from_i128_with_scale(other.mantissa, other.scale);
        a == b
    }

    /// Writes the number with `Decimal`'s `Display`, which writes a minus
    /// sign for a number below zero, then the digits of the mantissa,
    /// filled up with zeros to one more than the scale, and a point before
    /// the last `scale` digits where the scale is not zero.
    #[verifier::external_body]
    pub(crate) fn to_text(self) -> (s: String)
        ensures
            s@ == number_text(self@),
    {
        Decimal::from_i128_with_scale(self.mantissa, self.scale).to_string()
    }

    /// Reads a number with `Decimal::from_str`: the result is the number
    /// that it reads from the text, and `None` where it refuses the text.
    #[verifier::external_body]
    pub(crate) fn from_text(text: &str) -> (r: Option<Number>)
        ensures
            number_view(r) == as_number(decimal_parse(text@)),
    {
        Decimal::from_str(text).ok().map(|d| Number { mantissa: d.mantissa(), scale: d.scale() })
    }
}

} // verus!
