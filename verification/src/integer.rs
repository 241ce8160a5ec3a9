//! Arbitrary-precision integers used for amounts, times and choice values.
//!
//! The library keeps the sign and the base-2^32 magnitude digits as plain
//! values; the arithmetic itself is done by `num_bigint`.
use std::cmp::Ordering;
use num_bigint::{BigInt, BigUint, Sign};
use num_traits::{Signed, ToPrimitive};
use vstd::prelude::*;

verus! {

/// The value of little-endian base-2^32 digits.
pub open spec fn digits_value(digits: Seq<u32>) -> nat
    decreases digits.len(),
{
    if digits.len() == 0 {
        0
    } else {
        digits[0] as nat + 4294967296 * digits_value(digits.drop_first())
    }
}

/// A signed integer of any size: a sign and little-endian base-2^32 digits.
#[derive(Debug, Clone, PartialEq, Eq)]
pub struct Integer {
    negative: bool,
    digits: Vec<u32>,
}

impl View for Integer {
    type V = int;

    closed spec fn view(&self) -> int {
        if self.negative {
            -(digits_value(self.digits@) as int)
        } else {
            digits_value(self.digits@) as int
        }
    }
}

/// Truncating division, rounding the quotient towards zero.
pub open spec fn truncated_div(a: int, b: int) -> int {
    let q = (if a < 0 { -a } else { a }) / (if b < 0 { -b } else { b });
    if (a < 0) == (b < 0) { q } else { -q }
}

/// The decimal digits of a natural number, most significant first.
pub open spec fn nat_decimal(n: nat) -> Seq<char>
    decreases n,
{
    if n < 10 {
        seq![digit_char(n)]
    } else {
        nat_decimal(n / 10).push(digit_char(n % 10))
    }
}

pub open spec fn digit_char(d: nat) -> char {
    if d == 0 { '0' } else if d == 1 { '1' } else if d == 2 { '2' } else if d == 3 { '3' }
    else if d == 4 { '4' } else if d == 5 { '5' } else if d == 6 { '6' } else if d == 7 { '7' }
    else if d == 8 { '8' } else { '9' }
}

/// The decimal text of an integer: a leading `-` when negative.
pub open spec fn int_decimal(i: int) -> Seq<char> {
    if i < 0 {
        seq!['-'] + nat_decimal((-i) as nat)
    } else {
        nat_decimal(i as nat)
    }
}

pub open spec fn is_digit(c: char) -> bool {
    '0' <= c && c <= '9'
}

/// The value of decimal text whose characters are digits or `_` separators,
/// read most significant first; the separators are skipped.
pub open spec fn separated_digits_value(s: Seq<char>) -> nat
    decreases s.len(),
{
    if s.len() == 0 {
        0
    } else if s.last() == '_' {
        separated_digits_value(s.drop_last())
    } else {
        separated_digits_value(s.drop_last()) * 10 + ((s.last() as nat) - ('0' as nat)) as nat
    }
}

/// Unsigned decimal text: not empty, no leading `_`, only digits and `_`.
pub open spec fn unsigned_decimal(s: Seq<char>) -> Option<nat> {
    if s.len() > 0 && s[0] != '_' && (forall|i: int| 0 <= i < s.len() ==> is_digit(#[trigger] s[i]) || s[i] == '_') {
        Some(separated_digits_value(s))
    } else {
        None
    }
}

/// Unsigned text after an optional single `+`.
pub open spec fn plus_decimal(s: Seq<char>) -> Option<nat> {
    if s.len() > 0 && s[0] == '+' {
        if s.len() > 1 && s[1] == '+' { None } else { unsigned_decimal(s.drop_first()) }
    } else {
        unsigned_decimal(s)
    }
}

/// The integer that decimal text denotes, if it is well formed: an optional
/// `-` (not followed by `+`) or `+`, then digits with optional `_` separators.
pub open spec fn decimal_integer(s: Seq<char>) -> Option<int> {
    if s.len() > 0 && s[0] == '-' {
        let tail = s.drop_first();
        if tail.len() > 0 && tail[0] == '+' {
            None
        } else {
            match unsigned_decimal(tail) {
                Some(n) => Some(-(n as int)),
                None => None,
            }
        }
    } else {
        match plus_decimal(s) {
            Some(n) => Some(n as int),
            None => None,
        }
    }
}

impl Integer {
    /// Zero.
    pub fn zero() -> (r: Integer)
        ensures
            r@ == 0,
    {
        Integer { negative: false, digits: Vec::new() }
    }

    /// `BigInt::from(i64)`.
    #[verifier::external_body]
    pub fn from_i64(value: i64) -> (r: Integer)
        ensures
            r@ == value as int,
    {
        let (sign, magnitude) = BigInt::from(value).into_parts();
        Integer { negative: sign == Sign::Minus, digits: magnitude.to_u32_digits() }
    }

    /// `BigInt::from(u64)`.
    #[verifier::external_body]
    pub fn from_u64(value: u64) -> (r: Integer)
        ensures
            r@ == value as int,
    {
        let (sign, magnitude) = BigInt::from(value).into_parts();
        Integer { negative: sign == Sign::Minus, digits: magnitude.to_u32_digits() }
    }

    /// `str::parse::<BigInt>`: decimal text with an optional sign.
    #[verifier::external_body]
    pub fn parse_decimal(text: &str) -> (r: Option<Integer>)
        ensures
            match r {
                Some(v) => decimal_integer(text@) == Some(v@),
                None => decimal_integer(text@) is None,
            },
    {
        let (sign, magnitude) = text.parse::<BigInt>().ok()?.into_parts();
        Some(Integer { negative: sign == Sign::Minus, digits: magnitude.to_u32_digits() })
    }

    /// `BigInt::to_string`: the decimal text of the value.
    #[verifier::external_body]
    pub fn to_decimal(&self) -> (r: String)
        ensures
            r@ == int_decimal(self@),
    {
        let sign = if self.negative { Sign::Minus } else { Sign::Plus };
        BigInt::from_biguint(sign, BigUint::new(self.digits.clone())).to_string()
    }

    /// `ToPrimitive::to_i64`: the value when it fits in an `i64`.
    #[verifier::external_body]
    pub fn to_i64(&self) -> (r: Option<i64>)
        ensures
            match r {
                Some(v) => v as int == self@,
                None => self@ < i64::MIN || self@ > i64::MAX,
            },
    {
        let sign = if self.negative { Sign::Minus } else { Sign::Plus };
        BigInt::from_biguint(sign, BigUint::new(self.digits.clone())).to_i64()
    }

    /// `BigInt + BigInt`.
    #[verifier::external_body]
    pub fn add(&self, other: &Integer) -> (r: Integer)
        ensures
            r@ == self@ + other@,
    {
        let big = |x: &Integer| BigInt::from_biguint(if x.negative { Sign::Minus } else { Sign::Plus }, BigUint::new(x.digits.clone()));
        let (a, b) = (big(self), big(other));
        let (sign, magnitude) = (a + b).into_parts();
        Integer { negative: sign == Sign::Minus, digits: magnitude.to_u32_digits() }
    }

    /// `BigInt - BigInt`.
    #[verifier::external_body]
    pub fn sub(&self, other: &Integer) -> (r: Integer)
        ensures
            r@ == self@ - other@,
    {
        let big = |x: &Integer| BigInt::from_biguint(if x.negative { Sign::Minus } else { Sign::Plus }, BigUint::new(x.digits.clone()));
        let (a, b) = (big(self), big(other));
        let (sign, magnitude) = (a - b).into_parts();
        Integer { negative: sign == Sign::Minus, digits: magnitude.to_u32_digits() }
    }

    /// `BigInt * BigInt`.
    #[verifier::external_body]
    pub fn mul(&self, other: &Integer) -> (r: Integer)
        ensures
            r@ == self@ * other@,
    {
        let big = |x: &Integer| BigInt::from_biguint(if x.negative { Sign::Minus } else { Sign::Plus }, BigUint::new(x.digits.clone()));
        let (a, b) = (big(self), big(other));
        let (sign, magnitude) = (a * b).into_parts();
        Integer { negative: sign == Sign::Minus, digits: magnitude.to_u32_digits() }
    }

    /// `BigInt / BigInt`, which rounds towards zero and panics on a zero divisor.
    #[verifier::external_body]
    pub fn div(&self, other: &Integer) -> (r: Integer)
        requires
            other@ != 0,
        ensures
            r@ == truncated_div(self@, other@),
    {
        let big = |x: &Integer| BigInt::from_biguint(if x.negative { Sign::Minus } else { Sign::Plus }, BigUint::new(x.digits.clone()));
        let (a, b) = (big(self), big(other));
        let (sign, magnitude) = (a / b).into_parts();
        Integer { negative: sign == Sign::Minus, digits: magnitude.to_u32_digits() }
    }

    /// `-BigInt`.
    #[verifier::external_body]
    pub fn neg(&self) -> (r: Integer)
        ensures
            r@ == -self@,
    {
        let a = BigInt::from_biguint(if self.negative { Sign::Minus } else { Sign::Plus }, BigUint::new(self.digits.clone()));
        let (sign, magnitude) = (-a).into_parts();
        Integer { negative: sign == Sign::Minus, digits: magnitude.to_u32_digits() }
    }

    /// `Signed::abs`.
    #[verifier::external_body]
    pub fn abs(&self) -> (r: Integer)
        ensures
            r@ == (if self@ < 0 { -self@ } else { self@ }),
    {
        let a = BigInt::from_biguint(if self.negative { Sign::Minus } else { Sign::Plus }, BigUint::new(self.digits.clone()));
        let (sign, magnitude) = a.abs().into_parts();
        Integer { negative: sign == Sign::Minus, digits: magnitude.to_u32_digits() }
    }

    /// `Ord::cmp` on the two values, as -1, 0 or 1.
    #[verifier::external_body]
    pub fn compare(&self, other: &Integer) -> (r: i8)
        ensures
            r == -1 <==> self@ < other@,
            r == 0 <==> self@ == other@,
            r == 1 <==> self@ > other@,
    {
        let big = |x: &Integer| BigInt::from_biguint(if x.negative { Sign::Minus } else { Sign::Plus }, BigUint::new(x.digits.clone()));
        match big(self).cmp(&big(other)) {
            Ordering::Less => -1,
            Ordering::Equal => 0,
            Ordering::Greater => 1,
        }
    }

    /// A copy with the same value.
    pub fn duplicate(&self) -> (r: Integer)
        ensures
            r@ == self@,
    {
        Integer { negative: self.negative, digits: self.digits.clone() }
    }

    pub fn lt(&self, other: &Integer) -> (r: bool)
        ensures
            r == (self@ < other@),
    {
        self.compare(other) == -1
    }

    pub fn le(&self, other: &Integer) -> (r: bool)
        ensures
            r == (self@ <= other@),
    {
        self.compare(other) != 1
    }

    pub fn equals(&self, other: &Integer) -> (r: bool)
        ensures
            r == (self@ == other@),
    {
        self.compare(other) == 0
    }

    pub fn is_positive(&self) -> (r: bool)
        ensures
            r == (self@ > 0),
    {
        let zero = Integer::zero();
        self.compare(&zero) == 1
    }
}

} // verus!
