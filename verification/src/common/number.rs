use super::decimal::{
    check_decimal_literal, is_decimal_literal, positional_of_scientific, scientific_to_positional,
};
use super::text::{from_chars, push_str, to_chars};
use rustc_apfloat::ieee::Double;
use rustc_apfloat::{Float, Round};
use vstd::prelude::*;

verus! {

/// The bit that holds the sign of a binary64 value.
pub const SIGN_BIT: u64 = 0x8000_0000_0000_0000;

/// The bit pattern of positive infinity: every exponent bit set, no fraction bit.
pub const INFINITY_BITS: u64 = 0x7ff0_0000_0000_0000;

/// A number of the language: an IEEE-754 binary64 value, held as its bit pattern.
#[derive(Clone, Copy, Debug)]
pub struct Number {
    pub bits: u64,
}

/// The pattern without its sign bit.
pub open spec fn magnitude(bits: u64) -> int {
    bits as int % 0x8000_0000_0000_0000
}

/// Whether the sign bit is set.
pub open spec fn sign_set(bits: u64) -> bool {
    bits >= 0x8000_0000_0000_0000
}

/// Not a number: every exponent bit set and some fraction bit set.
pub open spec fn is_nan_bits(bits: u64) -> bool {
    magnitude(bits) > 0x7ff0_0000_0000_0000
}

/// Positive or negative infinity.
pub open spec fn is_infinite_bits(bits: u64) -> bool {
    magnitude(bits) == 0x7ff0_0000_0000_0000
}

/// Positive or negative zero.
pub open spec fn is_zero_bits(bits: u64) -> bool {
    magnitude(bits) == 0
}

/// An integer that orders the values that are not NaN as IEEE-754 orders them:
/// both zeros share the key 0, and a larger value has a larger key.
pub open spec fn order_key(bits: u64) -> int {
    if sign_set(bits) {
        -magnitude(bits)
    } else {
        magnitude(bits)
    }
}

/// IEEE-754 `<`: false when either side is NaN.
pub open spec fn less_bits(a: u64, b: u64) -> bool {
    !is_nan_bits(a) && !is_nan_bits(b) && order_key(a) < order_key(b)
}

/// IEEE-754 `==`: false when either side is NaN, true of the two zeros.
pub open spec fn equal_bits(a: u64, b: u64) -> bool {
    !is_nan_bits(a) && !is_nan_bits(b) && order_key(a) == order_key(b)
}

/// The pattern with its sign bit flipped.
pub open spec fn negated_bits(bits: u64) -> u64 {
    if sign_set(bits) {
        (bits - 0x8000_0000_0000_0000) as u64
    } else {
        (bits + 0x8000_0000_0000_0000) as u64
    }
}

/// The binary64 sum of two patterns, rounded to nearest, ties to even.
pub uninterp spec fn ieee_sum(a: u64, b: u64) -> u64;

/// The binary64 difference of two patterns, rounded to nearest, ties to even.
pub uninterp spec fn ieee_difference(a: u64, b: u64) -> u64;

/// The binary64 product of two patterns, rounded to nearest, ties to even.
pub uninterp spec fn ieee_product(a: u64, b: u64) -> u64;

/// The binary64 quotient of two patterns, rounded to nearest, ties to even.
pub uninterp spec fn ieee_quotient(a: u64, b: u64) -> u64;

/// The binary64 value nearest to an integer.
pub uninterp spec fn ieee_from_integer(value: i64) -> u64;

/// The binary64 value nearest to a decimal literal.
pub uninterp spec fn ieee_from_decimal(text: Seq<char>) -> u64;

/// The text `d.ddddE+x` of a finite positive value, rounded to `precision`
/// significant digits.
pub uninterp spec fn ieee_scientific(bits: u64, precision: usize) -> Seq<char>;

/// The shortest positional numeral, of `precision` significant digits or more,
/// that reads back as the finite positive value `m`; from seventeen digits on, the
/// numeral is taken as it comes.
pub open spec fn shortest_numeral(m: u64, precision: usize) -> Seq<char>
    decreases 17 - precision,
{
    let numeral = positional_of_scientific(ieee_scientific(m, precision));
    if precision >= 17 {
        match numeral {
            Some(text) => text,
            None => "NaN"@,
        }
    } else if numeral.is_some() && ieee_from_decimal(numeral.unwrap()) == m {
        numeral.unwrap()
    } else {
        shortest_numeral(m, (precision + 1) as usize)
    }
}

/// How a number is written: `NaN`, `inf`, `-inf`, or a positional numeral with a
/// leading `-` where the sign bit is set.
pub open spec fn display_bits(bits: u64) -> Seq<char> {
    if is_nan_bits(bits) {
        "NaN"@
    } else {
        let sign = if sign_set(bits) {
            seq!['-']
        } else {
            Seq::<char>::empty()
        };
        if is_infinite_bits(bits) {
            sign + "inf"@
        } else if is_zero_bits(bits) {
            sign + "0"@
        } else {
            sign + shortest_numeral(magnitude(bits) as u64, 1)
        }
    }
}

/// The number that a text denotes: the text must be a decimal literal.
pub open spec fn parse_decimal(text: Seq<char>) -> Option<Number> {
    if is_decimal_literal(text) {
        Some(Number { bits: ieee_from_decimal(text) })
    } else {
        None
    }
}

/// Reads a decimal literal as a binary64 pattern.
///
/// Trusted: calls `Float::from_str_r` of `rustc_apfloat::ieee::Double` with
/// rounding to nearest, ties to even. The call reports an error for an empty
/// text, a second point, a character that is no digit, and an exponent
/// without digits before it; a decimal literal is none of these, so the
/// contract claims that a pattern comes back, and gives it a name.
#[verifier::external_body]
fn double_parse(text: &str) -> (r: Option<u64>)
    requires
        is_decimal_literal(text@),
    ensures
        r == Some(ieee_from_decimal(text@)),
{
    match Double::from_str_r(text, Round::NearestTiesToEven) {
        Ok(read) => Some(read.value.to_bits() as u64),
        Err(_) => None,
    }
}

/// Writes a finite positive value in scientific form.
///
/// Trusted: calls the `Display` impl of `rustc_apfloat::ieee::Double` with
/// width 0, which selects the form `d.ddddE+x`, and the given precision, the
/// number of significant digits. The contract gives the text a name and claims
/// nothing else of it.
#[verifier::external_body]
fn double_format(bits: u64, precision: usize) -> (r: String)
    requires
        !sign_set(bits),
        !is_nan_bits(bits),
        !is_infinite_bits(bits),
        !is_zero_bits(bits),
        1 <= precision <= 17,
    ensures
        r@ == ieee_scientific(bits, precision),
{
    format!("{:width$.precision$}", Double::from_bits(bits as u128), width = 0, precision = precision)
}

/// Adds two binary64 patterns.
///
/// Trusted: calls `Add::add` of `rustc_apfloat::ieee::Double`, which rounds to
/// nearest, ties to even. The contract gives the resulting pattern a name and
/// claims nothing else of it.
#[verifier::external_body]
fn double_add(a: u64, b: u64) -> (r: u64)
    ensures
        r == ieee_sum(a, b),
{
    (Double::from_bits(a as u128) + Double::from_bits(b as u128)).value.to_bits() as u64
}

/// Subtracts two binary64 patterns.
///
/// Trusted: calls `Sub::sub` of `rustc_apfloat::ieee::Double`. The contract
/// gives the resulting pattern a name and claims nothing else of it.
#[verifier::external_body]
fn double_sub(a: u64, b: u64) -> (r: u64)
    ensures
        r == ieee_difference(a, b),
{
    (Double::from_bits(a as u128) - Double::from_bits(b as u128)).value.to_bits() as u64
}

/// Multiplies two binary64 patterns.
///
/// Trusted: calls `Mul::mul` of `rustc_apfloat::ieee::Double`. The contract
/// gives the resulting pattern a name and claims nothing else of it.
#[verifier::external_body]
fn double_mul(a: u64, b: u64) -> (r: u64)
    ensures
        r == ieee_product(a, b),
{
    (Double::from_bits(a as u128) * Double::from_bits(b as u128)).value.to_bits() as u64
}

/// Divides two binary64 patterns.
///
/// Trusted: calls `Div::div` of `rustc_apfloat::ieee::Double`. The contract
/// gives the resulting pattern a name and claims nothing else of it.
#[verifier::external_body]
fn double_div(a: u64, b: u64) -> (r: u64)
    ensures
        r == ieee_quotient(a, b),
{
    (Double::from_bits(a as u128) / Double::from_bits(b as u128)).value.to_bits() as u64
}

/// Converts an integer to the nearest binary64 pattern.
///
/// Trusted: calls `Float::from_i128` of `rustc_apfloat::ieee::Double`. The
/// contract gives the resulting pattern a name and claims nothing else of it.
#[verifier::external_body]
fn double_from_i64(value: i64) -> (r: u64)
    ensures
        r == ieee_from_integer(value),
{
    Double::from_i128(value as i128).value.to_bits() as u64
}

impl Number {
    /// The number with the given bit pattern.
    pub fn from_bits(bits: u64) -> (r: Number)
        ensures
            r.bits == bits,
    {
        Number { bits }
    }

    /// The bit pattern of the number.
    pub fn to_bits(&self) -> (r: u64)
        ensures
            r == self.bits,
    {
        self.bits
    }

    /// Positive zero.
    pub fn zero() -> (r: Number)
        ensures
            r.bits == 0,
    {
        Number { bits: 0 }
    }

    /// The number nearest to an integer.
    pub fn from_integer(value: i64) -> (r: Number)
        ensures
            r.bits == ieee_from_integer(value),
    {
        Number { bits: double_from_i64(value) }
    }

    /// Whether the number is not a number.
    pub fn is_nan(&self) -> (r: bool)
        ensures
            r == is_nan_bits(self.bits),
    {
        self.bits % SIGN_BIT > INFINITY_BITS
    }

    /// Whether the number is an infinity.
    pub fn is_infinite(&self) -> (r: bool)
        ensures
            r == is_infinite_bits(self.bits),
    {
        self.bits % SIGN_BIT == INFINITY_BITS
    }

    /// Whether the number is a zero.
    pub fn is_zero(&self) -> (r: bool)
        ensures
            r == is_zero_bits(self.bits),
    {
        self.bits % SIGN_BIT == 0
    }

    /// Whether the sign bit is set.
    pub fn is_sign_negative(&self) -> (r: bool)
        ensures
            r == sign_set(self.bits),
    {
        self.bits >= SIGN_BIT
    }

    /// The number with the opposite sign; NaN keeps its payload.
    pub fn negate(&self) -> (r: Number)
        ensures
            r.bits == negated_bits(self.bits),
    {
        if self.bits >= SIGN_BIT {
            Number { bits: self.bits - SIGN_BIT }
        } else {
            Number { bits: self.bits + SIGN_BIT }
        }
    }

    /// `self < other` as IEEE-754 defines it.
    pub fn less_than(&self, other: &Number) -> (r: bool)
        ensures
            r == less_bits(self.bits, other.bits),
    {
        if self.is_nan() || other.is_nan() {
            return false;
        }
        let a: u64 = self.bits % SIGN_BIT;
        let b: u64 = other.bits % SIGN_BIT;
        if self.bits >= SIGN_BIT {
            if other.bits >= SIGN_BIT {
                b < a
            } else {
                a > 0 || b > 0
            }
        } else {
            if other.bits >= SIGN_BIT {
                false
            } else {
                a < b
            }
        }
    }

    /// `self == other` as IEEE-754 defines it.
    pub fn equals(&self, other: &Number) -> (r: bool)
        ensures
            r == equal_bits(self.bits, other.bits),
    {
        if self.is_nan() || other.is_nan() {
            return false;
        }
        let a: u64 = self.bits % SIGN_BIT;
        let b: u64 = other.bits % SIGN_BIT;
        if (self.bits >= SIGN_BIT) == (other.bits >= SIGN_BIT) {
            a == b
        } else {
            a == 0 && b == 0
        }
    }

    /// `self <= other` as IEEE-754 defines it.
    pub fn less_or_equal(&self, other: &Number) -> (r: bool)
        ensures
            r == (less_bits(self.bits, other.bits) || equal_bits(self.bits, other.bits)),
    {
        self.less_than(other) || self.equals(other)
    }

    /// The sum, rounded to nearest, ties to even.
    pub fn add(&self, other: &Number) -> (r: Number)
        ensures
            r.bits == ieee_sum(self.bits, other.bits),
    {
        Number { bits: double_add(self.bits, other.bits) }
    }

    /// The difference, rounded to nearest, ties to even.
    pub fn subtract(&self, other: &Number) -> (r: Number)
        ensures
            r.bits == ieee_difference(self.bits, other.bits),
    {
        Number { bits: double_sub(self.bits, other.bits) }
    }

    /// The product, rounded to nearest, ties to even.
    pub fn multiply(&self, other: &Number) -> (r: Number)
        ensures
            r.bits == ieee_product(self.bits, other.bits),
    {
        Number { bits: double_mul(self.bits, other.bits) }
    }

    /// The quotient, rounded to nearest, ties to even.
    pub fn divide(&self, other: &Number) -> (r: Number)
        ensures
            r.bits == ieee_quotient(self.bits, other.bits),
    {
        Number { bits: double_div(self.bits, other.bits) }
    }

    /// The number that a decimal literal denotes.
    pub fn from_literal(text: &str) -> (r: Number)
        requires
            is_decimal_literal(text@),
        ensures
            r.bits == ieee_from_decimal(text@),
    {
        match double_parse(text) {
            Some(bits) => Number { bits },
            None => unreached(),
        }
    }

    /// Reads a text as a number, where it is a decimal literal: digits, then
    /// optionally a point and more digits.
    pub fn parse(text: &str) -> (r: Option<Number>)
        ensures
            r == parse_decimal(text@),
    {
        let chars = to_chars(text);
        if !check_decimal_literal(chars.as_slice()) {
            return None;
        }
        Some(Number::from_literal(text))
    }

    /// Writes the number: the shortest numeral that reads back as the same value.
    pub fn to_string(&self) -> (r: String)
        ensures
            r@ == display_bits(self.bits),
    {
        let mut out: Vec<char> = Vec::new();
        if self.is_nan() {
            push_str(&mut out, "NaN");
            return from_chars(out.as_slice());
        }
        if self.bits >= SIGN_BIT {
            out.push('-');
        }
        let ghost sign = out@;
        assert(sign =~= if sign_set(self.bits) {
            seq!['-']
        } else {
            Seq::<char>::empty()
        });
        if self.is_infinite() {
            push_str(&mut out, "inf");
            return from_chars(out.as_slice());
        }
        if self.is_zero() {
            push_str(&mut out, "0");
            return from_chars(out.as_slice());
        }
        let m: u64 = self.bits % SIGN_BIT;
        let mut precision: usize = 1;
        while precision < 17
            invariant
                1 <= precision <= 17,
                m == magnitude(self.bits),
                m == magnitude(m),
                !sign_set(m),
                !is_nan_bits(m),
                !is_infinite_bits(m),
                !is_zero_bits(m),
                out@ == sign,
                display_bits(self.bits) == sign + shortest_numeral(m, 1),
                shortest_numeral(m, 1) == shortest_numeral(m, precision),
            decreases 17 - precision,
        {
            let text = double_format(m, precision);
            let chars = to_chars(text.as_str());
            match scientific_to_positional(chars.as_slice()) {
                Some(numeral) => {
                    let plain = from_chars(numeral.as_slice());
                    let back = double_parse(plain.as_str());
                    let same = match back {
                        Some(bits) => bits == m,
                        None => false,
                    };
                    if same {
                        push_str(&mut out, plain.as_str());
                        return from_chars(out.as_slice());
                    }
                },
                None => {},
            }
            precision += 1;
        }
        let text = double_format(m, precision);
        let chars = to_chars(text.as_str());
        match scientific_to_positional(chars.as_slice()) {
            Some(numeral) => {
                let plain = from_chars(numeral.as_slice());
                push_str(&mut out, plain.as_str());
            },
            None => {
                push_str(&mut out, "NaN");
            },
        }
        from_chars(out.as_slice())
    }
}

} // verus!
