//! Measured quantities, held by the bits of their binary floating-point form.
//!
//! Measuring and rounding them happens outside; what the rules need of them is their order.
use vstd::prelude::*;

verus! {

/// A double-precision number, by its IEEE 754 bits.
#[derive(Clone, Copy, Debug, PartialEq, Eq, Structural)]
pub struct Reading {
    pub bits: u64,
}

/// The magnitude bits of the number.
pub open spec fn magnitude(r: Reading) -> int {
    if r.bits >= 0x8000_0000_0000_0000 {
        r.bits - 0x8000_0000_0000_0000
    } else {
        r.bits as int
    }
}

/// Not a number at all.
pub open spec fn is_nan(r: Reading) -> bool {
    magnitude(r) > 0x7ff0_0000_0000_0000
}

/// Numbers are ordered as these integers are: both zeros are zero.
pub open spec fn rank(r: Reading) -> int {
    if r.bits >= 0x8000_0000_0000_0000 {
        -magnitude(r)
    } else {
        magnitude(r)
    }
}

/// `a > b` of two numbers.
pub open spec fn above(a: Reading, b: Reading) -> bool {
    !is_nan(a) && !is_nan(b) && rank(a) > rank(b)
}

impl Reading {
    fn key(self) -> (r: i128)
        ensures
            r == rank(self),
    {
        if self.bits >= 0x8000_0000_0000_0000 {
            -((self.bits - 0x8000_0000_0000_0000) as i128)
        } else {
            self.bits as i128
        }
    }

    fn nan(self) -> (r: bool)
        ensures
            r == is_nan(self),
    {
        let m: u64 = if self.bits >= 0x8000_0000_0000_0000 {
            self.bits - 0x8000_0000_0000_0000
        } else {
            self.bits
        };
        m > 0x7ff0_0000_0000_0000
    }

    /// Whether this number is greater than `other`.
    pub fn exceeds(self, other: Reading) -> (r: bool)
        ensures
            r == above(self, other),
    {
        !self.nan() && !other.nan() && self.key() > other.key()
    }

    /// Whether this number is greater than or equal to `other`.
    pub fn reaches(self, other: Reading) -> (r: bool)
        ensures
            r == (above(self, other) || (!is_nan(self) && !is_nan(other) && rank(self) == rank(
                other,
            ))),
    {
        !self.nan() && !other.nan() && self.key() >= other.key()
    }
}

/// A single-precision number, by its IEEE 754 bits.
#[derive(Clone, Copy, Debug, PartialEq, Eq, Structural)]
pub struct Fraction {
    pub bits: u32,
}

/// The number lies within 0..=1: from zero, of either sign, up to one.
pub open spec fn within_unit(f: Fraction) -> bool {
    f.bits <= 0x3f80_0000 || f.bits == 0x8000_0000
}

impl Fraction {
    /// Whether the number lies within 0..=1.
    pub fn in_unit(self) -> (r: bool)
        ensures
            r == within_unit(self),
    {
        self.bits <= 0x3f80_0000 || self.bits == 0x8000_0000
    }
}

/// A measured quantity, with what the screen shows of it.
#[derive(Debug, PartialEq)]
pub struct Quantity {
    pub value: Reading,
    /// Rounded to a whole number.
    pub rounded: i64,
    /// Written with one decimal.
    pub tenths: String,
    /// Moved into 0..=100 and written with one decimal.
    pub percent_tenths: String,
    /// Taken as hours: in minutes, rounded.
    pub minutes: i64,
    /// A thousand times as much.
    pub thousandfold: Reading,
    /// A thousand times as much, rounded.
    pub thousandfold_rounded: i64,
    /// Taken out of 255: in percent, rounded.
    pub percent: i64,
}

/// The model of a `Quantity`.
#[verifier::ext_equal]
pub struct QuantityV {
    pub value: Reading,
    pub rounded: i64,
    pub tenths: Seq<char>,
    pub percent_tenths: Seq<char>,
    pub minutes: i64,
    pub thousandfold: Reading,
    pub thousandfold_rounded: i64,
    pub percent: i64,
}

impl View for Quantity {
    type V = QuantityV;

    open spec fn view(&self) -> QuantityV {
        QuantityV {
            value: self.value,
            rounded: self.rounded,
            tenths: self.tenths@,
            percent_tenths: self.percent_tenths@,
            minutes: self.minutes,
            thousandfold: self.thousandfold,
            thousandfold_rounded: self.thousandfold_rounded,
            percent: self.percent,
        }
    }
}

/// A quantity that may be missing, by its model.
pub open spec fn opt_quantity(q: Option<Quantity>) -> Option<QuantityV> {
    match q {
        Some(q) => Some(q@),
        None => None,
    }
}

/// A quantity that may be missing, by its model.
pub open spec fn ref_quantity(q: Option<&Quantity>) -> Option<QuantityV> {
    match q {
        Some(q) => Some(q@),
        None => None,
    }
}

impl Clone for Quantity {
    /// The same quantity again.
    fn clone(&self) -> (r: Quantity)
        ensures
            r@ == self@,
    {
        Quantity {
            value: self.value,
            rounded: self.rounded,
            tenths: self.tenths.clone(),
            percent_tenths: self.percent_tenths.clone(),
            minutes: self.minutes,
            thousandfold: self.thousandfold,
            thousandfold_rounded: self.thousandfold_rounded,
            percent: self.percent,
        }
    }
}

/// Zero.
pub open spec fn zero() -> Reading {
    Reading { bits: 0 }
}

} // verus!
