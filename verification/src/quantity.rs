//! Real-valued quantities (metres, seconds, metres per second, ...).
//!
//! A quantity is held as the bit pattern of an IEEE-754 binary64 number, so
//! the library can store, compare and reject values without any arithmetic
//! on them. The sign tests below follow the IEEE-754 ordering against zero.
use vstd::prelude::*;

verus! {

/// Number of distinct mantissa values (2^52).
pub const MANTISSA_SPAN: u64 = 0x10_0000_0000_0000;

/// Exponent field value that marks infinities and NaNs.
pub const EXPONENT_ALL_ONES: u64 = 0x7ff;

/// Smallest bit pattern with the sign bit set (2^63).
pub const SIGN_BIT: u64 = 0x8000_0000_0000_0000;

/// A binary64 quantity, kept as its bit pattern.
#[derive(Clone, Copy, Debug, PartialEq, Eq)]
pub struct Real {
    pub bits: u64,
}

impl Real {
    pub open spec fn sign(self) -> bool {
        self.bits >= SIGN_BIT
    }

    pub open spec fn exponent(self) -> u64 {
        ((self.bits / MANTISSA_SPAN) % 0x800) as u64
    }

    pub open spec fn mantissa(self) -> u64 {
        (self.bits % MANTISSA_SPAN) as u64
    }

    /// The value is a NaN.
    pub open spec fn spec_is_nan(self) -> bool {
        self.exponent() == EXPONENT_ALL_ONES && self.mantissa() != 0
    }

    /// The value is +0.0 or -0.0.
    pub open spec fn spec_is_zero(self) -> bool {
        self.exponent() == 0 && self.mantissa() == 0
    }

    /// The value is neither infinite nor NaN.
    pub open spec fn spec_is_finite(self) -> bool {
        self.exponent() != EXPONENT_ALL_ONES
    }

    /// A number that orders the non-NaN values as IEEE-754 does: minus the
    /// magnitude bits for negative values, the bits themselves otherwise
    /// (both zeros map to 0).
    pub open spec fn order_key(self) -> int {
        if self.sign() {
            -(self.bits - SIGN_BIT)
        } else {
            self.bits as int
        }
    }

    /// `x < 0.0` under IEEE-754 comparison.
    pub open spec fn spec_lt_zero(self) -> bool {
        !self.spec_is_nan() && self.order_key() < 0
    }

    /// `x <= 0.0` under IEEE-754 comparison.
    pub open spec fn spec_le_zero(self) -> bool {
        !self.spec_is_nan() && self.order_key() <= 0
    }

    /// `self < other` under IEEE-754 comparison (false when either is NaN).
    pub open spec fn spec_lt(self, other: Real) -> bool {
        !self.spec_is_nan() && !other.spec_is_nan() && self.order_key() < other.order_key()
    }

    /// Builds a quantity from its bit pattern.
    pub fn from_bits(bits: u64) -> (r: Real)
        ensures
            r.bits == bits,
    {
        Real { bits }
    }

    /// The bit pattern of the quantity.
    pub fn to_bits(self) -> (b: u64)
        ensures
            b == self.bits,
    {
        self.bits
    }

    /// Positive zero.
    pub fn zero() -> (r: Real)
        ensures
            r.bits == 0,
            r.spec_is_zero(),
            !r.sign(),
    {
        Real { bits: 0 }
    }

    fn exponent_field(self) -> (e: u64)
        ensures
            e == self.exponent(),
    {
        (self.bits / MANTISSA_SPAN) % 0x800
    }

    fn mantissa_field(self) -> (m: u64)
        ensures
            m == self.mantissa(),
    {
        self.bits % MANTISSA_SPAN
    }

    /// True when the value is a NaN.
    pub fn is_nan(self) -> (b: bool)
        ensures
            b == self.spec_is_nan(),
    {
        self.exponent_field() == EXPONENT_ALL_ONES && self.mantissa_field() != 0
    }

    /// True when the value is +0.0 or -0.0.
    pub fn is_zero(self) -> (b: bool)
        ensures
            b == self.spec_is_zero(),
    {
        self.exponent_field() == 0 && self.mantissa_field() == 0
    }

    /// True when the value is neither infinite nor NaN.
    pub fn is_finite(self) -> (b: bool)
        ensures
            b == self.spec_is_finite(),
    {
        self.exponent_field() != EXPONENT_ALL_ONES
    }

    /// `x < 0.0`: false for NaN and for both zeros.
    pub fn lt_zero(self) -> (b: bool)
        ensures
            b == self.spec_lt_zero(),
    {
        self.bits > SIGN_BIT && !self.is_nan()
    }

    /// `x <= 0.0`: true for both zeros, false for NaN.
    pub fn le_zero(self) -> (b: bool)
        ensures
            b == self.spec_le_zero(),
    {
        (self.bits == 0 || self.bits >= SIGN_BIT) && !self.is_nan()
    }

    /// `self < other`: false when either is NaN; -0.0 and +0.0 are equal.
    pub fn lt(self, other: Real) -> (b: bool)
        ensures
            b == self.spec_lt(other),
    {
        if self.is_nan() || other.is_nan() {
            return false;
        }
        let a_neg = self.bits >= SIGN_BIT;
        let b_neg = other.bits >= SIGN_BIT;
        if a_neg && b_neg {
            self.bits - SIGN_BIT > other.bits - SIGN_BIT
        } else if a_neg {
            self.bits - SIGN_BIT > 0 || other.bits > 0
        } else if b_neg {
            false
        } else {
            self.bits < other.bits
        }
    }
}

} // verus!
