//! IEEE-754 binary64 values held by their bit pattern.
//!
//! The library never does floating-point arithmetic itself. Scores, confidences,
//! thresholds and drift values are carried as the 64-bit pattern of the `f64`
//! they stand for, and are *compared* exactly here: for values that are not NaN,
//! the order of binary64 numbers is the sign-magnitude order of their patterns
//! (with +0 and -0 equal), and every comparison with a NaN is false.
use vstd::prelude::*;

verus! {

/// Mask of the sign bit.
pub const SIGN_MASK: u64 = 0x8000_0000_0000_0000u64;

/// Mask of everything but the sign bit.
pub const MAGNITUDE_MASK: u64 = 0x7fff_ffff_ffff_ffffu64;

/// Mask of the exponent field.
pub const EXPONENT_MASK: u64 = 0x7ff0_0000_0000_0000u64;

/// Mask of the fraction field.
pub const FRACTION_MASK: u64 = 0x000f_ffff_ffff_ffffu64;

/// A binary64 value, held by its bit pattern (`f64::to_bits`).
#[derive(Clone, Copy, Debug, PartialEq, Eq, Structural, Hash)]
pub struct FloatBits {
    pub bits: u64,
}

impl FloatBits {
    /// The value is a NaN: all exponent bits set and a non-zero fraction.
    pub open spec fn spec_is_nan(self) -> bool {
        (self.bits & EXPONENT_MASK) == EXPONENT_MASK && (self.bits & FRACTION_MASK) != 0
    }

    /// The pattern with the sign bit cleared, as a number.
    pub open spec fn magnitude(self) -> int {
        (self.bits & MAGNITUDE_MASK) as int
    }

    /// The sign bit is set.
    pub open spec fn negative(self) -> bool {
        self.bits >= SIGN_MASK
    }

    /// An integer that orders non-NaN values exactly as binary64 does.
    pub open spec fn order_key(self) -> int {
        if self.negative() {
            -self.magnitude()
        } else {
            self.magnitude()
        }
    }

    /// `self < other` as binary64 numbers.
    pub open spec fn spec_lt(self, other: FloatBits) -> bool {
        !self.spec_is_nan() && !other.spec_is_nan() && self.order_key() < other.order_key()
    }

    /// `self <= other` as binary64 numbers.
    pub open spec fn spec_le(self, other: FloatBits) -> bool {
        !self.spec_is_nan() && !other.spec_is_nan() && self.order_key() <= other.order_key()
    }

    /// `self == other` as binary64 numbers (+0 equals -0, NaN equals nothing).
    pub open spec fn spec_num_eq(self, other: FloatBits) -> bool {
        !self.spec_is_nan() && !other.spec_is_nan() && self.order_key() == other.order_key()
    }

    /// The value 0.0.
    pub open spec fn zero_value() -> FloatBits {
        FloatBits { bits: 0 }
    }

    /// The value 1.0.
    pub open spec fn one_value() -> FloatBits {
        FloatBits { bits: 0x3ff0_0000_0000_0000u64 }
    }

    /// Wraps a bit pattern.
    pub fn from_bits(bits: u64) -> (r: FloatBits)
        ensures
            r.bits == bits,
    {
        FloatBits { bits }
    }

    /// The value 0.0.
    pub fn zero() -> (r: FloatBits)
        ensures
            r.bits == 0,
    {
        FloatBits { bits: 0 }
    }

    /// The value 1.0.
    pub fn one() -> (r: FloatBits)
        ensures
            r.bits == 0x3ff0_0000_0000_0000u64,
    {
        FloatBits { bits: 0x3ff0_0000_0000_0000u64 }
    }

    /// Whether the value is a NaN.
    pub fn is_nan(&self) -> (r: bool)
        ensures
            r == self.spec_is_nan(),
    {
        (self.bits & EXPONENT_MASK) == EXPONENT_MASK && (self.bits & FRACTION_MASK) != 0
    }

    /// `self < other` as binary64 numbers.
    pub fn lt(&self, other: &FloatBits) -> (r: bool)
        ensures
            r == self.spec_lt(*other),
    {
        if self.is_nan() || other.is_nan() {
            return false;
        }
        let ma = self.bits & MAGNITUDE_MASK;
        let mb = other.bits & MAGNITUDE_MASK;
        let na = self.bits >= SIGN_MASK;
        let nb = other.bits >= SIGN_MASK;
        if !na && !nb {
            ma < mb
        } else if na && nb {
            mb < ma
        } else if na && !nb {
            ma != 0 || mb != 0
        } else {
            false
        }
    }

    /// `self <= other` as binary64 numbers.
    pub fn le(&self, other: &FloatBits) -> (r: bool)
        ensures
            r == self.spec_le(*other),
    {
        if self.is_nan() || other.is_nan() {
            return false;
        }
        !other.lt(self)
    }

    /// `self == other` as binary64 numbers.
    pub fn num_eq(&self, other: &FloatBits) -> (r: bool)
        ensures
            r == self.spec_num_eq(*other),
    {
        self.le(other) && other.le(self)
    }

    /// `f64::clamp(self, lo, hi)`: `lo` below `lo`, `hi` above `hi`, else the value
    /// itself (a NaN stays NaN).
    pub fn clamp(&self, lo: FloatBits, hi: FloatBits) -> (r: FloatBits)
        ensures
            self.spec_lt(lo) ==> r == lo,
            !self.spec_lt(lo) && hi.spec_lt(*self) ==> r == hi,
            !self.spec_lt(lo) && !hi.spec_lt(*self) ==> r == *self,
    {
        if self.lt(&lo) {
            lo
        } else if hi.lt(self) {
            hi
        } else {
            *self
        }
    }
}

/// `<` on non-NaN values is a strict order that `<=` extends.
pub proof fn lemma_float_order(a: FloatBits, b: FloatBits, c: FloatBits)
    ensures
        a.spec_lt(b) && b.spec_lt(c) ==> a.spec_lt(c),
        a.spec_le(b) && b.spec_le(c) ==> a.spec_le(c),
        !a.spec_lt(a),
        !a.spec_is_nan() && !b.spec_is_nan() ==> (a.spec_lt(b) || b.spec_le(a)),
        a.spec_lt(b) ==> !b.spec_le(a),
{
}

/// The binary64 order on bit patterns: two non-negative values (sign bit
/// clear) compare as their patterns; two negative ones in reverse; a negative
/// value lies below a non-negative one unless both are zeros, and +0 equals
/// -0; a NaN (all exponent bits, non-zero fraction) compares with nothing.
pub proof fn law_float_order_on_bits(a: FloatBits, b: FloatBits)
    ensures
        !a.spec_is_nan() && !b.spec_is_nan() && a.bits < SIGN_MASK && b.bits < SIGN_MASK ==> (
        a.spec_lt(b) <==> a.bits < b.bits),
        !a.spec_is_nan() && !b.spec_is_nan() && a.bits >= SIGN_MASK && b.bits >= SIGN_MASK ==> (
        a.spec_lt(b) <==> b.bits < a.bits),
        !a.spec_is_nan() && !b.spec_is_nan() && a.bits >= SIGN_MASK && b.bits < SIGN_MASK ==> (
        a.spec_lt(b) <==> !(a.bits == SIGN_MASK && b.bits == 0)),
        a.bits == 0 && b.bits == SIGN_MASK ==> a.spec_num_eq(b),
        a.spec_is_nan() ==> !a.spec_lt(b) && !b.spec_lt(a) && !a.spec_le(b) && !a.spec_num_eq(a),
{
    assert(forall|x: u64| x < 0x8000_0000_0000_0000u64 ==> #[trigger] (x & 0x7fff_ffff_ffff_ffffu64) == x) by (bit_vector);
    assert(forall|x: u64| x >= 0x8000_0000_0000_0000u64 ==> #[trigger] (x & 0x7fff_ffff_ffff_ffffu64) == x - 0x8000_0000_0000_0000u64) by (bit_vector);
    assert(0u64 & 0x7ff0_0000_0000_0000u64 == 0u64) by (bit_vector);
    assert(0x8000_0000_0000_0000u64 & 0x7ff0_0000_0000_0000u64 == 0u64) by (bit_vector);
}

} // verus!
