//! Real numbers as IEEE 754 binary64 bit patterns.
//!
//! A [`Scalar`] carries a double-precision number as the 64 bits that encode
//! it. Classification and ordering are decided on the bits alone, so they can
//! be stated and proved exactly; arithmetic is left to the caller, who hands
//! it in as a function on scalars.

use vstd::arithmetic::power2::{lemma_pow2_pos, lemma_pow2_strictly_increases, lemma_pow2_unfold, pow2};
use vstd::prelude::*;

verus! {

/// Bit pattern with only the sign bit set.
pub const SIGN_BIT: u64 = 0x8000_0000_0000_0000;

/// Bit pattern of positive infinity: the exponent field all ones, the fraction zero.
pub const INFINITY_BITS: u64 = 0x7ff0_0000_0000_0000;

/// A binary64 number, held as its 64-bit pattern.
///
/// `==` on scalars compares patterns: it tells `-0` from `+0` and finds a NaN
/// equal to itself. Numerical comparison is [`Scalar::less_than`] and
/// [`Scalar::same_value`].
#[derive(Clone, Copy, Debug, PartialEq, Eq, Structural)]
pub struct Scalar {
    pub bits: u64,
}

impl Scalar {
    /// The pattern without its sign bit.
    pub open spec fn magnitude(self) -> int {
        if self.bits >= SIGN_BIT {
            self.bits - SIGN_BIT
        } else {
            self.bits as int
        }
    }

    /// The sign bit is set.
    pub open spec fn sign(self) -> bool {
        self.bits >= SIGN_BIT
    }

    /// The pattern encodes no number.
    pub open spec fn is_nan(self) -> bool {
        self.magnitude() > INFINITY_BITS
    }

    /// The pattern encodes a number that is neither infinite nor NaN.
    pub open spec fn is_finite(self) -> bool {
        self.magnitude() < INFINITY_BITS
    }

    /// The pattern encodes `+0` or `-0`.
    pub open spec fn is_zero(self) -> bool {
        self.magnitude() == 0
    }

    /// An integer that orders the numbers as their values do: the magnitude,
    /// negated where the sign bit is set. Both zeros have key 0.
    pub open spec fn key(self) -> int {
        if self.sign() {
            -self.magnitude()
        } else {
            self.magnitude()
        }
    }

    /// Numerical `<`: false whenever a NaN is involved.
    pub open spec fn lt(self, other: Scalar) -> bool {
        !self.is_nan() && !other.is_nan() && self.key() < other.key()
    }

    /// Numerical `==`: false whenever a NaN is involved, true of `-0` and `+0`.
    pub open spec fn eq_value(self, other: Scalar) -> bool {
        !self.is_nan() && !other.is_nan() && self.key() == other.key()
    }

    /// Strictly greater than zero.
    pub open spec fn is_positive(self) -> bool {
        !self.is_nan() && self.key() > 0
    }

    /// The scalar `+0`.
    pub open spec fn zero() -> Scalar {
        Scalar { bits: 0 }
    }

    pub fn from_bits(bits: u64) -> (s: Scalar)
        ensures
            s.bits == bits,
    {
        Scalar { bits }
    }

    pub fn to_bits(self) -> (bits: u64)
        ensures
            bits == self.bits,
    {
        self.bits
    }

    /// `+0`, the pattern of all zero bits.
    pub fn new_zero() -> (s: Scalar)
        ensures
            s == Scalar::zero(),
            s.is_zero(),
            s.is_finite(),
    {
        Scalar { bits: 0 }
    }

    fn magnitude_bits(self) -> (m: u64)
        ensures
            m == self.magnitude(),
            m < SIGN_BIT,
    {
        if self.bits >= SIGN_BIT {
            self.bits - SIGN_BIT
        } else {
            self.bits
        }
    }

    pub fn is_nan_value(self) -> (b: bool)
        ensures
            b == self.is_nan(),
    {
        self.magnitude_bits() > INFINITY_BITS
    }

    pub fn is_finite_value(self) -> (b: bool)
        ensures
            b == self.is_finite(),
    {
        self.magnitude_bits() < INFINITY_BITS
    }

    pub fn is_zero_value(self) -> (b: bool)
        ensures
            b == self.is_zero(),
    {
        self.magnitude_bits() == 0
    }

    pub fn is_positive_value(self) -> (b: bool)
        ensures
            b == self.is_positive(),
    {
        let m: u64 = self.magnitude_bits();
        self.bits < SIGN_BIT && 0 < m && m <= INFINITY_BITS
    }

    /// Numerical `<` of the two encoded numbers.
    pub fn less_than(self, other: Scalar) -> (b: bool)
        ensures
            b == self.lt(other),
    {
        let a: u64 = self.magnitude_bits();
        let c: u64 = other.magnitude_bits();
        if a > INFINITY_BITS || c > INFINITY_BITS {
            false
        } else if self.bits >= SIGN_BIT {
            if other.bits >= SIGN_BIT {
                c < a
            } else {
                a > 0 || c > 0
            }
        } else {
            if other.bits >= SIGN_BIT {
                false
            } else {
                a < c
            }
        }
    }

    /// Numerical `==` of the two encoded numbers.
    pub fn same_value(self, other: Scalar) -> (b: bool)
        ensures
            b == self.eq_value(other),
    {
        let a: u64 = self.magnitude_bits();
        let c: u64 = other.magnitude_bits();
        if a > INFINITY_BITS || c > INFINITY_BITS {
            false
        } else if a == 0 && c == 0 {
            true
        } else {
            self.bits == other.bits
        }
    }
}

/// Two to the power 52: the weight of the lowest bit of the exponent field.
pub const FRACTION_RANGE: u64 = 0x10_0000_0000_0000;

/// The number that a magnitude encodes, in units of `2^-1074`, the smallest
/// positive number of the format.
///
/// With `e` the exponent field and `f` the fraction field of the magnitude,
/// this is `f` where `e` is zero and `(2^52 + f) * 2^(e - 1)` elsewhere.
pub open spec fn scaled(magnitude: int) -> int {
    let t = FRACTION_RANGE as int;
    let e = magnitude / t;
    let f = magnitude % t;
    if e == 0 {
        f
    } else {
        (t + f) * pow2((e - 1) as nat)
    }
}

impl Scalar {
    /// The finite number that the pattern encodes, in units of `2^-1074`.
    pub open spec fn scaled_value(self) -> int {
        if self.sign() {
            -scaled(self.magnitude())
        } else {
            scaled(self.magnitude())
        }
    }
}

/// A larger magnitude encodes a larger number.
proof fn lemma_scaled_increases(m1: int, m2: int)
    requires
        0 <= m1 < m2,
    ensures
        0 <= scaled(m1) < scaled(m2),
{
    let t = FRACTION_RANGE as int;
    let e1 = m1 / t;
    let f1 = m1 % t;
    let e2 = m2 / t;
    let f2 = m2 % t;
    assert(0 <= e1 <= e2);
    if e1 > 0 {
        lemma_pow2_pos((e1 - 1) as nat);
        let scale_low = pow2((e1 - 1) as nat) as int;
        assert(0 <= (t + f1) * scale_low) by (nonlinear_arith)
            requires
                0 <= t + f1,
                0 < scale_low,
        ;
    }
    if e1 == e2 {
        assert(f1 < f2);
        if e1 > 0 {
            let scale = pow2((e1 - 1) as nat) as int;
            assert((t + f1) * scale < (t + f2) * scale) by (nonlinear_arith)
                requires
                    f1 < f2,
                    0 < scale,
            ;
        }
    } else {
        lemma_pow2_pos((e2 - 1) as nat);
        let scale_high = pow2((e2 - 1) as nat) as int;
        assert(t * scale_high <= (t + f2) * scale_high) by (nonlinear_arith)
            requires
                0 <= f2,
                0 < scale_high,
        ;
        if e1 == 0 {
            assert(t <= t * scale_high) by (nonlinear_arith)
                requires
                    0 < t,
                    1 <= scale_high,
            ;
        } else {
            let scale_low = pow2((e1 - 1) as nat) as int;
            lemma_pow2_unfold(e1 as nat);
            if e1 < e2 - 1 {
                lemma_pow2_strictly_increases(e1 as nat, (e2 - 1) as nat);
            }
            assert(2 * scale_low <= scale_high);
            assert((t + f1) * scale_low < t * scale_high) by (nonlinear_arith)
                requires
                    0 <= f1 < t,
                    0 < scale_low,
                    2 * scale_low <= scale_high,
            ;
        }
    }
}

/// The order and the equality that are decided on the bits are those of the
/// numbers that the bits encode.
pub proof fn lemma_order_is_that_of_values(a: Scalar, b: Scalar)
    requires
        a.is_finite(),
        b.is_finite(),
    ensures
        a.lt(b) <==> a.scaled_value() < b.scaled_value(),
        a.eq_value(b) <==> a.scaled_value() == b.scaled_value(),
        a.is_zero() <==> a.scaled_value() == 0,
        a.is_positive() <==> a.scaled_value() > 0,
{
    let ma = a.magnitude();
    let mb = b.magnitude();
    assert(scaled(0) == 0);
    if ma > 0 {
        lemma_scaled_increases(0, ma);
    }
    if mb > 0 {
        lemma_scaled_increases(0, mb);
    }
    if ma < mb {
        lemma_scaled_increases(ma, mb);
    }
    if mb < ma {
        lemma_scaled_increases(mb, ma);
    }
}

/// `<` on scalars is a strict order: nothing is below itself, no two numbers
/// are below each other, and it is transitive.
pub proof fn lemma_lt_strict_order(a: Scalar, b: Scalar, c: Scalar)
    ensures
        !a.lt(a),
        a.lt(b) ==> !b.lt(a),
        a.lt(b) && b.lt(c) ==> a.lt(c),
{
}

/// Of two numbers (no NaN among them) exactly one of `<`, `==`, `>` holds.
pub proof fn lemma_lt_trichotomy(a: Scalar, b: Scalar)
    requires
        !a.is_nan(),
        !b.is_nan(),
    ensures
        a.lt(b) || a.eq_value(b) || b.lt(a),
        !(a.lt(b) && a.eq_value(b)),
        !(b.lt(a) && a.eq_value(b)),
{
}

} // verus!
