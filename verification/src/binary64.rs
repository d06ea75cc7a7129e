//! Double-precision numbers, held by their IEEE 754 binary64 encoding.
//!
//! The library never does arithmetic on such a number. It reads the sign, tells
//! a NaN from a number, and orders two numbers, all on the 64 bits of the
//! encoding. What these operations mean for the numbers that the bits stand for
//! is stated by [`Binary64::scaled_value`] and proved in
//! [`lemma_rank_orders_values`].

use vstd::prelude::*;
use vstd::arithmetic::power2::pow2;
use vstd::arithmetic::power2::lemma_pow2_pos;
use vstd::arithmetic::power2::lemma_pow2_unfold;
use vstd::arithmetic::power2::lemma_pow2_strictly_increases;

verus! {

/// The sign bit of an encoding.
pub const SIGN_BIT: u64 = 0x8000_0000_0000_0000;

/// The encoding of positive infinity: every exponent bit set, no fraction bit.
pub const INFINITY_BITS: u64 = 0x7ff0_0000_0000_0000;

/// The weight of the lowest exponent bit: two to the power 52.
pub const FRACTION_SPAN: u64 = 0x0010_0000_0000_0000;

/// A double-precision number, held by its encoding.
///
/// Two values are equal when their encodings are. This is finer than numeric
/// equality: the two zeros differ, and a NaN equals itself.
#[derive(Clone, Copy, Debug, PartialEq, Eq, Structural)]
pub struct Binary64 {
    pub bits: u64,
}

impl Binary64 {
    /// The encoding without its sign bit.
    pub open spec fn magnitude_bits(self) -> u64 {
        if self.bits >= SIGN_BIT {
            (self.bits - SIGN_BIT) as u64
        } else {
            self.bits
        }
    }

    /// The sign bit is set. This holds of negative numbers, of negative zero
    /// and of half the NaNs.
    pub open spec fn sign_negative(self) -> bool {
        self.bits >= SIGN_BIT
    }

    /// The encoding is that of no number.
    pub open spec fn nan(self) -> bool {
        self.magnitude_bits() > INFINITY_BITS
    }

    /// The encoding is that of a number other than the two infinities.
    pub open spec fn finite(self) -> bool {
        self.magnitude_bits() < INFINITY_BITS
    }

    /// An integer that orders the encodings as the numbers are ordered: for
    /// two encodings that are not NaN, the first number is below the second
    /// exactly when the first rank is below the second. The two zeros share
    /// the rank 0.
    pub open spec fn rank(self) -> int {
        if self.sign_negative() {
            -(self.magnitude_bits() as int)
        } else {
            self.magnitude_bits() as int
        }
    }

    /// Numeric `<`: false when either side is NaN.
    pub open spec fn below(self, other: Binary64) -> bool {
        !self.nan() && !other.nan() && self.rank() < other.rank()
    }

    /// Numeric `> 0`: a number above zero, positive infinity included.
    pub open spec fn positive(self) -> bool {
        !self.nan() && self.rank() > 0
    }

    /// Numeric `>= 0`: a number at or above zero, either zero included.
    pub open spec fn non_negative(self) -> bool {
        !self.nan() && self.rank() >= 0
    }

    /// The biased exponent: the eleven bits below the sign bit.
    pub open spec fn exponent_field(self) -> nat {
        (self.magnitude_bits() / FRACTION_SPAN) as nat
    }

    /// The fraction: the lowest 52 bits.
    pub open spec fn fraction_field(self) -> nat {
        (self.magnitude_bits() % FRACTION_SPAN) as nat
    }

    /// The absolute value of a finite number, counted in units of two to the
    /// power -1074, the smallest positive number that an encoding can hold.
    /// With exponent field 0 the number is subnormal and the fraction is the
    /// count; otherwise the fraction gains an implicit leading bit and is
    /// doubled once for each step of the exponent above 1.
    pub open spec fn scaled_magnitude(self) -> nat
        recommends
            self.finite(),
    {
        if self.exponent_field() == 0 {
            self.fraction_field()
        } else {
            (FRACTION_SPAN as nat + self.fraction_field()) * pow2(
                (self.exponent_field() - 1) as nat,
            )
        }
    }

    /// The finite number itself, in the same units.
    pub open spec fn scaled_value(self) -> int
        recommends
            self.finite(),
    {
        if self.sign_negative() {
            -(self.scaled_magnitude() as int)
        } else {
            self.scaled_magnitude() as int
        }
    }

    /// The value with the given encoding.
    pub fn from_bits(bits: u64) -> (r: Binary64)
        ensures
            r.bits == bits,
    {
        Binary64 { bits }
    }

    /// The encoding.
    pub fn to_bits(self) -> (r: u64)
        ensures
            r == self.bits,
    {
        self.bits
    }

    /// Positive zero.
    pub fn zero() -> (r: Binary64)
        ensures
            r.bits == 0,
    {
        Binary64 { bits: 0 }
    }

    fn magnitude(self) -> (r: u64)
        ensures
            r == self.magnitude_bits(),
    {
        if self.bits >= SIGN_BIT {
            self.bits - SIGN_BIT
        } else {
            self.bits
        }
    }

    /// Whether the encoding is that of no number.
    pub fn is_nan(self) -> (r: bool)
        ensures
            r == self.nan(),
    {
        self.magnitude() > INFINITY_BITS
    }

    /// Whether the encoding is that of a number other than the infinities.
    pub fn is_finite(self) -> (r: bool)
        ensures
            r == self.finite(),
    {
        self.magnitude() < INFINITY_BITS
    }

    /// Whether the rank of `self` is below the rank of `other`.
    pub fn ranks_below(self, other: Binary64) -> (r: bool)
        ensures
            r == (self.rank() < other.rank()),
    {
        let a: u64 = self.magnitude();
        let b: u64 = other.magnitude();
        if self.bits >= SIGN_BIT {
            if other.bits >= SIGN_BIT {
                b < a
            } else {
                a > 0 || b > 0
            }
        } else {
            other.bits < SIGN_BIT && a < b
        }
    }

    /// Whether `self` and `other` have the same rank.
    pub fn ranks_with(self, other: Binary64) -> (r: bool)
        ensures
            r == (self.rank() == other.rank()),
    {
        let a: u64 = self.magnitude();
        let b: u64 = other.magnitude();
        if (self.bits >= SIGN_BIT) == (other.bits >= SIGN_BIT) {
            a == b
        } else {
            a == 0 && b == 0
        }
    }

    /// Numeric `self < other`.
    pub fn lt(self, other: Binary64) -> (r: bool)
        ensures
            r == self.below(other),
    {
        !self.is_nan() && !other.is_nan() && self.ranks_below(other)
    }

    /// Numeric `self > 0`.
    pub fn is_positive(self) -> (r: bool)
        ensures
            r == self.positive(),
    {
        0 < self.bits && self.bits <= INFINITY_BITS
    }

    /// Numeric `self >= 0`.
    pub fn is_non_negative(self) -> (r: bool)
        ensures
            r == self.non_negative(),
    {
        self.bits <= INFINITY_BITS || self.bits == SIGN_BIT
    }

    /// The larger of the number and zero: the value itself where it is above
    /// zero, and positive zero otherwise, which takes in the negative
    /// numbers, both zeros and every NaN.
    pub fn floor_at_zero(self) -> (r: Binary64)
        ensures
            r.non_negative(),
            !r.sign_negative(),
            self.positive() ==> r == self,
            !self.positive() ==> r.bits == 0,
    {
        if self.is_positive() {
            self
        } else {
            Binary64::zero()
        }
    }
}

/// Doubling `count` times keeps the order of the counts.
proof fn lemma_scale_grows(low: nat, high: nat)
    requires
        low <= high,
    ensures
        pow2(low) <= pow2(high),
{
    if low < high {
        lemma_pow2_strictly_increases(low, high);
    }
}

/// The scaled magnitude of a finite encoding lies between the least and the
/// bound of the magnitudes that share its exponent field.
proof fn lemma_magnitude_bracket(x: Binary64)
    requires
        x.finite(),
    ensures
        x.exponent_field() == 0 ==> x.scaled_magnitude() < FRACTION_SPAN,
        x.exponent_field() > 0 ==> FRACTION_SPAN * pow2((x.exponent_field() - 1) as nat)
            <= x.scaled_magnitude() < FRACTION_SPAN * pow2(x.exponent_field()),
{
    let e = x.exponent_field();
    let f = x.fraction_field();
    if e > 0 {
        let p = pow2((e - 1) as nat);
        lemma_pow2_pos((e - 1) as nat);
        lemma_pow2_unfold(e);
        assert(pow2(e) == 2 * p);
        assert(FRACTION_SPAN * p <= (FRACTION_SPAN + f) * p) by (nonlinear_arith)
            requires
                0 <= f,
                0 < p,
        ;
        assert((FRACTION_SPAN + f) * p < FRACTION_SPAN * (2 * p)) by (nonlinear_arith)
            requires
                0 <= f < FRACTION_SPAN,
                0 < p,
        ;
    }
}

/// Among finite encodings, a smaller magnitude encoding is a smaller
/// magnitude.
proof fn lemma_magnitude_monotone(a: Binary64, b: Binary64)
    requires
        a.finite(),
        b.finite(),
        a.magnitude_bits() < b.magnitude_bits(),
    ensures
        a.scaled_magnitude() < b.scaled_magnitude(),
{
    let ea = a.exponent_field();
    let eb = b.exponent_field();
    let fa = a.fraction_field();
    let fb = b.fraction_field();
    assert(ea <= eb && (ea == eb ==> fa < fb)) by (nonlinear_arith)
        requires
            ea == a.magnitude_bits() / FRACTION_SPAN,
            eb == b.magnitude_bits() / FRACTION_SPAN,
            fa == a.magnitude_bits() % FRACTION_SPAN,
            fb == b.magnitude_bits() % FRACTION_SPAN,
            a.magnitude_bits() < b.magnitude_bits(),
    ;
    lemma_magnitude_bracket(a);
    lemma_magnitude_bracket(b);
    if ea == eb {
        if ea > 0 {
            let p = pow2((ea - 1) as nat);
            lemma_pow2_pos((ea - 1) as nat);
            assert((FRACTION_SPAN + fa) * p < (FRACTION_SPAN + fb) * p) by (nonlinear_arith)
                requires
                    fa < fb,
                    0 < p,
            ;
        }
    } else if ea > 0 {
        lemma_scale_grows(ea, (eb - 1) as nat);
        let lo = pow2(ea);
        let hi = pow2((eb - 1) as nat);
        assert(FRACTION_SPAN * lo <= FRACTION_SPAN * hi) by (nonlinear_arith)
            requires
                lo <= hi,
        ;
    } else {
        let hi = pow2((eb - 1) as nat);
        lemma_pow2_pos((eb - 1) as nat);
        assert(FRACTION_SPAN * 1 <= FRACTION_SPAN * hi) by (nonlinear_arith)
            requires
                1 <= hi,
        ;
    }
}

/// The rank orders the finite encodings as their numbers are ordered, and two
/// finite encodings share a rank exactly when they stand for one number.
pub proof fn lemma_rank_orders_values(a: Binary64, b: Binary64)
    requires
        a.finite(),
        b.finite(),
    ensures
        a.rank() < b.rank() <==> a.scaled_value() < b.scaled_value(),
        a.rank() == b.rank() <==> a.scaled_value() == b.scaled_value(),
{
    let ma = a.magnitude_bits();
    let mb = b.magnitude_bits();
    if ma < mb {
        lemma_magnitude_monotone(a, b);
    } else if mb < ma {
        lemma_magnitude_monotone(b, a);
    }
    lemma_zero_magnitude(a);
    lemma_zero_magnitude(b);
}

/// Only the two zeros have magnitude zero.
proof fn lemma_zero_magnitude(x: Binary64)
    requires
        x.finite(),
    ensures
        x.scaled_magnitude() == 0 <==> x.magnitude_bits() == 0,
{
    if x.magnitude_bits() > 0 {
        lemma_magnitude_monotone(Binary64 { bits: 0 }, x);
    }
}

} // verus!
