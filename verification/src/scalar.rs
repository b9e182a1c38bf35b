//! A coordinate or length: the bit pattern of an IEEE 754 binary32 number.

use vstd::prelude::*;
use vstd::arithmetic::power2::{
    pow2, lemma_pow2_pos, lemma_pow2_unfold, lemma_pow2_strictly_increases,
};

verus! {

/// A binary32 number, held as its 32 bits: one sign bit, eight exponent bits
/// and twenty-three fraction bits, from the most significant bit down.
///
/// `==` compares the bits: it tells `+0` from `-0`, and a NaN pattern equals
/// itself.
#[derive(Clone, Copy, Debug, PartialEq, Eq, Structural)]
pub struct Scalar {
    pub bits: u32,
}

impl Scalar {
    /// The sign bit is set.
    pub open spec fn sign_negative(self) -> bool {
        self.bits >= 0x8000_0000
    }

    /// The biased exponent, `0 ..= 255`.
    pub open spec fn exponent(self) -> int {
        (self.bits as int / 0x80_0000) % 0x100
    }

    /// The fraction bits, `0 .. 2^23`.
    pub open spec fn fraction(self) -> int {
        self.bits as int % 0x80_0000
    }

    /// Neither an infinity nor a NaN.
    pub open spec fn is_finite_spec(self) -> bool {
        self.exponent() != 0xff
    }

    /// The fraction with the implicit leading bit of a normal number.
    pub open spec fn significand(self) -> int {
        if self.exponent() == 0 {
            self.fraction()
        } else {
            0x80_0000 + self.fraction()
        }
    }

    /// The power of two that the significand is scaled by, over the smallest:
    /// `0 ..= 254`, and at most 253 for a finite number.
    pub open spec fn scale(self) -> nat {
        if self.exponent() == 0 {
            0
        } else {
            (self.exponent() - 1) as nat
        }
    }

    /// The absolute value of a finite number, counted in units of `2^-149`
    /// (the smallest positive binary32 number), which makes it an integer.
    pub open spec fn magnitude(self) -> int
        recommends
            self.is_finite_spec(),
    {
        self.significand() * pow2(self.scale())
    }

    /// The value of a finite number, in units of `2^-149`.
    pub open spec fn value(self) -> int
        recommends
            self.is_finite_spec(),
    {
        if self.sign_negative() {
            -self.magnitude()
        } else {
            self.magnitude()
        }
    }

    /// The number is `+0` or `-0`.
    pub open spec fn is_zero_spec(self) -> bool {
        self.is_finite_spec() && self.magnitude() == 0
    }

    /// The number is finite and greater than zero.
    pub open spec fn is_positive_spec(self) -> bool {
        self.is_finite_spec() && self.value() > 0
    }

    /// Both numbers are finite, and the first is at most the second. The two
    /// zeros count as equal.
    pub open spec fn le_spec(self, other: Scalar) -> bool {
        self.is_finite_spec() && other.is_finite_spec() && self.value() <= other.value()
    }

    /// Wraps a bit pattern.
    pub fn from_bits(bits: u32) -> (s: Scalar)
        ensures
            s.bits == bits,
    {
        Scalar { bits }
    }

    /// The bit pattern.
    pub fn to_bits(self) -> (bits: u32)
        ensures
            bits == self.bits,
    {
        self.bits
    }

    /// Tells whether the number is neither an infinity nor a NaN.
    pub fn is_finite(self) -> (b: bool)
        ensures
            b == self.is_finite_spec(),
    {
        (self.bits / 0x80_0000) % 0x100 != 0xff
    }

    /// The significand: under `2^24`, and at least `2^23` where the scale
    /// is not zero.
    pub fn significand_bits(self) -> (m: u32)
        ensures
            m == self.significand(),
            m < 0x100_0000,
            self.scale() > 0 ==> m >= 0x80_0000,
    {
        if (self.bits / 0x80_0000) % 0x100 == 0 {
            self.bits % 0x80_0000
        } else {
            0x80_0000 + self.bits % 0x80_0000
        }
    }

    /// The scale: the biased exponent less one, and zero for a subnormal
    /// number.
    pub fn scale_bits(self) -> (e: u32)
        ensures
            e == self.scale(),
            e <= 254,
            self.is_finite_spec() ==> e <= 253,
    {
        let biased: u32 = (self.bits / 0x80_0000) % 0x100;
        if biased == 0 {
            0
        } else {
            biased - 1
        }
    }

    /// Tells whether the number is `+0` or `-0`.
    pub fn is_zero(self) -> (b: bool)
        ensures
            b == self.is_zero_spec(),
    {
        proof {
            self.lemma_zero_bits();
        }
        self.bits % 0x8000_0000 == 0
    }

    /// Tells whether the number is finite and greater than zero.
    pub fn is_positive(self) -> (b: bool)
        ensures
            b == self.is_positive_spec(),
    {
        proof {
            self.lemma_zero_bits();
            self.lemma_magnitude_not_negative();
        }
        0 < self.bits && self.bits < 0x7f80_0000
    }

    /// Tells whether both numbers are finite and the first is at most the
    /// second. A NaN or an infinity on either side gives `false`.
    pub fn le(self, other: Scalar) -> (b: bool)
        ensures
            b == self.le_spec(other),
    {
        if !self.is_finite() || !other.is_finite() {
            return false;
        }
        proof {
            self.lemma_magnitude_order(other);
            other.lemma_magnitude_order(self);
            self.lemma_zero_bits();
            other.lemma_zero_bits();
            self.lemma_magnitude_not_negative();
            other.lemma_magnitude_not_negative();
        }
        let a: u32 = self.bits % 0x8000_0000;
        let b: u32 = other.bits % 0x8000_0000;
        let a_negative: bool = self.bits >= 0x8000_0000;
        let b_negative: bool = other.bits >= 0x8000_0000;
        if a_negative {
            !b_negative || b <= a
        } else if b_negative {
            a == 0 && b == 0
        } else {
            a <= b
        }
    }

    /// The zeros are the two patterns with no bit set below the sign bit.
    pub proof fn lemma_zero_bits(self)
        ensures
            self.is_zero_spec() <==> self.bits % 0x8000_0000 == 0,
            self.magnitude() == 0 <==> self.bits % 0x8000_0000 == 0,
    {
        let m = self.significand();
        let p = pow2(self.scale()) as int;
        lemma_pow2_pos(self.scale());
        assert(m * p == 0 <==> m == 0) by (nonlinear_arith)
            requires
                m >= 0,
                p > 0,
        ;
    }

    /// A magnitude is not negative.
    pub proof fn lemma_magnitude_not_negative(self)
        ensures
            self.magnitude() >= 0,
    {
        let m = self.significand();
        let p = pow2(self.scale()) as int;
        lemma_pow2_pos(self.scale());
        assert(m * p >= 0) by (nonlinear_arith)
            requires
                m >= 0,
                p > 0,
        ;
    }

    /// Magnitudes are ordered as the bits below the sign bit are, read as an
    /// integer.
    pub proof fn lemma_magnitude_order(self, other: Scalar)
        ensures
            self.magnitude() <= other.magnitude() <==> self.bits % 0x8000_0000 <= other.bits
                % 0x8000_0000,
    {
        let xa = self.exponent();
        let fa = self.fraction();
        let xb = other.exponent();
        let fb = other.fraction();
        assert(self.bits % 0x8000_0000 == xa * 0x80_0000 + fa);
        assert(other.bits % 0x8000_0000 == xb * 0x80_0000 + fb);
        assert(self.magnitude() == magnitude_of(xa, fa));
        assert(other.magnitude() == magnitude_of(xb, fb));
        lemma_order_by_fields(xa, fa, xb, fb);
    }
}

/// The magnitude that a biased exponent and a fraction encode, in units of
/// `2^-149`.
pub open spec fn magnitude_of(exponent: int, fraction: int) -> int {
    if exponent == 0 {
        fraction * pow2(0)
    } else {
        (0x80_0000 + fraction) * pow2((exponent - 1) as nat)
    }
}

/// Magnitudes are ordered as their exponents are, and as their fractions
/// where the exponents are equal.
proof fn lemma_order_by_fields(xa: int, fa: int, xb: int, fb: int)
    requires
        0 <= xa <= 255,
        0 <= xb <= 255,
        0 <= fa < 0x80_0000,
        0 <= fb < 0x80_0000,
    ensures
        magnitude_of(xa, fa) <= magnitude_of(xb, fb) <==> xa * 0x80_0000 + fa <= xb * 0x80_0000
            + fb,
{
    let ea: nat = if xa == 0 { 0 } else { (xa - 1) as nat };
    let eb: nat = if xb == 0 { 0 } else { (xb - 1) as nat };
    let ma: int = if xa == 0 { fa } else { 0x80_0000 + fa };
    let mb: int = if xb == 0 { fb } else { 0x80_0000 + fb };
    assert(magnitude_of(xa, fa) == ma * pow2(ea));
    assert(magnitude_of(xb, fb) == mb * pow2(eb));
    if ea < eb {
        lemma_smaller_scale(ma, ea, mb, eb);
    } else if eb < ea {
        lemma_smaller_scale(mb, eb, ma, ea);
    } else {
        let p = pow2(ea) as int;
        lemma_pow2_pos(ea);
        assert(ma * p <= mb * p <==> ma <= mb) by (nonlinear_arith)
            requires
                p > 0,
        ;
    }
}

/// A number with a smaller scale has a smaller magnitude than a normal number
/// with a larger one.
proof fn lemma_smaller_scale(ma: int, ea: nat, mb: int, eb: nat)
    requires
        0 <= ma < 0x100_0000,
        mb >= 0x80_0000,
        ea < eb,
    ensures
        ma * pow2(ea) < mb * pow2(eb),
{
    let pa = pow2(ea) as int;
    let pb = pow2(eb) as int;
    lemma_pow2_pos(ea);
    lemma_pow2_unfold(ea + 1);
    if ea + 1 < eb {
        lemma_pow2_strictly_increases(ea + 1, eb);
    }
    assert(pb >= 2 * pa);
    assert(ma * pa < mb * pb) by (nonlinear_arith)
        requires
            0 <= ma < 0x100_0000,
            mb >= 0x80_0000,
            pa > 0,
            pb >= 2 * pa,
    ;
}

} // verus!
