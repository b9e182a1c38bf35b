//! A point or displacement in the plane.

use vstd::prelude::*;
use vstd::arithmetic::power2::{
    pow2, lemma_pow2_pos, lemma_pow2_adds, lemma_pow2_strictly_increases, lemma2_to64,
};
use vstd::bits::lemma_u64_shl_is_mul;
use crate::scalar::Scalar;

verus! {

/// A pair of coordinates. `==` compares both bit patterns.
#[derive(Clone, Copy, Debug, PartialEq, Eq, Structural)]
pub struct Vec2 {
    pub x: Scalar,
    pub y: Scalar,
}

impl Vec2 {
    /// Both coordinates are finite.
    pub open spec fn is_finite_spec(self) -> bool {
        self.x.is_finite_spec() && self.y.is_finite_spec()
    }

    /// Both coordinates are zero.
    pub open spec fn is_zero_spec(self) -> bool {
        self.x.is_zero_spec() && self.y.is_zero_spec()
    }

    /// The square of the length, in units of `2^-298`.
    pub open spec fn length_squared(self) -> int
        recommends
            self.is_finite_spec(),
    {
        self.x.magnitude() * self.x.magnitude() + self.y.magnitude() * self.y.magnitude()
    }

    /// The vector is finite and the square of its length is one within a
    /// tolerance: `|l^2 - 1| < 2^-16`, stated exactly. The length is then
    /// within `10^-5` of one. In the units of `length_squared`, one is
    /// `2^298` and the tolerance is `2^282`.
    pub open spec fn is_unit(self) -> bool {
        &&& self.is_finite_spec()
        &&& 0xffff * pow2(282) < self.length_squared()
        &&& self.length_squared() < 0x1_0001 * pow2(282)
    }

    /// The vector has a direction: it is finite and not the zero vector.
    pub open spec fn has_direction(self) -> bool {
        self.is_finite_spec() && !self.is_zero_spec()
    }

    /// A vector of the two coordinates.
    pub fn new(x: Scalar, y: Scalar) -> (v: Vec2)
        ensures
            v.x == x,
            v.y == y,
    {
        Vec2 { x, y }
    }

    /// A vector of the two coordinates, given as bit patterns.
    pub fn from_bits(x: u32, y: u32) -> (v: Vec2)
        ensures
            v.x.bits == x,
            v.y.bits == y,
    {
        Vec2 { x: Scalar { bits: x }, y: Scalar { bits: y } }
    }

    /// Tells whether both coordinates are finite.
    pub fn is_finite(self) -> (b: bool)
        ensures
            b == self.is_finite_spec(),
    {
        self.x.is_finite() && self.y.is_finite()
    }

    /// Tells whether the vector can be normalized: whether it is finite and
    /// not the zero vector.
    pub fn is_normalizable(self) -> (b: bool)
        ensures
            b == self.has_direction(),
    {
        self.x.is_finite() && self.y.is_finite() && !(self.x.is_zero() && self.y.is_zero())
    }

    /// Tells whether the vector is finite and of unit length, within the
    /// tolerance. The test is exact: it works on the integers that the bit
    /// patterns encode, with no rounding.
    ///
    /// The larger coordinate of a unit vector lies between a half and two,
    /// which leaves two scales for it. Both squares are then counted in
    /// units of the smaller coordinate's scale, where they are integers; a
    /// coordinate too small for that to fit can only tip an exact tie.
    pub fn is_normalized(self) -> (b: bool)
        ensures
            b == self.is_unit(),
    {
        if !self.is_finite() {
            return false;
        }
        let sx: u128 = self.x.significand_bits() as u128;
        let sy: u128 = self.y.significand_bits() as u128;
        let ex: u32 = self.x.scale_bits();
        let ey: u32 = self.y.scale_bits();
        // The coordinate with the larger scale, then the other one.
        let (sb, eb, ss, es) = if ex >= ey {
            (sx, ex, sy, ey)
        } else {
            (sy, ey, sx, ex)
        };
        let ghost mb: int = sb * pow2(eb as nat);
        let ghost ms: int = ss * pow2(es as nat);
        assert(self.length_squared() == mb * mb + ms * ms);
        proof {
            lemma_pow2_pos(282);
        }
        if eb > 126 {
            proof {
                assert(ms * ms >= 0) by (nonlinear_arith);
                lemma_too_long(sb as int, eb as nat);
            }
            return false;
        }
        if eb < 125 {
            proof {
                lemma_too_short(sb as int, eb as nat);
                lemma_too_short(ss as int, es as nat);
                lemma_pow2_adds(1, 296);
                lemma_pow2_adds(15, 282);
                lemma2_to64();
            }
            return false;
        }
        // The tolerance over the square of the larger scale's power of two.
        let q: u128 = if eb == 126 {
            0x4000_0000
        } else {
            0x1_0000_0000
        };
        let low: u128 = 0xffff * q;
        let high: u128 = 0x1_0001 * q;
        let k: u32 = eb - es;
        assert(sb * sb <= 0xff_ffff * 0xff_ffff && ss * ss <= 0xff_ffff * 0xff_ffff)
            by (nonlinear_arith)
            requires
                0 <= sb <= 0xff_ffff,
                0 <= ss <= 0xff_ffff,
        ;
        let sb2: u128 = sb * sb;
        let ss2: u128 = ss * ss;
        let ghost p: int = pow2(k as nat) as int;
        proof {
            lemma2_to64();
            assert(q == pow2((2 * (141 - eb)) as nat));
            lemma_reduce(sb as int, eb as nat, ss as int, es as nat, low as int, 0xffff);
            lemma_reduce(sb as int, eb as nat, ss as int, es as nat, high as int, 0x1_0001);
            lemma_pow2_pos(k as nat);
        }
        if k >= 24 {
            proof {
                if k > 24 {
                    lemma_pow2_strictly_increases(24, k as nat);
                }
                assert(ss2 < p * p) by (nonlinear_arith)
                    requires
                        ss2 == ss * ss,
                        0 <= ss < 0x100_0000,
                        p >= 0x100_0000,
                ;
                lemma_scaled_order(sb2 as int, low as int, ss2 as int, p * p);
                lemma_scaled_order(sb2 as int, high as int, ss2 as int, p * p);
            }
            sb2 < high && (sb2 > low || (sb2 == low && ss2 > 0))
        } else {
            proof {
                if k < 23 {
                    lemma_pow2_strictly_increases(k as nat, 23);
                }
                lemma_u64_shl_is_mul(1, k as u64);
            }
            let pk: u128 = (1u64 << (k as u64)) as u128;
            assert(pk == p);
            assert(pk * pk <= 0x4000_0000_0000) by (nonlinear_arith)
                requires
                    0 <= pk <= 0x80_0000,
            ;
            let pp: u128 = pk * pk;
            assert(sb2 * pp <= 0x1_0000_0000_0000 * 0x4000_0000_0000
                && low * pp <= 0x1_0000_0000_0000 * 0x4000_0000_0000
                && high * pp <= 0x2_0000_0000_0000 * 0x4000_0000_0000) by (nonlinear_arith)
                requires
                    0 <= pp <= 0x4000_0000_0000,
                    0 <= sb2 <= 0x1_0000_0000_0000,
                    0 <= low <= 0x1_0000_0000_0000,
                    0 <= high <= 0x2_0000_0000_0000,
            ;
            let total: u128 = sb2 * pp + ss2;
            assert(total == (sb as int) * (sb as int) * (p * p) + (ss as int) * (ss as int));
            low * pp < total && total < high * pp
        }
    }

    /// A vector of unit length has a direction: it is not the zero vector.
    pub proof fn lemma_unit_has_direction(self)
        requires
            self.is_unit(),
        ensures
            self.has_direction(),
    {
        lemma_pow2_pos(282);
        if self.is_zero_spec() {
            assert(self.length_squared() == 0);
        }
    }
}

/// A coordinate with a scale of 127 or more is longer than any unit vector.
proof fn lemma_too_long(s: int, e: nat)
    requires
        s >= 0x80_0000,
        e >= 127,
    ensures
        (s * pow2(e)) * (s * pow2(e)) >= 0x4_0000 * pow2(282),
{
    lemma2_to64();
    if e > 127 {
        lemma_pow2_strictly_increases(127, e);
    }
    lemma_pow2_adds(23, 127);
    lemma_pow2_adds(150, 150);
    lemma_pow2_adds(18, 282);
    let m = s * pow2(e);
    let a = pow2(127) as int;
    let b = pow2(e) as int;
    let h = pow2(150) as int;
    assert(m >= h) by (nonlinear_arith)
        requires
            m == s * b,
            h == 0x80_0000 * a,
            s >= 0x80_0000,
            b >= a,
            a >= 0,
    ;
    lemma_pow2_pos(150);
    assert(m * m >= h * h) by (nonlinear_arith)
        requires
            m >= h,
            h > 0,
    ;
}

/// The square of a coordinate with a scale of 124 or less is at most `2^296`:
/// two such squares add up to no more than half of a squared length of one.
proof fn lemma_too_short(s: int, e: nat)
    requires
        0 <= s < 0x100_0000,
        e <= 124,
    ensures
        0 <= (s * pow2(e)) * (s * pow2(e)) <= pow2(296),
{
    lemma2_to64();
    if e < 124 {
        lemma_pow2_strictly_increases(e, 124);
    }
    lemma_pow2_pos(e);
    lemma_pow2_adds(24, 124);
    lemma_pow2_adds(148, 148);
    let m = s * pow2(e);
    let a = pow2(124) as int;
    let b = pow2(e) as int;
    let h = pow2(148) as int;
    assert(0 <= m <= h) by (nonlinear_arith)
        requires
            m == s * b,
            h == 0x100_0000 * a,
            0 <= s < 0x100_0000,
            0 < b <= a,
    ;
    assert(0 <= m * m <= h * h) by (nonlinear_arith)
        requires
            0 <= m <= h,
    ;
}

/// Comparing a sum of two squares with a multiple of the tolerance comes to
/// comparing integers of under a hundred bits: both sides are divided by the
/// square of the smaller scale's power of two.
proof fn lemma_reduce(sb: int, eb: nat, ss: int, es: nat, bound: int, c: int)
    requires
        es <= eb <= 126,
        bound == c * pow2((2 * (141 - eb)) as nat),
    ensures
        ({
            let p = pow2((eb - es) as nat) as int;
            let sum = (sb * pow2(eb)) * (sb * pow2(eb)) + (ss * pow2(es)) * (ss * pow2(es));
            let reduced = sb * sb * (p * p) + ss * ss;
            &&& c * pow2(282) < sum <==> bound * (p * p) < reduced
            &&& sum < c * pow2(282) <==> reduced < bound * (p * p)
        }),
{
    let d = (eb - es) as nat;
    let p = pow2(d) as int;
    let u = pow2(es) as int;
    let q = pow2((2 * (141 - eb)) as nat) as int;
    let pb = pow2(eb) as int;
    let one = pow2(282) as int;
    lemma_pow2_pos(es);
    lemma_pow2_adds(d, es);
    assert(pb == p * u);
    lemma_pow2_adds(d, d);
    lemma_pow2_adds(es, es);
    lemma_pow2_adds(d + d, es + es);
    lemma_pow2_adds((2 * (141 - eb)) as nat, d + d + es + es);
    assert(one == q * ((p * p) * (u * u)));
    let w = u * u;
    let sum = (sb * pb) * (sb * pb) + (ss * u) * (ss * u);
    let reduced = sb * sb * (p * p) + ss * ss;
    let r = bound * (p * p);
    assert(w > 0) by (nonlinear_arith)
        requires
            w == u * u,
            u > 0,
    ;
    assert(sb * pb == (sb * p) * u) by (nonlinear_arith)
        requires
            pb == p * u,
    ;
    lemma_square_of_product(sb * p, u);
    lemma_square_of_product(sb, p);
    lemma_square_of_product(ss, u);
    let big = sb * sb * (p * p);
    let small = ss * ss;
    assert(big * w + small * w == w * (big + small)) by (nonlinear_arith);
    assert(sum == w * reduced);
    assert(c * one == w * r) by (nonlinear_arith)
        requires
            one == q * ((p * p) * (u * u)),
            r == bound * (p * p),
            bound == c * q,
            w == u * u,
    ;
    assert((w * r < w * reduced <==> r < reduced) && (w * reduced < w * r <==> reduced < r))
        by (nonlinear_arith)
        requires
            w > 0,
    ;
}

/// The square of a product is the product of the squares.
proof fn lemma_square_of_product(a: int, b: int)
    ensures
        (a * b) * (a * b) == (a * a) * (b * b),
{
    assert((a * b) * (a * b) == (a * a) * (b * b)) by (nonlinear_arith);
}

/// The order of `a * m + r` and `b * m`, where `0 <= r < m`, is that of `a`
/// and `b`, and of `r` and zero where they are equal.
proof fn lemma_scaled_order(a: int, b: int, r: int, m: int)
    requires
        0 <= r < m,
    ensures
        a * m + r < b * m <==> a < b,
        b * m < a * m + r <==> (b < a || (b == a && r > 0)),
{
    assert(a < b ==> a * m + m <= b * m) by (nonlinear_arith)
        requires
            m > 0,
    ;
    assert(a >= b ==> a * m >= b * m) by (nonlinear_arith)
        requires
            m > 0,
    ;
    assert(b < a ==> b * m + m <= a * m) by (nonlinear_arith)
        requires
            m > 0,
    ;
}

} // verus!
