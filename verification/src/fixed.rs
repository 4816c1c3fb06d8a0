//! Signed fixed-point plane arithmetic.
//!
//! Every real quantity of the engine (plane coordinates, the zoom scalar,
//! escape counts, color-channel parameters) is a [`Fx`]: a sign-magnitude
//! fixed-point number whose magnitude counts units of `1 / 2^32`.  The
//! operations are total: results outside the representable range saturate to
//! the largest magnitude, and every operation's contract states the exact
//! integer value of the result in terms of the operands' values.

use vstd::arithmetic::div_mod::{
    lemma_div_denominator, lemma_div_is_ordered, lemma_div_multiples_vanish,
    lemma_fundamental_div_mod, lemma_fundamental_div_mod_converse_div,
};
use vstd::arithmetic::power2::{
    lemma2_to64, lemma_pow2_adds, lemma_pow2_pos, lemma_pow2_strictly_increases, pow2,
};
use vstd::prelude::*;

verus! {

/// Number of raw units per 1.0: the fixed-point scale, `2^32`.
pub const FX_ONE: u64 = 0x1_0000_0000;

/// Largest representable magnitude, in raw units.
pub const FX_MAX_MAG: u64 = 0xFFFF_FFFF_FFFF_FFFF;

/// Absolute value of a mathematical integer.
pub open spec fn abs_i(x: int) -> int {
    if x >= 0 {
        x
    } else {
        -x
    }
}

/// Saturation to the representable raw range.
pub open spec fn clipped(x: int) -> int {
    if x > FX_MAX_MAG as int {
        FX_MAX_MAG as int
    } else if x < -(FX_MAX_MAG as int) {
        -(FX_MAX_MAG as int)
    } else {
        x
    }
}

/// Division of `p` by `q` rounding toward zero (`q != 0`).
pub open spec fn tz_div(p: int, q: int) -> int {
    if (p >= 0) == (q >= 0) {
        abs_i(p) / abs_i(q)
    } else {
        -(abs_i(p) / abs_i(q))
    }
}

/// The exact raw value of a fixed-point product before saturation.
pub open spec fn mul_fp(x: int, y: int) -> int {
    tz_div(x * y, FX_ONE as int)
}

/// The exact raw value of a fixed-point quotient before saturation (`y != 0`).
pub open spec fn div_fp(x: int, y: int) -> int {
    tz_div(x * (FX_ONE as int), y)
}

/// The mantissa after repeatedly halving `m` until it lies below `2^33`.
pub open spec fn norm_y(m: int) -> int
    decreases m,
{
    if m < 2 * FX_ONE {
        m
    } else {
        norm_y(m / 2)
    }
}

/// The number of halvings that [`norm_y`] performs.
pub open spec fn norm_e(m: int) -> int
    decreases m,
{
    if m < 2 * FX_ONE {
        0
    } else {
        norm_e(m / 2) + 1
    }
}

/// The `k` binary fraction bits of the base-2 logarithm of a normalized
/// mantissa `y` in `[2^32, 2^33)`, produced by squaring steps.
pub open spec fn frac_bits(y: int, k: nat) -> int
    decreases k,
{
    if k == 0 {
        0
    } else {
        let y2 = (y * y) / (FX_ONE as int);
        if y2 >= 2 * FX_ONE {
            pow2((k - 1) as nat) + frac_bits(y2 / 2, (k - 1) as nat)
        } else {
            frac_bits(y2, (k - 1) as nat)
        }
    }
}

/// The raw value that [`Fx::log2`] returns on raw input `x >= 2^32`: the
/// integer part from normalization and 16 fraction bits from squaring.
pub open spec fn log2_fp(x: int) -> int {
    norm_e(x) * FX_ONE + frac_bits(norm_y(x), 16) * 0x1_0000
}

proof fn lemma_mul_bound_low(a: int, b: int, c: int, d: int)
    by (nonlinear_arith)
    requires
        a >= c,
        b >= d,
        c >= 0,
        d >= 0,
    ensures
        a * b >= c * d,
{
}

proof fn lemma_mul_sign_abs(a: int, b: int)
    by (nonlinear_arith)
    ensures
        (-a) * b == -(a * b),
        a * (-b) == -(a * b),
        (-a) * (-b) == a * b,
        a >= 0 && b >= 0 ==> a * b >= 0,
        a >= 0 && b > 0 ==> a * b >= 0,
{
}

proof fn lemma_mul_bound(a: int, b: int, c: int, d: int)
    by (nonlinear_arith)
    requires
        0 <= a <= c,
        0 <= b <= d,
    ensures
        a * b <= c * d,
        a * b >= 0,
{
}

/// A sign-magnitude fixed-point number: the value `mag / 2^32`, negated when
/// `neg` holds.  Canonical zero is non-negative.
#[derive(Copy, Clone, Debug, PartialEq, Eq, Structural)]
pub struct Fx {
    neg: bool,
    mag: u64,
}

impl Fx {
    /// The raw integer value: the represented number times `2^32`.
    pub closed spec fn v(self) -> int {
        if self.neg {
            -(self.mag as int)
        } else {
            self.mag as int
        }
    }

    /// Well-formed: zero is stored with a positive sign.
    pub closed spec fn wf(self) -> bool {
        self.mag == 0 ==> !self.neg
    }

    /// Every representable raw value lies within the saturation range.
    pub proof fn lemma_range(self)
        ensures
            -(FX_MAX_MAG as int) <= self.v() <= FX_MAX_MAG as int,
            clipped(self.v()) == self.v(),
    {
    }

    /// Build a value from a sign and a raw magnitude, canonicalizing zero.
    pub fn from_parts(neg: bool, mag: u64) -> (r: Fx)
        ensures
            r.v() == if neg {
                -(mag as int)
            } else {
                mag as int
            },
            r.wf(),
    {
        Fx { neg: neg && mag != 0, mag }
    }

    /// The fixed-point representation of a small signed integer.
    pub fn from_i32(x: i32) -> (r: Fx)
        ensures
            r.v() == x as int * FX_ONE as int,
            r.wf(),
    {
        if x >= 0 {
            let r = Fx { neg: false, mag: (x as u64) * FX_ONE };
            assert(r.v() == x as int * FX_ONE as int) by (nonlinear_arith)
                requires
                    r.mag == x as u64 * FX_ONE,
                    x >= 0,
                    r.neg == false,
                    FX_ONE == 0x1_0000_0000,
            ;
            r
        } else {
            let m: u64 = ((-(x as i64)) as u64) * FX_ONE;
            let r = Fx { neg: true, mag: m };
            assert(r.v() == x as int * FX_ONE as int) by (nonlinear_arith)
                requires
                    m == -(x as int) * FX_ONE as int,
                    x < 0,
                    r.neg == true,
                    r.mag == m,
                    FX_ONE == 0x1_0000_0000,
            ;
            r
        }
    }

    /// The fixed-point representation of an unsigned 32-bit integer.
    pub fn from_u32(x: u32) -> (r: Fx)
        ensures
            r.v() == x as int * FX_ONE as int,
            r.wf(),
    {
        let r = Fx { neg: false, mag: (x as u64) * FX_ONE };
        assert(r.mag == x as int * FX_ONE as int) by (nonlinear_arith)
            requires
                r.mag == x as u64 * FX_ONE,
                FX_ONE == 0x1_0000_0000,
        ;
        r
    }

    /// Zero.
    pub fn zero() -> (r: Fx)
        ensures
            r.v() == 0,
            r.wf(),
    {
        Fx { neg: false, mag: 0 }
    }

    /// The raw magnitude, in units of `1 / 2^32`.
    pub fn mag(&self) -> (r: u64)
        ensures
            r == abs_i(self.v()),
    {
        self.mag
    }

    /// Whether the value is negative.
    pub fn is_neg(&self) -> (r: bool)
        requires
            self.wf(),
        ensures
            r == (self.v() < 0),
    {
        self.neg
    }

    /// The additive inverse.
    pub fn negated(self) -> (r: Fx)
        ensures
            r.v() == -self.v(),
            r.wf(),
    {
        Fx { neg: !self.neg && self.mag != 0, mag: self.mag }
    }

    /// Saturating fixed-point addition.
    pub fn add(self, o: Fx) -> (r: Fx)
        ensures
            r.v() == clipped(self.v() + o.v()),
            r.wf(),
    {
        if self.neg == o.neg {
            let s: u128 = self.mag as u128 + o.mag as u128;
            let mag: u64 = if s > FX_MAX_MAG as u128 {
                FX_MAX_MAG
            } else {
                s as u64
            };
            Fx { neg: self.neg && mag != 0, mag }
        } else if self.mag >= o.mag {
            let mag: u64 = self.mag - o.mag;
            Fx { neg: self.neg && mag != 0, mag }
        } else {
            let mag: u64 = o.mag - self.mag;
            Fx { neg: o.neg && mag != 0, mag }
        }
    }

    /// Saturating fixed-point subtraction.
    pub fn sub(self, o: Fx) -> (r: Fx)
        ensures
            r.v() == clipped(self.v() - o.v()),
            r.wf(),
    {
        self.add(o.negated())
    }

    /// Saturating fixed-point multiplication, rounding toward zero.
    pub fn mul(self, o: Fx) -> (r: Fx)
        ensures
            r.v() == clipped(mul_fp(self.v(), o.v())),
            r.wf(),
    {
        let a = self.mag;
        let b = o.mag;
        proof {
            lemma_mul_bound(a as int, b as int, FX_MAX_MAG as int, FX_MAX_MAG as int);
        }
        let p: u128 = (a as u128) * (b as u128);
        let q: u128 = p / (FX_ONE as u128);
        let mag: u64 = if q > FX_MAX_MAG as u128 {
            FX_MAX_MAG
        } else {
            q as u64
        };
        let neg = (self.neg != o.neg) && mag != 0;
        let r = Fx { neg, mag };
        proof {
            lemma_mul_sign_abs(a as int, b as int);
            assert(abs_i(self.v() * o.v()) == a as int * b as int) by {
                lemma_mul_sign_abs(a as int, b as int);
                if self.neg && o.neg {
                    assert(self.v() * o.v() == a as int * b as int);
                } else if self.neg {
                    assert(self.v() * o.v() == -(a as int * b as int));
                } else if o.neg {
                    assert(self.v() * o.v() == -(a as int * b as int));
                }
            }
        }
        r
    }

    /// Saturating fixed-point division, rounding toward zero.
    pub fn div(self, o: Fx) -> (r: Fx)
        requires
            o.v() != 0,
        ensures
            r.v() == clipped(div_fp(self.v(), o.v())),
            r.wf(),
    {
        let a = self.mag;
        let b = o.mag;
        let p: u128 = (a as u128) * (FX_ONE as u128);
        let q: u128 = p / (b as u128);
        let mag: u64 = if q > FX_MAX_MAG as u128 {
            FX_MAX_MAG
        } else {
            q as u64
        };
        let neg = (self.neg != o.neg) && mag != 0;
        let r = Fx { neg, mag };
        proof {
            lemma_mul_sign_abs(a as int, FX_ONE as int);
            assert(abs_i(self.v() * (FX_ONE as int)) == a as int * FX_ONE as int) by {
                lemma_mul_sign_abs(a as int, FX_ONE as int);
                if self.neg {
                    assert(self.v() * (FX_ONE as int) == -(a as int * FX_ONE as int));
                }
            }
        }
        r
    }

    /// Saturating multiplication by a small non-negative integer.
    pub fn scale_u64(self, k: u64) -> (r: Fx)
        ensures
            r.v() == clipped(self.v() * k),
            r.wf(),
    {
        proof {
            lemma_mul_bound(self.mag as int, k as int, FX_MAX_MAG as int, FX_MAX_MAG as int);
            lemma_mul_sign_abs(self.mag as int, k as int);
        }
        let p: u128 = (self.mag as u128) * (k as u128);
        let mag: u64 = if p > FX_MAX_MAG as u128 {
            FX_MAX_MAG
        } else {
            p as u64
        };
        let neg = self.neg && mag != 0;
        let r = Fx { neg, mag };
        proof {
            if self.neg {
                lemma_mul_sign_abs(self.mag as int, k as int);
                assert(self.v() * k as int == -(self.mag as int * k as int));
            }
        }
        r
    }

    /// Division by a positive integer, rounding toward zero.
    pub fn shrink_u64(self, k: u64) -> (r: Fx)
        requires
            k > 0,
        ensures
            r.v() == tz_div(self.v(), k as int),
            r.wf(),
    {
        let mag: u64 = self.mag / k;
        let neg = self.neg && mag != 0;
        Fx { neg, mag }
    }

    /// A base-2 logarithm with a 16-bit binary fraction, computed by
    /// normalize-then-square steps; the contract mirrors [`log2_fp`].
    pub fn log2(self) -> (r: Fx)
        requires
            self.v() >= FX_ONE as int,
        ensures
            r.v() == log2_fp(self.v()),
            r.v() >= 0,
            r.wf(),
    {
        let mut y: u64 = self.mag;
        let mut e: u64 = 0;
        proof {
            lemma2_to64();
        }
        while y >= 2 * FX_ONE
            invariant
                self.v() == self.mag as int,
                FX_ONE <= y,
                e <= 32,
                y as int == self.mag as int / pow2(e as nat) as int,
                norm_y(self.mag as int) == norm_y(y as int),
                norm_e(self.mag as int) == norm_e(y as int) + e,
            decreases y,
        {
            proof {
                lemma_pow2_pos(e as nat);
                lemma_fundamental_div_mod(self.mag as int, pow2(e as nat) as int);
                assert(self.mag as int % (pow2(e as nat) as int) >= 0) by (nonlinear_arith)
                    requires
                        pow2(e as nat) as int > 0,
                ;
                if e >= 32 {
                    lemma2_to64();
                    if e > 32 {
                        lemma_pow2_strictly_increases(32, e as nat);
                    }
                    lemma_mul_bound_low(
                        pow2(e as nat) as int,
                        y as int,
                        0x1_0000_0000,
                        2 * FX_ONE as int,
                    );
                    assert(false);
                }
                lemma_pow2_adds(e as nat, 1);
                lemma2_to64();
                lemma_div_denominator(self.mag as int, pow2(e as nat) as int, 2);
            }
            y = y / 2;
            e = e + 1;
        }
        let ghost y0: int = y as int;
        let mut frac: u64 = 0;
        let mut i: u64 = 0;
        while i < 16
            invariant
                FX_ONE <= y < 2 * FX_ONE,
                i <= 16,
                frac < pow2(i as nat),
                frac_bits(y0, 16) == frac * pow2((16 - i) as nat) + frac_bits(
                    y as int,
                    (16 - i) as nat,
                ),
            decreases 16 - i,
        {
            proof {
                let s: int = FX_ONE as int;
                lemma_mul_bound(y as int, y as int, 2 * s - 1, 2 * s - 1);
                lemma_mul_bound(s, s, y as int, y as int);
                lemma_div_is_ordered(s * s, y as int * y as int, s);
                lemma_div_is_ordered(y as int * y as int, (2 * s - 1) * (2 * s - 1), s);
                lemma_div_multiples_vanish(s, s);
                assert((2 * s - 1) * (2 * s - 1) == (4 * s - 4) * s + 1) by (nonlinear_arith);
                lemma_fundamental_div_mod_converse_div(
                    (2 * s - 1) * (2 * s - 1),
                    s,
                    4 * s - 4,
                    1,
                );
            }
            let p: u128 = (y as u128) * (y as u128);
            let y2: u64 = (p / (FX_ONE as u128)) as u64;
            let ghost k: nat = (16 - i) as nat;
            proof {
                lemma_pow2_adds((k - 1) as nat, 1);
                lemma2_to64();
                assert(frac * pow2(k) + pow2((k - 1) as nat) == (2 * frac + 1) * pow2(
                    (k - 1) as nat,
                )) by (nonlinear_arith)
                    requires
                        pow2(k) == 2 * pow2((k - 1) as nat),
                ;
                assert(frac * pow2(k) == (2 * frac) * pow2((k - 1) as nat)) by (nonlinear_arith)
                    requires
                        pow2(k) == 2 * pow2((k - 1) as nat),
                ;
            }
            if y2 >= 2 * FX_ONE {
                y = y2 / 2;
                frac = 2 * frac + 1;
            } else {
                y = y2;
                frac = 2 * frac;
            }
            i = i + 1;
        }
        proof {
            lemma2_to64();
            assert(frac_bits(y0, 16) == frac) by {
                lemma2_to64();
                assert(frac * pow2(0) == frac) by (nonlinear_arith)
                    requires
                        pow2(0) == 1,
                ;
                assert(frac_bits(y as int, 0) == 0);
            }
            assert(norm_y(self.v()) == y0);
            assert(norm_e(self.v()) == e as int);
        }
        let mag: u64 = e * FX_ONE + frac * 0x1_0000;
        Fx { neg: false, mag }
    }

    /// `self * a / b` in one fused step with a single floor, for a
    /// non-negative value, a moderate integer numerator and a positive
    /// integer denominator.
    pub fn muldiv_u64(self, a: u64, b: u64) -> (r: Fx)
        requires
            self.v() >= 0,
            a <= 0x10_0000_0000,
            b > 0,
        ensures
            r.v() == clipped((self.v() * a as int) / b as int),
            r.wf(),
    {
        proof {
            lemma_mul_bound(self.mag as int, a as int, FX_MAX_MAG as int, 0x10_0000_0000);
        }
        let p: u128 = (self.mag as u128) * (a as u128);
        let q: u128 = p / (b as u128);
        let mag: u64 = if q > FX_MAX_MAG as u128 {
            FX_MAX_MAG
        } else {
            q as u64
        };
        Fx { neg: false, mag }
    }

    /// Whether `self` is strictly less than `o`.
    pub fn lt(self, o: Fx) -> (r: bool)
        requires
            self.wf(),
            o.wf(),
        ensures
            r == (self.v() < o.v()),
    {
        if self.neg && !o.neg {
            true
        } else if !self.neg && o.neg {
            false
        } else if self.neg {
            o.mag < self.mag
        } else {
            self.mag < o.mag
        }
    }

    /// Whether `self` is strictly greater than `o`.
    pub fn gt(self, o: Fx) -> (r: bool)
        requires
            self.wf(),
            o.wf(),
        ensures
            r == (self.v() > o.v()),
    {
        o.lt(self)
    }

    /// Whether `self` is at least `o`.
    pub fn ge(self, o: Fx) -> (r: bool)
        requires
            self.wf(),
            o.wf(),
        ensures
            r == (self.v() >= o.v()),
    {
        !self.lt(o)
    }
}

} // verus!
