//! A location and magnification within the complex plane.
//!
//! A [`Loc`] is the resolution-independent description of a view: the
//! origin of the window, the per-pixel zoom scalar, and the iteration cap.
//! It can be fitted to a pixel bounds, rescaled between bounds, and moved.

use crate::fixed::{clipped, Fx, FX_MAX_MAG};
use crate::polycomplex::Complex;
use crate::Bounds;
use vstd::arithmetic::div_mod::{
    lemma_div_by_self, lemma_div_is_ordered, lemma_div_multiples_vanish,
    lemma_div_multiples_vanish_quotient, lemma_div_pos_is_pos, lemma_fundamental_div_mod,
    lemma_mod_bound,
};
use vstd::prelude::*;

verus! {

/// Raw magnitude of the reference span `1.5` that [`Loc::for_bounds`] fits
/// across the smaller pixel dimension.
pub const FIT_SPAN_MAG: u64 = 6442450944;

/// The default iteration cap.
pub const DEFAULT_MAX_ITER: u32 = 100;

/// A location, scalar and iteration cap for a view of the complex plane.
#[derive(Copy, Clone, Debug, PartialEq, Eq, Structural)]
pub struct Loc {
    /// The imaginary axis origin.
    pub im0: Fx,
    /// The real axis origin.
    pub re0: Fx,
    /// Magnification: plane units per pixel step.
    pub scalar: Fx,
    /// The maximum iterations before declaring that a point does not
    /// escape.
    pub max_iter: u32,
}

/// How the two axes' resize ratios combine when rescaling a location.
#[derive(Copy, Clone, Debug)]
pub enum ScaleMethod {
    /// Preserve the full extent: nothing is cropped.
    Min,
    /// A compromise between the two axes.
    Avg,
    /// Fill the new bounds: content may be cropped.
    Max,
}

/// The raw scalar scaled by the integer ratio `o / n`, with one floor.
pub open spec fn ratio_scaled(v: int, o: int, n: int) -> int {
    clipped((v * o) / n)
}

/// The raw scalar divided by the average of the two resize ratios, with
/// one floor.
pub open spec fn avg_scaled(v: int, ob: Bounds, nb: Bounds) -> int {
    clipped(
        (v * (2 * ob.width as int * ob.height as int)) / (nb.width as int * ob.height as int
            + nb.height as int * ob.width as int),
    )
}

/// The raw scalar that [`Loc::scale`] produces: the method combines the
/// two per-axis rescalings, and the result is clamped to stay positive.
pub open spec fn scaled_v(v: int, ob: Bounds, nb: Bounds, m: ScaleMethod) -> int {
    let sw = ratio_scaled(v, ob.width as int, nb.width as int);
    let sh = ratio_scaled(v, ob.height as int, nb.height as int);
    let s = match m {
        ScaleMethod::Min => if sw >= sh {
            sw
        } else {
            sh
        },
        ScaleMethod::Max => if sw <= sh {
            sw
        } else {
            sh
        },
        ScaleMethod::Avg => avg_scaled(v, ob, nb),
    };
    if s < 1 {
        1
    } else {
        s
    }
}

/// The raw scalar that [`Loc::for_bounds`] chooses: the reference span
/// divided by the smaller pixel dimension.
pub open spec fn fit_scalar_v(b: Bounds) -> int {
    FIT_SPAN_MAG as int / (if b.width <= b.height {
        b.width
    } else {
        b.height
    } as int)
}

proof fn lemma_dim_products(ow: u16, oh: u16, nw: u16, nh: u16)
    by (nonlinear_arith)
    requires
        ow >= 1,
        oh >= 1,
        nw >= 1,
        nh >= 1,
    ensures
        2 <= 2 * (ow as int) * (oh as int) <= 0x2_0000_0000,
        1 <= (nw as int) * (oh as int) + (nh as int) * (ow as int) <= 0x2_0000_0000,
{
}

impl Loc {
    /// Well-formed: canonical fields, a positive scalar, and at least one
    /// allowed iteration.
    pub open spec fn wf(self) -> bool {
        self.im0.wf() && self.re0.wf() && self.scalar.wf() && self.scalar.v() > 0
            && self.max_iter >= 1
    }

    /// A location fitted to the given bounds: the origin view spans `1.5`
    /// plane units across the smaller pixel dimension.
    pub fn for_bounds(bounds: Bounds) -> (r: Loc)
        requires
            bounds.width >= 1,
            bounds.height >= 1,
        ensures
            r.re0.v() == 0,
            r.im0.v() == 0,
            r.max_iter == DEFAULT_MAX_ITER,
            r.scalar.v() == fit_scalar_v(bounds),
            r.wf(),
    {
        let m: u16 = if bounds.width <= bounds.height {
            bounds.width
        } else {
            bounds.height
        };
        proof {
            lemma_div_by_self(m as int);
            lemma_div_is_ordered(m as int, FIT_SPAN_MAG as int, m as int);
        }
        let mag: u64 = FIT_SPAN_MAG / (m as u64);
        Loc {
            im0: Fx::zero(),
            re0: Fx::zero(),
            scalar: Fx::from_parts(false, mag),
            max_iter: DEFAULT_MAX_ITER,
        }
    }

    /// A location describing the same plane region at a different pixel
    /// resolution: the scalar is divided by the combination of the two
    /// axes' resize ratios that the method selects.
    pub fn scale(&self, old: Bounds, new: Bounds, scale_by: ScaleMethod) -> (r: Loc)
        requires
            self.wf(),
            old.width >= 1,
            old.height >= 1,
            new.width >= 1,
            new.height >= 1,
        ensures
            r.scalar.v() == scaled_v(self.scalar.v(), old, new, scale_by),
            r.im0 == self.im0,
            r.re0 == self.re0,
            r.max_iter == self.max_iter,
            r.wf(),
    {
        let s: Fx = match scale_by {
            ScaleMethod::Min => {
                let sw = self.scalar.muldiv_u64(old.width as u64, new.width as u64);
                let sh = self.scalar.muldiv_u64(old.height as u64, new.height as u64);
                if sw.ge(sh) {
                    sw
                } else {
                    sh
                }
            },
            ScaleMethod::Max => {
                let sw = self.scalar.muldiv_u64(old.width as u64, new.width as u64);
                let sh = self.scalar.muldiv_u64(old.height as u64, new.height as u64);
                if sh.ge(sw) {
                    sw
                } else {
                    sh
                }
            },
            ScaleMethod::Avg => {
                proof {
                    lemma_dim_products(old.width, old.height, new.width, new.height);
                }
                let a: u64 = 2 * (old.width as u64) * (old.height as u64);
                let b: u64 = (new.width as u64) * (old.height as u64) + (new.height as u64) * (
                old.width as u64);
                self.scalar.muldiv_u64(a, b)
            },
        };
        let scalar: Fx = if s.mag() == 0 {
            Fx::from_parts(false, 1)
        } else {
            s
        };
        Loc { im0: self.im0, re0: self.re0, scalar, max_iter: self.max_iter }
    }

    /// The current view center as a complex number.
    pub fn origin(&self) -> (r: Complex)
        ensures
            r.re == self.re0,
            r.im == self.im0,
    {
        Complex::new(self.re0, self.im0)
    }

    /// Move the location to the position given by a complex number.
    pub fn move_to(&mut self, c: Complex)
        ensures
            final (self).re0 == c.re,
            final (self).im0 == c.im,
            final (self).scalar == old(self).scalar,
            final (self).max_iter == old(self).max_iter,
    {
        self.im0 = c.im;
        self.re0 = c.re;
    }
}

/// Rescaling by the equivalent fraction `a / b == c / d` floors to the
/// same value.
proof fn lemma_ratio_equal(x: int, a: int, b: int, c: int, d: int)
    requires
        x >= 0,
        a >= 1,
        b >= 1,
        c >= 1,
        d >= 1,
        a * d == c * b,
    ensures
        (x * a) / b == (x * c) / d,
{
    assert(x * a >= 0 && x * c >= 0) by (nonlinear_arith)
        requires
            x >= 0,
            a >= 1,
            c >= 1,
    ;
    lemma_div_multiples_vanish_quotient(d, x * a, b);
    lemma_div_multiples_vanish_quotient(b, x * c, d);
    assert(d * (x * a) == b * (x * c)) by (nonlinear_arith)
        requires
            a * d == c * b,
    ;
    assert(d * b == b * d) by (nonlinear_arith);
}

/// Law: rescaling with the `Min` method to proportional bounds and back
/// is approximately idempotent.  Whenever the two bounds have the same
/// aspect ratio, the outbound rescale keeps at least one raw scalar unit,
/// and the scalar is small enough not to saturate, the round trip returns
/// a scalar `rt` with `rt <= v` and `(v - rt) * b1.width < b2.width +
/// b1.width`: the loss is below one width-ratio step of the raw grid.
pub proof fn law_scale_round_trip_min(v: int, b1: Bounds, b2: Bounds)
    requires
        1 <= v <= FX_MAX_MAG,
        1 <= b1.width,
        1 <= b1.height,
        1 <= b2.width,
        1 <= b2.height,
        b2.width as int * b1.height as int == b1.width as int * b2.height as int,
        b2.width as int <= v * b1.width as int,
        v * b1.width as int <= FX_MAX_MAG as int * b2.width as int,
    ensures
        scaled_v(scaled_v(v, b1, b2, ScaleMethod::Min), b2, b1, ScaleMethod::Min) <= v,
        ((v - scaled_v(scaled_v(v, b1, b2, ScaleMethod::Min), b2, b1, ScaleMethod::Min))
            * b1.width as int) < b2.width as int + b1.width as int,
{
    let ow = b1.width as int;
    let oh = b1.height as int;
    let nw = b2.width as int;
    let nh = b2.height as int;
    assert(ow * nh == oh * nw) by (nonlinear_arith)
        requires
            nw * oh == ow * nh,
    ;
    lemma_ratio_equal(v, ow, nw, oh, nh);
    let q1 = (v * ow) / nw;
    lemma_div_is_ordered(nw, v * ow, nw);
    lemma_div_by_self(nw);
    lemma_div_is_ordered(v * ow, FX_MAX_MAG as int * nw, nw);
    lemma_div_multiples_vanish(FX_MAX_MAG as int, nw);
    assert(FX_MAX_MAG as int * nw == nw * FX_MAX_MAG as int) by (nonlinear_arith);
    assert(1 <= q1 <= FX_MAX_MAG as int);
    assert(scaled_v(v, b1, b2, ScaleMethod::Min) == q1);
    assert(nw * oh == nh * ow) by (nonlinear_arith)
        requires
            nw * oh == ow * nh,
    ;
    lemma_ratio_equal(q1, nw, ow, nh, oh);
    let q2 = (q1 * nw) / ow;
    lemma_fundamental_div_mod(v * ow, nw);
    lemma_mod_bound(v * ow, nw);
    assert(q1 * nw <= v * ow && v * ow < q1 * nw + nw) by (nonlinear_arith)
        requires
            v * ow == nw * q1 + (v * ow) % nw,
            0 <= (v * ow) % nw < nw,
    ;
    lemma_div_is_ordered(q1 * nw, v * ow, ow);
    lemma_div_multiples_vanish(v, ow);
    assert(v * ow == ow * v) by (nonlinear_arith);
    assert(q2 <= v);
    lemma_fundamental_div_mod(q1 * nw, ow);
    lemma_mod_bound(q1 * nw, ow);
    assert(q2 * ow > v * ow - nw - ow) by (nonlinear_arith)
        requires
            q1 * nw == ow * q2 + (q1 * nw) % ow,
            0 <= (q1 * nw) % ow < ow,
            v * ow < q1 * nw + nw,
    ;
    assert(0 <= q2) by {
        lemma_div_pos_is_pos(q1 * nw, ow);
        assert(q1 * nw >= 0) by (nonlinear_arith)
            requires
                q1 >= 1,
                nw >= 1,
        ;
    }
    let rt = scaled_v(q1, b2, b1, ScaleMethod::Min);
    if q2 < 1 {
        assert(rt == 1);
        assert((v - 1) * ow < nw + ow) by (nonlinear_arith)
            requires
                0 * ow >= q2 * ow,
                q2 * ow > v * ow - nw - ow,
                q2 < 1,
                0 <= q2,
                ow >= 1,
        ;
    } else {
        assert(rt == q2);
        assert((v - q2) * ow < nw + ow) by (nonlinear_arith)
            requires
                q2 * ow > v * ow - nw - ow,
        ;
    }
}

impl Default for Loc {
    /// The default view: origin `0 + 0i`, scalar `0.1` (rounded to the
    /// fixed-point grid), and the default iteration cap.
    fn default() -> (r: Loc)
        ensures
            r.re0.v() == 0,
            r.im0.v() == 0,
            r.scalar.v() == 429496729,
            r.max_iter == DEFAULT_MAX_ITER,
            r.wf(),
    {
        Loc {
            im0: Fx::zero(),
            re0: Fx::zero(),
            scalar: Fx::from_parts(false, 429496729),
            max_iter: DEFAULT_MAX_ITER,
        }
    }
}

} // verus!
