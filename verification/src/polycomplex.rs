//! Polynomial complex escape functions.
//!
//! The engine iterates `z <- z^n + offset` over the fixed-point complex
//! plane, where `n` is the configured exponent rounded to the nearest
//! integer, and reports how quickly a sampled point escapes the threshold
//! `|z|^2 > 8`.  Escapes carry a smoothed fractional iteration count so that
//! colorized output shows no banding.

use crate::fixed::{clipped, div_fp, log2_fp, mul_fp, Fx, FX_ONE};
use vstd::arithmetic::div_mod::lemma_fundamental_div_mod_converse_div;
use vstd::prelude::*;

verus! {

/// The escape status of an evaluated point: `None` when the orbit stayed
/// bounded for the whole iteration budget, `Some(count)` with a smoothed
/// fractional iteration count otherwise.
pub type Escape = Option<Fx>;

/// Raw escape threshold: the orbit has escaped when `|z|^2` exceeds `8`.
pub const ESCAPE_THRESHOLD_MAG: u64 = 0x8_0000_0000;

/// Smallest admissible raw exponent, `1 + 1/1024`: keeps the smoothing
/// denominator `log2(exp)` away from zero.
pub const EXP_MIN_MAG: u64 = 0x1_0040_0000;

/// Largest admissible raw exponent, `16`.
pub const EXP_MAX_MAG: u64 = 0x10_0000_0000;

/// A complex number over the fixed-point plane.
#[derive(Copy, Clone, Debug, PartialEq, Eq, Structural)]
pub struct Complex {
    pub re: Fx,
    pub im: Fx,
}

/// The raw value pair of a complex number.
pub open spec fn cv(z: Complex) -> (int, int) {
    (z.re.v(), z.im.v())
}

/// The saturating complex product of raw value pairs.
pub open spec fn cmul_v(a: (int, int), b: (int, int)) -> (int, int) {
    (
        clipped(clipped(mul_fp(a.0, b.0)) - clipped(mul_fp(a.1, b.1))),
        clipped(clipped(mul_fp(a.0, b.1)) + clipped(mul_fp(a.1, b.0))),
    )
}

/// The saturating complex sum of raw value pairs.
pub open spec fn cadd_v(a: (int, int), b: (int, int)) -> (int, int) {
    (clipped(a.0 + b.0), clipped(a.1 + b.1))
}

/// The saturating squared magnitude of a raw value pair.
pub open spec fn nsq_v(a: (int, int)) -> int {
    clipped(clipped(mul_fp(a.0, a.0)) + clipped(mul_fp(a.1, a.1)))
}

/// The `n`-th power of a raw value pair by repeated multiplication
/// (`n <= 1` yields the pair itself).
pub open spec fn cpow_v(z: (int, int), n: nat) -> (int, int)
    decreases n,
{
    if n <= 1 {
        z
    } else {
        cmul_v(cpow_v(z, (n - 1) as nat), z)
    }
}

/// The configured raw exponent rounded to the nearest integer.
pub open spec fn exp_n(exp: int) -> int {
    (exp + 0x8000_0000) / (FX_ONE as int)
}

/// One engine step on a raw value pair: `z^n + off` for exponent `exp`.
pub open spec fn step_v(exp: int, z: (int, int), off: (int, int)) -> (int, int) {
    cadd_v(cpow_v(z, exp_n(exp) as nat), off)
}

/// The orbit of `z0` under repeated [`step_v`]: the value after `i` steps.
pub open spec fn orbit(exp: int, z0: (int, int), off: (int, int), i: nat) -> (int, int)
    decreases i,
{
    if i == 0 {
        z0
    } else {
        step_v(exp, orbit(exp, z0, off, (i - 1) as nat), off)
    }
}

/// The smoothed fractional iteration count reported when the orbit value
/// `z` (with `|z|^2 > 8`) escapes at loop index `iters`: the raw value of
/// `iters - log2(log2(|z|^2) / 3) / log2(exp)`, with degenerate logarithms
/// guarded to zero.
pub open spec fn smooth_v(exp: int, z: (int, int), iters: int) -> int {
    let l = log2_fp(nsq_v(z));
    let ratio = clipped(div_fp(l, 3 * FX_ONE as int));
    let outer = if ratio >= FX_ONE as int {
        log2_fp(ratio)
    } else {
        0
    };
    let d = log2_fp(exp);
    let fract = if d == 0 {
        0
    } else {
        clipped(div_fp(outer, d))
    };
    clipped(iters * FX_ONE as int - fract)
}

/// What an escape evaluation may report for exponent `exp`, start value
/// `z0`, additive offset `off` and iteration budget `limit`: `None` exactly
/// when no orbit value within the budget exceeds the threshold, and
/// otherwise the smoothed count of the first escaping step.
pub open spec fn escape_ok(
    exp: int,
    z0: (int, int),
    off: (int, int),
    limit: nat,
    r: Escape,
) -> bool {
    match r {
        None => forall|i: nat|
            i < limit ==> #[trigger] nsq_v(orbit(exp, z0, off, i + 1)) <= ESCAPE_THRESHOLD_MAG,
        Some(f) => f.wf() && exists|i: nat|
            i < limit && #[trigger] nsq_v(orbit(exp, z0, off, i + 1)) > ESCAPE_THRESHOLD_MAG && (
            forall|j: nat|
                j < i ==> #[trigger] nsq_v(orbit(exp, z0, off, j + 1)) <= ESCAPE_THRESHOLD_MAG)
                && f.v() == smooth_v(exp, orbit(exp, z0, off, i + 1), i as int),
    }
}

/// A raw exponent admissible for the engine.
pub open spec fn exp_wf(e: Fx) -> bool {
    e.wf() && EXP_MIN_MAG as int <= e.v() <= EXP_MAX_MAG as int
}

impl Complex {
    /// Well-formed: both parts canonical.
    pub open spec fn wf(self) -> bool {
        self.re.wf() && self.im.wf()
    }

    /// The complex number `re + im*i`.
    pub fn new(re: Fx, im: Fx) -> (r: Complex)
        ensures
            r.re == re,
            r.im == im,
    {
        Complex { re, im }
    }

    /// The complex zero.
    pub fn zero() -> (r: Complex)
        ensures
            cv(r) == (0int, 0int),
            r.wf(),
    {
        Complex { re: Fx::zero(), im: Fx::zero() }
    }

    /// Saturating complex addition.
    pub fn add_c(self, o: Complex) -> (r: Complex)
        ensures
            cv(r) == cadd_v(cv(self), cv(o)),
            r.wf(),
    {
        Complex { re: self.re.add(o.re), im: self.im.add(o.im) }
    }

    /// Saturating complex multiplication.
    pub fn mul_c(self, o: Complex) -> (r: Complex)
        ensures
            cv(r) == cmul_v(cv(self), cv(o)),
            r.wf(),
    {
        Complex {
            re: self.re.mul(o.re).sub(self.im.mul(o.im)),
            im: self.re.mul(o.im).add(self.im.mul(o.re)),
        }
    }

    /// Saturating squared magnitude.
    pub fn norm_sqr(self) -> (r: Fx)
        ensures
            r.v() == nsq_v(cv(self)),
            r.wf(),
    {
        self.re.mul(self.re).add(self.im.mul(self.im))
    }

    /// The `n`-th power by repeated multiplication.
    pub fn pow_n(self, n: u32) -> (r: Complex)
        requires
            n >= 1,
            self.wf(),
        ensures
            cv(r) == cpow_v(cv(self), n as nat),
            r.wf(),
    {
        let mut w = self;
        let mut k: u32 = 1;
        while k < n
            invariant
                1 <= k <= n,
                cv(w) == cpow_v(cv(self), k as nat),
                w.wf(),
            decreases n - k,
        {
            w = w.mul_c(self);
            k = k + 1;
        }
        w
    }
}

/// The smoothed count for an orbit value that has just escaped; mirrors
/// [`smooth_v`].
fn smoothed_escape(nsq: Fx, iters: u32, exp: Fx, ghost_z: Ghost<(int, int)>) -> (r: Fx)
    requires
        nsq.wf(),
        exp_wf(exp),
        nsq.v() == nsq_v(ghost_z@),
        nsq.v() > ESCAPE_THRESHOLD_MAG,
    ensures
        r.v() == smooth_v(exp.v(), ghost_z@, iters as int),
        r.wf(),
{
    let l = nsq.log2();
    let three = Fx::from_i32(3);
    let ratio = l.div(three);
    let one = Fx::from_i32(1);
    let outer = if ratio.ge(one) {
        ratio.log2()
    } else {
        Fx::zero()
    };
    let d = exp.log2();
    let fract = if d.mag() == 0 {
        Fx::zero()
    } else {
        outer.div(d)
    };
    Fx::from_u32(iters).sub(fract)
}

/// The Mandelbrot family: iterates `z <- z^exp + c` from `z = 0`, where `c`
/// is the sampled point.
#[derive(Copy, Clone, Debug, PartialEq, Eq, Structural)]
pub struct Mandelbrot {
    pub exp: Fx,
}

impl Default for Mandelbrot {
    /// The classic quadratic Mandelbrot function.
    fn default() -> (r: Mandelbrot)
        ensures
            r.exp.v() == 2 * FX_ONE as int,
            r.wf(),
    {
        Mandelbrot { exp: Fx::from_i32(2) }
    }
}

impl Mandelbrot {
    /// Well-formed: the exponent is admissible.
    pub open spec fn wf(self) -> bool {
        exp_wf(self.exp)
    }

    /// A Mandelbrot function that keeps a Julia function's exponent.
    pub fn from_julia(j: &Julia) -> (r: Mandelbrot)
        ensures
            r.exp == j.exp,
    {
        Mandelbrot { exp: j.exp }
    }

    /// Evaluate the escape status of the sampled point `c`.
    pub fn render(&self, c: Complex, limit: u32) -> (r: Escape)
        requires
            self.wf(),
            c.wf(),
        ensures
            escape_ok(self.exp.v(), (0int, 0int), cv(c), limit as nat, r),
    {
        escape_loop(self.exp, Complex::zero(), c, limit)
    }
}

/// The Julia family: iterates `z <- z^exp + c_offset` from the sampled
/// point.
#[derive(Copy, Clone, Debug, PartialEq, Eq, Structural)]
pub struct Julia {
    pub exp: Fx,
    pub c_offset: Complex,
}

impl Default for Julia {
    /// A quadratic Julia function at the offset `0.6 + 0.4i`, rounded to
    /// the fixed-point grid.
    fn default() -> (r: Julia)
        ensures
            r.exp.v() == 2 * FX_ONE as int,
            r.c_offset.re.v() == 2576980377,
            r.c_offset.im.v() == 1717986918,
            r.wf(),
    {
        Julia {
            exp: Fx::from_i32(2),
            c_offset: Complex {
                re: Fx::from_parts(false, 2576980377),
                im: Fx::from_parts(false, 1717986918),
            },
        }
    }
}

impl Julia {
    /// Well-formed: the exponent is admissible and the offset canonical.
    pub open spec fn wf(self) -> bool {
        exp_wf(self.exp) && self.c_offset.wf()
    }

    /// A Julia function that keeps a Mandelbrot function's exponent and
    /// fixes the given complex offset.
    pub fn from_c(m: &Mandelbrot, c_offset: Complex) -> (r: Julia)
        ensures
            r.exp == m.exp,
            r.c_offset == c_offset,
    {
        Julia { exp: m.exp, c_offset }
    }

    /// Evaluate the escape status of the sampled point `c`.
    pub fn render(&self, c: Complex, limit: u32) -> (r: Escape)
        requires
            self.wf(),
            c.wf(),
        ensures
            escape_ok(self.exp.v(), cv(c), cv(self.c_offset), limit as nat, r),
    {
        escape_loop(self.exp, c, self.c_offset, limit)
    }
}

/// A polynomial complex-valued function: either the Mandelbrot family or a
/// Julia family, behind one evaluation interface.
#[derive(Copy, Clone, Debug, PartialEq, Eq, Structural)]
pub enum PolyComplexFn {
    Julia(Julia),
    Mandelbrot(Mandelbrot),
}

impl Default for PolyComplexFn {
    /// The default family is the quadratic Mandelbrot function.
    fn default() -> (r: PolyComplexFn)
        ensures
            r is Mandelbrot,
            r.exp_spec().v() == 2 * FX_ONE as int,
            r.wf(),
    {
        PolyComplexFn::Mandelbrot(Mandelbrot::default())
    }
}

/// What [`PolyComplexFn::render`] may report at the sampled raw value
/// pair `c`: the Mandelbrot family starts the orbit at zero and offsets by
/// the sampled point; the Julia family starts at the sampled point and
/// offsets by its fixed `c_offset`.
pub open spec fn poly_escape_ok_v(f: PolyComplexFn, c: (int, int), limit: nat, r: Escape) -> bool {
    match f {
        PolyComplexFn::Mandelbrot(m) => escape_ok(m.exp.v(), (0int, 0int), c, limit, r),
        PolyComplexFn::Julia(j) => escape_ok(j.exp.v(), c, cv(j.c_offset), limit, r),
    }
}

/// [`poly_escape_ok_v`] at a sampled complex number.
pub open spec fn poly_escape_ok(f: PolyComplexFn, c: Complex, limit: nat, r: Escape) -> bool {
    poly_escape_ok_v(f, cv(c), limit, r)
}

impl PolyComplexFn {
    /// Well-formed: the active family is well-formed.
    pub open spec fn wf(self) -> bool {
        match self {
            PolyComplexFn::Mandelbrot(m) => m.wf(),
            PolyComplexFn::Julia(j) => j.wf(),
        }
    }

    /// The active family's exponent.
    pub open spec fn exp_spec(self) -> Fx {
        match self {
            PolyComplexFn::Mandelbrot(m) => m.exp,
            PolyComplexFn::Julia(j) => j.exp,
        }
    }

    /// Evaluate the escape status of the sampled point `c`.
    pub fn render(&self, c: Complex, limit: u32) -> (r: Escape)
        requires
            self.wf(),
            c.wf(),
        ensures
            poly_escape_ok(*self, c, limit as nat, r),
    {
        match self {
            PolyComplexFn::Julia(j) => j.render(c, limit),
            PolyComplexFn::Mandelbrot(m) => m.render(c, limit),
        }
    }

    /// Evaluate the escape status of the sampled point `c`; the shared
    /// evaluation entry point of the family interface.
    pub fn escape(&self, c: Complex, limit: u32) -> (r: Escape)
        requires
            self.wf(),
            c.wf(),
        ensures
            poly_escape_ok(*self, c, limit as nat, r),
    {
        self.render(c, limit)
    }

    /// The active family's exponent.
    pub fn exp(&self) -> (r: Fx)
        ensures
            r == self.exp_spec(),
    {
        match self {
            PolyComplexFn::Mandelbrot(m) => m.exp,
            PolyComplexFn::Julia(j) => j.exp,
        }
    }

    /// Replace the active family's exponent, leaving everything else as it
    /// was.
    pub fn set_exp(&mut self, e: Fx)
        ensures
            (*final (self)).exp_spec() == e,
            *old(self) is Mandelbrot <==> *final (self) is Mandelbrot,
            *old(self) is Julia ==> (*final (self))->Julia_0.c_offset == (*old(
                self,
            ))->Julia_0.c_offset,
    {
        match self {
            PolyComplexFn::Mandelbrot(m) => {
                m.exp = e;
            },
            PolyComplexFn::Julia(j) => {
                j.exp = e;
            },
        }
    }
}

/// The `n`-th saturating power of complex zero is complex zero.
proof fn lemma_cpow_zero(n: nat)
    ensures
        cpow_v((0int, 0int), n) == (0int, 0int),
    decreases n,
{
    if n > 1 {
        lemma_cpow_zero((n - 1) as nat);
    }
}

/// The orbit of zero under a zero offset stays at zero.
proof fn lemma_orbit_zero(exp: int, i: nat)
    ensures
        orbit(exp, (0int, 0int), (0int, 0int), i) == (0int, 0int),
    decreases i,
{
    if i > 0 {
        lemma_orbit_zero(exp, (i - 1) as nat);
        lemma_cpow_zero(exp_n(exp) as nat);
    }
}

/// Law: under the Mandelbrot function with exponent 2, the origin `c = 0`
/// never escapes, whatever the iteration budget: every evaluation
/// consistent with the engine's contract reports `None`.
pub proof fn law_origin_never_escapes(limit: nat, r: Escape)
    requires
        escape_ok(2 * FX_ONE as int, (0int, 0int), (0int, 0int), limit, r),
    ensures
        r is None,
{
    if let Some(f) = r {
        let i = choose|i: nat|
            i < limit && #[trigger] nsq_v(orbit(2 * FX_ONE as int, (0int, 0int), (0int, 0int), i + 1))
                > ESCAPE_THRESHOLD_MAG;
        lemma_orbit_zero(2 * FX_ONE as int, i + 1);
        assert(nsq_v((0int, 0int)) == 0);
    }
}

/// Law: under the Mandelbrot function with exponent 2, the point `c = 3`
/// escapes on the very first iteration (`0^2 + 3 = 3` and `|3|^2 = 9 > 8`),
/// whenever at least one iteration is allowed: every evaluation consistent
/// with the engine's contract reports the smoothed count of step zero.
pub proof fn law_far_point_escapes_first(limit: nat, r: Escape)
    requires
        limit >= 1,
        escape_ok(2 * FX_ONE as int, (0int, 0int), (3 * FX_ONE as int, 0int), limit, r),
    ensures
        r is Some,
        r->0.v() == smooth_v(
            2 * FX_ONE as int,
            (3 * FX_ONE as int, 0int),
            0,
        ),
{
    let exp: int = 2 * FX_ONE as int;
    let c: (int, int) = (3 * FX_ONE as int, 0int);
    assert(exp_n(exp) == 2) by {
        lemma_fundamental_div_mod_converse_div(0x2_8000_0000, 0x1_0000_0000, 2, 0x8000_0000);
    }
    lemma_cpow_zero(2);
    assert(orbit(exp, (0int, 0int), c, 0) == (0int, 0int));
    assert(orbit(exp, (0int, 0int), c, 1) == step_v(exp, (0int, 0int), c));
    assert(mul_fp(0, 0) == 0 && mul_fp(c.0, c.0) == 9 * FX_ONE as int) by {
        lemma_fundamental_div_mod_converse_div(0, 0x1_0000_0000, 0, 0);
        assert(12884901888int * 12884901888int == 166020696663385964544int) by (nonlinear_arith);
        assert(38654705664int * 4294967296int == 166020696663385964544int) by (nonlinear_arith);
        lemma_fundamental_div_mod_converse_div(
            166020696663385964544,
            4294967296,
            38654705664,
            0,
        );
    }
    assert(step_v(exp, (0int, 0int), c) == cadd_v((0int, 0int), c));
    assert(cadd_v((0int, 0int), c) == c);
    assert(nsq_v(c) == 9 * FX_ONE as int);
    if r is None {
        assert(nsq_v(orbit(exp, (0int, 0int), c, 0 + 1)) <= ESCAPE_THRESHOLD_MAG);
    }
    let i = choose|i: nat|
        i < limit && #[trigger] nsq_v(orbit(exp, (0int, 0int), c, i + 1)) > ESCAPE_THRESHOLD_MAG && (
        forall|j: nat|
            j < i ==> #[trigger] nsq_v(orbit(exp, (0int, 0int), c, j + 1)) <= ESCAPE_THRESHOLD_MAG)
            && r->0.v() == smooth_v(exp, orbit(exp, (0int, 0int), c, i + 1), i as int);
    if i > 0 {
        assert(nsq_v(orbit(exp, (0int, 0int), c, 0 + 1)) <= ESCAPE_THRESHOLD_MAG);
    }
}

/// The shared escape loop: iterate `z <- z^n + off` from `z0` at most
/// `limit` times and report the first escape, if any.
fn escape_loop(exp: Fx, z0: Complex, off: Complex, limit: u32) -> (r: Escape)
    requires
        exp_wf(exp),
        z0.wf(),
        off.wf(),
    ensures
        escape_ok(exp.v(), cv(z0), cv(off), limit as nat, r),
{
    let n: u32 = ((exp.mag() + 0x8000_0000) / FX_ONE) as u32;
    assert(n as int == exp_n(exp.v()));
    assert(1 <= n <= 16);
    let threshold = Fx::from_i32(8);
    let mut z = z0;
    let mut i: u32 = 0;
    while i < limit
        invariant
            i <= limit,
            1 <= n <= 16,
            n as int == exp_n(exp.v()),
            exp_wf(exp),
            z.wf(),
            off.wf(),
            threshold.wf(),
            threshold.v() == ESCAPE_THRESHOLD_MAG,
            cv(z) == orbit(exp.v(), cv(z0), cv(off), i as nat),
            forall|j: nat|
                j < i ==> #[trigger] nsq_v(orbit(exp.v(), cv(z0), cv(off), j + 1))
                    <= ESCAPE_THRESHOLD_MAG,
        decreases limit - i,
    {
        z = z.pow_n(n).add_c(off);
        assert(cv(z) == orbit(exp.v(), cv(z0), cv(off), (i + 1) as nat));
        let nsq = z.norm_sqr();
        if nsq.gt(threshold) {
            let count = smoothed_escape(nsq, i, exp, Ghost(cv(z)));
            return Some(count);
        }
        i = i + 1;
    }
    None
}

} // verus!
