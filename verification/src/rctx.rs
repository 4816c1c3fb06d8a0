//! The render context: everything needed to render a fractal view.
//!
//! An [`Rctx`] binds a location, the active escape function, a colorer,
//! and the aspect compensation factors.  Discrete transforms pan, zoom,
//! retune and switch it; binding it to a pixel bounds yields a render job
//! that evaluates the whole grid in parallel into an [`EMatrix`].

use crate::colorer::SineRGB;
use crate::ematrix::{escape_wf, EMatrix};
use crate::fixed::{clipped, mul_fp, tz_div, Fx, FX_ONE};
use crate::loc::Loc;
use crate::polycomplex::{
    cv, poly_escape_ok_v, Complex, Escape, Julia, Mandelbrot, PolyComplexFn, EXP_MAX_MAG,
    EXP_MIN_MAG,
};
use crate::{Bounds, Pos};
use indicatif::ParallelProgressIterator;
use rayon::iter::{IntoParallelRefIterator, ParallelIterator};
use vstd::prelude::*;

verus! {

/// How many scalar steps a translate transform moves the origin.
pub const TRANSLATE_FACTOR: u64 = 10;

/// The zoom factor of one scale transform.
pub const SCALE_FACTOR: u64 = 2;

/// How many iterations one iteration transform adds or removes.
pub const ITERATIONS_STEP: u32 = 25;

/// Raw magnitude of one exponent step, `1/1024`.
pub const EXP_STEP_MAG: u64 = 0x40_0000;

/// The progress sink for long renders.
#[verifier::external_type_specification]
#[verifier::external_body]
pub struct ExProgressBar(indicatif::ProgressBar);

/// The context for rendering a specific region within a fractal: location,
/// active escape function, colorer, and aspect compensation for non-square
/// cells (terminal cells have roughly a 2:1 ratio).
#[derive(Copy, Clone, Debug)]
pub struct Rctx {
    /// The current location.
    pub loc: Loc,
    /// The active complex polynomial function.
    pub complexfn: PolyComplexFn,
    /// The colorer for individual escapes.
    pub colorer: SineRGB,
    /// Dimensional compensation factors `(imaginary axis, real axis)`.
    pub comp: (Fx, Fx),
}

/// A discrete transform of the render context.
#[derive(Debug, Clone, Copy)]
pub enum RctxTransform {
    /// Translate the view up: decrement `im0`.
    TranslateUp,
    /// Translate the view down: increment `im0`.
    TranslateDown,
    /// Translate the view left: decrement `re0`.
    TranslateLeft,
    /// Translate the view right: increment `re0`.
    TranslateRight,
    /// Zoom in: halve the scalar.
    ScaleIn,
    /// Zoom out: double the scalar.
    ScaleOut,
    /// Raise the escape iteration limit.
    IncIterations,
    /// Lower the escape iteration limit.
    DecIterations,
    /// Toggle between the Julia and Mandelbrot families.
    SwitchFn,
    /// Raise the function exponent by one step.
    IncExp,
    /// Lower the function exponent by one step.
    DecExp,
    /// Restore the location to its defaults.
    Reset,
}

/// The raw value pair that [`Rctx::complex_at`] assigns to the pixel
/// `(px, py)` of a view with the given bounds: the offset from the center
/// pixel, compensated, scaled and shifted to the view origin.
pub open spec fn complex_at_v(rc: Rctx, bounds: Bounds, px: int, py: int) -> (int, int) {
    let offx = (px - bounds.width as int / 2) * FX_ONE as int;
    let offy = (py - bounds.height as int / 2) * FX_ONE as int;
    (
        clipped(clipped(mul_fp(clipped(mul_fp(rc.comp.1.v(), offx)), rc.loc.scalar.v()))
            + rc.loc.re0.v()),
        clipped(clipped(mul_fp(clipped(mul_fp(rc.comp.0.v(), offy)), rc.loc.scalar.v()))
            + rc.loc.im0.v()),
    )
}

/// What one evaluated grid cell may hold: an escape result of the active
/// function at the plane point of pixel `(px, py)`, within the location's
/// iteration budget.
pub open spec fn escape_at_ok(rc: Rctx, bounds: Bounds, px: int, py: int, e: Escape) -> bool {
    poly_escape_ok_v(rc.complexfn, complex_at_v(rc, bounds, px, py), rc.loc.max_iter as nat, e)
}

/// The fields that no transform but `SwitchFn` touches.
pub open spec fn same_fn(pre: Rctx, post: Rctx) -> bool {
    post.complexfn == pre.complexfn
}

/// The colorer and compensation factors, which no transform touches.
pub open spec fn same_trim(pre: Rctx, post: Rctx) -> bool {
    post.colorer.channel_triple() == pre.colorer.channel_triple() && post.comp == pre.comp
}

/// The location fields a translate transform leaves alone.
pub open spec fn same_zoom(pre: Rctx, post: Rctx) -> bool {
    post.loc.scalar == pre.loc.scalar && post.loc.max_iter == pre.loc.max_iter
}

/// What [`Rctx::transform`] does for each transform: the named field
/// changes by the documented step (with out-of-range results clamped at
/// the mutation site), and everything else is left exactly as it was.
pub open spec fn transform_ok(pre: Rctx, t: RctxTransform, post: Rctx) -> bool {
    match t {
        RctxTransform::TranslateUp => same_fn(pre, post) && same_trim(pre, post) && same_zoom(
            pre,
            post,
        ) && post.loc.re0 == pre.loc.re0 && post.loc.im0.v() == clipped(
            pre.loc.im0.v() - clipped(pre.loc.scalar.v() * TRANSLATE_FACTOR),
        ),
        RctxTransform::TranslateDown => same_fn(pre, post) && same_trim(pre, post) && same_zoom(
            pre,
            post,
        ) && post.loc.re0 == pre.loc.re0 && post.loc.im0.v() == clipped(
            pre.loc.im0.v() + clipped(pre.loc.scalar.v() * TRANSLATE_FACTOR),
        ),
        RctxTransform::TranslateLeft => same_fn(pre, post) && same_trim(pre, post) && same_zoom(
            pre,
            post,
        ) && post.loc.im0 == pre.loc.im0 && post.loc.re0.v() == clipped(
            pre.loc.re0.v() - clipped(pre.loc.scalar.v() * TRANSLATE_FACTOR),
        ),
        RctxTransform::TranslateRight => same_fn(pre, post) && same_trim(pre, post) && same_zoom(
            pre,
            post,
        ) && post.loc.im0 == pre.loc.im0 && post.loc.re0.v() == clipped(
            pre.loc.re0.v() + clipped(pre.loc.scalar.v() * TRANSLATE_FACTOR),
        ),
        RctxTransform::ScaleIn => same_fn(pre, post) && same_trim(pre, post) && post.loc.im0
            == pre.loc.im0 && post.loc.re0 == pre.loc.re0 && post.loc.max_iter
            == pre.loc.max_iter && post.loc.scalar.v() == (if tz_div(
            pre.loc.scalar.v(),
            SCALE_FACTOR as int,
        ) >= 1 {
            tz_div(pre.loc.scalar.v(), SCALE_FACTOR as int)
        } else {
            1
        }),
        RctxTransform::ScaleOut => same_fn(pre, post) && same_trim(pre, post) && post.loc.im0
            == pre.loc.im0 && post.loc.re0 == pre.loc.re0 && post.loc.max_iter
            == pre.loc.max_iter && post.loc.scalar.v() == clipped(
            pre.loc.scalar.v() * SCALE_FACTOR,
        ),
        RctxTransform::IncIterations => same_fn(pre, post) && same_trim(pre, post) && post.loc.im0
            == pre.loc.im0 && post.loc.re0 == pre.loc.re0 && post.loc.scalar == pre.loc.scalar
            && post.loc.max_iter as int == (if pre.loc.max_iter as int + ITERATIONS_STEP as int
            <= u32::MAX as int {
            pre.loc.max_iter as int + ITERATIONS_STEP as int
        } else {
            u32::MAX as int
        }),
        RctxTransform::DecIterations => same_fn(pre, post) && same_trim(pre, post) && post.loc.im0
            == pre.loc.im0 && post.loc.re0 == pre.loc.re0 && post.loc.scalar == pre.loc.scalar
            && post.loc.max_iter as int == (if pre.loc.max_iter as int - ITERATIONS_STEP as int
            >= 1 {
            pre.loc.max_iter as int - ITERATIONS_STEP as int
        } else {
            1
        }),
        RctxTransform::IncExp => same_trim(pre, post) && post.loc == pre.loc && same_shape(
            pre.complexfn,
            post.complexfn,
        ) && post.complexfn.exp_spec().v() == (if pre.complexfn.exp_spec().v()
            + EXP_STEP_MAG as int <= EXP_MAX_MAG as int {
            pre.complexfn.exp_spec().v() + EXP_STEP_MAG as int
        } else {
            EXP_MAX_MAG as int
        }),
        RctxTransform::DecExp => same_trim(pre, post) && post.loc == pre.loc && same_shape(
            pre.complexfn,
            post.complexfn,
        ) && post.complexfn.exp_spec().v() == (if pre.complexfn.exp_spec().v()
            - EXP_STEP_MAG as int >= EXP_MIN_MAG as int {
            pre.complexfn.exp_spec().v() - EXP_STEP_MAG as int
        } else {
            EXP_MIN_MAG as int
        }),
        RctxTransform::SwitchFn => same_trim(pre, post) && match pre.complexfn {
            PolyComplexFn::Mandelbrot(m) => post.complexfn == PolyComplexFn::Julia(
                Julia { exp: m.exp, c_offset: Complex { re: pre.loc.re0, im: pre.loc.im0 } },
            ) && post.loc == pre.loc,
            PolyComplexFn::Julia(j) => post.complexfn == PolyComplexFn::Mandelbrot(
                Mandelbrot { exp: j.exp },
            ) && post.loc.re0 == j.c_offset.re && post.loc.im0 == j.c_offset.im && same_zoom(
                pre,
                post,
            ),
        },
        RctxTransform::Reset => same_fn(pre, post) && same_trim(pre, post) && post.loc.im0.v() == 0
            && post.loc.re0.v() == 0 && post.loc.scalar.v() == 429496729 && post.loc.max_iter
            == crate::loc::DEFAULT_MAX_ITER,
    }
}

/// Whether two functions are the same family, with the same Julia offset.
pub open spec fn same_shape(a: PolyComplexFn, b: PolyComplexFn) -> bool {
    (a is Mandelbrot <==> b is Mandelbrot) && (a is Julia ==> b->Julia_0.c_offset
        == a->Julia_0.c_offset)
}

impl Rctx {
    /// Well-formed: every part canonical and within its admissible range.
    pub open spec fn wf(self) -> bool {
        self.loc.wf() && self.complexfn.wf() && self.colorer.wf() && self.comp.0.wf()
            && self.comp.1.wf()
    }

    /// Bind the context to a concrete pixel bounds, yielding a render job.
    pub fn bind<'a>(&'a self, bounds: Bounds) -> (r: BoundRctx<'a>)
        ensures
            r.rctx == self,
            r.bounds == bounds,
    {
        BoundRctx { rctx: self, bounds }
    }

    /// A context with a pre-defined location and all other parts default.
    pub fn with_loc(loc: Loc) -> (r: Rctx)
        ensures
            r.loc == loc,
            r.complexfn is Mandelbrot,
            r.complexfn.exp_spec().v() == 2 * FX_ONE as int,
            r.comp.0.v() == FX_ONE as int && r.comp.1.v() == FX_ONE as int,
            loc.wf() ==> r.wf(),
    {
        let mut rctx = Rctx::default();
        rctx.loc = loc;
        rctx
    }

    /// The complex value at a pixel of the bounds: the offset from the
    /// center pixel, compensated per axis, scaled, and shifted to the
    /// view origin.
    pub fn complex_at(&self, bounds: Bounds, pos: Pos) -> (r: Complex)
        ensures
            cv(r) == complex_at_v(*self, bounds, pos.x as int, pos.y as int),
            r.wf(),
    {
        let offset = pos.sub(bounds.center());
        let re = self.comp.1.mul(Fx::from_i32(offset.x)).mul(self.loc.scalar).add(self.loc.re0);
        let im = self.comp.0.mul(Fx::from_i32(offset.y)).mul(self.loc.scalar).add(self.loc.im0);
        Complex::new(re, im)
    }

    /// Evaluate the escape status of one pixel of the bounds.
    pub fn escape_at(&self, bounds: Bounds, pos: Pos) -> (r: Escape)
        requires
            self.wf(),
        ensures
            escape_at_ok(*self, bounds, pos.x as int, pos.y as int, r),
            escape_wf(r),
    {
        let c = self.complex_at(bounds, pos);
        let r = self.complexfn.escape(c, self.loc.max_iter);
        proof {
            if let Some(f) = r {
                assert(f.wf());
            }
        }
        r
    }

    /// Apply a transform to the context.
    pub fn transform(&mut self, transform: &RctxTransform)
        requires
            old(self).wf(),
        ensures
            transform_ok(*old(self), *transform, *final (self)),
            (*final (self)).wf(),
    {
        match *transform {
            RctxTransform::TranslateUp => {
                let step = self.loc.scalar.scale_u64(TRANSLATE_FACTOR);
                self.loc.im0 = self.loc.im0.sub(step);
            },
            RctxTransform::TranslateDown => {
                let step = self.loc.scalar.scale_u64(TRANSLATE_FACTOR);
                self.loc.im0 = self.loc.im0.add(step);
            },
            RctxTransform::TranslateLeft => {
                let step = self.loc.scalar.scale_u64(TRANSLATE_FACTOR);
                self.loc.re0 = self.loc.re0.sub(step);
            },
            RctxTransform::TranslateRight => {
                let step = self.loc.scalar.scale_u64(TRANSLATE_FACTOR);
                self.loc.re0 = self.loc.re0.add(step);
            },
            RctxTransform::IncIterations => {
                if self.loc.max_iter <= u32::MAX - ITERATIONS_STEP {
                    self.loc.max_iter = self.loc.max_iter + ITERATIONS_STEP;
                } else {
                    self.loc.max_iter = u32::MAX;
                }
            },
            RctxTransform::DecIterations => {
                if self.loc.max_iter >= ITERATIONS_STEP + 1 {
                    self.loc.max_iter = self.loc.max_iter - ITERATIONS_STEP;
                } else {
                    self.loc.max_iter = 1;
                }
            },
            RctxTransform::ScaleIn => {
                let s = self.loc.scalar.shrink_u64(SCALE_FACTOR);
                self.loc.scalar = if s.mag() == 0 {
                    Fx::from_parts(false, 1)
                } else {
                    s
                };
            },
            RctxTransform::ScaleOut => {
                self.loc.scalar = self.loc.scalar.scale_u64(SCALE_FACTOR);
            },
            RctxTransform::Reset => {
                self.loc = Loc::default();
            },
            RctxTransform::IncExp => {
                let e = self.complexfn.exp();
                let e2 = e.add(Fx::from_parts(false, EXP_STEP_MAG));
                let emax = Fx::from_parts(false, EXP_MAX_MAG);
                let newe = if e2.gt(emax) {
                    emax
                } else {
                    e2
                };
                self.complexfn.set_exp(newe);
            },
            RctxTransform::DecExp => {
                let e = self.complexfn.exp();
                let e2 = e.sub(Fx::from_parts(false, EXP_STEP_MAG));
                let emin = Fx::from_parts(false, EXP_MIN_MAG);
                let newe = if e2.lt(emin) {
                    emin
                } else {
                    e2
                };
                self.complexfn.set_exp(newe);
            },
            RctxTransform::SwitchFn => {
                let f = self.complexfn;
                match f {
                    PolyComplexFn::Julia(j) => {
                        self.complexfn = PolyComplexFn::Mandelbrot(Mandelbrot::from_julia(&j));
                        self.loc.move_to(j.c_offset);
                    },
                    PolyComplexFn::Mandelbrot(m) => {
                        let origin = self.loc.origin();
                        self.complexfn = PolyComplexFn::Julia(Julia::from_c(&m, origin));
                    },
                }
            },
        }
    }

    /// A context with compensation for terminal cell sizes.
    pub fn for_terminal(loc: Option<Loc>) -> (r: Rctx)
        ensures
            r.comp.0.v() == 9878424780 && r.comp.1.v() == FX_ONE as int,
            match loc {
                Some(l) => r.loc == l,
                None => r.loc.wf() && r.loc.re0.v() == 0 && r.loc.im0.v() == 0,
            },
            r.complexfn is Mandelbrot,
            (loc is Some ==> loc->0.wf()) ==> r.wf(),
    {
        let mut rctx = Rctx::default();
        rctx.loc = match loc {
            Some(l) => l,
            None => Loc::default(),
        };
        rctx.comp = (Fx::from_parts(false, 9878424780), Fx::from_parts(false, FX_ONE));
        rctx
    }
}

impl Default for Rctx {
    /// The default context: default location and function, the sunset
    /// colorer, and square-cell compensation.
    fn default() -> (r: Rctx)
        ensures
            r.wf(),
            r.loc.re0.v() == 0 && r.loc.im0.v() == 0 && r.loc.scalar.v() == 429496729,
            r.loc.max_iter == crate::loc::DEFAULT_MAX_ITER,
            r.complexfn is Mandelbrot,
            r.complexfn.exp_spec().v() == 2 * FX_ONE as int,
            r.comp.0.v() == FX_ONE as int && r.comp.1.v() == FX_ONE as int,
    {
        Rctx {
            loc: Loc::default(),
            complexfn: PolyComplexFn::default(),
            colorer: SineRGB::default(),
            comp: (Fx::from_parts(false, FX_ONE), Fx::from_parts(false, FX_ONE)),
        }
    }
}

/// A render context bound to concrete pixel bounds.
pub struct BoundRctx<'a> {
    pub rctx: &'a Rctx,
    pub bounds: Bounds,
}

/// Relies on rayon's indexed parallel iterator: `par_iter().map(f).collect()`
/// into a `Vec` preserves the input order, and the closure only calls the
/// verified per-pixel evaluation.
#[verifier::external_body]
fn par_escape(rctx: &Rctx, bounds: Bounds, positions: &Vec<Pos>) -> (r: Vec<Escape>)
    requires
        rctx.wf(),
    ensures
        r@.len() == positions@.len(),
        forall|i: int|
            0 <= i < positions@.len() ==> escape_at_ok(
                *rctx,
                bounds,
                positions@[i].x as int,
                positions@[i].y as int,
                #[trigger] r@[i],
            ) && escape_wf(r@[i]),
{
    positions.par_iter().map(|pos| rctx.escape_at(bounds, *pos)).collect()
}

/// Relies on indicatif's `ParallelProgressIterator::progress_with`, which
/// only reports progress to the bar, and on rayon's order-preserving
/// `par_iter().map(f).collect()`; the closure only calls the verified
/// per-pixel evaluation.
#[verifier::external_body]
fn par_escape_with_bar(
    rctx: &Rctx,
    bounds: Bounds,
    positions: &Vec<Pos>,
    bar: indicatif::ProgressBar,
) -> (r: Vec<Escape>)
    requires
        rctx.wf(),
    ensures
        r@.len() == positions@.len(),
        forall|i: int|
            0 <= i < positions@.len() ==> escape_at_ok(
                *rctx,
                bounds,
                positions@[i].x as int,
                positions@[i].y as int,
                #[trigger] r@[i],
            ) && escape_wf(r@[i]),
{
    positions.par_iter().progress_with(bar).map(|pos| rctx.escape_at(bounds, *pos)).collect()
}

/// Relies on indicatif's `ProgressBar::set_length`: display only.
#[verifier::external_body]
fn bar_set_length(bar: &indicatif::ProgressBar, len: u64) {
    bar.set_length(len);
}

/// The full pixel grid of the bounds in column-major order: position
/// `col * height + row` is the pixel `(col, row)`.
fn grid_positions(bounds: Bounds) -> (r: Vec<Pos>)
    ensures
        r@.len() == bounds.width as int * bounds.height as int,
        forall|x: int, y: int|
            0 <= x < bounds.width as int && 0 <= y < bounds.height as int ==> #[trigger] r@[x
                * bounds.height as int + y] == (Pos { x: x as u16, y: y as u16 }),
{
    let h = bounds.height as usize;
    let mut positions: Vec<Pos> = Vec::new();
    let mut x: u16 = 0;
    while x < bounds.width
        invariant
            x <= bounds.width,
            positions@.len() == x as int * bounds.height as int,
            forall|c: int, w: int|
                0 <= c < x as int && 0 <= w < bounds.height as int ==> #[trigger] positions@[c
                    * bounds.height as int + w] == (Pos { x: c as u16, y: w as u16 }),
        decreases bounds.width as int - x,
    {
        let mut y: u16 = 0;
        while y < bounds.height
            invariant
                x < bounds.width,
                y <= bounds.height,
                positions@.len() == x as int * bounds.height as int + y as int,
                forall|c: int, w: int|
                    0 <= c < x as int && 0 <= w < bounds.height as int ==> #[trigger] positions@[c
                        * bounds.height as int + w] == (Pos { x: c as u16, y: w as u16 }),
                forall|w: int|
                    0 <= w < y as int ==> #[trigger] positions@[x as int * bounds.height as int + w]
                        == (Pos { x: x as u16, y: w as u16 }),
            decreases bounds.height as int - y,
        {
            positions.push(Pos { x, y });
            proof {
                assert forall|c: int, w: int|
                    0 <= c < x as int && 0 <= w < bounds.height as int implies #[trigger] positions@[c
                    * bounds.height as int + w] == (Pos { x: c as u16, y: w as u16 }) by {
                    assert(c * bounds.height as int + w < (c + 1) * bounds.height as int && (c + 1)
                        * bounds.height as int <= x as int * bounds.height as int)
                        by (nonlinear_arith)
                        requires
                            0 <= c < x as int,
                            0 <= w < bounds.height as int,
                    ;
                }
            }
            y = y + 1;
        }
        proof {
            assert(x as int * bounds.height as int + bounds.height as int == (x as int + 1)
                * bounds.height as int) by (nonlinear_arith);
            assert forall|c: int, w: int|
                0 <= c < x as int + 1 && 0 <= w < bounds.height as int implies #[trigger] positions@[c
                * bounds.height as int + w] == (Pos { x: c as u16, y: w as u16 }) by {
                if c == x as int {
                    assert(positions@[x as int * bounds.height as int + w] == (Pos {
                        x: x as u16,
                        y: w as u16,
                    }));
                }
            }
        }
        x = x + 1;
    }
    positions
}

/// Assemble a matrix from the parallel escape results of a grid.
fn collect_ematrix(
    rctx: &Rctx,
    bounds: Bounds,
    positions: Ghost<Seq<Pos>>,
    escapes: Vec<Escape>,
) -> (r: EMatrix)
    requires
        rctx.wf(),
        positions@.len() == bounds.width as int * bounds.height as int,
        forall|x: int, y: int|
            0 <= x < bounds.width as int && 0 <= y < bounds.height as int
                ==> #[trigger] positions@[x * bounds.height as int + y] == (Pos {
                x: x as u16,
                y: y as u16,
            }),
        escapes@.len() == positions@.len(),
        forall|i: int|
            0 <= i < positions@.len() ==> escape_at_ok(
                *rctx,
                bounds,
                positions@[i].x as int,
                positions@[i].y as int,
                #[trigger] escapes@[i],
            ) && escape_wf(escapes@[i]),
    ensures
        r.ncols_spec() == bounds.width as int,
        r.nrows_spec() == bounds.height as int,
        r.wf(),
        forall|y: int, x: int|
            0 <= y < bounds.height as int && 0 <= x < bounds.width as int ==> escape_at_ok(
                *rctx,
                bounds,
                x,
                y,
                #[trigger] r.cell_spec(y, x),
            ),
{
    let w = bounds.width as usize;
    let h = bounds.height as usize;
    let ghost hh: int = bounds.height as int;
    proof {
        assert forall|i: int| 0 <= i < escapes@.len() implies escape_wf(#[trigger] escapes@[i]) by {
        }
    }
    let m = EMatrix::from_vec(w, h, escapes);
    proof {
        assert forall|y: int, x: int|
            0 <= y < bounds.height as int && 0 <= x < bounds.width as int implies escape_at_ok(
            *rctx,
            bounds,
            x,
            y,
            #[trigger] m.cell_spec(y, x),
        ) by {
            assert(0 <= x * hh + y < bounds.width as int * hh) by (nonlinear_arith)
                requires
                    0 <= x < bounds.width as int,
                    0 <= y < hh,
            ;
            assert(positions@[x * hh + y] == (Pos { x: x as u16, y: y as u16 }));
            assert(m.cell_spec(y, x) == m.cells_spec()[x * hh + y]);
        }
    }
    m
}

impl<'a> BoundRctx<'a> {
    /// Evaluate the whole pixel grid, in parallel, into an escape matrix:
    /// the cell at row `y`, column `x` holds the escape of the plane point
    /// of pixel `(x, y)`.
    pub fn to_ematrix(&self) -> (r: EMatrix)
        requires
            self.rctx.wf(),
        ensures
            r.ncols_spec() == self.bounds.width as int,
            r.nrows_spec() == self.bounds.height as int,
            r.wf(),
            forall|y: int, x: int|
                0 <= y < self.bounds.height as int && 0 <= x < self.bounds.width as int
                    ==> escape_at_ok(*self.rctx, self.bounds, x, y, #[trigger] r.cell_spec(y, x)),
    {
        let positions = grid_positions(self.bounds);
        let escapes = par_escape(self.rctx, self.bounds, &positions);
        collect_ematrix(self.rctx, self.bounds, Ghost(positions@), escapes)
    }

    /// Like [`BoundRctx::to_ematrix`], reporting progress to the given
    /// bar while the grid evaluates.
    pub fn to_ematrix_with_bar(&self, bar: indicatif::ProgressBar) -> (r: EMatrix)
        requires
            self.rctx.wf(),
        ensures
            r.ncols_spec() == self.bounds.width as int,
            r.nrows_spec() == self.bounds.height as int,
            r.wf(),
            forall|y: int, x: int|
                0 <= y < self.bounds.height as int && 0 <= x < self.bounds.width as int
                    ==> escape_at_ok(*self.rctx, self.bounds, x, y, #[trigger] r.cell_spec(y, x)),
    {
        proof {
            assert((self.bounds.height as int) * (self.bounds.width as int) < 0x1_0000_0000)
                by (nonlinear_arith)
                requires
                    self.bounds.height <= 0xFFFF,
                    self.bounds.width <= 0xFFFF,
            ;
        }
        bar_set_length(&bar, (self.bounds.height as u64) * (self.bounds.width as u64));
        let positions = grid_positions(self.bounds);
        let escapes = par_escape_with_bar(self.rctx, self.bounds, &positions, bar);
        collect_ematrix(self.rctx, self.bounds, Ghost(positions@), escapes)
    }
}

/// Law: the center pixel of any bounds maps exactly to the view's origin,
/// whatever the location, compensation and zoom.
pub proof fn law_center_maps_to_origin(rc: Rctx, bounds: Bounds)
    ensures
        complex_at_v(rc, bounds, bounds.width as int / 2, bounds.height as int / 2) == (
            rc.loc.re0.v(),
            rc.loc.im0.v(),
        ),
{
    let s = FX_ONE as int;
    assert((bounds.width as int / 2 - bounds.width as int / 2) * s == 0) by (nonlinear_arith);
    assert((bounds.height as int / 2 - bounds.height as int / 2) * s == 0) by (nonlinear_arith);
    assert(rc.comp.1.v() * 0 == 0 && rc.comp.0.v() * 0 == 0) by (nonlinear_arith);
    assert(0int / s == 0);
    assert(mul_fp(rc.comp.1.v(), 0) == 0 && mul_fp(rc.comp.0.v(), 0) == 0);
    assert(0 * rc.loc.scalar.v() == 0) by (nonlinear_arith);
    assert(mul_fp(0, rc.loc.scalar.v()) == 0);
    rc.loc.re0.lemma_range();
    rc.loc.im0.lemma_range();
}

/// Law: switching Mandelbrot to Julia and back at a fixed view restores
/// the function (same family, exact same exponent) and the full location,
/// origin included.
pub proof fn law_switch_fn_round_trip(a: Rctx, b: Rctx, c: Rctx)
    requires
        a.complexfn is Mandelbrot,
        transform_ok(a, RctxTransform::SwitchFn, b),
        transform_ok(b, RctxTransform::SwitchFn, c),
    ensures
        c.complexfn == a.complexfn,
        c.loc == a.loc,
        c.colorer.channel_triple() == a.colorer.channel_triple(),
        c.comp == a.comp,
{
}

} // verus!
