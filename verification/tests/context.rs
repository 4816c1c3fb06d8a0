//! Tests of the render context transforms and the colorer.

use mandelbrot::fixed::Fx;
use mandelbrot::frontend::RunOptions;
use mandelbrot::polycomplex::{PolyComplexFn, EXP_MIN_MAG};
use mandelbrot::rctx::{Rctx, RctxTransform};
use mandelbrot::{SineChannel, SineRGB};

#[test]
fn translate_moves_origin_by_ten_scalars() {
    let mut rc = Rctx::default();
    let step = 10 * rc.loc.scalar.mag();
    rc.transform(&RctxTransform::TranslateUp);
    assert!(rc.loc.im0.is_neg());
    assert_eq!(rc.loc.im0.mag(), step);
    rc.transform(&RctxTransform::TranslateDown);
    assert_eq!(rc.loc.im0, Fx::from_i32(0));
    rc.transform(&RctxTransform::TranslateRight);
    assert_eq!(rc.loc.re0.mag(), step);
    assert!(!rc.loc.re0.is_neg());
    rc.transform(&RctxTransform::TranslateLeft);
    assert_eq!(rc.loc.re0, Fx::from_i32(0));
}

#[test]
fn scale_halves_and_doubles() {
    let mut rc = Rctx::default();
    let v = rc.loc.scalar.mag();
    rc.transform(&RctxTransform::ScaleIn);
    assert_eq!(rc.loc.scalar.mag(), v / 2);
    rc.transform(&RctxTransform::ScaleOut);
    assert_eq!(rc.loc.scalar.mag(), v / 2 * 2);
}

#[test]
fn scale_in_clamps_above_zero() {
    let mut rc = Rctx::default();
    rc.loc.scalar = Fx::from_parts(false, 1);
    rc.transform(&RctxTransform::ScaleIn);
    assert_eq!(rc.loc.scalar.mag(), 1);
}

#[test]
fn iteration_steps_clamp_at_both_ends() {
    let mut rc = Rctx::default();
    rc.transform(&RctxTransform::IncIterations);
    assert_eq!(rc.loc.max_iter, 125);
    rc.transform(&RctxTransform::DecIterations);
    assert_eq!(rc.loc.max_iter, 100);
    rc.loc.max_iter = 20;
    rc.transform(&RctxTransform::DecIterations);
    assert_eq!(rc.loc.max_iter, 1);
    rc.loc.max_iter = u32::MAX - 10;
    rc.transform(&RctxTransform::IncIterations);
    assert_eq!(rc.loc.max_iter, u32::MAX);
}

#[test]
fn exp_steps_are_exact_and_clamped() {
    let mut rc = Rctx::default();
    let start = rc.complexfn.exp();
    rc.transform(&RctxTransform::IncExp);
    assert_eq!(rc.complexfn.exp().mag(), start.mag() + 0x40_0000);
    rc.transform(&RctxTransform::DecExp);
    assert_eq!(rc.complexfn.exp(), start);
    // Stepping down long enough stops exactly at the admissible minimum.
    for _ in 0..1100 {
        rc.transform(&RctxTransform::DecExp);
    }
    assert_eq!(rc.complexfn.exp().mag(), EXP_MIN_MAG);
}

#[test]
fn switch_fn_round_trip_restores_exponent_and_origin() {
    let mut rc = Rctx::default();
    rc.transform(&RctxTransform::TranslateRight);
    rc.transform(&RctxTransform::TranslateUp);
    let exp = rc.complexfn.exp();
    let re0 = rc.loc.re0;
    let im0 = rc.loc.im0;
    rc.transform(&RctxTransform::SwitchFn);
    assert!(matches!(rc.complexfn, PolyComplexFn::Julia(_)));
    if let PolyComplexFn::Julia(j) = rc.complexfn {
        assert_eq!(j.c_offset.re, re0);
        assert_eq!(j.c_offset.im, im0);
    }
    rc.transform(&RctxTransform::SwitchFn);
    assert!(matches!(rc.complexfn, PolyComplexFn::Mandelbrot(_)));
    assert_eq!(rc.complexfn.exp(), exp);
    assert_eq!(rc.loc.re0, re0);
    assert_eq!(rc.loc.im0, im0);
}

#[test]
fn reset_restores_location_but_not_family() {
    let mut rc = Rctx::default();
    rc.transform(&RctxTransform::SwitchFn);
    rc.transform(&RctxTransform::TranslateLeft);
    rc.transform(&RctxTransform::ScaleOut);
    rc.transform(&RctxTransform::Reset);
    assert_eq!(rc.loc.re0, Fx::from_i32(0));
    assert_eq!(rc.loc.im0, Fx::from_i32(0));
    assert_eq!(rc.loc.scalar.mag(), 429496729);
    assert_eq!(rc.loc.max_iter, 100);
    // The function family is not reset.
    assert!(matches!(rc.complexfn, PolyComplexFn::Julia(_)));
}

#[test]
fn for_terminal_sets_cell_compensation() {
    let rc = Rctx::for_terminal(None);
    assert_eq!(rc.comp.0.mag(), 9878424780);
    assert_eq!(rc.comp.1, Fx::from_i32(1));
}

#[test]
fn colorer_paints_interior_black() {
    let colorer = SineRGB::default();
    assert_eq!(colorer.rgb(None), (0, 0, 0));
}

#[test]
fn colorer_matches_model_at_known_counts() {
    let colorer = SineRGB::default();
    // Exact channel values of the sunset preset under the fixed-point
    // sine at counts 0 and 10.
    assert_eq!(colorer.rgb(Some(Fx::from_i32(0))), (0, 0, 42));
    assert_eq!(colorer.rgb(Some(Fx::from_i32(10))), (36, 105, 176));
}

#[test]
fn channel_clamps_not_wraps() {
    let high = SineChannel {
        coef: Fx::from_i32(0),
        freq: Fx::from_i32(0),
        phase: Fx::from_i32(0),
        offset: Fx::from_i32(300),
    };
    let low = SineChannel { offset: Fx::from_i32(-5), ..high };
    let colorer = SineRGB::new((high, low, high));
    assert_eq!(colorer.rgb(Some(Fx::from_i32(1))), (255, 0, 255));
}

#[test]
fn run_options_default_to_current_directory() {
    let defaulted = RunOptions::new(None);
    assert_eq!(defaulted.img_dir, ".");
    let given = RunOptions::new(Some("shots".to_owned()));
    assert_eq!(given.img_dir, "shots");
}

#[test]
fn channel_sine_has_the_fixed_point_period() {
    // With unit frequency and no phase, the channel at count x and at
    // x + 2*pi sees the same sine argument after period reduction.
    let ch = SineChannel {
        coef: Fx::from_i32(100),
        freq: Fx::from_i32(1),
        phase: Fx::from_i32(0),
        offset: Fx::from_i32(100),
    };
    let two_pi = Fx::from_parts(false, 26986075408);
    for x in [0i32, 1, 2, 3] {
        let at = ch.compute(Fx::from_i32(x));
        let shifted = ch.compute(Fx::from_i32(x).add(two_pi));
        assert_eq!(at, shifted);
    }
}
