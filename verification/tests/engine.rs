//! Tests of the fixed-point numerics and the escape engine.

use mandelbrot::fixed::Fx;
use mandelbrot::polycomplex::{Complex, Julia, Mandelbrot, PolyComplexFn};

#[test]
fn fx_add_sub_round_trip() {
    let a = Fx::from_i32(7);
    let b = Fx::from_i32(-3);
    let s = a.add(b);
    assert_eq!(s, Fx::from_i32(4));
    assert_eq!(s.sub(b), a);
}

#[test]
fn fx_mul_exact_integers() {
    let a = Fx::from_i32(6);
    let b = Fx::from_i32(-7);
    assert_eq!(a.mul(b), Fx::from_i32(-42));
}

#[test]
fn fx_mul_saturates_at_max_magnitude() {
    let big = Fx::from_parts(false, u64::MAX);
    let r = big.mul(Fx::from_i32(2));
    assert_eq!(r.mag(), u64::MAX);
    assert!(!r.is_neg());
}

#[test]
fn fx_div_exact() {
    let a = Fx::from_i32(10);
    let b = Fx::from_i32(4);
    // 10 / 4 = 2.5, raw 2.5 * 2^32.
    assert_eq!(a.div(b).mag(), 5 * (1u64 << 31));
}

#[test]
fn fx_log2_of_powers_of_two_is_exact() {
    assert_eq!(Fx::from_i32(1).log2(), Fx::from_i32(0));
    assert_eq!(Fx::from_i32(2).log2(), Fx::from_i32(1));
    assert_eq!(Fx::from_i32(4).log2(), Fx::from_i32(2));
    assert_eq!(Fx::from_i32(8).log2(), Fx::from_i32(3));
}

#[test]
fn fx_log2_of_three_matches_model() {
    // log2(3) = 1.58496...; with a 16-bit fraction the engine computes
    // exactly this raw value.
    assert_eq!(Fx::from_i32(3).log2().mag(), 6807355392);
}

#[test]
fn mandelbrot_origin_never_escapes() {
    let m = Mandelbrot::default();
    for limit in [1u32, 10, 100, 1000] {
        assert!(m.render(Complex::zero(), limit).is_none());
    }
}

#[test]
fn mandelbrot_far_point_escapes_first_iteration() {
    let m = Mandelbrot::default();
    let c = Complex::new(Fx::from_i32(3), Fx::from_i32(0));
    let r = m.render(c, 100);
    // 0^2 + 3 = 3 and |3|^2 = 9 > 8: escapes at the very first step, with
    // the smoothed count 0 - log2(log2(9)/3)/log2(2).
    let count = r.expect("c = 3 must escape");
    assert!(count.is_neg());
    assert_eq!(count.mag(), 341377024);
    // Even a budget of one iteration suffices.
    assert!(m.render(c, 1).is_some());
}

#[test]
fn mandelbrot_two_is_outside_the_set() {
    let m = Mandelbrot::default();
    let c = Complex::new(Fx::from_i32(2), Fx::from_i32(0));
    // 2 -> 2^2 + 2 = 6, |6|^2 = 36 > 8: escapes at the second step.
    assert!(m.render(c, 100).is_some());
    assert!(m.render(c, 1).is_none());
}

#[test]
fn julia_default_offset_escapes_from_zero() {
    let j = Julia::default();
    // Starting at the sampled point 0, the orbit under z^2 + (0.6 + 0.4i)
    // grows past the threshold within a few steps.
    assert!(j.render(Complex::zero(), 100).is_some());
    assert!(j.render(Complex::zero(), 1).is_none());
}

#[test]
fn poly_fn_dispatches_to_family() {
    let f = PolyComplexFn::default();
    assert!(matches!(f, PolyComplexFn::Mandelbrot(_)));
    assert_eq!(f.exp(), Fx::from_i32(2));
    assert!(f.render(Complex::zero(), 50).is_none());
    let j = PolyComplexFn::Julia(Julia::default());
    assert!(j.render(Complex::zero(), 100).is_some());
}

#[test]
fn julia_carries_mandelbrot_exponent() {
    let m = Mandelbrot::default();
    let off = Complex::new(Fx::from_i32(-1), Fx::from_i32(0));
    let j = Julia::from_c(&m, off);
    assert_eq!(j.exp, m.exp);
    assert_eq!(j.c_offset, off);
    let back = Mandelbrot::from_julia(&j);
    assert_eq!(back.exp, m.exp);
}

#[test]
fn complex_square_matches_hand_computation() {
    // (1 + 2i)^2 = -3 + 4i.
    let z = Complex::new(Fx::from_i32(1), Fx::from_i32(2));
    let sq = z.pow_n(2);
    assert_eq!(sq.re, Fx::from_i32(-3));
    assert_eq!(sq.im, Fx::from_i32(4));
    // |1 + 2i|^2 = 5.
    assert_eq!(z.norm_sqr(), Fx::from_i32(5));
}

#[test]
fn complex_cube_matches_hand_computation() {
    // (1 + 1i)^3 = -2 + 2i.
    let z = Complex::new(Fx::from_i32(1), Fx::from_i32(1));
    let cube = z.pow_n(3);
    assert_eq!(cube.re, Fx::from_i32(-2));
    assert_eq!(cube.im, Fx::from_i32(2));
}
