//! Tests of the pixel geometry and the location's coordinate mapping.

use mandelbrot::fixed::Fx;
use mandelbrot::loc::{Loc, ScaleMethod};
use mandelbrot::rctx::Rctx;
use mandelbrot::{Bounds, Offset, Pos};

#[test]
fn bounds_center_rounds_down() {
    let b = Bounds { width: 101, height: 80 };
    let c = b.center();
    assert_eq!(c.x, 50);
    assert_eq!(c.y, 40);
}

#[test]
fn pos_sub_gives_signed_offset() {
    let a = Pos { x: 3, y: 10 };
    let b = Pos { x: 7, y: 2 };
    let d = a.sub(b);
    assert_eq!(d, Offset { x: -4, y: 8 });
    let s = a.add(b);
    assert_eq!(s, Offset { x: 10, y: 12 });
}

#[test]
fn center_pixel_maps_to_origin() {
    let mut rc = Rctx::default();
    rc.loc.re0 = Fx::from_i32(-1);
    rc.loc.im0 = Fx::from_parts(true, 123456789);
    let b = Bounds { width: 100, height: 80 };
    let at_center = rc.complex_at(b, b.center());
    let origin = rc.loc.origin();
    assert_eq!(at_center, origin);
    // An off-center pixel maps elsewhere.
    let off = rc.complex_at(b, Pos { x: 0, y: 0 });
    assert_ne!(off, origin);
}

#[test]
fn complex_at_steps_by_scalar() {
    // With unit compensation, a one-pixel step moves the real part by
    // exactly one scalar.
    let rc = Rctx::default();
    let b = Bounds { width: 11, height: 11 };
    let center = rc.complex_at(b, b.center());
    let right = rc.complex_at(b, Pos { x: 6, y: 5 });
    assert_eq!(right.re.sub(center.re), rc.loc.scalar);
    assert_eq!(right.im, center.im);
}

#[test]
fn for_bounds_fits_span_to_smaller_dimension() {
    let l = Loc::for_bounds(Bounds { width: 100, height: 80 });
    // 1.5 plane units across 80 pixels: raw 1.5 * 2^32 / 80.
    assert_eq!(l.scalar.mag(), 6442450944 / 80);
    assert_eq!(l.max_iter, 100);
    assert_eq!(l.re0, Fx::from_i32(0));
    assert_eq!(l.im0, Fx::from_i32(0));
}

#[test]
fn scale_methods_match_hand_computation() {
    let l = Loc::default();
    let v = l.scalar.mag() as u128;
    let old = Bounds { width: 10, height: 10 };
    let new = Bounds { width: 20, height: 40 };
    let min = l.scale(old, new, ScaleMethod::Min);
    let max = l.scale(old, new, ScaleMethod::Max);
    let avg = l.scale(old, new, ScaleMethod::Avg);
    // Min keeps the full extent: divide by the smaller ratio (2).
    assert_eq!(min.scalar.mag() as u128, v * 10 / 20);
    // Max fills the bounds: divide by the larger ratio (4).
    assert_eq!(max.scalar.mag() as u128, v * 10 / 40);
    // Avg: divide by the mean ratio (3).
    assert_eq!(avg.scalar.mag() as u128, v * 200 / 600);
    // Scaling leaves everything but the scalar alone.
    assert_eq!(min.re0, l.re0);
    assert_eq!(min.im0, l.im0);
    assert_eq!(min.max_iter, l.max_iter);
}

#[test]
fn scale_round_trip_is_nearly_idempotent() {
    let l = Loc::default();
    let b1 = Bounds { width: 100, height: 50 };
    let b2 = Bounds { width: 200, height: 100 };
    let out = l.scale(b1, b2, ScaleMethod::Min);
    let back = out.scale(b2, b1, ScaleMethod::Min);
    // 429496729 / 2 * 2 loses exactly the floored bit.
    assert_eq!(back.scalar.mag(), 429496728);
    assert!(back.scalar.mag() <= l.scalar.mag());
    assert!(l.scalar.mag() - back.scalar.mag() <= 2);
}

#[test]
fn scale_saturates_instead_of_overflowing() {
    let mut l = Loc::default();
    l.scalar = Fx::from_parts(false, u64::MAX);
    let s = l.scale(
        Bounds { width: 100, height: 100 },
        Bounds { width: 1, height: 1 },
        ScaleMethod::Min,
    );
    assert_eq!(s.scalar.mag(), u64::MAX);
}

#[test]
fn scale_clamps_to_positive_scalar() {
    let mut l = Loc::default();
    l.scalar = Fx::from_parts(false, 1);
    let s = l.scale(
        Bounds { width: 1, height: 1 },
        Bounds { width: 1000, height: 1000 },
        ScaleMethod::Min,
    );
    assert_eq!(s.scalar.mag(), 1);
}

#[test]
fn move_to_sets_origin() {
    let mut l = Loc::default();
    let target = mandelbrot::Complex::new(Fx::from_i32(2), Fx::from_i32(-3));
    l.move_to(target);
    assert_eq!(l.re0, Fx::from_i32(2));
    assert_eq!(l.im0, Fx::from_i32(-3));
    assert_eq!(l.max_iter, 100);
}

#[test]
fn bounds_and_pos_from_pairs() {
    let b = Bounds::from((120u16, 40u16));
    assert_eq!(b, Bounds { width: 120, height: 40 });
    let p = Pos::from((3u16, 4u16));
    assert_eq!(p, Pos { x: 3, y: 4 });
}
