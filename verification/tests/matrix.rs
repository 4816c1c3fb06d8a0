//! Tests of the escape matrix: addressing, blur, colorization, and the
//! full parallel render.

use mandelbrot::ematrix::EMatrix;
use mandelbrot::fixed::Fx;
use mandelbrot::polycomplex::Escape;
use mandelbrot::rctx::Rctx;
use mandelbrot::{Bounds, Pos, SineRGB};

fn some(i: i32) -> Escape {
    Some(Fx::from_i32(i))
}

#[test]
fn from_vec_round_trips_through_linear_indices() {
    let v: Vec<Escape> = vec![some(0), some(1), some(2), some(3), some(4), some(5)];
    let m = EMatrix::from_vec(2, 3, v.clone());
    assert_eq!(m.ncols(), 2);
    assert_eq!(m.nrows(), 3);
    assert_eq!(m.len(), 6);
    for i in 0..6usize {
        assert_eq!(m.get(i), Some(&v[i]));
    }
    assert_eq!(m.get(6), None);
}

#[test]
fn index_is_column_major() {
    let v: Vec<Escape> = (0..6).map(some).collect();
    let m = EMatrix::from_vec(2, 3, v);
    // Cell (row, col) sits at linear index col * nrows + row.
    assert_eq!(m.index(0, 0), some(0));
    assert_eq!(m.index(1, 0), some(1));
    assert_eq!(m.index(2, 0), some(2));
    assert_eq!(m.index(0, 1), some(3));
    assert_eq!(m.index(2, 1), some(5));
}

#[test]
fn set_replaces_one_cell() {
    let v: Vec<Escape> = (0..4).map(some).collect();
    let mut m = EMatrix::from_vec(2, 2, v);
    m.set(2, None);
    assert_eq!(m.get(2), Some(&None));
    assert_eq!(m.get(1), Some(&some(1)));
}

#[test]
fn blur_passes_borders_through_and_averages_interior() {
    // A 3x3 grid of ones: the interior cell averages to exactly one.
    let v: Vec<Escape> = (0..9).map(|_| some(1)).collect();
    let m = EMatrix::from_vec(3, 3, v);
    let b = m.gaussian_blur();
    assert_eq!(b.nrows(), 3);
    assert_eq!(b.ncols(), 3);
    assert_eq!(b.index(0, 0), some(1));
    assert_eq!(b.index(1, 1), some(1));
}

#[test]
fn blur_keeps_fixed_divisor_with_absent_neighbors() {
    // One absent corner: the accumulation drops its weight (1) but the
    // divisor stays the full kernel sum 28, so the center becomes 27/28.
    let mut v: Vec<Escape> = (0..9).map(|_| some(1)).collect();
    v[0] = None;
    let m = EMatrix::from_vec(3, 3, v);
    let b = m.gaussian_blur();
    let center = b.index(1, 1).expect("center stays present");
    assert_eq!(center.mag(), 27 * (1u64 << 32) / 28);
    // The absent border cell passes through as absent.
    assert_eq!(b.index(0, 0), None);
}

#[test]
fn blur_keeps_absent_centers_absent() {
    let mut v: Vec<Escape> = (0..9).map(|_| some(1)).collect();
    v[4] = None;
    let m = EMatrix::from_vec(3, 3, v);
    let b = m.gaussian_blur();
    assert_eq!(b.index(1, 1), None);
}

#[test]
fn rgb_bytes_are_row_major_and_match_colorer() {
    let v: Vec<Escape> = vec![None, some(0), some(10), None];
    let m = EMatrix::from_vec(2, 2, v);
    let colorer = SineRGB::default();
    let bytes = m.to_rgb_bytes(&colorer);
    assert_eq!(bytes.len(), 12);
    for y in 0..2usize {
        for x in 0..2usize {
            let p = 3 * (y * 2 + x);
            let expect = colorer.rgb(m.index(y, x));
            assert_eq!((bytes[p], bytes[p + 1], bytes[p + 2]), expect);
        }
    }
    // The absent cell at (0, 0) is black.
    assert_eq!((bytes[0], bytes[1], bytes[2]), (0, 0, 0));
}

#[test]
fn render_default_view_end_to_end() {
    let rc = Rctx::default();
    let bounds = Bounds { width: 100, height: 100 };
    let m = rc.bind(bounds).to_ematrix();
    assert_eq!(m.ncols(), 100);
    assert_eq!(m.nrows(), 100);
    assert_eq!(m.len(), 10000);
    let mut interior = 0usize;
    let mut escaping = 0usize;
    for i in 0..10000usize {
        match m.get(i).unwrap() {
            None => interior += 1,
            Some(_) => escaping += 1,
        }
    }
    // The default view is centered on the set: both kinds occur.
    assert!(interior > 0);
    assert!(escaping > 0);
    let bytes = m.to_rgb_bytes(&rc.colorer);
    assert_eq!(bytes.len(), 3 * 100 * 100);
}

#[test]
fn parallel_render_matches_per_pixel_evaluation() {
    let rc = Rctx::default();
    let bounds = Bounds { width: 16, height: 12 };
    let m = rc.bind(bounds).to_ematrix();
    for (x, y) in [(0u16, 0u16), (5, 7), (15, 11), (8, 6)] {
        let c = rc.complex_at(bounds, Pos { x, y });
        let direct = rc.complexfn.escape(c, rc.loc.max_iter);
        assert_eq!(m.index(y as usize, x as usize), direct);
    }
}

#[test]
fn progress_render_matches_plain_render() {
    let rc = Rctx::default();
    let bounds = Bounds { width: 10, height: 8 };
    let plain = rc.bind(bounds).to_ematrix();
    let bar = indicatif::ProgressBar::new(0);
    let with_bar = rc.bind(bounds).to_ematrix_with_bar(bar);
    assert_eq!(plain.len(), with_bar.len());
    for i in 0..plain.len() {
        assert_eq!(plain.get(i), with_bar.get(i));
    }
}

#[test]
fn empty_bounds_render_to_empty_matrix() {
    let rc = Rctx::default();
    let m = rc.bind(Bounds { width: 0, height: 0 }).to_ematrix();
    assert_eq!(m.len(), 0);
    assert_eq!(m.get(0), None);
    assert_eq!(m.to_rgb_bytes(&rc.colorer).len(), 0);
}

#[test]
fn blur_of_tiny_matrices_is_identity() {
    // Every cell of a 2x2 matrix is a border cell: the blur passes all of
    // them through unchanged.
    let v: Vec<Escape> = vec![some(1), None, some(3), some(4)];
    let m = EMatrix::from_vec(2, 2, v.clone());
    let b = m.gaussian_blur();
    for i in 0..4usize {
        assert_eq!(b.get(i), Some(&v[i]));
    }
}
