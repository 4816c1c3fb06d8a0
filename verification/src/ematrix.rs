//! The escape matrix: a dense grid of evaluated escape results.
//!
//! Cells are stored in column-major order (the row index varies fastest
//! within a column), addressed by linear index or `(row, col)`, and can be
//! smoothed by a 3x3 blur pass or colorized into a row-major RGB byte
//! buffer.

use crate::colorer::{rgb_v, SineRGB};
use crate::fixed::{clipped, tz_div};
use crate::polycomplex::Escape;
use vstd::arithmetic::div_mod::lemma_fundamental_div_mod;
use vstd::arithmetic::mul::lemma_mul_inequality;
use vstd::prelude::*;

verus! {

/// A canonical escape value.
pub open spec fn escape_wf(e: Escape) -> bool {
    e is Some ==> e->0.wf()
}

/// The divisor of the blur kernel: the sum of all its weights,
/// `16 + 4 * 2 + 4 * 1`.
pub const BLUR_DIVISOR: u64 = 28;

/// The blur kernel weight at offset `(dr, dc)` in `{0, 1, 2}^2`: 16 in the
/// center, 1 in the corners, 2 on the edges.
pub open spec fn kernel_w(dr: int, dc: int) -> int {
    if dr == 1 && dc == 1 {
        16
    } else if dr == 1 || dc == 1 {
        2
    } else {
        1
    }
}

/// An `EMatrix` maps the cells in a frame to their evaluated escapes.
#[derive(Debug, Clone)]
pub struct EMatrix {
    ncols: usize,
    nrows: usize,
    cells: Vec<Escape>,
}

proof fn lemma_grid_index(row: int, col: int, nrows: int, ncols: int)
    by (nonlinear_arith)
    requires
        0 <= row < nrows,
        0 <= col < ncols,
    ensures
        0 <= col * nrows + row < ncols * nrows,
{
}

impl EMatrix {
    /// The number of columns.
    pub closed spec fn ncols_spec(self) -> int {
        self.ncols as int
    }

    /// The number of rows.
    pub closed spec fn nrows_spec(self) -> int {
        self.nrows as int
    }

    /// The cells, as a sequence in column-major order.
    pub closed spec fn cells_spec(self) -> Seq<Escape> {
        self.cells@
    }

    /// Well-formed: the buffer holds exactly one canonical cell per grid
    /// position.
    pub open spec fn wf(self) -> bool {
        self.cells_spec().len() == self.ncols_spec() * self.nrows_spec() && (forall|k: int|
            0 <= k < self.cells_spec().len() ==> escape_wf(#[trigger] self.cells_spec()[k]))
    }

    /// The cell at `(row, col)`: column-major, so it sits at linear index
    /// `col * nrows + row`.
    pub open spec fn cell_spec(self, row: int, col: int) -> Escape {
        self.cells_spec()[col * self.nrows_spec() + row]
    }

    /// Construct a matrix from a flat buffer in column-major order.
    pub fn from_vec(ncols: usize, nrows: usize, v: Vec<Escape>) -> (r: EMatrix)
        requires
            v@.len() == ncols * nrows,
            forall|k: int| 0 <= k < v@.len() ==> escape_wf(#[trigger] v@[k]),
        ensures
            r.ncols_spec() == ncols,
            r.nrows_spec() == nrows,
            r.cells_spec() == v@,
            r.wf(),
    {
        EMatrix { ncols, nrows, cells: v }
    }

    /// The linear cell at `index`, or `None` past the end.
    pub fn get(&self, index: usize) -> (r: Option<&Escape>)
        ensures
            index < self.cells_spec().len() ==> r == Some(&self.cells_spec()[index as int]),
            index >= self.cells_spec().len() ==> r is None,
    {
        if index < self.cells.len() {
            Some(&self.cells[index])
        } else {
            None
        }
    }

    /// Replace the linear cell at `index`.
    pub fn set(&mut self, index: usize, value: Escape)
        requires
            index < old(self).cells_spec().len(),
        ensures
            final (self).cells_spec() == old(self).cells_spec().update(index as int, value),
            final (self).ncols_spec() == old(self).ncols_spec(),
            final (self).nrows_spec() == old(self).nrows_spec(),
    {
        self.cells.set(index, value);
    }

    /// The number of cells.
    pub fn len(&self) -> (r: usize)
        ensures
            r == self.cells_spec().len(),
    {
        self.cells.len()
    }

    /// The number of rows.
    pub fn nrows(&self) -> (r: usize)
        ensures
            r == self.nrows_spec(),
    {
        self.nrows
    }

    /// The number of columns.
    pub fn ncols(&self) -> (r: usize)
        ensures
            r == self.ncols_spec(),
    {
        self.ncols
    }

    /// The cell at `(row, col)`.
    pub fn index(&self, row: usize, col: usize) -> (r: Escape)
        requires
            self.wf(),
            row < self.nrows_spec(),
            col < self.ncols_spec(),
        ensures
            r == self.cell_spec(row as int, col as int),
    {
        proof {
            lemma_grid_index(row as int, col as int, self.nrows_spec(), self.ncols_spec());
        }
        let n = self.cells.len();
        assert(col * self.nrows_spec() + row < n as int);
        self.cells[col * self.nrows + row]
    }
}

/// The saturating weighted accumulation of the first `k` cells (in
/// row-then-column order) of the 3x3 neighborhood centered at
/// `(row, col)`; absent neighbors are skipped.
pub open spec fn blur_acc(m: EMatrix, row: int, col: int, k: nat) -> Option<int>
    decreases k,
{
    if k == 0 {
        Option::None
    } else {
        let prev = blur_acc(m, row, col, (k - 1) as nat);
        let dr = ((k - 1) as int) / 3;
        let dc = ((k - 1) as int) % 3;
        let e = m.cell_spec(row + dr - 1, col + dc - 1);
        match (prev, e) {
            (Option::None, Option::None) => Option::None,
            (Option::None, Option::Some(f)) => Option::Some(clipped(f.v() * kernel_w(dr, dc))),
            (Option::Some(acc), Option::None) => Option::Some(acc),
            (Option::Some(acc), Option::Some(f)) => Option::Some(
                clipped(acc + clipped(f.v() * kernel_w(dr, dc))),
            ),
        }
    }
}

/// What the blur writes at `(row, col)`: border cells pass through
/// unmodified; an interior cell stays absent when it was absent, and is
/// otherwise the 3x3 weighted neighborhood accumulation divided by the
/// fixed kernel sum (absent neighbors are excluded from the accumulation
/// but the divisor stays fixed).
pub open spec fn blur_cell_ok(m: EMatrix, row: int, col: int, out: Escape) -> bool {
    if row == 0 || col == 0 || row == m.nrows_spec() - 1 || col == m.ncols_spec() - 1 {
        out == m.cell_spec(row, col)
    } else {
        match m.cell_spec(row, col) {
            Option::None => out is None,
            Option::Some(center) => match blur_acc(m, row, col, 9) {
                Option::None => out is None,
                Option::Some(acc) => out is Some && out->0.v() == tz_div(acc, BLUR_DIVISOR as int)
                    && out->0.wf(),
            },
        }
    }
}

impl EMatrix {
    /// A new matrix holding a 3x3 weighted blur of this one.  Border cells
    /// pass through unmodified; the fixed divisor is kept even when absent
    /// neighbors were skipped.
    pub fn gaussian_blur(&self) -> (r: EMatrix)
        requires
            self.wf(),
        ensures
            r.nrows_spec() == self.nrows_spec(),
            r.ncols_spec() == self.ncols_spec(),
            r.wf(),
            forall|row: int, col: int|
                0 <= row < self.nrows_spec() && 0 <= col < self.ncols_spec()
                    ==> blur_cell_ok(*self, row, col, #[trigger] r.cell_spec(row, col)),
    {
        let mut cells: Vec<Escape> = Vec::new();
        let mut col: usize = 0;
        while col < self.ncols
            invariant
                self.wf(),
                col <= self.ncols_spec(),
                cells@.len() == col * self.nrows_spec(),
                forall|c: int, w: int|
                    0 <= c < col && 0 <= w < self.nrows_spec() ==> blur_cell_ok(
                        *self,
                        w,
                        c,
                        #[trigger] cells@[c * self.nrows_spec() + w],
                    ),
                forall|k: int| 0 <= k < cells@.len() ==> escape_wf(#[trigger] cells@[k]),
            decreases self.ncols_spec() - col,
        {
            let mut row: usize = 0;
            while row < self.nrows
                invariant
                    self.wf(),
                    col < self.ncols_spec(),
                    row <= self.nrows_spec(),
                    cells@.len() == col * self.nrows_spec() + row,
                    forall|c: int, w: int|
                        0 <= c < col && 0 <= w < self.nrows_spec() ==> blur_cell_ok(
                            *self,
                            w,
                            c,
                            #[trigger] cells@[c * self.nrows_spec() + w],
                        ),
                    forall|w: int|
                        0 <= w < row ==> blur_cell_ok(
                            *self,
                            w,
                            col as int,
                            #[trigger] cells@[col as int * self.nrows_spec() + w],
                        ),
                    forall|k: int| 0 <= k < cells@.len() ==> escape_wf(#[trigger] cells@[k]),
                decreases self.nrows_spec() - row,
            {
                let out = self.blur_one(row, col);
                cells.push(out);
                proof {
                    assert forall|c: int, w: int|
                        0 <= c < col && 0 <= w < self.nrows_spec() implies blur_cell_ok(
                        *self,
                        w,
                        c,
                        #[trigger] cells@[c * self.nrows_spec() + w],
                    ) by {
                        assert(c * self.nrows_spec() + w < (c + 1) * self.nrows_spec() && (c + 1)
                            * self.nrows_spec() <= col * self.nrows_spec()) by (nonlinear_arith)
                            requires
                                0 <= c < col,
                                0 <= w < self.nrows_spec(),
                        ;
                    }
                }
                row = row + 1;
            }
            proof {
                assert(cells@.len() == col * self.nrows_spec() + self.nrows_spec());
                assert((col + 1) * self.nrows_spec() == col * self.nrows_spec()
                    + self.nrows_spec()) by (nonlinear_arith);
                assert forall|c: int, w: int|
                    0 <= c < col + 1 && 0 <= w < self.nrows_spec() implies blur_cell_ok(
                    *self,
                    w,
                    c,
                    #[trigger] cells@[c * self.nrows_spec() + w],
                ) by {
                    if c == col as int {
                        assert(blur_cell_ok(
                            *self,
                            w,
                            col as int,
                            cells@[col as int * self.nrows_spec() + w],
                        ));
                    }
                }
            }
            col = col + 1;
        }
        proof {
            assert(self.ncols_spec() * self.nrows_spec() == cells@.len());
        }
        EMatrix { ncols: self.ncols, nrows: self.nrows, cells }
    }

    /// The blurred value of one cell; mirrors [`blur_cell_ok`].
    fn blur_one(&self, row: usize, col: usize) -> (out: Escape)
        requires
            self.wf(),
            row < self.nrows_spec(),
            col < self.ncols_spec(),
        ensures
            blur_cell_ok(*self, row as int, col as int, out),
            escape_wf(out),
    {
        if row == 0 || col == 0 || row == self.nrows - 1 || col == self.ncols - 1 {
            let e = self.index(row, col);
            proof {
                lemma_grid_index(row as int, col as int, self.nrows_spec(), self.ncols_spec());
            }
            e
        } else {
            match self.index(row, col) {
                Option::None => Option::None,
                Option::Some(_) => {
                    let mut acc: Escape = Option::None;
                    let mut k: usize = 0;
                    while k < 9
                        invariant
                            self.wf(),
                            0 < row < self.nrows_spec() - 1,
                            0 < col < self.ncols_spec() - 1,
                            k <= 9,
                            match (acc, blur_acc(*self, row as int, col as int, k as nat)) {
                                (Option::None, Option::None) => true,
                                (Option::Some(a), Option::Some(s)) => a.v() == s && a.wf(),
                                _ => false,
                            },
                        decreases 9 - k,
                    {
                        let dr: usize = k / 3;
                        let dc: usize = k % 3;
                        let w: u64 = if dr == 1 && dc == 1 {
                            16
                        } else if dr == 1 || dc == 1 {
                            2
                        } else {
                            1
                        };
                        let e = self.index(row + dr - 1, col + dc - 1);
                        acc = match (acc, e) {
                            (Option::None, Option::None) => Option::None,
                            (Option::None, Option::Some(f)) => Option::Some(f.scale_u64(w)),
                            (Option::Some(a), Option::None) => Option::Some(a),
                            (Option::Some(a), Option::Some(f)) => Option::Some(
                                a.add(f.scale_u64(w)),
                            ),
                        };
                        k = k + 1;
                    }
                    match acc {
                        Option::None => Option::None,
                        Option::Some(a) => Option::Some(a.shrink_u64(BLUR_DIVISOR)),
                    }
                },
            }
        }
    }

    /// Colorize the matrix into a row-major RGB byte buffer: the pixel at
    /// `(x, y)` takes the three channel bytes of the cell at row `y`,
    /// column `x`.
    pub fn to_rgb_bytes(&self, colorer: &SineRGB) -> (r: Vec<u8>)
        requires
            self.wf(),
            colorer.wf(),
        ensures
            r@.len() == 3 * self.nrows_spec() * self.ncols_spec(),
            forall|y: int, x: int|
                0 <= y < self.nrows_spec() && 0 <= x < self.ncols_spec() ==> {
                    let p = 3 * (y * self.ncols_spec() + x);
                    (
                        r@[p] as int,
                        r@[p + 1] as int,
                        r@[p + 2] as int,
                    ) == rgb_v(*colorer, #[trigger] self.cell_spec(y, x))
                },
    {
        let mut bytes: Vec<u8> = Vec::new();
        let mut y: usize = 0;
        while y < self.nrows
            invariant
                self.wf(),
                colorer.wf(),
                y <= self.nrows_spec(),
                bytes@.len() == 3 * (y * self.ncols_spec()),
                forall|yy: int, x: int|
                    0 <= yy < y && 0 <= x < self.ncols_spec() ==> {
                        let p = 3 * (yy * self.ncols_spec() + x);
                        (
                            bytes@[p] as int,
                            bytes@[p + 1] as int,
                            bytes@[p + 2] as int,
                        ) == rgb_v(*colorer, #[trigger] self.cell_spec(yy, x))
                    },
            decreases self.nrows_spec() - y,
        {
            let mut x: usize = 0;
            while x < self.ncols
                invariant
                    self.wf(),
                    colorer.wf(),
                    y < self.nrows_spec(),
                    x <= self.ncols_spec(),
                    bytes@.len() == 3 * (y * self.ncols_spec() + x),
                    forall|yy: int, xx: int|
                        0 <= yy < y && 0 <= xx < self.ncols_spec() ==> {
                            let p = 3 * (yy * self.ncols_spec() + xx);
                            (
                                bytes@[p] as int,
                                bytes@[p + 1] as int,
                                bytes@[p + 2] as int,
                            ) == rgb_v(*colorer, #[trigger] self.cell_spec(yy, xx))
                        },
                    forall|xx: int|
                        0 <= xx < x ==> {
                            let p = 3 * (y as int * self.ncols_spec() + xx);
                            (
                                bytes@[p] as int,
                                bytes@[p + 1] as int,
                                bytes@[p + 2] as int,
                            ) == rgb_v(*colorer, #[trigger] self.cell_spec(y as int, xx))
                        },
                decreases self.ncols_spec() - x,
            {
                proof {
                    lemma_mul_inequality(y as int + 1, self.nrows_spec(), self.ncols_spec());
                    lemma_grid_index(y as int, x as int, self.nrows_spec(), self.ncols_spec());
                }
                let cell = self.index(y, x);
                let rgb = colorer.rgb(cell);
                bytes.push(rgb.0);
                bytes.push(rgb.1);
                bytes.push(rgb.2);
                proof {
                    assert forall|yy: int, xx: int|
                        0 <= yy < y && 0 <= xx < self.ncols_spec() implies {
                        let p = 3 * (yy * self.ncols_spec() + xx);
                        (
                            bytes@[p] as int,
                            bytes@[p + 1] as int,
                            bytes@[p + 2] as int,
                        ) == rgb_v(*colorer, #[trigger] self.cell_spec(yy, xx))
                    } by {
                        assert(yy * self.ncols_spec() + xx < y * self.ncols_spec() + x)
                            by (nonlinear_arith)
                            requires
                                0 <= yy < y,
                                0 <= xx < self.ncols_spec(),
                                0 <= x,
                        ;
                    }
                }
                x = x + 1;
            }
            proof {
                assert(y * self.ncols_spec() + self.ncols_spec() == (y + 1) * self.ncols_spec())
                    by (nonlinear_arith);
                assert forall|yy: int, xx: int|
                    0 <= yy < y + 1 && 0 <= xx < self.ncols_spec() implies {
                    let p = 3 * (yy * self.ncols_spec() + xx);
                    (
                        bytes@[p] as int,
                        bytes@[p + 1] as int,
                        bytes@[p + 2] as int,
                    ) == rgb_v(*colorer, #[trigger] self.cell_spec(yy, xx))
                } by {
                    if yy == y as int {
                        assert({
                            let p = 3 * (y as int * self.ncols_spec() + xx);
                            (
                                bytes@[p] as int,
                                bytes@[p + 1] as int,
                                bytes@[p + 2] as int,
                            ) == rgb_v(*colorer, self.cell_spec(y as int, xx))
                        });
                    }
                }
            }
            y = y + 1;
        }
        proof {
            assert(3 * (self.nrows_spec() * self.ncols_spec()) == 3 * self.nrows_spec()
                * self.ncols_spec()) by (nonlinear_arith);
        }
        bytes
    }
}

/// Law: the column-major addressing is a bijection between linear indices
/// and `(row, col)` pairs: every linear index `idx` below `ncols * nrows`
/// is reached by exactly the pair `(idx % nrows, idx / nrows)`, so a full
/// walk of the linear indices visits every cell of a well-formed matrix
/// exactly once, and [`EMatrix::from_vec`] places the buffer's value at
/// `idx` at exactly that cell.
pub proof fn law_linear_index_bijection(nrows: int, ncols: int, idx: int)
    requires
        nrows >= 1,
        0 <= idx < ncols * nrows,
    ensures
        (idx / nrows) * nrows + (idx % nrows) == idx,
        0 <= idx % nrows < nrows,
        0 <= idx / nrows < ncols,
        forall|row: int, col: int|
            0 <= row < nrows && 0 <= col < ncols && #[trigger] (col * nrows + row) == idx ==> row
                == idx % nrows && col == idx / nrows,
{
    lemma_fundamental_div_mod(idx, nrows);
    vstd::arithmetic::div_mod::lemma_mod_bound(idx, nrows);
    assert(nrows * (idx / nrows) == (idx / nrows) * nrows) by (nonlinear_arith);
    assert(0 <= idx / nrows < ncols) by (nonlinear_arith)
        requires
            0 <= idx < ncols * nrows,
            nrows >= 1,
            idx == (idx / nrows) * nrows + (idx % nrows),
            0 <= idx % nrows < nrows,
    ;
    assert forall|row: int, col: int|
        0 <= row < nrows && 0 <= col < ncols && #[trigger] (col * nrows + row) == idx implies row
        == idx % nrows && col == idx / nrows by {
        vstd::arithmetic::div_mod::lemma_fundamental_div_mod_converse(
            idx,
            nrows,
            col,
            row,
        );
        assert(col * nrows + row == nrows * col + row) by (nonlinear_arith);
    }
}

} // verus!
