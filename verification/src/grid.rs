//! Grid geometry and the row-major pass over a rectangle of cells that every
//! stage of the solver is built from.

use vstd::prelude::*;

verus! {

/// Flat position of the cell in column `x` of row `y` on a grid `w` cells wide.
pub open spec fn cell(w: int, x: int, y: int) -> int {
    x + y * w
}

pub open spec fn in_grid(w: int, h: int, x: int, y: int) -> bool {
    0 <= x < w && 0 <= y < h
}

/// The cells that are not on the outermost ring of the grid.
pub open spec fn interior(w: int, h: int, x: int, y: int) -> bool {
    1 <= x < w - 1 && 1 <= y < h - 1
}

/// A grid the solver can work on: at least two cells each way, and field
/// arrays of `w * h` values that a `usize` can index.
pub open spec fn valid_dims(w: int, h: int) -> bool {
    2 <= w && 2 <= h && w * h <= usize::MAX
}

/// Columns `x0..x1` of rows `y0..y1`.
pub struct Rect {
    pub x0: int,
    pub x1: int,
    pub y0: int,
    pub y1: int,
}

impl Rect {
    pub open spec fn contains(self, x: int, y: int) -> bool {
        self.x0 <= x < self.x1 && self.y0 <= y < self.y1
    }

    /// No part of the rectangle lies outside a grid of `w` by `h` cells.
    pub open spec fn within(self, w: int, h: int) -> bool {
        0 <= self.x0 && self.x1 <= w && 0 <= self.y0 && self.y1 <= h
    }

    /// The number of cells in the rectangle.
    pub open spec fn area(self) -> int {
        if self.x0 < self.x1 && self.y0 < self.y1 {
            (self.x1 - self.x0) * (self.y1 - self.y0)
        } else {
            0
        }
    }

    /// Position of the cell `(x, y)` among the cells of the rectangle, counted
    /// row by row.
    pub open spec fn ordinal(self, x: int, y: int) -> int {
        (y - self.y0) * (self.x1 - self.x0) + (x - self.x0)
    }
}

/// All cells of the grid but its outermost ring.
pub open spec fn inner(w: int, h: int) -> Rect {
    Rect { x0: 1, x1: w - 1, y0: 1, y1: h - 1 }
}

/// All cells of the grid.
pub open spec fn full(w: int, h: int) -> Rect {
    Rect { x0: 0, x1: w, y0: 0, y1: h }
}

/// The field `s` after columns `x0..n` of row `y` have been rewritten, left
/// to right, each with the value `f` gives on the field as it stands just
/// before.
pub open spec fn pass_row<S>(
    f: spec_fn(Seq<S>, int, int) -> S,
    s: Seq<S>,
    w: int,
    y: int,
    x0: int,
    n: int,
) -> Seq<S>
    decreases n - x0,
{
    if n <= x0 {
        s
    } else {
        let prev = pass_row(f, s, w, y, x0, n - 1);
        prev.update(cell(w, n - 1, y), f(prev, n - 1, y))
    }
}

/// The field `s` after rows `r.y0..m` of the rectangle `r` have been
/// rewritten, top to bottom.
pub open spec fn pass_rows<S>(
    f: spec_fn(Seq<S>, int, int) -> S,
    s: Seq<S>,
    w: int,
    r: Rect,
    m: int,
) -> Seq<S>
    decreases m - r.y0,
{
    if m <= r.y0 {
        s
    } else {
        pass_row(f, pass_rows(f, s, w, r, m - 1), w, m - 1, r.x0, r.x1)
    }
}

/// One pass over the cells of `r` in row-major order.
pub open spec fn pass<S>(f: spec_fn(Seq<S>, int, int) -> S, s: Seq<S>, w: int, r: Rect) -> Seq<S> {
    pass_rows(f, s, w, r, r.y1)
}

/// One pass over all interior cells in row-major order.
pub open spec fn sweep<S>(f: spec_fn(Seq<S>, int, int) -> S, s: Seq<S>, w: int, h: int) -> Seq<S> {
    pass(f, s, w, inner(w, h))
}

/// `n` passes over the interior, one after the other.
pub open spec fn sweeps<S>(
    f: spec_fn(Seq<S>, int, int) -> S,
    s: Seq<S>,
    w: int,
    h: int,
    n: nat,
) -> Seq<S>
    decreases n,
{
    if n == 0 {
        s
    } else {
        sweep(f, sweeps(f, s, w, h, (n - 1) as nat), w, h)
    }
}

/// `a` and `b` hold the same value at every cell of the grid outside `r`.
pub open spec fn agree_outside<S>(a: Seq<S>, b: Seq<S>, w: int, h: int, r: Rect) -> bool {
    forall|x: int, y: int|
        in_grid(w, h, x, y) && !r.contains(x, y) ==> a[#[trigger] cell(w, x, y)] == b[cell(w, x, y)]
}

/// `a` and `b` hold the same value at every cell of the outermost ring.
pub open spec fn same_rim<S>(a: Seq<S>, b: Seq<S>, w: int, h: int) -> bool {
    agree_outside(a, b, w, h, inner(w, h))
}

/// `f` can be called on every cell of a grid of `w` by `h` cells and gives
/// the flat position of that cell.
pub open spec fn numbers_cells<F: Fn(usize, usize) -> usize>(f: F, w: usize, h: usize) -> bool {
    &&& forall|x: usize, y: usize| x < w && y < h ==> #[trigger] call_requires(f, (x, y))
    &&& forall|x: usize, y: usize, k: usize|
        x < w && y < h && #[trigger] call_ensures(f, (x, y), k) ==> k == cell(
            w as int,
            x as int,
            y as int,
        )
}

/// A rule whose value at a cell depends on the swept field through that
/// cell alone.
pub open spec fn pointwise<S>(f: spec_fn(Seq<S>, int, int) -> S, w: int) -> bool {
    forall|a: Seq<S>, b: Seq<S>, x: int, y: int|
        a[cell(w, x, y)] == b[cell(w, x, y)] ==> #[trigger] f(a, x, y) == #[trigger] f(b, x, y)
}

pub proof fn lemma_cell_bounds(w: int, h: int, x: int, y: int)
    requires
        in_grid(w, h, x, y),
    ensures
        0 <= cell(w, x, y) < w * h,
        0 <= y * w,
        y * w + w <= w * h,
{
    assert(0 <= y * w) by (nonlinear_arith)
        requires
            0 <= y,
            0 <= w,
    ;
    assert(y * w + w <= h * w) by (nonlinear_arith)
        requires
            y + 1 <= h,
            0 <= w,
    ;
    assert(h * w == w * h) by (nonlinear_arith);
}

pub proof fn lemma_cell_injective(w: int, x1: int, y1: int, x2: int, y2: int)
    requires
        0 <= x1 < w,
        0 <= x2 < w,
        cell(w, x1, y1) == cell(w, x2, y2),
    ensures
        x1 == x2,
        y1 == y2,
{
    if y1 < y2 {
        assert(y1 * w + w <= y2 * w) by (nonlinear_arith)
            requires
                y1 + 1 <= y2,
                0 <= w,
        ;
    } else if y2 < y1 {
        assert(y2 * w + w <= y1 * w) by (nonlinear_arith)
            requires
                y2 + 1 <= y1,
                0 <= w,
        ;
    }
}

/// The cells directly left of, right of, above and below an interior cell lie
/// one and `w` positions away from it, inside the field.
pub proof fn lemma_neighbours(w: int, h: int, x: int, y: int)
    requires
        interior(w, h, x, y),
    ensures
        w <= cell(w, x, y),
        cell(w, x, y) + w < w * h,
        cell(w, x - 1, y) == cell(w, x, y) - 1,
        cell(w, x + 1, y) == cell(w, x, y) + 1,
        cell(w, x, y - 1) == cell(w, x, y) - w,
        cell(w, x, y + 1) == cell(w, x, y) + w,
{
    lemma_cell_bounds(w, h, x, y - 1);
    lemma_cell_bounds(w, h, x, y + 1);
    assert((y - 1) * w == y * w - w) by (nonlinear_arith);
    assert((y + 1) * w == y * w + w) by (nonlinear_arith);
}

/// A partial row pass keeps the length, touches only columns `x0..n` of row
/// `y`, and, for a pointwise rule, stores there what the rule gives on the
/// field before the pass.
proof fn lemma_pass_row<S>(
    f: spec_fn(Seq<S>, int, int) -> S,
    s: Seq<S>,
    w: int,
    h: int,
    y: int,
    x0: int,
    n: int,
)
    requires
        s.len() == w * h,
        0 <= y < h,
        0 <= x0,
        n <= w,
    ensures
        pass_row(f, s, w, y, x0, n).len() == s.len(),
        agree_outside(pass_row(f, s, w, y, x0, n), s, w, h, Rect { x0, x1: n, y0: y, y1: y + 1 }),
        pointwise(f, w) ==> forall|x2: int|
            x0 <= x2 < n ==> pass_row(f, s, w, y, x0, n)[#[trigger] cell(w, x2, y)] == f(s, x2, y),
    decreases n - x0,
{
    if n > x0 {
        lemma_pass_row(f, s, w, h, y, x0, n - 1);
        let prev = pass_row(f, s, w, y, x0, n - 1);
        let k = cell(w, n - 1, y);
        let r = pass_row(f, s, w, y, x0, n);
        lemma_cell_bounds(w, h, n - 1, y);
        assert(r == prev.update(k, f(prev, n - 1, y)));
        let done = Rect { x0, x1: n, y0: y, y1: y + 1 };
        assert(agree_outside(prev, s, w, h, Rect { x0, x1: n - 1, y0: y, y1: y + 1 }));
        assert forall|x2: int, y2: int|
            in_grid(w, h, x2, y2) && !done.contains(x2, y2) implies r[#[trigger] cell(w, x2, y2)]
            == s[cell(w, x2, y2)] by {
            lemma_cell_bounds(w, h, x2, y2);
            if cell(w, x2, y2) == k {
                lemma_cell_injective(w, x2, y2, n - 1, y);
            }
        }
        if pointwise(f, w) {
            assert forall|x2: int| x0 <= x2 < n implies r[#[trigger] cell(w, x2, y)] == f(
                s,
                x2,
                y,
            ) by {
                lemma_cell_bounds(w, h, x2, y);
                if x2 == n - 1 {
                    assert(prev[cell(w, x2, y)] == s[cell(w, x2, y)]);
                    assert(f(prev, x2, y) == f(s, x2, y));
                } else {
                    if cell(w, x2, y) == k {
                        lemma_cell_injective(w, x2, y, n - 1, y);
                    }
                }
            }
        }
    }
}

/// The same for rows `r.y0..m` of a rectangle.
proof fn lemma_pass_rows<S>(
    f: spec_fn(Seq<S>, int, int) -> S,
    s: Seq<S>,
    w: int,
    h: int,
    r: Rect,
    m: int,
)
    requires
        s.len() == w * h,
        r.within(w, h),
        m <= r.y1,
    ensures
        pass_rows(f, s, w, r, m).len() == s.len(),
        agree_outside(pass_rows(f, s, w, r, m), s, w, h, Rect { y1: m, ..r }),
        pointwise(f, w) ==> forall|x2: int, y2: int|
            r.contains(x2, y2) && y2 < m ==> pass_rows(f, s, w, r, m)[#[trigger] cell(w, x2, y2)]
                == f(s, x2, y2),
    decreases m - r.y0,
{
    if m > r.y0 {
        lemma_pass_rows(f, s, w, h, r, m - 1);
        let prev = pass_rows(f, s, w, r, m - 1);
        lemma_pass_row(f, prev, w, h, m - 1, r.x0, r.x1);
        let out = pass_rows(f, s, w, r, m);
        assert(out == pass_row(f, prev, w, m - 1, r.x0, r.x1));
        if pointwise(f, w) {
            assert forall|x2: int, y2: int|
                r.contains(x2, y2) && y2 < m implies out[#[trigger] cell(w, x2, y2)] == f(
                s,
                x2,
                y2,
            ) by {
                if y2 == m - 1 {
                    assert(prev[cell(w, x2, y2)] == s[cell(w, x2, y2)]);
                    assert(f(prev, x2, y2) == f(s, x2, y2));
                } else {
                    assert(in_grid(w, h, x2, y2));
                }
            }
        }
    }
}

/// A pass keeps the length and touches only the cells of its rectangle; for
/// a pointwise rule it stores in each of them what the rule gives on the
/// field before the pass.
pub proof fn lemma_pass<S>(f: spec_fn(Seq<S>, int, int) -> S, s: Seq<S>, w: int, h: int, r: Rect)
    requires
        s.len() == w * h,
        r.within(w, h),
    ensures
        pass(f, s, w, r).len() == s.len(),
        agree_outside(pass(f, s, w, r), s, w, h, r),
        pointwise(f, w) ==> forall|x2: int, y2: int|
            r.contains(x2, y2) ==> pass(f, s, w, r)[#[trigger] cell(w, x2, y2)] == f(s, x2, y2),
{
    lemma_pass_rows(f, s, w, h, r, r.y1);
}

/// Passing over no cells changes nothing.
pub proof fn lemma_pass_empty<S>(
    f: spec_fn(Seq<S>, int, int) -> S,
    s: Seq<S>,
    w: int,
    r: Rect,
    m: int,
)
    requires
        r.x1 <= r.x0 || m <= r.y0,
    ensures
        pass_rows(f, s, w, r, m) == s,
    decreases m - r.y0,
{
    if m > r.y0 {
        lemma_pass_empty(f, s, w, r, m - 1);
    }
}

/// A field on which the rule gives back, at every cell of the rectangle,
/// the value that is already there, comes out of a pass as it went in.
pub proof fn lemma_pass_fixed_point<S>(
    f: spec_fn(Seq<S>, int, int) -> S,
    s: Seq<S>,
    w: int,
    h: int,
    r: Rect,
)
    requires
        s.len() == w * h,
        r.within(w, h),
        forall|x: int, y: int| r.contains(x, y) ==> #[trigger] f(s, x, y) == s[cell(w, x, y)],
    ensures
        pass(f, s, w, r) == s,
{
    lemma_rows_fixed_point(f, s, w, h, r, r.y1);
}

proof fn lemma_row_fixed_point<S>(
    f: spec_fn(Seq<S>, int, int) -> S,
    s: Seq<S>,
    w: int,
    h: int,
    r: Rect,
    y: int,
    n: int,
)
    requires
        s.len() == w * h,
        r.within(w, h),
        r.y0 <= y < r.y1,
        n <= r.x1,
        forall|x: int, y: int| r.contains(x, y) ==> #[trigger] f(s, x, y) == s[cell(w, x, y)],
    ensures
        pass_row(f, s, w, y, r.x0, n) == s,
    decreases n - r.x0,
{
    if n > r.x0 {
        lemma_row_fixed_point(f, s, w, h, r, y, n - 1);
        lemma_cell_bounds(w, h, n - 1, y);
        assert(r.contains(n - 1, y));
        assert(s.update(cell(w, n - 1, y), f(s, n - 1, y)) =~= s);
    }
}

proof fn lemma_rows_fixed_point<S>(
    f: spec_fn(Seq<S>, int, int) -> S,
    s: Seq<S>,
    w: int,
    h: int,
    r: Rect,
    m: int,
)
    requires
        s.len() == w * h,
        r.within(w, h),
        m <= r.y1,
        forall|x: int, y: int| r.contains(x, y) ==> #[trigger] f(s, x, y) == s[cell(w, x, y)],
    ensures
        pass_rows(f, s, w, r, m) == s,
    decreases m - r.y0,
{
    if m > r.y0 {
        lemma_rows_fixed_point(f, s, w, h, r, m - 1);
        lemma_row_fixed_point(f, s, w, h, r, m - 1, r.x1);
    }
}

/// The same for any number of passes over the interior.
pub proof fn lemma_sweeps_fixed_point<S>(
    f: spec_fn(Seq<S>, int, int) -> S,
    s: Seq<S>,
    w: int,
    h: int,
    n: nat,
)
    requires
        valid_dims(w, h),
        s.len() == w * h,
        forall|x: int, y: int| interior(w, h, x, y) ==> #[trigger] f(s, x, y) == s[cell(w, x, y)],
    ensures
        sweeps(f, s, w, h, n) == s,
    decreases n,
{
    if n > 0 {
        lemma_sweeps_fixed_point(f, s, w, h, (n - 1) as nat);
        lemma_pass_fixed_point(f, s, w, h, inner(w, h));
    }
}

/// Any number of passes over the interior keeps the length and leaves the
/// outermost ring of cells as it was.
pub proof fn lemma_sweeps<S>(
    f: spec_fn(Seq<S>, int, int) -> S,
    s: Seq<S>,
    w: int,
    h: int,
    n: nat,
)
    requires
        valid_dims(w, h),
        s.len() == w * h,
    ensures
        sweeps(f, s, w, h, n).len() == s.len(),
        same_rim(sweeps(f, s, w, h, n), s, w, h),
    decreases n,
{
    if n > 0 {
        lemma_sweeps(f, s, w, h, (n - 1) as nat);
        lemma_pass(f, sweeps(f, s, w, h, (n - 1) as nat), w, h, inner(w, h));
    }
}

/// Flat position of an in-grid cell.
pub fn index(width: usize, height: usize, x: usize, y: usize) -> (k: usize)
    requires
        in_grid(width as int, height as int, x as int, y as int),
        width * height <= usize::MAX,
    ensures
        k == cell(width as int, x as int, y as int),
        k < width * height,
{
    proof {
        lemma_cell_bounds(width as int, height as int, x as int, y as int);
    }
    x + y * width
}

} // verus!
