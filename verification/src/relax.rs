//! Implicit diffusion by a fixed number of Gauss-Seidel passes.

use crate::fluid::Fluid;
use crate::grid::{
    cell, inner, interior, lemma_cell_bounds, lemma_neighbours, lemma_sweeps, pass_row, pass_rows,
    same_rim, sweeps, valid_dims,
};
use crate::scalar::{one, Scalar, spec_one};
use vstd::prelude::*;

verus! {

/// Number of passes of every relaxation.
pub const ITERATIONS: usize = 20;

/// What one relaxation update stores at cell `(x, y)`: the source value plus
/// `a` times the four neighbours (right, left, below, above, summed in that
/// order), all over `c`.
pub open spec fn relax_value<S: Scalar>(
    s: Seq<S>,
    x0: Seq<S>,
    a: S,
    c: S,
    w: int,
    x: int,
    y: int,
) -> S {
    let k = cell(w, x, y);
    x0[k].spec_plus(
        a.spec_times(s[k + 1].spec_plus(s[k - 1]).spec_plus(s[k + w]).spec_plus(s[k - w])),
    ).spec_over(c)
}

pub open spec fn relax_rule<S: Scalar>(x0: Seq<S>, a: S, c: S, w: int) -> spec_fn(
    Seq<S>,
    int,
    int,
) -> S {
    |s: Seq<S>, x: int, y: int| relax_value(s, x0, a, c, w, x, y)
}

/// The field `s` after `ITERATIONS` Gauss-Seidel passes towards `x0`.
pub open spec fn relaxed<S: Scalar>(s: Seq<S>, x0: Seq<S>, a: S, c: S, w: int, h: int) -> Seq<S> {
    sweeps(relax_rule(x0, a, c, w), s, w, h, ITERATIONS as nat)
}

/// The coefficient `dt * rate * (w - 2) * (h - 2)` of a diffusion.
pub open spec fn diffusion_coefficient<S: Scalar>(rate: S, dt: S, w: int, h: int) -> S {
    dt.spec_times(rate).spec_times(S::spec_from_usize(((w - 2) * (h - 2)) as usize))
}

/// The divisor `1 + 6a` that goes with the coefficient `a`.
pub open spec fn diffusion_divisor<S: Scalar>(a: S) -> S {
    spec_one::<S>().spec_plus(S::spec_from_usize(6).spec_times(a))
}

/// The field `s` diffused towards `x0` at `rate` over the time `dt`.
pub open spec fn diffused<S: Scalar>(
    s: Seq<S>,
    x0: Seq<S>,
    rate: S,
    dt: S,
    w: int,
    h: int,
) -> Seq<S> {
    let a = diffusion_coefficient(rate, dt, w, h);
    relaxed(s, x0, a, diffusion_divisor(a), w, h)
}

/// Diffusion keeps the length of the field and the values on the outermost
/// ring of cells.
pub proof fn lemma_diffused_shape<S: Scalar>(s: Seq<S>, x0: Seq<S>, rate: S, dt: S, w: int, h: int)
    requires
        valid_dims(w, h),
        s.len() == w * h,
    ensures
        diffused(s, x0, rate, dt, w, h).len() == s.len(),
        same_rim(diffused(s, x0, rate, dt, w, h), s, w, h),
{
    let a = diffusion_coefficient(rate, dt, w, h);
    lemma_sweeps(relax_rule(x0, a, diffusion_divisor(a), w), s, w, h, ITERATIONS as nat);
}

impl<S: Scalar> Fluid<S> {
    /// Relaxes `x` towards the solution of `c * x = x0 + a * (sum of the four
    /// neighbours of x)` by `ITERATIONS` passes over the interior cells.
    pub fn linear_solver(x: &mut [S], x0: &[S], a: S, c: S, width: usize, height: usize)
        requires
            valid_dims(width as int, height as int),
            old(x)@.len() == width * height,
            x0@.len() == width * height,
        ensures
            final(x)@ == relaxed(old(x)@, x0@, a, c, width as int, height as int),
            final(x)@.len() == old(x)@.len(),
            same_rim(final(x)@, old(x)@, width as int, height as int),
    {
        let ghost w = width as int;
        let ghost h = height as int;
        let ghost f = relax_rule(x0@, a, c, w);
        let ghost start = x@;
        let mut pass: usize = 0;
        while pass < ITERATIONS
            invariant
                valid_dims(w, h),
                w == width,
                h == height,
                f == relax_rule(x0@, a, c, w),
                x0@.len() == w * h,
                x@.len() == w * h,
                start.len() == w * h,
                pass <= ITERATIONS,
                x@ == sweeps(f, start, w, h, pass as nat),
            decreases ITERATIONS - pass,
        {
            let ghost before = x@;
            let mut j: usize = 1;
            while j < height - 1
                invariant
                    valid_dims(w, h),
                    w == width,
                    h == height,
                    f == relax_rule(x0@, a, c, w),
                    x0@.len() == w * h,
                    x@.len() == w * h,
                    1 <= j <= height - 1,
                    x@ == pass_rows(f, before, w, inner(w, h), j as int),
                decreases height - j,
            {
                let ghost row = x@;
                let mut i: usize = 1;
                while i < width - 1
                    invariant
                        valid_dims(w, h),
                        w == width,
                        h == height,
                        f == relax_rule(x0@, a, c, w),
                        x0@.len() == w * h,
                        x@.len() == w * h,
                        1 <= j < height - 1,
                        1 <= i <= width - 1,
                        x@ == pass_row(f, row, w, j as int, 1, i as int),
                    decreases width - i,
                {
                    proof {
                        lemma_cell_bounds(w, h, i as int, j as int);
                        lemma_neighbours(w, h, i as int, j as int);
                    }
                    let k: usize = i + j * width;
                    let v = x0[k].plus(
                        a.times(x[k + 1].plus(x[k - 1]).plus(x[k + width]).plus(x[k - width])),
                    ).over(c);
                    assert(v == f(x@, i as int, j as int));
                    x[k] = v;
                    i += 1;
                }
                j += 1;
            }
            pass += 1;
        }
        proof {
            lemma_sweeps(f, start, w, h, ITERATIONS as nat);
        }
    }

    /// Implicit diffusion of `x0` into `x` at `diffusion` over the time `time`.
    pub fn diffuse(&self, x: &mut [S], x0: &[S], diffusion: S, time: S)
        requires
            valid_dims(self.width as int, self.height as int),
            old(x)@.len() == self.width * self.height,
            x0@.len() == self.width * self.height,
        ensures
            final(x)@ == diffused(
                old(x)@,
                x0@,
                diffusion,
                time,
                self.width as int,
                self.height as int,
            ),
            final(x)@.len() == old(x)@.len(),
            same_rim(final(x)@, old(x)@, self.width as int, self.height as int),
    {
        proof {
            assert((self.width - 2) * (self.height - 2) <= self.width * self.height)
                by (nonlinear_arith)
                requires
                    2 <= self.width,
                    2 <= self.height,
            ;
            assert(0 <= (self.width - 2) * (self.height - 2)) by (nonlinear_arith)
                requires
                    2 <= self.width,
                    2 <= self.height,
            ;
        }
        let cells: usize = (self.width - 2) * (self.height - 2);
        let a = time.times(diffusion).times(S::from_usize(cells));
        let c = one::<S>().plus(S::from_usize(6).times(a));
        Self::linear_solver(x, x0, a, c, self.width, self.height);
    }
}

} // verus!
