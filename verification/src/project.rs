//! Pressure projection: the velocity field less the gradient of a potential
//! that is relaxed from the field's divergence.

use crate::field::{filled, zeros};
use crate::fluid::Fluid;
use crate::grid::{
    cell, inner, interior, lemma_cell_bounds, lemma_neighbours, lemma_pass, pass_row, pass_rows,
    pointwise, same_rim, sweep, sweeps, valid_dims,
};
use crate::relax::ITERATIONS;
use crate::scalar::{half, neg_half, Scalar, spec_half, spec_neg_half, spec_zero, zero};
use vstd::prelude::*;

verus! {

/// Discrete divergence of `(px, py)` at cell `(x, y)`, scaled by the width:
/// `-0.5 * ((right - left) + (below - above)) / w`.
pub open spec fn divergence_value<S: Scalar>(px: Seq<S>, py: Seq<S>, w: int, x: int, y: int) -> S {
    let k = cell(w, x, y);
    spec_neg_half::<S>().spec_times(
        px[k + 1].spec_minus(px[k - 1]).spec_plus(py[k + w].spec_minus(py[k - w])),
    ).spec_over(S::spec_from_usize(w as usize))
}

pub open spec fn divergence_rule<S: Scalar>(px: Seq<S>, py: Seq<S>, w: int) -> spec_fn(
    Seq<S>,
    int,
    int,
) -> S {
    |s: Seq<S>, x: int, y: int| divergence_value(px, py, w, x, y)
}

/// The divergence field: `divergence_value` at interior cells, zero on the
/// outermost ring.
pub open spec fn divergence<S: Scalar>(px: Seq<S>, py: Seq<S>, w: int, h: int) -> Seq<S> {
    sweep(divergence_rule(px, py, w), zeros::<S>(w * h), w, h)
}

/// What one pressure update stores at cell `(x, y)`: the divergence plus the
/// four neighbours (left, right, above, below, summed in that order), over 4.
pub open spec fn pressure_value<S: Scalar>(p: Seq<S>, div: Seq<S>, w: int, x: int, y: int) -> S {
    let k = cell(w, x, y);
    div[k].spec_plus(p[k - 1]).spec_plus(p[k + 1]).spec_plus(p[k - w]).spec_plus(
        p[k + w],
    ).spec_over(S::spec_from_usize(4))
}

pub open spec fn pressure_rule<S: Scalar>(div: Seq<S>, w: int) -> spec_fn(Seq<S>, int, int) -> S {
    |p: Seq<S>, x: int, y: int| pressure_value(p, div, w, x, y)
}

/// The potential after `ITERATIONS` Gauss-Seidel passes from zero.
pub open spec fn pressure<S: Scalar>(div: Seq<S>, w: int, h: int) -> Seq<S> {
    sweeps(pressure_rule(div, w), zeros::<S>(w * h), w, h, ITERATIONS as nat)
}

/// Horizontal velocity at `(x, y)` less the horizontal gradient of `p`:
/// `v - 0.5 * (right - left) * w`.
pub open spec fn gradient_x_value<S: Scalar>(v: Seq<S>, p: Seq<S>, w: int, x: int, y: int) -> S {
    let k = cell(w, x, y);
    v[k].spec_minus(
        spec_half::<S>().spec_times(p[k + 1].spec_minus(p[k - 1])).spec_times(
            S::spec_from_usize(w as usize),
        ),
    )
}

/// Vertical velocity at `(x, y)` less the vertical gradient of `p`:
/// `v - 0.5 * (below - above) * h`.
pub open spec fn gradient_y_value<S: Scalar>(
    v: Seq<S>,
    p: Seq<S>,
    w: int,
    h: int,
    x: int,
    y: int,
) -> S {
    let k = cell(w, x, y);
    v[k].spec_minus(
        spec_half::<S>().spec_times(p[k + w].spec_minus(p[k - w])).spec_times(
            S::spec_from_usize(h as usize),
        ),
    )
}

pub open spec fn gradient_x_rule<S: Scalar>(p: Seq<S>, w: int) -> spec_fn(Seq<S>, int, int) -> S {
    |v: Seq<S>, x: int, y: int| gradient_x_value(v, p, w, x, y)
}

pub open spec fn gradient_y_rule<S: Scalar>(p: Seq<S>, w: int, h: int) -> spec_fn(
    Seq<S>,
    int,
    int,
) -> S {
    |v: Seq<S>, x: int, y: int| gradient_y_value(v, p, w, h, x, y)
}

/// The potential that projection relaxes from the velocity field `(px, py)`.
pub open spec fn potential<S: Scalar>(px: Seq<S>, py: Seq<S>, w: int, h: int) -> Seq<S> {
    pressure(divergence(px, py, w, h), w, h)
}

/// Horizontal velocity after projection.
pub open spec fn projected_x<S: Scalar>(px: Seq<S>, py: Seq<S>, w: int, h: int) -> Seq<S> {
    sweep(gradient_x_rule(potential(px, py, w, h), w), px, w, h)
}

/// Vertical velocity after projection.
pub open spec fn projected_y<S: Scalar>(px: Seq<S>, py: Seq<S>, w: int, h: int) -> Seq<S> {
    sweep(gradient_y_rule(potential(px, py, w, h), w, h), py, w, h)
}

/// Projection keeps the length of both velocity fields and their values on
/// the outermost ring of cells.
pub proof fn lemma_projected_shape<S: Scalar>(px: Seq<S>, py: Seq<S>, w: int, h: int)
    requires
        valid_dims(w, h),
        px.len() == w * h,
        py.len() == w * h,
    ensures
        projected_x(px, py, w, h).len() == px.len(),
        projected_y(px, py, w, h).len() == py.len(),
        same_rim(projected_x(px, py, w, h), px, w, h),
        same_rim(projected_y(px, py, w, h), py, w, h),
{
    let p = potential(px, py, w, h);
    lemma_pass(gradient_x_rule(p, w), px, w, h, inner(w, h));
    lemma_pass(gradient_y_rule(p, w, h), py, w, h, inner(w, h));
}

/// The divergence field of `(px, py)`.
pub fn compute_divergence<S: Scalar>(
    px: &[S],
    py: &[S],
    width: usize,
    height: usize,
) -> (div: Vec<S>)
    requires
        valid_dims(width as int, height as int),
        px@.len() == width * height,
        py@.len() == width * height,
    ensures
        div@ == divergence(px@, py@, width as int, height as int),
        div@.len() == width * height,
{
    let ghost w = width as int;
    let ghost h = height as int;
    let ghost f = divergence_rule(px@, py@, w);
    let mut div: Vec<S> = filled(width * height, zero::<S>());
    let ghost start = div@;
    assert(start == zeros::<S>(w * h));
    let nh = neg_half::<S>();
    let scale = S::from_usize(width);
    let mut j: usize = 1;
    while j < height - 1
        invariant
            valid_dims(w, h),
            w == width,
            h == height,
            f == divergence_rule(px@, py@, w),
            px@.len() == w * h,
            py@.len() == w * h,
            div@.len() == w * h,
            nh == spec_neg_half::<S>(),
            scale == S::spec_from_usize(width),
            1 <= j <= height - 1,
            div@ == pass_rows(f, start, w, inner(w, h), j as int),
        decreases height - j,
    {
        let ghost row = div@;
        let mut i: usize = 1;
        while i < width - 1
            invariant
                valid_dims(w, h),
                w == width,
                h == height,
                f == divergence_rule(px@, py@, w),
                px@.len() == w * h,
                py@.len() == w * h,
                div@.len() == w * h,
                nh == spec_neg_half::<S>(),
                scale == S::spec_from_usize(width),
                1 <= j < height - 1,
                1 <= i <= width - 1,
                div@ == pass_row(f, row, w, j as int, 1, i as int),
            decreases width - i,
        {
            proof {
                lemma_cell_bounds(w, h, i as int, j as int);
                        lemma_neighbours(w, h, i as int, j as int);
            }
            let k: usize = i + j * width;
            let v = nh.times(
                px[k + 1].minus(px[k - 1]).plus(py[k + width].minus(py[k - width])),
            ).over(scale);
            assert(v == f(div@, i as int, j as int));
            div[k] = v;
            i += 1;
        }
        j += 1;
    }
    div
}

/// The potential relaxed from the divergence field `div`.
pub fn solve_pressure<S: Scalar>(div: &[S], width: usize, height: usize) -> (p: Vec<S>)
    requires
        valid_dims(width as int, height as int),
        div@.len() == width * height,
    ensures
        p@ == pressure(div@, width as int, height as int),
        p@.len() == width * height,
{
    let ghost w = width as int;
    let ghost h = height as int;
    let ghost f = pressure_rule(div@, w);
    let mut p: Vec<S> = filled(width * height, zero::<S>());
    let ghost start = p@;
    assert(start == zeros::<S>(w * h));
    let four = S::from_usize(4);
    let mut pass: usize = 0;
    while pass < ITERATIONS
        invariant
            valid_dims(w, h),
            w == width,
            h == height,
            f == pressure_rule(div@, w),
            div@.len() == w * h,
            p@.len() == w * h,
            four == S::spec_from_usize(4),
            pass <= ITERATIONS,
            p@ == sweeps(f, start, w, h, pass as nat),
        decreases ITERATIONS - pass,
    {
        let ghost before = p@;
        let mut j: usize = 1;
        while j < height - 1
            invariant
                valid_dims(w, h),
                w == width,
                h == height,
                f == pressure_rule(div@, w),
                div@.len() == w * h,
                p@.len() == w * h,
                four == S::spec_from_usize(4),
                1 <= j <= height - 1,
                p@ == pass_rows(f, before, w, inner(w, h), j as int),
            decreases height - j,
        {
            let ghost row = p@;
            let mut i: usize = 1;
            while i < width - 1
                invariant
                    valid_dims(w, h),
                    w == width,
                    h == height,
                    f == pressure_rule(div@, w),
                    div@.len() == w * h,
                    p@.len() == w * h,
                    four == S::spec_from_usize(4),
                    1 <= j < height - 1,
                    1 <= i <= width - 1,
                    p@ == pass_row(f, row, w, j as int, 1, i as int),
                decreases width - i,
            {
                proof {
                    lemma_cell_bounds(w, h, i as int, j as int);
                        lemma_neighbours(w, h, i as int, j as int);
                }
                let k: usize = i + j * width;
                let v = div[k].plus(p[k - 1]).plus(p[k + 1]).plus(p[k - width]).plus(
                    p[k + width],
                ).over(four);
                assert(v == f(p@, i as int, j as int));
                p[k] = v;
                i += 1;
            }
            j += 1;
        }
        pass += 1;
    }
    p
}

/// Takes the gradient of the potential `p` out of the interior of `(px, py)`.
pub fn subtract_gradient<S: Scalar>(
    px: &mut [S],
    py: &mut [S],
    p: &[S],
    width: usize,
    height: usize,
)
    requires
        valid_dims(width as int, height as int),
        old(px)@.len() == width * height,
        old(py)@.len() == width * height,
        p@.len() == width * height,
    ensures
        final(px)@ == sweep(
            gradient_x_rule(p@, width as int),
            old(px)@,
            width as int,
            height as int,
        ),
        final(py)@ == sweep(
            gradient_y_rule(p@, width as int, height as int),
            old(py)@,
            width as int,
            height as int,
        ),
        final(px)@.len() == width * height,
        final(py)@.len() == width * height,
{
    let ghost w = width as int;
    let ghost h = height as int;
    let ghost fx = gradient_x_rule(p@, w);
    let ghost fy = gradient_y_rule(p@, w, h);
    let ghost start_x = px@;
    let ghost start_y = py@;
    let hf = half::<S>();
    let across = S::from_usize(width);
    let down = S::from_usize(height);
    let mut j: usize = 1;
    while j < height - 1
        invariant
            valid_dims(w, h),
            w == width,
            h == height,
            fx == gradient_x_rule(p@, w),
            fy == gradient_y_rule(p@, w, h),
            p@.len() == w * h,
            px@.len() == w * h,
            py@.len() == w * h,
            hf == spec_half::<S>(),
            across == S::spec_from_usize(width),
            down == S::spec_from_usize(height),
            1 <= j <= height - 1,
            px@ == pass_rows(fx, start_x, w, inner(w, h), j as int),
            py@ == pass_rows(fy, start_y, w, inner(w, h), j as int),
        decreases height - j,
    {
        let ghost row_x = px@;
        let ghost row_y = py@;
        let mut i: usize = 1;
        while i < width - 1
            invariant
                valid_dims(w, h),
                w == width,
                h == height,
                fx == gradient_x_rule(p@, w),
                fy == gradient_y_rule(p@, w, h),
                p@.len() == w * h,
                px@.len() == w * h,
                py@.len() == w * h,
                hf == spec_half::<S>(),
                across == S::spec_from_usize(width),
                down == S::spec_from_usize(height),
                1 <= j < height - 1,
                1 <= i <= width - 1,
                px@ == pass_row(fx, row_x, w, j as int, 1, i as int),
                py@ == pass_row(fy, row_y, w, j as int, 1, i as int),
            decreases width - i,
        {
            proof {
                lemma_cell_bounds(w, h, i as int, j as int);
                        lemma_neighbours(w, h, i as int, j as int);
            }
            let k: usize = i + j * width;
            let vx = px[k].minus(hf.times(p[k + 1].minus(p[k - 1])).times(across));
            let vy = py[k].minus(hf.times(p[k + width].minus(p[k - width])).times(down));
            assert(vx == fx(px@, i as int, j as int));
            assert(vy == fy(py@, i as int, j as int));
            px[k] = vx;
            py[k] = vy;
            i += 1;
        }
        j += 1;
    }
}

impl<S: Scalar> Fluid<S> {
    /// Makes the velocity field approximately divergence-free. Only interior
    /// cells of `px` and `py` change.
    pub fn project(&mut self)
        requires
            old(self).wf(),
        ensures
            final(self).wf(),
            final(self).px@ == projected_x(
                old(self).px@,
                old(self).py@,
                old(self).width as int,
                old(self).height as int,
            ),
            final(self).py@ == projected_y(
                old(self).px@,
                old(self).py@,
                old(self).width as int,
                old(self).height as int,
            ),
            final(self).width == old(self).width,
            final(self).height == old(self).height,
            final(self).time == old(self).time,
            final(self).diffusion == old(self).diffusion,
            final(self).viscosity == old(self).viscosity,
            final(self).dissipation == old(self).dissipation,
            final(self).density_r == old(self).density_r,
            final(self).density_g == old(self).density_g,
            final(self).density_b == old(self).density_b,
            final(self).emitters == old(self).emitters,
            forall|cx: int, cy: int|
                interior(old(self).width as int, old(self).height as int, cx, cy) ==> {
                    let k = #[trigger] cell(old(self).width as int, cx, cy);
                    let w = old(self).width as int;
                    let h = old(self).height as int;
                    let p = potential(old(self).px@, old(self).py@, w, h);
                    &&& final(self).px@[k] == gradient_x_value(old(self).px@, p, w, cx, cy)
                    &&& final(self).py@[k] == gradient_y_value(old(self).py@, p, w, h, cx, cy)
                },
            same_rim(
                final(self).px@,
                old(self).px@,
                old(self).width as int,
                old(self).height as int,
            ),
            same_rim(
                final(self).py@,
                old(self).py@,
                old(self).width as int,
                old(self).height as int,
            ),
    {
        let div = compute_divergence(&self.px, &self.py, self.width, self.height);
        let p = solve_pressure(&div, self.width, self.height);
        let ghost w = self.width as int;
        let ghost h = self.height as int;
        proof {
            assert(pointwise(gradient_x_rule(p@, w), w));
            assert(pointwise(gradient_y_rule(p@, w, h), w));
            lemma_pass(gradient_x_rule(p@, w), self.px@, w, h, inner(w, h));
            lemma_pass(gradient_y_rule(p@, w, h), self.py@, w, h, inner(w, h));
        }
        subtract_gradient(&mut self.px, &mut self.py, &p, self.width, self.height);
    }
}

} // verus!
