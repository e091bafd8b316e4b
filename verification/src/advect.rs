//! Semi-Lagrangian advection: every interior cell takes the value found one
//! step back along the velocity field, read by bilinear interpolation.

use crate::fluid::Fluid;
use crate::grid::{
    cell, index, inner, interior, lemma_pass, pass_row, pass_rows, pointwise, same_rim, sweep,
    valid_dims,
};
use crate::scalar::{clamp, half, one, Scalar, spec_clamp, spec_half, spec_one};
use vstd::prelude::*;

verus! {

/// Where the value of position `pos` comes from along one axis of `extent`
/// cells: `pos - dt * v`, held between `0.5` and `extent - 1 - 0.5`.
pub open spec fn traced<S: Scalar>(pos: int, dt: S, v: S, extent: int) -> S {
    spec_clamp(
        S::spec_from_usize(pos as usize).spec_minus(dt.spec_times(v)),
        spec_half::<S>(),
        S::spec_from_usize((extent - 1) as usize).spec_minus(spec_half::<S>()),
    )
}

/// The lower of the two cells between which `coord` is interpolated: its
/// floor, and never beyond the last cell but one.
pub open spec fn lower_cell<S: Scalar>(coord: S, extent: int) -> int {
    if coord.spec_floor_index() <= extent - 2 {
        coord.spec_floor_index() as int
    } else {
        extent - 2
    }
}

/// The value of `d0` at the fractional position `(fx, fy)`, weighted between
/// the four cells around it.
pub open spec fn bilinear<S: Scalar>(d0: Seq<S>, w: int, h: int, fx: S, fy: S) -> S {
    let i0 = lower_cell(fx, w);
    let j0 = lower_cell(fy, h);
    let s1 = fx.spec_minus(S::spec_from_usize(i0 as usize));
    let s0 = spec_one::<S>().spec_minus(s1);
    let t1 = fy.spec_minus(S::spec_from_usize(j0 as usize));
    let t0 = spec_one::<S>().spec_minus(t1);
    s0.spec_times(
        t0.spec_times(d0[cell(w, i0, j0)]).spec_plus(t1.spec_times(d0[cell(w, i0, j0 + 1)])),
    ).spec_plus(
        s1.spec_times(
            t0.spec_times(d0[cell(w, i0 + 1, j0)]).spec_plus(
                t1.spec_times(d0[cell(w, i0 + 1, j0 + 1)]),
            ),
        ),
    )
}

/// What advection stores at cell `(x, y)`.
pub open spec fn advect_value<S: Scalar>(
    dt: S,
    d0: Seq<S>,
    vx: Seq<S>,
    vy: Seq<S>,
    w: int,
    h: int,
    x: int,
    y: int,
) -> S {
    let k = cell(w, x, y);
    bilinear(d0, w, h, traced(x, dt, vx[k], w), traced(y, dt, vy[k], h))
}

pub open spec fn advect_rule<S: Scalar>(
    dt: S,
    d0: Seq<S>,
    vx: Seq<S>,
    vy: Seq<S>,
    w: int,
    h: int,
) -> spec_fn(Seq<S>, int, int) -> S {
    |s: Seq<S>, x: int, y: int| advect_value(dt, d0, vx, vy, w, h, x, y)
}

/// The field `d` after `d0` has been advected into its interior cells.
pub open spec fn advected<S: Scalar>(
    d: Seq<S>,
    d0: Seq<S>,
    vx: Seq<S>,
    vy: Seq<S>,
    dt: S,
    w: int,
    h: int,
) -> Seq<S> {
    sweep(advect_rule(dt, d0, vx, vy, w, h), d, w, h)
}

/// Advection keeps the length of the field and the values on the outermost
/// ring of cells, and stores in every interior cell its `advect_value`.
pub proof fn lemma_advected_shape<S: Scalar>(
    d: Seq<S>,
    d0: Seq<S>,
    vx: Seq<S>,
    vy: Seq<S>,
    dt: S,
    w: int,
    h: int,
)
    requires
        valid_dims(w, h),
        d.len() == w * h,
    ensures
        advected(d, d0, vx, vy, dt, w, h).len() == d.len(),
        same_rim(advected(d, d0, vx, vy, dt, w, h), d, w, h),
        forall|x: int, y: int|
            interior(w, h, x, y) ==> advected(d, d0, vx, vy, dt, w, h)[#[trigger] cell(w, x, y)]
                == advect_value(dt, d0, vx, vy, w, h, x, y),
{
    let f = advect_rule(dt, d0, vx, vy, w, h);
    assert(pointwise(f, w));
    lemma_pass(f, d, w, h, inner(w, h));
}

fn trace<S: Scalar>(pos: usize, dt: S, v: S, extent: usize) -> (r: S)
    requires
        1 <= extent,
    ensures
        r == traced(pos as int, dt, v, extent as int),
{
    clamp(
        S::from_usize(pos).minus(dt.times(v)),
        half::<S>(),
        S::from_usize(extent - 1).minus(half::<S>()),
    )
}

fn lower<S: Scalar>(coord: S, extent: usize) -> (r: usize)
    requires
        2 <= extent,
    ensures
        r == lower_cell(coord, extent as int),
        r + 1 < extent,
{
    let f: usize = coord.floor_index();
    if f <= extent - 2 {
        f
    } else {
        extent - 2
    }
}

fn interpolate<S: Scalar>(d0: &[S], width: usize, height: usize, fx: S, fy: S) -> (r: S)
    requires
        valid_dims(width as int, height as int),
        d0@.len() == width * height,
    ensures
        r == bilinear(d0@, width as int, height as int, fx, fy),
{
    let i0: usize = lower(fx, width);
    let j0: usize = lower(fy, height);
    let s1 = fx.minus(S::from_usize(i0));
    let s0 = one::<S>().minus(s1);
    let t1 = fy.minus(S::from_usize(j0));
    let t0 = one::<S>().minus(t1);
    let k00: usize = index(width, height, i0, j0);
    let k01: usize = index(width, height, i0, j0 + 1);
    let k10: usize = index(width, height, i0 + 1, j0);
    let k11: usize = index(width, height, i0 + 1, j0 + 1);
    s0.times(t0.times(d0[k00]).plus(t1.times(d0[k01]))).plus(
        s1.times(t0.times(d0[k10]).plus(t1.times(d0[k11]))),
    )
}

impl<S: Scalar> Fluid<S> {
    /// Advects `d0` along `(vx, vy)` into the interior cells of `d`, tracing
    /// back by the fluid's timestep.
    pub fn advect(&self, d: &mut [S], d0: &[S], vx: &[S], vy: &[S])
        requires
            valid_dims(self.width as int, self.height as int),
            old(d)@.len() == self.width * self.height,
            d0@.len() == self.width * self.height,
            vx@.len() == self.width * self.height,
            vy@.len() == self.width * self.height,
        ensures
            final(d)@ == advected(
                old(d)@,
                d0@,
                vx@,
                vy@,
                self.time,
                self.width as int,
                self.height as int,
            ),
            final(d)@.len() == old(d)@.len(),
            forall|cx: int, cy: int|
                interior(self.width as int, self.height as int, cx, cy) ==> {
                    let k = #[trigger] cell(self.width as int, cx, cy);
                    final(d)@[k] == advect_value(
                        self.time,
                        d0@,
                        vx@,
                        vy@,
                        self.width as int,
                        self.height as int,
                        cx,
                        cy,
                    )
                },
            same_rim(final(d)@, old(d)@, self.width as int, self.height as int),
    {
        let width: usize = self.width;
        let height: usize = self.height;
        let dt = self.time;
        let ghost w = width as int;
        let ghost h = height as int;
        let ghost f = advect_rule(dt, d0@, vx@, vy@, w, h);
        let ghost start = d@;
        let mut j: usize = 1;
        while j < height - 1
            invariant
                valid_dims(w, h),
                w == width,
                h == height,
                f == advect_rule(dt, d0@, vx@, vy@, w, h),
                d0@.len() == w * h,
                vx@.len() == w * h,
                vy@.len() == w * h,
                d@.len() == w * h,
                1 <= j <= height - 1,
                d@ == pass_rows(f, start, w, inner(w, h), j as int),
            decreases height - j,
        {
            let ghost row = d@;
            let mut i: usize = 1;
            while i < width - 1
                invariant
                    valid_dims(w, h),
                    w == width,
                    h == height,
                    f == advect_rule(dt, d0@, vx@, vy@, w, h),
                    d0@.len() == w * h,
                    vx@.len() == w * h,
                    vy@.len() == w * h,
                    d@.len() == w * h,
                    1 <= j < height - 1,
                    1 <= i <= width - 1,
                    d@ == pass_row(f, row, w, j as int, 1, i as int),
                decreases width - i,
            {
                let k: usize = index(width, height, i, j);
                let fx = trace(i, dt, vx[k], width);
                let fy = trace(j, dt, vy[k], height);
                let v = interpolate(d0, width, height, fx, fy);
                assert(v == f(d@, i as int, j as int));
                d[k] = v;
                i += 1;
            }
            j += 1;
        }
        proof {
            assert(pointwise(f, w));
            lemma_pass(f, start, w, h, inner(w, h));
        }
    }
}

} // verus!
