//! Emitters: point sources of coloured density and of momentum.

use crate::grid::{lemma_cell_bounds, numbers_cells, 
    cell, in_grid, index, lemma_pass, lemma_pass_empty, pass, pass_row, pass_rows, pointwise, Rect,
};
use crate::random::random_draws;
use crate::scalar::{half, Scalar, spec_half, spec_zero, zero};
use vstd::prelude::*;

verus! {

/// Red, green and blue weights of an emitter, each out of 255.
#[derive(Clone, Copy, Debug, PartialEq, Eq, Structural)]
pub struct Color {
    pub r: u8,
    pub g: u8,
    pub b: u8,
}

impl Color {
    pub fn white() -> (c: Color)
        ensures
            c == (Color { r: 255, g: 255, b: 255 }),
    {
        Color { r: 255, g: 255, b: 255 }
    }
}

/// A source at cell `(x, y)` that feeds a square of cells around it.
#[derive(Debug)]
pub struct Emitter<S: Scalar> {
    pub x: usize,
    pub y: usize,
    /// Scale of what is injected.
    pub strength: S,
    /// Half-extent of the square footprint, in cells.
    pub radius: usize,
    /// Direction of emission, in radians.
    pub angle: S,
    /// Radians per unit of simulated time; may be negative.
    pub rotation_speed: S,
    pub color: Color,
}

impl<S: Scalar> Clone for Emitter<S> {
    fn clone(&self) -> (e: Self)
        ensures
            e == *self,
    {
        *self
    }
}

impl<S: Scalar> Copy for Emitter<S> {

}

/// Number of equally likely values of a unit draw: the top 24 of 32 random
/// bits are kept.
pub const UNIT_STEPS: usize = 16777216;

/// The fraction in `[0, 1)` that 32 random bits stand for.
pub open spec fn unit_draw<S: Scalar>(bits: u32) -> S {
    S::spec_from_usize((bits >> 8) as usize).spec_over(S::spec_from_usize(UNIT_STEPS))
}

/// The angle, between -0.25 and 0.25 radians, by which a draw turns the
/// emission away from the emitter's own direction.
pub open spec fn jitter<S: Scalar>(bits: u32) -> S {
    unit_draw::<S>(bits).spec_minus(spec_half::<S>()).spec_times(spec_half::<S>())
}

/// An angle brought back by at most one full turn: down where it is not
/// below a full turn, up where it is below zero.
pub open spec fn wrapped<S: Scalar>(angle: S) -> S {
    if !angle.spec_less(S::spec_tau()) {
        angle.spec_minus(S::spec_tau())
    } else if angle.spec_less(spec_zero::<S>()) {
        angle.spec_plus(S::spec_tau())
    } else {
        angle
    }
}

/// The emitter after it has turned for the time `dt`.
pub open spec fn turned<S: Scalar>(e: Emitter<S>, dt: S) -> Emitter<S> {
    Emitter { angle: wrapped(e.angle.spec_plus(e.rotation_speed.spec_times(dt))), ..e }
}

/// First position of the stretch `center - radius ..= center + radius`.
pub open spec fn span_start(center: int, radius: int) -> int {
    if center > radius {
        center - radius
    } else {
        0
    }
}

/// End of the part of `center - radius ..= center + radius` that lies
/// below `extent`.
pub open spec fn span_end(center: int, radius: int, extent: int) -> int {
    if center + radius + 1 < extent {
        center + radius + 1
    } else {
        extent
    }
}

/// What adding `amount` stores at a cell.
pub open spec fn deposit_rule<S: Scalar>(amount: S, w: int) -> spec_fn(Seq<S>, int, int) -> S {
    |s: Seq<S>, x: int, y: int| s[cell(w, x, y)].spec_plus(amount)
}

fn span(center: usize, radius: usize, extent: usize) -> (r: (usize, usize))
    ensures
        r.0 == span_start(center as int, radius as int),
        r.1 == span_end(center as int, radius as int, extent as int),
        r.1 <= extent,
{
    let lo: usize = if center > radius {
        center - radius
    } else {
        0
    };
    let hi: usize = if center < extent && radius < extent - center - 1 {
        center + radius + 1
    } else {
        extent
    };
    (lo, hi)
}

pub fn draw_jitter<S: Scalar>(bits: u32) -> (r: S)
    ensures
        r == jitter::<S>(bits),
{
    let kept: u32 = bits >> 8;
    let unit = S::from_usize(kept as usize).over(S::from_usize(UNIT_STEPS));
    unit.minus(half::<S>()).times(half::<S>())
}

impl<S: Scalar> Emitter<S> {
    /// The in-grid part of the square of half-extent `radius` around the
    /// emitter.
    pub open spec fn footprint(&self, w: int, h: int) -> Rect {
        Rect {
            x0: span_start(self.x as int, self.radius as int),
            x1: span_end(self.x as int, self.radius as int, w),
            y0: span_start(self.y as int, self.radius as int),
            y1: span_end(self.y as int, self.radius as int, h),
        }
    }

    /// Density added per cell to a channel of weight `c`: `c / 255 * strength`.
    pub open spec fn channel_amount(&self, c: u8) -> S {
        S::spec_from_usize(c as usize).spec_over(S::spec_from_usize(255)).spec_times(self.strength)
    }

    /// Direction of emission at a cell whose draw is `bits`.
    pub open spec fn heading(&self, bits: u32) -> S {
        self.angle.spec_plus(jitter::<S>(bits))
    }

    /// Horizontal momentum added at a cell whose draw is `bits`.
    pub open spec fn thrust_x(&self, bits: u32) -> S {
        self.heading(bits).spec_cos().spec_times(self.strength)
    }

    /// Vertical momentum added at a cell whose draw is `bits`.
    pub open spec fn thrust_y(&self, bits: u32) -> S {
        self.heading(bits).spec_sin().spec_times(self.strength)
    }

    pub open spec fn thrust_x_rule(&self, draws: Seq<u32>, w: int, h: int) -> spec_fn(
        Seq<S>,
        int,
        int,
    ) -> S {
        |s: Seq<S>, x: int, y: int|
            s[cell(w, x, y)].spec_plus(self.thrust_x(draws[self.footprint(w, h).ordinal(x, y)]))
    }

    pub open spec fn thrust_y_rule(&self, draws: Seq<u32>, w: int, h: int) -> spec_fn(
        Seq<S>,
        int,
        int,
    ) -> S {
        |s: Seq<S>, x: int, y: int|
            s[cell(w, x, y)].spec_plus(self.thrust_y(draws[self.footprint(w, h).ordinal(x, y)]))
    }

    /// A density channel of weight `c` after injection.
    pub open spec fn injected_density(&self, d: Seq<S>, c: u8, w: int, h: int) -> Seq<S> {
        pass(deposit_rule(self.channel_amount(c), w), d, w, self.footprint(w, h))
    }

    /// Horizontal velocity after injection; the cells of the footprint use
    /// the draws in row-major order.
    pub open spec fn injected_px(&self, px: Seq<S>, draws: Seq<u32>, w: int, h: int) -> Seq<S> {
        pass(self.thrust_x_rule(draws, w, h), px, w, self.footprint(w, h))
    }

    /// Vertical velocity after injection.
    pub open spec fn injected_py(&self, py: Seq<S>, draws: Seq<u32>, w: int, h: int) -> Seq<S> {
        pass(self.thrust_y_rule(draws, w, h), py, w, self.footprint(w, h))
    }

    /// The footprint holds exactly the cells of the grid that lie at most
    /// `radius` columns and at most `radius` rows away from the emitter.
    pub proof fn lemma_footprint(&self, w: int, h: int, x: int, y: int)
        ensures
            self.footprint(w, h).contains(x, y) <==> {
                &&& in_grid(w, h, x, y)
                &&& self.x - self.radius <= x <= self.x + self.radius
                &&& self.y - self.radius <= y <= self.y + self.radius
            },
    {
    }

    /// Cell by cell: injection adds to every cell of the footprint its
    /// channel amount and its thrust, and leaves every other cell as it was.
    pub proof fn lemma_injected_cells(
        &self,
        d: Seq<S>,
        c: u8,
        v: Seq<S>,
        draws: Seq<u32>,
        w: int,
        h: int,
    )
        requires
            0 <= w,
            0 <= h,
            d.len() == w * h,
            v.len() == w * h,
        ensures
            self.injected_density(d, c, w, h).len() == d.len(),
            self.injected_px(v, draws, w, h).len() == v.len(),
            self.injected_py(v, draws, w, h).len() == v.len(),
            forall|x: int, y: int|
                in_grid(w, h, x, y) ==> {
                    let k = #[trigger] cell(w, x, y);
                    let bits = draws[self.footprint(w, h).ordinal(x, y)];
                    if self.footprint(w, h).contains(x, y) {
                        &&& self.injected_density(d, c, w, h)[k] == d[k].spec_plus(
                            self.channel_amount(c),
                        )
                        &&& self.injected_px(v, draws, w, h)[k] == v[k].spec_plus(
                            self.thrust_x(bits),
                        )
                        &&& self.injected_py(v, draws, w, h)[k] == v[k].spec_plus(
                            self.thrust_y(bits),
                        )
                    } else {
                        &&& self.injected_density(d, c, w, h)[k] == d[k]
                        &&& self.injected_px(v, draws, w, h)[k] == v[k]
                        &&& self.injected_py(v, draws, w, h)[k] == v[k]
                    }
                },
    {
        let rect = self.footprint(w, h);
        let fd = deposit_rule(self.channel_amount(c), w);
        let fx = self.thrust_x_rule(draws, w, h);
        let fy = self.thrust_y_rule(draws, w, h);
        assert(pointwise(fd, w));
        assert(pointwise(fx, w));
        assert(pointwise(fy, w));
        lemma_pass(fd, d, w, h, rect);
        lemma_pass(fx, v, w, h, rect);
        lemma_pass(fy, v, w, h, rect);
    }

    /// The emitter that `new` makes at `(x, y)`: of strength 1 and radius 1,
    /// white, pointing along angle 0 and not rotating.
    pub open spec fn fresh(x: usize, y: usize) -> Self {
        Emitter {
            x,
            y,
            strength: S::spec_from_usize(1),
            radius: 1,
            angle: S::spec_from_usize(0),
            rotation_speed: S::spec_from_usize(0),
            color: Color { r: 255, g: 255, b: 255 },
        }
    }

    pub fn new(x: usize, y: usize) -> (e: Self)
        ensures
            e == Self::fresh(x, y),
    {
        Emitter {
            x,
            y,
            strength: S::from_usize(1),
            radius: 1,
            angle: S::from_usize(0),
            rotation_speed: S::from_usize(0),
            color: Color::white(),
        }
    }

    /// Turns the emitter by `rotation_speed * dt` and wraps the angle once.
    pub fn update(&mut self, dt: S)
        ensures
            *final(self) == turned(*old(self), dt),
    {
        let turned = self.angle.plus(self.rotation_speed.times(dt));
        let tau = S::tau();
        if !turned.less(tau) {
            self.angle = turned.minus(tau);
        } else if turned.less(zero::<S>()) {
            self.angle = turned.plus(tau);
        } else {
            self.angle = turned;
        }
    }

    /// Number of cells of the footprint, which is the number of draws an
    /// injection uses.
    pub fn footprint_len(&self, width: usize, height: usize) -> (n: usize)
        requires
            width * height <= usize::MAX,
        ensures
            n == self.footprint(width as int, height as int).area(),
            n <= width * height,
    {
        let (x0, x1) = span(self.x, self.radius, width);
        let (y0, y1) = span(self.y, self.radius, height);
        if x0 < x1 && y0 < y1 {
            proof {
                assert((x1 - x0) * (y1 - y0) <= width * height) by (nonlinear_arith)
                    requires
                        0 <= x1 - x0 <= width,
                        0 <= y1 - y0 <= height,
                ;
            }
            (x1 - x0) * (y1 - y0)
        } else {
            0
        }
    }

    /// Adds the emitter's colour to the density channels and its momentum to
    /// the velocity field, at every cell of its footprint. The cell at
    /// position `n` of the footprint, counted row by row, is turned by the
    /// jitter of `draws[n]`. `index_fn` is the grid's numbering of its cells.
    pub fn inject_with(
        &self,
        width: usize,
        height: usize,
        density_r: &mut [S],
        density_g: &mut [S],
        density_b: &mut [S],
        px: &mut [S],
        py: &mut [S],
        index_fn: impl Fn(usize, usize) -> usize,
        draws: &[u32],
    )
        requires
            width * height <= usize::MAX,
            numbers_cells(index_fn, width, height),
            old(density_r)@.len() == width * height,
            old(density_g)@.len() == width * height,
            old(density_b)@.len() == width * height,
            old(px)@.len() == width * height,
            old(py)@.len() == width * height,
            draws@.len() == self.footprint(width as int, height as int).area(),
        ensures
            final(density_r)@ == self.injected_density(
                old(density_r)@,
                self.color.r,
                width as int,
                height as int,
            ),
            final(density_g)@ == self.injected_density(
                old(density_g)@,
                self.color.g,
                width as int,
                height as int,
            ),
            final(density_b)@ == self.injected_density(
                old(density_b)@,
                self.color.b,
                width as int,
                height as int,
            ),
            final(px)@ == self.injected_px(old(px)@, draws@, width as int, height as int),
            final(py)@ == self.injected_py(old(py)@, draws@, width as int, height as int),
            final(density_r)@.len() == width * height,
            final(density_g)@.len() == width * height,
            final(density_b)@.len() == width * height,
            final(px)@.len() == width * height,
            final(py)@.len() == width * height,
            forall|x: int, y: int|
                in_grid(width as int, height as int, x, y) ==> {
                    let k = #[trigger] cell(width as int, x, y);
                    let bits = draws@[self.footprint(width as int, height as int).ordinal(x, y)];
                    if self.footprint(width as int, height as int).contains(x, y) {
                        &&& final(density_r)@[k] == old(density_r)@[k].spec_plus(
                            self.channel_amount(self.color.r),
                        )
                        &&& final(density_g)@[k] == old(density_g)@[k].spec_plus(
                            self.channel_amount(self.color.g),
                        )
                        &&& final(density_b)@[k] == old(density_b)@[k].spec_plus(
                            self.channel_amount(self.color.b),
                        )
                        &&& final(px)@[k] == old(px)@[k].spec_plus(self.thrust_x(bits))
                        &&& final(py)@[k] == old(py)@[k].spec_plus(self.thrust_y(bits))
                    } else {
                        &&& final(density_r)@[k] == old(density_r)@[k]
                        &&& final(density_g)@[k] == old(density_g)@[k]
                        &&& final(density_b)@[k] == old(density_b)@[k]
                        &&& final(px)@[k] == old(px)@[k]
                        &&& final(py)@[k] == old(py)@[k]
                    }
                },
    {
        let ghost w = width as int;
        let ghost h = height as int;
        let ghost rect = self.footprint(w, h);
        proof {
            assert(0 <= w * h) by (nonlinear_arith)
                requires
                    0 <= w,
                    0 <= h,
            ;
            self.lemma_injected_cells(density_r@, self.color.r, px@, draws@, w, h);
            self.lemma_injected_cells(density_g@, self.color.g, py@, draws@, w, h);
            self.lemma_injected_cells(density_b@, self.color.b, py@, draws@, w, h);
        }
        let ghost fr = deposit_rule(self.channel_amount(self.color.r), w);
        let ghost fg = deposit_rule(self.channel_amount(self.color.g), w);
        let ghost fb = deposit_rule(self.channel_amount(self.color.b), w);
        let ghost fx = self.thrust_x_rule(draws@, w, h);
        let ghost fy = self.thrust_y_rule(draws@, w, h);
        let ghost start_r = density_r@;
        let ghost start_g = density_g@;
        let ghost start_b = density_b@;
        let ghost start_x = px@;
        let ghost start_y = py@;
        let (x0, x1) = span(self.x, self.radius, width);
        let (y0, y1) = span(self.y, self.radius, height);
        if x0 >= x1 || y0 >= y1 {
            proof {
                lemma_pass_empty(fr, start_r, w, rect, rect.y1);
                lemma_pass_empty(fg, start_g, w, rect, rect.y1);
                lemma_pass_empty(fb, start_b, w, rect, rect.y1);
                lemma_pass_empty(fx, start_x, w, rect, rect.y1);
                lemma_pass_empty(fy, start_y, w, rect, rect.y1);
            }
            return ;
        }
        let scale = S::from_usize(255);
        let amount_r = S::from_usize(self.color.r as usize).over(scale).times(self.strength);
        let amount_g = S::from_usize(self.color.g as usize).over(scale).times(self.strength);
        let amount_b = S::from_usize(self.color.b as usize).over(scale).times(self.strength);
        let total: usize = draws.len();
        let mut n: usize = 0;
        let mut j: usize = y0;
        while j < y1
            invariant
                w == width,
                h == height,
                w * h <= usize::MAX,
                numbers_cells(index_fn, width, height),
                rect == self.footprint(w, h),
                rect.x0 == x0 && rect.x1 == x1 && rect.y0 == y0 && rect.y1 == y1,
                x0 < x1 <= width,
                y0 <= j <= y1 <= height,
                fr == deposit_rule(self.channel_amount(self.color.r), w),
                fg == deposit_rule(self.channel_amount(self.color.g), w),
                fb == deposit_rule(self.channel_amount(self.color.b), w),
                fx == self.thrust_x_rule(draws@, w, h),
                fy == self.thrust_y_rule(draws@, w, h),
                amount_r == self.channel_amount(self.color.r),
                amount_g == self.channel_amount(self.color.g),
                amount_b == self.channel_amount(self.color.b),
                draws@.len() == (x1 - x0) * (y1 - y0),
                draws@.len() == total,
                n == (j - y0) * (x1 - x0),
                density_r@.len() == w * h,
                density_g@.len() == w * h,
                density_b@.len() == w * h,
                px@.len() == w * h,
                py@.len() == w * h,
                density_r@ == pass_rows(fr, start_r, w, rect, j as int),
                density_g@ == pass_rows(fg, start_g, w, rect, j as int),
                density_b@ == pass_rows(fb, start_b, w, rect, j as int),
                px@ == pass_rows(fx, start_x, w, rect, j as int),
                py@ == pass_rows(fy, start_y, w, rect, j as int),
            decreases y1 - j,
        {
            let ghost row_r = density_r@;
            let ghost row_g = density_g@;
            let ghost row_b = density_b@;
            let ghost row_x = px@;
            let ghost row_y = py@;
            let mut i: usize = x0;
            while i < x1
                invariant
                    w == width,
                    h == height,
                    w * h <= usize::MAX,
                    numbers_cells(index_fn, width, height),
                    rect == self.footprint(w, h),
                    rect.x0 == x0 && rect.x1 == x1 && rect.y0 == y0 && rect.y1 == y1,
                    x0 <= i <= x1 <= width,
                    y0 <= j < y1 <= height,
                    fr == deposit_rule(self.channel_amount(self.color.r), w),
                    fg == deposit_rule(self.channel_amount(self.color.g), w),
                    fb == deposit_rule(self.channel_amount(self.color.b), w),
                    fx == self.thrust_x_rule(draws@, w, h),
                    fy == self.thrust_y_rule(draws@, w, h),
                    amount_r == self.channel_amount(self.color.r),
                    amount_g == self.channel_amount(self.color.g),
                    amount_b == self.channel_amount(self.color.b),
                    draws@.len() == (x1 - x0) * (y1 - y0),
                    draws@.len() == total,
                draws@.len() == total,
                    n == (j - y0) * (x1 - x0) + (i - x0),
                    density_r@.len() == w * h,
                    density_g@.len() == w * h,
                    density_b@.len() == w * h,
                    px@.len() == w * h,
                    py@.len() == w * h,
                    density_r@ == pass_row(fr, row_r, w, j as int, x0 as int, i as int),
                    density_g@ == pass_row(fg, row_g, w, j as int, x0 as int, i as int),
                    density_b@ == pass_row(fb, row_b, w, j as int, x0 as int, i as int),
                    px@ == pass_row(fx, row_x, w, j as int, x0 as int, i as int),
                    py@ == pass_row(fy, row_y, w, j as int, x0 as int, i as int),
                decreases x1 - i,
            {
                proof {
                    assert((j - y0) * (x1 - x0) + (x1 - x0) <= (y1 - y0) * (x1 - x0))
                        by (nonlinear_arith)
                        requires
                            j - y0 + 1 <= y1 - y0,
                            0 <= x1 - x0,
                    ;
                    assert((y1 - y0) * (x1 - x0) == (x1 - x0) * (y1 - y0)) by (nonlinear_arith);
                    assert(n == rect.ordinal(i as int, j as int));
                    assert(n < draws@.len());
                }
                let k: usize = index_fn(i, j);
                proof {
                    lemma_cell_bounds(w, h, i as int, j as int);
                }
                let bits: u32 = draws[n];
                let turn = self.angle.plus(draw_jitter::<S>(bits));
                let vr = density_r[k].plus(amount_r);
                let vg = density_g[k].plus(amount_g);
                let vb = density_b[k].plus(amount_b);
                let vx = px[k].plus(turn.cos().times(self.strength));
                let vy = py[k].plus(turn.sin().times(self.strength));
                assert(vr == fr(density_r@, i as int, j as int));
                assert(vg == fg(density_g@, i as int, j as int));
                assert(vb == fb(density_b@, i as int, j as int));
                assert(vx == fx(px@, i as int, j as int));
                assert(vy == fy(py@, i as int, j as int));
                density_r[k] = vr;
                density_g[k] = vg;
                density_b[k] = vb;
                px[k] = vx;
                py[k] = vy;
                n += 1;
                i += 1;
            }
            proof {
                assert((j - y0) * (x1 - x0) + (x1 - x0) == (j + 1 - y0) * (x1 - x0))
                    by (nonlinear_arith);
            }
            j += 1;
        }
    }

    /// Injects with fresh random draws, one for every cell of the footprint.
    pub fn inject(
        &self,
        width: usize,
        height: usize,
        density_r: &mut [S],
        density_g: &mut [S],
        density_b: &mut [S],
        px: &mut [S],
        py: &mut [S],
        index_fn: impl Fn(usize, usize) -> usize,
    )
        requires
            width * height <= usize::MAX,
            numbers_cells(index_fn, width, height),
            old(density_r)@.len() == width * height,
            old(density_g)@.len() == width * height,
            old(density_b)@.len() == width * height,
            old(px)@.len() == width * height,
            old(py)@.len() == width * height,
        ensures
            final(density_r)@ == self.injected_density(
                old(density_r)@,
                self.color.r,
                width as int,
                height as int,
            ),
            final(density_g)@ == self.injected_density(
                old(density_g)@,
                self.color.g,
                width as int,
                height as int,
            ),
            final(density_b)@ == self.injected_density(
                old(density_b)@,
                self.color.b,
                width as int,
                height as int,
            ),
            exists|draws: Seq<u32>|
                {
                    &&& draws.len() == self.footprint(width as int, height as int).area()
                    &&& final(px)@ == #[trigger] self.injected_px(
                        old(px)@,
                        draws,
                        width as int,
                        height as int,
                    )
                    &&& final(py)@ == self.injected_py(old(py)@, draws, width as int, height as int)
                },
            final(density_r)@.len() == width * height,
            final(density_g)@.len() == width * height,
            final(density_b)@.len() == width * height,
            final(px)@.len() == width * height,
            final(py)@.len() == width * height,
    {
        let n: usize = self.footprint_len(width, height);
        let draws = random_draws(n);
        self.inject_with(width, height, density_r, density_g, density_b, px, py, index_fn, &draws);
    }
}

} // verus!
