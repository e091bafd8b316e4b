//! What a pointer can do to the fluid: push the velocity field around a
//! cell, and pick up the nearest emitter.

use crate::emitter::Emitter;
use crate::fluid::Fluid;
use crate::grid::{cell, full, in_grid, index, lemma_pass, pass, pass_row, pass_rows, pointwise};
use crate::scalar::{one, Scalar, spec_one, spec_zero, zero};
use vstd::prelude::*;

verus! {

/// The signed distance `to - from` along one axis, as a scalar.
pub open spec fn offset<S: Scalar>(from: int, to: int) -> S {
    if to >= from {
        S::spec_from_usize((to - from) as usize)
    } else {
        spec_zero::<S>().spec_minus(S::spec_from_usize((from - to) as usize))
    }
}

/// The cells less than `radius` away from the centre of a push.
pub open spec fn in_disc(dx: int, dy: int, radius: int) -> bool {
    dx * dx + dy * dy < radius * radius
}

/// The scale of a push at the offset `(dx, dy)` from its centre:
/// `strength / (dx² + dy² + 1)`.
pub open spec fn push_factor<S: Scalar>(strength: S, dx: int, dy: int) -> S {
    strength.spec_over(S::spec_from_usize((dx * dx + dy * dy) as usize).spec_plus(spec_one::<S>()))
}

pub open spec fn push_x_rule<S: Scalar>(
    cx: int,
    cy: int,
    strength: S,
    radius: int,
    w: int,
) -> spec_fn(Seq<S>, int, int) -> S {
    |s: Seq<S>, x: int, y: int|
        if in_disc(x - cx, y - cy, radius) {
            s[cell(w, x, y)].spec_plus(
                offset::<S>(cx, x).spec_times(push_factor(strength, x - cx, y - cy)),
            )
        } else {
            s[cell(w, x, y)]
        }
}

pub open spec fn push_y_rule<S: Scalar>(
    cx: int,
    cy: int,
    strength: S,
    radius: int,
    w: int,
) -> spec_fn(Seq<S>, int, int) -> S {
    |s: Seq<S>, x: int, y: int|
        if in_disc(x - cx, y - cy, radius) {
            s[cell(w, x, y)].spec_plus(
                offset::<S>(cy, y).spec_times(push_factor(strength, x - cx, y - cy)),
            )
        } else {
            s[cell(w, x, y)]
        }
}

/// Horizontal velocity after a push centred at `(cx, cy)`.
pub open spec fn pushed_x<S: Scalar>(
    px: Seq<S>,
    cx: int,
    cy: int,
    strength: S,
    radius: int,
    w: int,
    h: int,
) -> Seq<S> {
    pass(push_x_rule(cx, cy, strength, radius, w), px, w, full(w, h))
}

/// Vertical velocity after a push centred at `(cx, cy)`.
pub open spec fn pushed_y<S: Scalar>(
    py: Seq<S>,
    cx: int,
    cy: int,
    strength: S,
    radius: int,
    w: int,
    h: int,
) -> Seq<S> {
    pass(push_y_rule(cx, cy, strength, radius, w), py, w, full(w, h))
}

/// Squared distance from the emitter to the cell `(x, y)`, in scalar
/// arithmetic.
pub open spec fn distance2<S: Scalar>(e: Emitter<S>, x: usize, y: usize) -> S {
    let dx = S::spec_from_usize(e.x).spec_minus(S::spec_from_usize(x));
    let dy = S::spec_from_usize(e.y).spec_minus(S::spec_from_usize(y));
    dx.spec_times(dx).spec_plus(dy.spec_times(dy))
}

/// Among the first `n` emitters, the position of the one nearest to
/// `(x, y)`: the first one, unless a later one is strictly nearer than all
/// before it.
pub open spec fn nearest<S: Scalar>(es: Seq<Emitter<S>>, x: usize, y: usize, n: nat) -> Option<int>
    decreases n,
{
    if n == 0 {
        None
    } else {
        match nearest(es, x, y, (n - 1) as nat) {
            None => Some(n - 1),
            Some(best) => if distance2(es[n - 1], x, y).spec_less(distance2(es[best], x, y)) {
                Some(n - 1)
            } else {
                Some(best)
            },
        }
    }
}

fn gap(a: usize, b: usize) -> (r: usize)
    ensures
        r == if a >= b {
            a - b
        } else {
            b - a
        },
{
    if a >= b {
        a - b
    } else {
        b - a
    }
}

fn signed<S: Scalar>(from: usize, to: usize) -> (r: S)
    ensures
        r == offset::<S>(from as int, to as int),
{
    if to >= from {
        S::from_usize(to - from)
    } else {
        zero::<S>().minus(S::from_usize(from - to))
    }
}

fn measure<S: Scalar>(e: &Emitter<S>, x: usize, y: usize) -> (r: S)
    ensures
        r == distance2(*e, x, y),
{
    let dx = S::from_usize(e.x).minus(S::from_usize(x));
    let dy = S::from_usize(e.y).minus(S::from_usize(y));
    dx.times(dx).plus(dy.times(dy))
}

/// Whether the offset of absolute size `(ax, ay)` lies in the disc, and its
/// squared length if it does.
fn disc_distance(ax: usize, ay: usize, radius: usize) -> (r: Option<usize>)
    requires
        radius * radius <= usize::MAX,
    ensures
        r.is_some() == in_disc(ax as int, ay as int, radius as int),
        r matches Some(d) ==> d == ax * ax + ay * ay,
{
    if ax < radius && ay < radius {
        proof {
            assert(ax * ax < radius * radius) by (nonlinear_arith)
                requires
                    0 <= ax < radius,
            ;
            assert(ay * ay < radius * radius) by (nonlinear_arith)
                requires
                    0 <= ay < radius,
            ;
        }
        let r2: usize = radius * radius;
        let x2: usize = ax * ax;
        let y2: usize = ay * ay;
        if y2 < r2 - x2 {
            Some(x2 + y2)
        } else {
            None
        }
    } else {
        proof {
            if ax >= radius {
                assert(ax * ax >= radius * radius) by (nonlinear_arith)
                    requires
                        ax >= radius >= 0,
                ;
                assert(ay * ay >= 0) by (nonlinear_arith);
            } else {
                assert(ay * ay >= radius * radius) by (nonlinear_arith)
                    requires
                        ay >= radius >= 0,
                ;
                assert(ax * ax >= 0) by (nonlinear_arith);
            }
        }
        None
    }
}

impl<S: Scalar> Fluid<S> {
    /// Adds to the velocity of every cell less than `radius` away from
    /// `(cx, cy)` an impulse that points away from that centre and falls off
    /// with the squared distance.
    pub fn push_velocity(&mut self, cx: usize, cy: usize, strength: S, radius: usize)
        requires
            old(self).wf(),
            radius * radius <= usize::MAX,
        ensures
            final(self).wf(),
            final(self).same_setup(old(self)),
            final(self).emitters == old(self).emitters,
            final(self).density_r == old(self).density_r,
            final(self).density_g == old(self).density_g,
            final(self).density_b == old(self).density_b,
            final(self).px@ == pushed_x(
                old(self).px@,
                cx as int,
                cy as int,
                strength,
                radius as int,
                old(self).width as int,
                old(self).height as int,
            ),
            final(self).py@ == pushed_y(
                old(self).py@,
                cx as int,
                cy as int,
                strength,
                radius as int,
                old(self).width as int,
                old(self).height as int,
            ),
            forall|x: int, y: int|
                in_grid(old(self).width as int, old(self).height as int, x, y) ==> {
                    let k = #[trigger] cell(old(self).width as int, x, y);
                    let factor = push_factor(strength, x - cx, y - cy);
                    if in_disc(x - cx, y - cy, radius as int) {
                        &&& final(self).px@[k] == old(self).px@[k].spec_plus(
                            offset::<S>(cx as int, x).spec_times(factor),
                        )
                        &&& final(self).py@[k] == old(self).py@[k].spec_plus(
                            offset::<S>(cy as int, y).spec_times(factor),
                        )
                    } else {
                        &&& final(self).px@[k] == old(self).px@[k]
                        &&& final(self).py@[k] == old(self).py@[k]
                    }
                },
    {
        proof {
            let w = self.width as int;
            let h = self.height as int;
            let fx = push_x_rule(cx as int, cy as int, strength, radius as int, w);
            let fy = push_y_rule(cx as int, cy as int, strength, radius as int, w);
            assert(pointwise(fx, w));
            assert(pointwise(fy, w));
            lemma_pass(fx, self.px@, w, h, full(w, h));
            lemma_pass(fy, self.py@, w, h, full(w, h));
        }
        let width: usize = self.width;
        let height: usize = self.height;
        let ghost w = width as int;
        let ghost h = height as int;
        let ghost fx = push_x_rule(cx as int, cy as int, strength, radius as int, w);
        let ghost fy = push_y_rule(cx as int, cy as int, strength, radius as int, w);
        let ghost start_x = self.px@;
        let ghost start_y = self.py@;
        let mut j: usize = 0;
        while j < height
            invariant
                self.wf(),
                self.same_setup(old(self)),
                self.emitters == old(self).emitters,
                self.density_r == old(self).density_r,
                self.density_g == old(self).density_g,
                self.density_b == old(self).density_b,
                width == self.width,
                height == self.height,
                w == width,
                h == height,
                radius * radius <= usize::MAX,
                fx == push_x_rule(cx as int, cy as int, strength, radius as int, w),
                fy == push_y_rule(cx as int, cy as int, strength, radius as int, w),
                j <= height,
                self.px@ == pass_rows(fx, start_x, w, full(w, h), j as int),
                self.py@ == pass_rows(fy, start_y, w, full(w, h), j as int),
            decreases height - j,
        {
            let ghost row_x = self.px@;
            let ghost row_y = self.py@;
            let mut i: usize = 0;
            while i < width
                invariant
                    self.wf(),
                    self.same_setup(old(self)),
                    self.emitters == old(self).emitters,
                    self.density_r == old(self).density_r,
                    self.density_g == old(self).density_g,
                    self.density_b == old(self).density_b,
                    width == self.width,
                    height == self.height,
                    w == width,
                    h == height,
                    radius * radius <= usize::MAX,
                    fx == push_x_rule(cx as int, cy as int, strength, radius as int, w),
                    fy == push_y_rule(cx as int, cy as int, strength, radius as int, w),
                    j < height,
                    i <= width,
                    self.px@ == pass_row(fx, row_x, w, j as int, 0, i as int),
                    self.py@ == pass_row(fy, row_y, w, j as int, 0, i as int),
                decreases width - i,
            {
                let k: usize = index(width, height, i, j);
                let ax: usize = gap(i, cx);
                let ay: usize = gap(j, cy);
                proof {
                    assert(ax * ax == (i - cx) * (i - cx)) by (nonlinear_arith)
                        requires
                            ax == i - cx || ax == -(i - cx),
                    ;
                    assert(ay * ay == (j - cy) * (j - cy)) by (nonlinear_arith)
                        requires
                            ay == j - cy || ay == -(j - cy),
                    ;
                }
                match disc_distance(ax, ay, radius) {
                    Some(d) => {
                        let factor = strength.over(S::from_usize(d).plus(one::<S>()));
                        let vx = self.px[k].plus(signed::<S>(cx, i).times(factor));
                        let vy = self.py[k].plus(signed::<S>(cy, j).times(factor));
                        assert(vx == fx(self.px@, i as int, j as int));
                        assert(vy == fy(self.py@, i as int, j as int));
                        self.px[k] = vx;
                        self.py[k] = vy;
                    },
                    None => {
                        assert(self.px@[k as int] == fx(self.px@, i as int, j as int));
                        assert(self.py@[k as int] == fy(self.py@, i as int, j as int));
                        assert(self.px@ =~= self.px@.update(k as int, self.px@[k as int]));
                        assert(self.py@ =~= self.py@.update(k as int, self.py@[k as int]));
                    },
                }
                i += 1;
            }
            j += 1;
        }
    }

    /// The emitter nearest to the cell `(x, y)`, by its position in the
    /// list; `None` only if there is no emitter.
    pub fn nearest_emitter(&self, x: usize, y: usize) -> (found: Option<usize>)
        ensures
            found.is_some() == (self.emitters@.len() > 0),
            match found {
                Some(i) => nearest(self.emitters@, x, y, self.emitters@.len()) == Some(i as int)
                    && i < self.emitters@.len(),
                None => nearest(self.emitters@, x, y, self.emitters@.len()).is_none(),
            },
    {
        let n: usize = self.emitters.len();
        if n == 0 {
            return None;
        }
        let mut best: usize = 0;
        let mut best_distance = measure(&self.emitters[0], x, y);
        let mut i: usize = 1;
        assert(nearest(self.emitters@, x, y, 0) == None::<int>);
        while i < n
            invariant
                1 <= i <= n,
                n == self.emitters@.len(),
                best < i,
                nearest(self.emitters@, x, y, i as nat) == Some(best as int),
                best_distance == distance2(self.emitters@[best as int], x, y),
            decreases n - i,
        {
            let d = measure(&self.emitters[i], x, y);
            if d.less(best_distance) {
                best = i;
                best_distance = d;
            }
            i += 1;
        }
        Some(best)
    }

    /// Moves the emitter nearest to the cell `(x, y)` onto that cell, and
    /// returns its position in the list. Nothing moves if the cell is not on
    /// the grid or there is no emitter.
    pub fn drag_emitter(&mut self, x: usize, y: usize) -> (moved: Option<usize>)
        ensures
            moved == (if x < old(self).width && y < old(self).height {
                match nearest(old(self).emitters@, x, y, old(self).emitters@.len()) {
                    Some(i) => Some(i as usize),
                    None => None,
                }
            } else {
                None
            }),
            match moved {
                Some(i) => i < old(self).emitters@.len() && final(self).emitters@ == old(
                    self,
                ).emitters@.update(i as int, (Emitter { x, y, ..old(self).emitters@[i as int] })),
                None => final(self).emitters@ == old(self).emitters@,
            },
            final(self).same_setup(old(self)),
            final(self).density_r == old(self).density_r,
            final(self).density_g == old(self).density_g,
            final(self).density_b == old(self).density_b,
            final(self).px == old(self).px,
            final(self).py == old(self).py,
    {
        if x >= self.width || y >= self.height {
            return None;
        }
        match self.nearest_emitter(x, y) {
            Some(i) => {
                let mut e: Emitter<S> = self.emitters[i];
                e.x = x;
                e.y = y;
                self.emitters[i] = e;
                Some(i)
            },
            None => None,
        }
    }
}

} // verus!
