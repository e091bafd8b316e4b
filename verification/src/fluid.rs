//! The simulation state and the step that advances it by one frame.

use crate::advect::advected;
use crate::emitter::{turned, Color, Emitter};
use crate::field::{copy_of, decay, decayed, filled, zeros};
use crate::grid::{cell, index, same_rim, valid_dims};
use crate::laws::lemma_boundary_kept;
use crate::project::{projected_x, projected_y};
use crate::random::random_draws;
use crate::relax::diffused;
use crate::scalar::{clamp, one, Scalar, spec_clamp, spec_one, spec_zero, zero};
use vstd::prelude::*;

verus! {

/// Width of the grid that `Fluid::new` builds.
pub const DEFAULT_WIDTH: usize = 200;

/// Height of the grid that `Fluid::new` builds.
pub const DEFAULT_HEIGHT: usize = 150;

/// The grid, its parameters and its emitters.
pub struct Fluid<S: Scalar> {
    pub width: usize,
    pub height: usize,
    /// Timestep; also the distance unit of the backward trace.
    pub time: S,
    pub diffusion: S,
    pub viscosity: S,
    /// Factor applied to every density value at the end of a step.
    pub dissipation: S,
    pub density_r: Vec<S>,
    pub density_g: Vec<S>,
    pub density_b: Vec<S>,
    pub px: Vec<S>,
    pub py: Vec<S>,
    pub emitters: Vec<Emitter<S>>,
}

/// The five per-cell fields of a fluid, as sequences.
pub struct Fields<S> {
    pub density_r: Seq<S>,
    pub density_g: Seq<S>,
    pub density_b: Seq<S>,
    pub px: Seq<S>,
    pub py: Seq<S>,
}

/// All five fields hold one value per cell of a `w` by `h` grid.
pub open spec fn fields_fit<S>(f: Fields<S>, w: int, h: int) -> bool {
    &&& f.density_r.len() == w * h
    &&& f.density_g.len() == w * h
    &&& f.density_b.len() == w * h
    &&& f.px.len() == w * h
    &&& f.py.len() == w * h
}

/// The decay factor of a new fluid, 995 thousandths.
pub open spec fn default_dissipation<S: Scalar>() -> S {
    S::spec_from_usize(995).spec_over(S::spec_from_usize(1000))
}

/// Every emitter after it has turned for the time `dt`.
pub open spec fn turned_all<S: Scalar>(es: Seq<Emitter<S>>, dt: S) -> Seq<Emitter<S>> {
    Seq::new(es.len(), |i: int| turned(es[i], dt))
}

/// The fields after one emitter has injected into them.
pub open spec fn injected<S: Scalar>(
    f: Fields<S>,
    e: Emitter<S>,
    draws: Seq<u32>,
    w: int,
    h: int,
) -> Fields<S> {
    Fields {
        density_r: e.injected_density(f.density_r, e.color.r, w, h),
        density_g: e.injected_density(f.density_g, e.color.g, w, h),
        density_b: e.injected_density(f.density_b, e.color.b, w, h),
        px: e.injected_px(f.px, draws, w, h),
        py: e.injected_py(f.py, draws, w, h),
    }
}

/// The fields after the first `n` emitters have injected, one after the
/// other, emitter `i` with the draws `draws[i]`.
pub open spec fn injected_all<S: Scalar>(
    f: Fields<S>,
    es: Seq<Emitter<S>>,
    draws: Seq<Seq<u32>>,
    w: int,
    h: int,
    n: nat,
) -> Fields<S>
    decreases n,
{
    if n == 0 {
        f
    } else {
        injected(injected_all(f, es, draws, w, h, (n - 1) as nat), es[n - 1], draws[n - 1], w, h)
    }
}

/// The fields after the part of a step that follows injection: the velocity
/// is diffused, projected, advected through itself and projected again, then
/// every density channel is advected through it and decayed.
pub open spec fn settled<S: Scalar>(
    f: Fields<S>,
    time: S,
    viscosity: S,
    dissipation: S,
    w: int,
    h: int,
) -> Fields<S> {
    let vx1 = diffused(f.px, f.px, viscosity, time, w, h);
    let vy1 = diffused(f.py, f.py, viscosity, time, w, h);
    let vx2 = projected_x(vx1, vy1, w, h);
    let vy2 = projected_y(vx1, vy1, w, h);
    let vx3 = advected(vx2, vx2, vx2, vy2, time, w, h);
    let vy3 = advected(vy2, vy2, vx2, vy2, time, w, h);
    let vx4 = projected_x(vx3, vy3, w, h);
    let vy4 = projected_y(vx3, vy3, w, h);
    Fields {
        density_r: decayed(advected(f.density_r, f.density_r, vx4, vy4, time, w, h), dissipation),
        density_g: decayed(advected(f.density_g, f.density_g, vx4, vy4, time, w, h), dissipation),
        density_b: decayed(advected(f.density_b, f.density_b, vx4, vy4, time, w, h), dissipation),
        px: vx4,
        py: vy4,
    }
}

/// The lists of draws, one list per emitter.
pub open spec fn draw_lists(draws: Seq<Vec<u32>>) -> Seq<Seq<u32>> {
    Seq::new(draws.len(), |i: int| draws[i]@)
}

/// There is one list of draws per emitter, with one draw per cell of that
/// emitter's footprint.
pub open spec fn draws_fit<S: Scalar>(
    es: Seq<Emitter<S>>,
    draws: Seq<Seq<u32>>,
    w: int,
    h: int,
) -> bool {
    &&& draws.len() == es.len()
    &&& forall|i: int|
        0 <= i < es.len() ==> (#[trigger] draws[i]).len() == es[i].footprint(w, h).area()
}

/// The display level, from 0 to 255, of a density value: the value held
/// between zero and one, times 255, rounded down.
pub open spec fn level<S: Scalar>(v: S) -> u8 {
    let scaled = spec_clamp(v, spec_zero::<S>(), spec_one::<S>()).spec_times(
        S::spec_from_usize(255),
    ).spec_floor_index();
    if scaled > 255 {
        255u8
    } else {
        scaled as u8
    }
}

pub fn level_of<S: Scalar>(v: S) -> (l: u8)
    ensures
        l == level(v),
{
    let scaled: usize = clamp(v, zero::<S>(), one::<S>()).times(S::from_usize(255)).floor_index();
    if scaled > 255 {
        255u8
    } else {
        scaled as u8
    }
}

impl<S: Scalar> Fluid<S> {
    pub open spec fn fields(&self) -> Fields<S> {
        Fields {
            density_r: self.density_r@,
            density_g: self.density_g@,
            density_b: self.density_b@,
            px: self.px@,
            py: self.py@,
        }
    }

    /// All five fields hold one value per cell of a grid the solver can work on.
    pub open spec fn wf(&self) -> bool {
        &&& valid_dims(self.width as int, self.height as int)
        &&& fields_fit(self.fields(), self.width as int, self.height as int)
    }

    /// Nothing but the fields and the emitters differs between `self` and
    /// `other`.
    pub open spec fn same_setup(&self, other: &Self) -> bool {
        &&& self.width == other.width
        &&& self.height == other.height
        &&& self.time == other.time
        &&& self.diffusion == other.diffusion
        &&& self.viscosity == other.viscosity
        &&& self.dissipation == other.dissipation
    }

    /// At rest on an empty grid of the given size, with the given parameters
    /// and the default dissipation.
    pub open spec fn is_blank(
        &self,
        width: usize,
        height: usize,
        time: S,
        diffusion: S,
        viscosity: S,
    ) -> bool {
        &&& self.wf()
        &&& self.width == width
        &&& self.height == height
        &&& self.time == time
        &&& self.diffusion == diffusion
        &&& self.viscosity == viscosity
        &&& self.dissipation == default_dissipation::<S>()
        &&& self.density_r@ == zeros::<S>(width * height)
        &&& self.density_g@ == zeros::<S>(width * height)
        &&& self.density_b@ == zeros::<S>(width * height)
        &&& self.px@ == zeros::<S>(width * height)
        &&& self.py@ == zeros::<S>(width * height)
    }

    fn blank(width: usize, height: usize, time: S, diffusion: S, viscosity: S) -> (f: Self)
        requires
            valid_dims(width as int, height as int),
        ensures
            f.is_blank(width, height, time, diffusion, viscosity),
            f.emitters@.len() == 0,
    {
        let size: usize = width * height;
        let z = zero::<S>();
        Fluid {
            width,
            height,
            time,
            diffusion,
            viscosity,
            dissipation: S::from_usize(995).over(S::from_usize(1000)),
            density_r: filled(size, z),
            density_g: filled(size, z),
            density_b: filled(size, z),
            px: filled(size, z),
            py: filled(size, z),
            emitters: Vec::new(),
        }
    }

    /// A fluid at rest on an empty grid of `width` by `height` cells, without
    /// emitters, or `None` if the solver cannot work on such a grid.
    pub fn with_size(width: usize, height: usize, time: S, diffusion: S, viscosity: S) -> (r:
        Option<Self>)
        ensures
            r.is_some() == valid_dims(width as int, height as int),
            r matches Some(f) ==> f.is_blank(width, height, time, diffusion, viscosity)
                && f.emitters@.len() == 0,
    {
        if width < 2 || height < 2 {
            return None;
        }
        match width.checked_mul(height) {
            Some(_) => Some(Self::blank(width, height, time, diffusion, viscosity)),
            None => None,
        }
    }

    /// The emitters of a new fluid: a red, a green and a blue one, a quarter,
    /// a half and three quarters of the way along the middle row.
    pub open spec fn default_emitters() -> Seq<Emitter<S>> {
        seq![
            Emitter { color: Color { r: 255, g: 0, b: 0 }, ..Emitter::<S>::fresh(50, 75) },
            Emitter { color: Color { r: 0, g: 255, b: 0 }, ..Emitter::<S>::fresh(100, 75) },
            Emitter { color: Color { r: 0, g: 0, b: 255 }, ..Emitter::<S>::fresh(150, 75) },
        ]
    }

    /// A fluid at rest on a grid of 200 by 150 cells, with its three emitters.
    pub fn new(time: S, diffusion: S, viscosity: S) -> (f: Self)
        ensures
            f.is_blank(DEFAULT_WIDTH, DEFAULT_HEIGHT, time, diffusion, viscosity),
            f.emitters@ == Self::default_emitters(),
    {
        let mut f = Self::blank(DEFAULT_WIDTH, DEFAULT_HEIGHT, time, diffusion, viscosity);
        let mut red = Emitter::new(DEFAULT_WIDTH / 4, DEFAULT_HEIGHT / 2);
        red.color = Color { r: 255, g: 0, b: 0 };
        let mut green = Emitter::new(DEFAULT_WIDTH / 2, DEFAULT_HEIGHT / 2);
        green.color = Color { r: 0, g: 255, b: 0 };
        let mut blue = Emitter::new(DEFAULT_WIDTH / 4 * 3, DEFAULT_HEIGHT / 2);
        blue.color = Color { r: 0, g: 0, b: 255 };
        f.emitters.push(red);
        f.emitters.push(green);
        f.emitters.push(blue);
        assert(f.emitters@ =~= Self::default_emitters());
        f
    }

    /// Whether all five fields hold one value per cell of a grid the solver
    /// can work on.
    pub fn is_ready(&self) -> (ok: bool)
        ensures
            ok == self.wf(),
    {
        if self.width < 2 || self.height < 2 {
            return false;
        }
        match self.width.checked_mul(self.height) {
            Some(size) => {
                self.density_r.len() == size && self.density_g.len() == size
                    && self.density_b.len() == size && self.px.len() == size && self.py.len()
                    == size
            },
            None => false,
        }
    }

    /// Flat position of the cell `(x, y)` in each of the five fields.
    pub fn index(&self, x: usize, y: usize) -> (k: usize)
        requires
            self.wf(),
            x < self.width,
            y < self.height,
        ensures
            k == cell(self.width as int, x as int, y as int),
            k < self.width * self.height,
    {
        index(self.width, self.height, x, y)
    }

    /// The colour in which the cell `(x, y)` shows: the display level of each
    /// of its three densities.
    pub fn shade(&self, x: usize, y: usize) -> (c: Color)
        requires
            self.wf(),
            x < self.width,
            y < self.height,
        ensures
            c == (Color {
                r: level(self.density_r@[cell(self.width as int, x as int, y as int)]),
                g: level(self.density_g@[cell(self.width as int, x as int, y as int)]),
                b: level(self.density_b@[cell(self.width as int, x as int, y as int)]),
            }),
    {
        let k: usize = index(self.width, self.height, x, y);
        Color {
            r: level_of(self.density_r[k]),
            g: level_of(self.density_g[k]),
            b: level_of(self.density_b[k]),
        }
    }

    /// Turns every emitter for the time of one step.
    pub fn turn_emitters(&mut self)
        ensures
            final(self).emitters@ == turned_all(old(self).emitters@, old(self).time),
            final(self).same_setup(old(self)),
            final(self).density_r == old(self).density_r,
            final(self).density_g == old(self).density_g,
            final(self).density_b == old(self).density_b,
            final(self).px == old(self).px,
            final(self).py == old(self).py,
    {
        let ghost start = self.emitters@;
        let dt = self.time;
        let n: usize = self.emitters.len();
        let mut i: usize = 0;
        while i < n
            invariant
                i <= n,
                n == start.len(),
                self.emitters@.len() == n,
                forall|k: int| 0 <= k < i ==> self.emitters@[k] == turned(start[k], dt),
                forall|k: int| i <= k < n ==> self.emitters@[k] == start[k],
                self.same_setup(old(self)),
                self.density_r == old(self).density_r,
                self.density_g == old(self).density_g,
                self.density_b == old(self).density_b,
                self.px == old(self).px,
                self.py == old(self).py,
            decreases n - i,
        {
            let mut e: Emitter<S> = self.emitters[i];
            e.update(dt);
            self.emitters[i] = e;
            i += 1;
        }
        assert(self.emitters@ =~= turned_all(start, dt));
    }

    /// Lets every emitter inject, in order, emitter `i` with the draws
    /// `draws[i]`. Nothing is cleared first: the fields accumulate.
    pub fn inject_emitters(&mut self, draws: &Vec<Vec<u32>>)
        requires
            old(self).wf(),
            draws_fit(
                old(self).emitters@,
                draw_lists(draws@),
                old(self).width as int,
                old(self).height as int,
            ),
        ensures
            final(self).wf(),
            final(self).same_setup(old(self)),
            final(self).emitters == old(self).emitters,
            final(self).fields() == injected_all(
                old(self).fields(),
                old(self).emitters@,
                draw_lists(draws@),
                old(self).width as int,
                old(self).height as int,
                old(self).emitters@.len(),
            ),
    {
        let ghost start = self.fields();
        let ghost es = self.emitters@;
        let ghost lists = draw_lists(draws@);
        let ghost w = self.width as int;
        let ghost h = self.height as int;
        let n: usize = self.emitters.len();
        let mut i: usize = 0;
        while i < n
            invariant
                i <= n,
                n == es.len(),
                self.wf(),
                self.same_setup(old(self)),
                self.emitters == old(self).emitters,
                es == self.emitters@,
                w == self.width,
                h == self.height,
                lists == draw_lists(draws@),
                draws_fit(es, lists, w, h),
                self.fields() == injected_all(start, es, lists, w, h, i as nat),
            decreases n - i,
        {
            let e: Emitter<S> = self.emitters[i];
            assert(lists[i as int] == draws@[i as int]@);
            let width: usize = self.width;
            let height: usize = self.height;
            let index_fn = |x: usize, y: usize| -> (k: usize)
                requires
                    x < width,
                    y < height,
                    width * height <= usize::MAX,
                ensures
                    k == cell(width as int, x as int, y as int),
                {
                    index(width, height, x, y)
                };
            e.inject_with(
                width,
                height,
                &mut self.density_r,
                &mut self.density_g,
                &mut self.density_b,
                &mut self.px,
                &mut self.py,
                index_fn,
                &draws[i],
            );
            i += 1;
        }
    }

    /// The part of a step that follows injection. It never writes to the
    /// outermost ring of cells, except that every density value decays.
    pub fn settle(&mut self)
        requires
            old(self).wf(),
        ensures
            final(self).wf(),
            final(self).same_setup(old(self)),
            final(self).emitters == old(self).emitters,
            final(self).fields() == settled(
                old(self).fields(),
                old(self).time,
                old(self).viscosity,
                old(self).dissipation,
                old(self).width as int,
                old(self).height as int,
            ),
            same_rim(
                final(self).px@,
                old(self).px@,
                old(self).width as int,
                old(self).height as int,
            ),
            same_rim(
                final(self).py@,
                old(self).py@,
                old(self).width as int,
                old(self).height as int,
            ),
            same_rim(
                final(self).density_r@,
                decayed(old(self).density_r@, old(self).dissipation),
                old(self).width as int,
                old(self).height as int,
            ),
            same_rim(
                final(self).density_g@,
                decayed(old(self).density_g@, old(self).dissipation),
                old(self).width as int,
                old(self).height as int,
            ),
            same_rim(
                final(self).density_b@,
                decayed(old(self).density_b@, old(self).dissipation),
                old(self).width as int,
                old(self).height as int,
            ),
    {
        proof {
            lemma_boundary_kept(
                self.fields(),
                self.time,
                self.viscosity,
                self.dissipation,
                self.width as int,
                self.height as int,
            );
        }
        let mut next_x = copy_of(&self.px);
        let mut next_y = copy_of(&self.py);
        self.diffuse(&mut next_x, &self.px, self.viscosity, self.time);
        self.diffuse(&mut next_y, &self.py, self.viscosity, self.time);
        self.px = next_x;
        self.py = next_y;
        self.project();
        let mut moved_x = copy_of(&self.px);
        let mut moved_y = copy_of(&self.py);
        self.advect(&mut moved_x, &self.px, &self.px, &self.py);
        self.advect(&mut moved_y, &self.py, &self.px, &self.py);
        self.px = moved_x;
        self.py = moved_y;
        self.project();
        let mut red = copy_of(&self.density_r);
        let mut green = copy_of(&self.density_g);
        let mut blue = copy_of(&self.density_b);
        self.advect(&mut red, &self.density_r, &self.px, &self.py);
        self.advect(&mut green, &self.density_g, &self.px, &self.py);
        self.advect(&mut blue, &self.density_b, &self.px, &self.py);
        decay(&mut red, self.dissipation);
        decay(&mut green, self.dissipation);
        decay(&mut blue, self.dissipation);
        self.density_r = red;
        self.density_g = green;
        self.density_b = blue;
    }

    /// What the fields of `self` are after one step made with `draws`.
    pub open spec fn stepped(&self, draws: Seq<Seq<u32>>) -> Fields<S> {
        settled(
            injected_all(
                self.fields(),
                turned_all(self.emitters@, self.time),
                draws,
                self.width as int,
                self.height as int,
                self.emitters@.len(),
            ),
            self.time,
            self.viscosity,
            self.dissipation,
            self.width as int,
            self.height as int,
        )
    }

    /// Advances the simulation by one frame, emitter `i` using the draws
    /// `draws[i]`: the emitters turn and inject, then the fields settle.
    pub fn step_with(&mut self, draws: &Vec<Vec<u32>>)
        requires
            old(self).wf(),
            draws_fit(
                old(self).emitters@,
                draw_lists(draws@),
                old(self).width as int,
                old(self).height as int,
            ),
        ensures
            final(self).wf(),
            final(self).same_setup(old(self)),
            final(self).emitters@ == turned_all(old(self).emitters@, old(self).time),
            final(self).fields() == old(self).stepped(draw_lists(draws@)),
    {
        self.turn_emitters();
        self.inject_emitters(draws);
        self.settle();
    }

    /// Advances the simulation by one frame with fresh random draws.
    pub fn step(&mut self)
        requires
            old(self).wf(),
        ensures
            final(self).wf(),
            final(self).same_setup(old(self)),
            final(self).emitters@ == turned_all(old(self).emitters@, old(self).time),
            exists|draws: Seq<Seq<u32>>|
                draws_fit(
                    old(self).emitters@,
                    draws,
                    old(self).width as int,
                    old(self).height as int,
                ) && final(self).fields() == #[trigger] old(self).stepped(draws),
    {
        let n: usize = self.emitters.len();
        let mut draws: Vec<Vec<u32>> = Vec::new();
        let mut i: usize = 0;
        while i < n
            invariant
                i <= n,
                n == self.emitters@.len(),
                self.wf(),
                draws@.len() == i,
                forall|k: int|
                    0 <= k < i ==> (#[trigger] draws@[k])@.len() == self.emitters@[k].footprint(
                        self.width as int,
                        self.height as int,
                    ).area(),
            decreases n - i,
        {
            let e: Emitter<S> = self.emitters[i];
            let cells: usize = e.footprint_len(self.width, self.height);
            draws.push(random_draws(cells));
            i += 1;
        }
        self.step_with(&draws);
    }
}

} // verus!
