//! What holds of the solver as a whole.

use crate::advect::{
    advect_rule, advect_value, advected, bilinear, lemma_advected_shape, lower_cell, traced,
};
use crate::emitter::{deposit_rule, jitter, turned, Emitter};
use crate::fixed::{
    Fixed, lemma_half, lemma_plus_zero, lemma_times_fraction, lemma_times_one, lemma_times_zero,
    lemma_whole_exact, lemma_zero_over, SCALE, TAU_RAW, whole,
};
use crate::field::{decayed, zeros};
use crate::fluid::{fields_fit, injected, injected_all, settled, Fields};
use crate::grid::{
    cell, in_grid, inner, interior, lemma_cell_bounds, lemma_neighbours, lemma_pass_fixed_point,
    lemma_sweeps_fixed_point, same_rim, valid_dims,
};
use crate::project::{
    divergence, divergence_rule, gradient_x_rule, gradient_y_rule, lemma_projected_shape,
    potential, pressure, pressure_rule, projected_x, projected_y,
};
use crate::relax::{
    diffused, diffusion_coefficient, diffusion_divisor, ITERATIONS, lemma_diffused_shape,
    relax_rule,
};
use crate::scalar::Scalar;
use vstd::prelude::*;

verus! {

/// Diffusion, projection and advection never write to the outermost ring of
/// cells: after the part of a step that follows injection, the velocity
/// there is what injection left, and every density value there is what
/// injection left, times the dissipation.
pub proof fn lemma_boundary_kept<S: Scalar>(
    f: Fields<S>,
    time: S,
    viscosity: S,
    dissipation: S,
    w: int,
    h: int,
)
    requires
        valid_dims(w, h),
        fields_fit(f, w, h),
    ensures
        fields_fit(settled(f, time, viscosity, dissipation, w, h), w, h),
        ({
            let after = settled(f, time, viscosity, dissipation, w, h);
            &&& same_rim(after.px, f.px, w, h)
            &&& same_rim(after.py, f.py, w, h)
            &&& same_rim(after.density_r, decayed(f.density_r, dissipation), w, h)
            &&& same_rim(after.density_g, decayed(f.density_g, dissipation), w, h)
            &&& same_rim(after.density_b, decayed(f.density_b, dissipation), w, h)
        }),
{
    let vx1 = diffused(f.px, f.px, viscosity, time, w, h);
    let vy1 = diffused(f.py, f.py, viscosity, time, w, h);
    lemma_diffused_shape(f.px, f.px, viscosity, time, w, h);
    lemma_diffused_shape(f.py, f.py, viscosity, time, w, h);
    let vx2 = projected_x(vx1, vy1, w, h);
    let vy2 = projected_y(vx1, vy1, w, h);
    lemma_projected_shape(vx1, vy1, w, h);
    let vx3 = advected(vx2, vx2, vx2, vy2, time, w, h);
    let vy3 = advected(vy2, vy2, vx2, vy2, time, w, h);
    lemma_advected_shape(vx2, vx2, vx2, vy2, time, w, h);
    lemma_advected_shape(vy2, vy2, vx2, vy2, time, w, h);
    let vx4 = projected_x(vx3, vy3, w, h);
    let vy4 = projected_y(vx3, vy3, w, h);
    lemma_projected_shape(vx3, vy3, w, h);
    lemma_advected_shape(f.density_r, f.density_r, vx4, vy4, time, w, h);
    lemma_advected_shape(f.density_g, f.density_g, vx4, vy4, time, w, h);
    lemma_advected_shape(f.density_b, f.density_b, vx4, vy4, time, w, h);
    let after = settled(f, time, viscosity, dissipation, w, h);
    assert forall|x: int, y: int| in_grid(w, h, x, y) && !interior(w, h, x, y) implies {
        let k = #[trigger] cell(w, x, y);
        &&& after.px[k] == f.px[k]
        &&& after.py[k] == f.py[k]
        &&& after.density_r[k] == decayed(f.density_r, dissipation)[k]
        &&& after.density_g[k] == decayed(f.density_g, dissipation)[k]
        &&& after.density_b[k] == decayed(f.density_b, dissipation)[k]
    } by {
        lemma_cell_bounds(w, h, x, y);
    }
}

/// On fixed-point numbers, the angle of an emitter lies in `[0, 2π)` after
/// an update exactly if the angle it turned to lay less than one turn
/// outside that range: the update wraps once.
pub proof fn lemma_angle_wraps(e: Emitter<Fixed>, dt: Fixed)
    ensures
        (0 <= turned(e, dt).angle.raw < TAU_RAW) <==> (-TAU_RAW <= e.angle.spec_plus(
            e.rotation_speed.spec_times(dt),
        ).raw < 2 * TAU_RAW),
{
}

/// On fixed-point numbers, the jitter of any draw is at least minus a
/// quarter and less than a quarter of a radian.
pub proof fn lemma_jitter_range(bits: u32)
    ensures
        -SCALE / 4 <= jitter::<Fixed>(bits).raw < SCALE / 4,
{
    let kept = bits >> 8;
    assert(kept < 0x100_0000) by (bit_vector)
        requires
            kept == bits >> 8,
    ;
    lemma_half();
    lemma_whole_exact(kept as usize);
    lemma_whole_exact(0x100_0000);
    let n = kept as int;
    assert((n * SCALE) * SCALE / (0x100_0000 * SCALE) == n * 256) by (nonlinear_arith)
        requires
            SCALE == 0x1_0000_0000,
            0 <= n,
    ;
    let unit = whole(kept as usize).spec_over(whole(0x100_0000));
    assert(unit.raw == n * 256);
    let off = unit.spec_minus(Fixed { raw: 2147483648 });
    assert(off.raw == n * 256 - 2147483648);
    let m = if off.raw < 0 {
        -(off.raw as int)
    } else {
        off.raw as int
    };
    assert(0 <= m * 2147483648 / 4294967296 <= 1073741824) by (nonlinear_arith)
        requires
            0 <= m <= 2147483648,
    ;
    if off.raw >= 0 {
        assert(m * 2147483648 / 4294967296 < 1073741824) by (nonlinear_arith)
            requires
                0 <= m < 2147483648,
        ;
    }
}

/// The largest extent of a grid on which every column and every row has an
/// exact fixed-point number.
pub open spec fn exact_extent() -> int {
    0x8000_0000
}

/// On fixed-point numbers, where the velocity at an interior cell is zero,
/// advection stores in that cell the value the source field has there.
pub proof fn lemma_still_value(
    dt: Fixed,
    d0: Seq<Fixed>,
    vx: Seq<Fixed>,
    vy: Seq<Fixed>,
    w: int,
    h: int,
    x: int,
    y: int,
)
    requires
        w <= exact_extent(),
        h <= exact_extent(),
        interior(w, h, x, y),
        vx[cell(w, x, y)] == whole(0),
        vy[cell(w, x, y)] == whole(0),
    ensures
        advect_value(dt, d0, vx, vy, w, h, x, y) == d0[cell(w, x, y)],
{
    let zero = whole(0);
    let one = whole(1);
    lemma_half();
    lemma_times_zero(dt);
    lemma_whole_exact(x as usize);
    lemma_whole_exact(y as usize);
    lemma_whole_exact((w - 1) as usize);
    lemma_whole_exact((h - 1) as usize);
    lemma_plus_zero(whole(x as usize));
    lemma_plus_zero(whole(y as usize));
    let fx = traced(x, dt, zero, w);
    let fy = traced(y, dt, zero, h);
    assert(fx == whole(x as usize));
    assert(fy == whole(y as usize));
    assert(lower_cell(fx, w) == x);
    assert(lower_cell(fy, h) == y);
    let d00 = d0[cell(w, x, y)];
    let d01 = d0[cell(w, x, y + 1)];
    let d10 = d0[cell(w, x + 1, y)];
    let d11 = d0[cell(w, x + 1, y + 1)];
    assert(fx.spec_minus(whole(x as usize)) == zero);
    assert(fy.spec_minus(whole(y as usize)) == zero);
    assert(one.spec_minus(zero) == one);
    lemma_times_one(d00);
    lemma_times_zero(d01);
    lemma_plus_zero(d00);
    let right = one.spec_times(d10).spec_plus(zero.spec_times(d11));
    lemma_times_zero(right);
    assert(bilinear(d0, w, h, fx, fy) == d00);
}

/// On fixed-point numbers, advection through a velocity field that is zero
/// everywhere reproduces the source field at every interior cell.
pub proof fn lemma_still_advection(
    d: Seq<Fixed>,
    d0: Seq<Fixed>,
    vx: Seq<Fixed>,
    vy: Seq<Fixed>,
    dt: Fixed,
    w: int,
    h: int,
)
    requires
        valid_dims(w, h),
        w <= exact_extent(),
        h <= exact_extent(),
        d.len() == w * h,
        vx.len() == w * h,
        vy.len() == w * h,
        forall|k: int| 0 <= k < w * h ==> vx[k] == whole(0) && vy[k] == whole(0),
    ensures
        forall|x: int, y: int|
            interior(w, h, x, y) ==> advected(d, d0, vx, vy, dt, w, h)[#[trigger] cell(w, x, y)]
                == d0[cell(w, x, y)],
{
    lemma_advected_shape(d, d0, vx, vy, dt, w, h);
    assert forall|x: int, y: int| interior(w, h, x, y) implies advected(
        d,
        d0,
        vx,
        vy,
        dt,
        w,
        h,
    )[#[trigger] cell(w, x, y)] == d0[cell(w, x, y)] by {
        lemma_cell_bounds(w, h, x, y);
        lemma_still_value(dt, d0, vx, vy, w, h, x, y);
    }
}

/// On fixed-point numbers, an emitter of strength zero injects nothing.
pub proof fn lemma_idle_emitter(
    f: Fields<Fixed>,
    e: Emitter<Fixed>,
    draws: Seq<u32>,
    w: int,
    h: int,
)
    requires
        0 <= w,
        0 <= h,
        fields_fit(f, w, h),
        e.strength == whole(0),
    ensures
        injected(f, e, draws, w, h) == f,
{
    let rect = e.footprint(w, h);
    lemma_times_zero(whole(e.color.r as usize).spec_over(whole(255)));
    lemma_times_zero(whole(e.color.g as usize).spec_over(whole(255)));
    lemma_times_zero(whole(e.color.b as usize).spec_over(whole(255)));
    let fr = deposit_rule(e.channel_amount(e.color.r), w);
    let fg = deposit_rule(e.channel_amount(e.color.g), w);
    let fb = deposit_rule(e.channel_amount(e.color.b), w);
    let fx = e.thrust_x_rule(draws, w, h);
    let fy = e.thrust_y_rule(draws, w, h);
    assert forall|x: int, y: int| rect.contains(x, y) implies #[trigger] fr(f.density_r, x, y)
        == f.density_r[cell(w, x, y)] by {
        lemma_plus_zero(f.density_r[cell(w, x, y)]);
    }
    assert forall|x: int, y: int| rect.contains(x, y) implies #[trigger] fg(f.density_g, x, y)
        == f.density_g[cell(w, x, y)] by {
        lemma_plus_zero(f.density_g[cell(w, x, y)]);
    }
    assert forall|x: int, y: int| rect.contains(x, y) implies #[trigger] fb(f.density_b, x, y)
        == f.density_b[cell(w, x, y)] by {
        lemma_plus_zero(f.density_b[cell(w, x, y)]);
    }
    assert forall|x: int, y: int| rect.contains(x, y) implies #[trigger] fx(f.px, x, y)
        == f.px[cell(w, x, y)] by {
        lemma_times_zero(e.heading(draws[rect.ordinal(x, y)]).spec_cos());
        lemma_plus_zero(f.px[cell(w, x, y)]);
    }
    assert forall|x: int, y: int| rect.contains(x, y) implies #[trigger] fy(f.py, x, y)
        == f.py[cell(w, x, y)] by {
        lemma_times_zero(e.heading(draws[rect.ordinal(x, y)]).spec_sin());
        lemma_plus_zero(f.py[cell(w, x, y)]);
    }
    lemma_pass_fixed_point(fr, f.density_r, w, h, rect);
    lemma_pass_fixed_point(fg, f.density_g, w, h, rect);
    lemma_pass_fixed_point(fb, f.density_b, w, h, rect);
    lemma_pass_fixed_point(fx, f.px, w, h, rect);
    lemma_pass_fixed_point(fy, f.py, w, h, rect);
}

/// On fixed-point numbers, no number of emitters of strength zero injects
/// anything.
pub proof fn lemma_idle_emitters(
    f: Fields<Fixed>,
    es: Seq<Emitter<Fixed>>,
    draws: Seq<Seq<u32>>,
    w: int,
    h: int,
    n: nat,
)
    requires
        0 <= w,
        0 <= h,
        fields_fit(f, w, h),
        n <= es.len(),
        forall|i: int| 0 <= i < es.len() ==> (#[trigger] es[i]).strength == whole(0),
    ensures
        injected_all(f, es, draws, w, h, n) == f,
    decreases n,
{
    if n > 0 {
        lemma_idle_emitters(f, es, draws, w, h, (n - 1) as nat);
        lemma_idle_emitter(f, es[n - 1], draws[n - 1], w, h);
    }
}

/// On fixed-point numbers, a velocity field that is zero everywhere stays
/// so through diffusion.
pub proof fn lemma_rest_diffused(rate: Fixed, dt: Fixed, w: int, h: int)
    requires
        valid_dims(w, h),
    ensures
        diffused(zeros::<Fixed>(w * h), zeros::<Fixed>(w * h), rate, dt, w, h) == zeros::<Fixed>(
            w * h,
        ),
{
    let z = zeros::<Fixed>(w * h);
    let a = diffusion_coefficient(rate, dt, w, h);
    let c = diffusion_divisor(a);
    let f = relax_rule(z, a, c, w);
    assert forall|x: int, y: int| interior(w, h, x, y) implies #[trigger] f(z, x, y)
        == z[cell(w, x, y)] by {
        lemma_cell_bounds(w, h, x, y);
        lemma_neighbours(w, h, x, y);
        lemma_plus_zero(whole(0));
        lemma_times_zero(a);
        lemma_zero_over(c);
    }
    lemma_sweeps_fixed_point(f, z, w, h, ITERATIONS as nat);
}

/// On fixed-point numbers, a velocity field that is zero everywhere has a
/// divergence that is zero everywhere.
pub proof fn lemma_rest_divergence(w: int, h: int)
    requires
        valid_dims(w, h),
    ensures
        divergence(zeros::<Fixed>(w * h), zeros::<Fixed>(w * h), w, h) == zeros::<Fixed>(
            w * h,
        ),
{
    let z = zeros::<Fixed>(w * h);
    lemma_half();
    lemma_plus_zero(whole(0));
    let fd = divergence_rule(z, z, w);
    assert forall|x: int, y: int| interior(w, h, x, y) implies #[trigger] fd(z, x, y)
        == z[cell(w, x, y)] by {
        lemma_cell_bounds(w, h, x, y);
        lemma_neighbours(w, h, x, y);
        lemma_times_zero(Fixed { raw: (-2147483648i64) });
        lemma_zero_over(whole(w as usize));
    }
    lemma_pass_fixed_point(fd, z, w, h, inner(w, h));
}

/// On fixed-point numbers, the potential relaxed from a divergence that is
/// zero everywhere is zero everywhere.
pub proof fn lemma_zero_pressure(w: int, h: int)
    requires
        valid_dims(w, h),
    ensures
        pressure(zeros::<Fixed>(w * h), w, h) == zeros::<Fixed>(w * h),
{
    let z = zeros::<Fixed>(w * h);
    lemma_plus_zero(whole(0));
    let fp = pressure_rule(z, w);
    assert forall|x: int, y: int| interior(w, h, x, y) implies #[trigger] fp(z, x, y)
        == z[cell(w, x, y)] by {
        lemma_cell_bounds(w, h, x, y);
        lemma_neighbours(w, h, x, y);
        lemma_zero_over(whole(4));
    }
    lemma_sweeps_fixed_point(fp, z, w, h, ITERATIONS as nat);
}

/// On fixed-point numbers, projection changes nothing in a velocity field
/// whose discrete divergence is zero at every cell.
pub proof fn lemma_divergence_free_kept(px: Seq<Fixed>, py: Seq<Fixed>, w: int, h: int)
    requires
        valid_dims(w, h),
        px.len() == w * h,
        py.len() == w * h,
        divergence(px, py, w, h) == zeros::<Fixed>(w * h),
    ensures
        projected_x(px, py, w, h) == px,
        projected_y(px, py, w, h) == py,
{
    let z = zeros::<Fixed>(w * h);
    lemma_zero_pressure(w, h);
    assert(potential(px, py, w, h) == z);
    lemma_half();
    lemma_plus_zero(whole(0));
    lemma_times_zero(Fixed { raw: 2147483648 });
    lemma_times_zero(whole(w as usize));
    lemma_times_zero(whole(h as usize));
    let gx = gradient_x_rule(z, w);
    let gy = gradient_y_rule(z, w, h);
    assert forall|x: int, y: int| interior(w, h, x, y) implies #[trigger] gx(px, x, y)
        == px[cell(w, x, y)] by {
        lemma_cell_bounds(w, h, x, y);
        lemma_neighbours(w, h, x, y);
        lemma_plus_zero(px[cell(w, x, y)]);
    }
    assert forall|x: int, y: int| interior(w, h, x, y) implies #[trigger] gy(py, x, y)
        == py[cell(w, x, y)] by {
        lemma_cell_bounds(w, h, x, y);
        lemma_neighbours(w, h, x, y);
        lemma_plus_zero(py[cell(w, x, y)]);
    }
    lemma_pass_fixed_point(gx, px, w, h, inner(w, h));
    lemma_pass_fixed_point(gy, py, w, h, inner(w, h));
}

/// On fixed-point numbers, a velocity field that is zero everywhere stays
/// so through projection.
pub proof fn lemma_rest_projected(w: int, h: int)
    requires
        valid_dims(w, h),
    ensures
        projected_x(zeros::<Fixed>(w * h), zeros::<Fixed>(w * h), w, h) == zeros::<Fixed>(
            w * h,
        ),
        projected_y(zeros::<Fixed>(w * h), zeros::<Fixed>(w * h), w, h) == zeros::<Fixed>(
            w * h,
        ),
{
    lemma_rest_divergence(w, h);
    lemma_divergence_free_kept(zeros::<Fixed>(w * h), zeros::<Fixed>(w * h), w, h);
}

/// On fixed-point numbers, a field advected into itself through a velocity
/// field that is zero everywhere does not change.
pub proof fn lemma_rest_advected(d: Seq<Fixed>, dt: Fixed, w: int, h: int)
    requires
        valid_dims(w, h),
        w <= exact_extent(),
        h <= exact_extent(),
        d.len() == w * h,
    ensures
        advected(d, d, zeros::<Fixed>(w * h), zeros::<Fixed>(w * h), dt, w, h) == d,
{
    let z = zeros::<Fixed>(w * h);
    let f = advect_rule(dt, d, z, z, w, h);
    assert forall|x: int, y: int| interior(w, h, x, y) implies #[trigger] f(d, x, y)
        == d[cell(w, x, y)] by {
        lemma_cell_bounds(w, h, x, y);
        lemma_still_value(dt, d, z, z, w, h, x, y);
    }
    lemma_pass_fixed_point(f, d, w, h, inner(w, h));
}

/// On fixed-point numbers, a step of a fluid at rest whose emitters all have
/// strength zero leaves it at rest and multiplies every density value by the
/// dissipation.
pub proof fn lemma_rest_step(
    f: Fields<Fixed>,
    es: Seq<Emitter<Fixed>>,
    draws: Seq<Seq<u32>>,
    time: Fixed,
    viscosity: Fixed,
    dissipation: Fixed,
    w: int,
    h: int,
)
    requires
        valid_dims(w, h),
        w <= exact_extent(),
        h <= exact_extent(),
        fields_fit(f, w, h),
        f.px == zeros::<Fixed>(w * h),
        f.py == zeros::<Fixed>(w * h),
        forall|i: int| 0 <= i < es.len() ==> (#[trigger] es[i]).strength == whole(0),
    ensures
        settled(injected_all(f, es, draws, w, h, es.len()), time, viscosity, dissipation, w, h) == (
        Fields {
            density_r: decayed(f.density_r, dissipation),
            density_g: decayed(f.density_g, dissipation),
            density_b: decayed(f.density_b, dissipation),
            px: f.px,
            py: f.py,
        }),
{
    lemma_idle_emitters(f, es, draws, w, h, es.len());
    lemma_rest_diffused(viscosity, time, w, h);
    lemma_rest_projected(w, h);
    lemma_rest_advected(zeros::<Fixed>(w * h), time, w, h);
    lemma_rest_advected(f.density_r, time, w, h);
    lemma_rest_advected(f.density_g, time, w, h);
    lemma_rest_advected(f.density_b, time, w, h);
}

/// The sum of the raw values of a field.
pub open spec fn total(d: Seq<Fixed>) -> int
    decreases d.len(),
{
    if d.len() == 0 {
        0
    } else {
        total(d.drop_last()) + d.last().raw
    }
}

/// On fixed-point numbers, the total of a field without negative values
/// does not grow, and does not turn negative, when the field decays by a
/// factor between zero and one.
pub proof fn lemma_decay_total(d: Seq<Fixed>, factor: Fixed)
    requires
        forall|k: int| 0 <= k < d.len() ==> 0 <= (#[trigger] d[k]).raw,
        0 <= factor.raw <= SCALE,
    ensures
        0 <= total(decayed(d, factor)) <= total(d),
    decreases d.len(),
{
    if d.len() > 0 {
        lemma_decay_total(d.drop_last(), factor);
        assert(decayed(d, factor).drop_last() =~= decayed(d.drop_last(), factor));
        lemma_times_fraction(d.last(), factor);
    }
}

/// On fixed-point numbers, with every emitter at strength zero and the
/// fluid at rest, no density negative and the dissipation between zero and
/// one, the total density of each channel does not grow over a step.
pub proof fn lemma_total_never_grows(
    f: Fields<Fixed>,
    es: Seq<Emitter<Fixed>>,
    draws: Seq<Seq<u32>>,
    time: Fixed,
    viscosity: Fixed,
    dissipation: Fixed,
    w: int,
    h: int,
)
    requires
        valid_dims(w, h),
        w <= exact_extent(),
        h <= exact_extent(),
        fields_fit(f, w, h),
        f.px == zeros::<Fixed>(w * h),
        f.py == zeros::<Fixed>(w * h),
        forall|i: int| 0 <= i < es.len() ==> (#[trigger] es[i]).strength == whole(0),
        forall|k: int| 0 <= k < w * h ==> 0 <= (#[trigger] f.density_r[k]).raw,
        forall|k: int| 0 <= k < w * h ==> 0 <= (#[trigger] f.density_g[k]).raw,
        forall|k: int| 0 <= k < w * h ==> 0 <= (#[trigger] f.density_b[k]).raw,
        0 <= dissipation.raw <= SCALE,
    ensures
        ({
            let after = settled(
                injected_all(f, es, draws, w, h, es.len()),
                time,
                viscosity,
                dissipation,
                w,
                h,
            );
            &&& total(after.density_r) <= total(f.density_r)
            &&& total(after.density_g) <= total(f.density_g)
            &&& total(after.density_b) <= total(f.density_b)
        }),
{
    lemma_rest_step(f, es, draws, time, viscosity, dissipation, w, h);
    lemma_decay_total(f.density_r, dissipation);
    lemma_decay_total(f.density_g, dissipation);
    lemma_decay_total(f.density_b, dissipation);
}

} // verus!
