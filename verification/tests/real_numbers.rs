//! The solver on 32-bit floating-point numbers, held against the same
//! arithmetic written out directly.

use fluid_sim::emitter::{draw_jitter, Color, Emitter};
use fluid_sim::fluid::Fluid;
use fluid_sim::project::{compute_divergence, solve_pressure};
use fluid_sim::random::random_draws;
use fluid_sim::scalar::Scalar;

#[derive(Clone, Copy, Debug, PartialEq)]
struct Real(f32);

impl Scalar for Real {
    fn spec_from_usize(n: usize) -> Self {
        Real(n as f32)
    }

    fn spec_tau() -> Self {
        Real(std::f32::consts::TAU)
    }

    fn spec_plus(self, rhs: Self) -> Self {
        Real(self.0 + rhs.0)
    }

    fn spec_minus(self, rhs: Self) -> Self {
        Real(self.0 - rhs.0)
    }

    fn spec_times(self, rhs: Self) -> Self {
        Real(self.0 * rhs.0)
    }

    fn spec_over(self, rhs: Self) -> Self {
        Real(self.0 / rhs.0)
    }

    fn spec_less(self, rhs: Self) -> bool {
        self.0 < rhs.0
    }

    fn spec_floor_index(self) -> usize {
        self.0.floor() as usize
    }

    fn spec_cos(self) -> Self {
        Real(self.0.cos())
    }

    fn spec_sin(self) -> Self {
        Real(self.0.sin())
    }

    fn from_usize(n: usize) -> Self {
        Self::spec_from_usize(n)
    }

    fn tau() -> Self {
        Self::spec_tau()
    }

    fn plus(self, rhs: Self) -> Self {
        self.spec_plus(rhs)
    }

    fn minus(self, rhs: Self) -> Self {
        self.spec_minus(rhs)
    }

    fn times(self, rhs: Self) -> Self {
        self.spec_times(rhs)
    }

    fn over(self, rhs: Self) -> Self {
        self.spec_over(rhs)
    }

    fn less(self, rhs: Self) -> bool {
        self.spec_less(rhs)
    }

    fn floor_index(self) -> usize {
        self.spec_floor_index()
    }

    fn cos(self) -> Self {
        self.spec_cos()
    }

    fn sin(self) -> Self {
        self.spec_sin()
    }
}

/// A small generator of repeatable values in `[-1, 1)`.
struct Noise(u64);

impl Noise {
    fn next(&mut self) -> f32 {
        self.0 = self.0.wrapping_mul(6364136223846793005).wrapping_add(1442695040888963407);
        ((self.0 >> 40) as f32) / ((1u64 << 23) as f32) - 1.0
    }

    fn field(&mut self, n: usize) -> Vec<f32> {
        let mut v = Vec::new();
        for _ in 0..n {
            v.push(self.next());
        }
        v
    }
}

fn wrap(v: &[f32]) -> Vec<Real> {
    v.iter().map(|x| Real(*x)).collect()
}

fn bits(v: &[Real]) -> Vec<u32> {
    v.iter().map(|x| x.0.to_bits()).collect()
}

fn raw_bits(v: &[f32]) -> Vec<u32> {
    v.iter().map(|x| x.to_bits()).collect()
}

fn fluid(w: usize, h: usize, time: f32, diffusion: f32, viscosity: f32) -> Fluid<Real> {
    Fluid::with_size(w, h, Real(time), Real(diffusion), Real(viscosity)).unwrap()
}

fn direct_relax(x: &mut [f32], x0: &[f32], a: f32, c: f32, w: usize, h: usize) {
    for _ in 0..20 {
        for j in 1..h - 1 {
            for i in 1..w - 1 {
                let k = i + j * w;
                x[k] = (x0[k] + a * (x[k + 1] + x[k - 1] + x[k + w] + x[k - w])) / c;
            }
        }
    }
}

fn direct_advect(d: &mut [f32], d0: &[f32], vx: &[f32], vy: &[f32], dt: f32, w: usize, h: usize) {
    for j in 1..h - 1 {
        for i in 1..w - 1 {
            let k = i + j * w;
            let mut x = i as f32 - dt * vx[k];
            let mut y = j as f32 - dt * vy[k];
            x = x.clamp(0.5, (w - 1) as f32 - 0.5);
            y = y.clamp(0.5, (h - 1) as f32 - 0.5);
            let i0 = x.floor() as usize;
            let i1 = i0 + 1;
            let j0 = y.floor() as usize;
            let j1 = j0 + 1;
            let s1 = x - i0 as f32;
            let s0 = 1.0 - s1;
            let t1 = y - j0 as f32;
            let t0 = 1.0 - t1;
            d[k] = s0 * (t0 * d0[i0 + j0 * w] + t1 * d0[i0 + j1 * w])
                + s1 * (t0 * d0[i1 + j0 * w] + t1 * d0[i1 + j1 * w]);
        }
    }
}

fn direct_divergence(px: &[f32], py: &[f32], w: usize, h: usize) -> Vec<f32> {
    let mut div = vec![0.0f32; w * h];
    for j in 1..h - 1 {
        for i in 1..w - 1 {
            let k = i + j * w;
            div[k] = -0.5 * ((px[k + 1] - px[k - 1]) + (py[k + w] - py[k - w])) / w as f32;
        }
    }
    div
}

fn direct_project(px: &mut [f32], py: &mut [f32], w: usize, h: usize) {
    let div = direct_divergence(px, py, w, h);
    let mut p = vec![0.0f32; w * h];
    for _ in 0..20 {
        for j in 1..h - 1 {
            for i in 1..w - 1 {
                let k = i + j * w;
                p[k] = (div[k] + p[k - 1] + p[k + 1] + p[k - w] + p[k + w]) / 4.0;
            }
        }
    }
    for j in 1..h - 1 {
        for i in 1..w - 1 {
            let k = i + j * w;
            px[k] -= 0.5 * (p[k + 1] - p[k - 1]) * w as f32;
            py[k] -= 0.5 * (p[k + w] - p[k - w]) * h as f32;
        }
    }
}

#[test]
fn relaxation_matches_direct_arithmetic() {
    let (w, h) = (7, 5);
    let mut noise = Noise(1);
    let start = noise.field(w * h);
    let source = noise.field(w * h);
    let mut expected = start.clone();
    direct_relax(&mut expected, &source, 0.37, 3.22, w, h);
    let mut x = wrap(&start);
    Fluid::<Real>::linear_solver(&mut x, &wrap(&source), Real(0.37), Real(3.22), w, h);
    assert_eq!(bits(&x), raw_bits(&expected));
}

#[test]
fn diffusion_scales_by_the_interior_cell_count() {
    let (w, h) = (6, 6);
    let mut noise = Noise(2);
    let start = noise.field(w * h);
    let source = noise.field(w * h);
    let a = 0.5f32 * 0.01f32 * 16.0f32;
    let c = 1.0f32 + 6.0f32 * a;
    let mut expected = start.clone();
    direct_relax(&mut expected, &source, a, c, w, h);
    let f = fluid(w, h, 0.5, 0.0, 0.0);
    let mut x = wrap(&start);
    f.diffuse(&mut x, &wrap(&source), Real(0.01), Real(0.5));
    assert_eq!(bits(&x), raw_bits(&expected));
}

#[test]
fn advection_matches_direct_arithmetic() {
    let (w, h) = (8, 6);
    let mut noise = Noise(3);
    let start = noise.field(w * h);
    let source = noise.field(w * h);
    let vx: Vec<f32> = noise.field(w * h).iter().map(|v| v * 9.0).collect();
    let vy: Vec<f32> = noise.field(w * h).iter().map(|v| v * 9.0).collect();
    let mut expected = start.clone();
    direct_advect(&mut expected, &source, &vx, &vy, 0.5, w, h);
    let f = fluid(w, h, 0.5, 0.0, 0.0);
    let mut d = wrap(&start);
    f.advect(&mut d, &wrap(&source), &wrap(&vx), &wrap(&vy));
    assert_eq!(bits(&d), raw_bits(&expected));
}

#[test]
fn advection_survives_values_that_are_not_numbers() {
    let (w, h) = (4, 4);
    let f = fluid(w, h, 0.5, 0.0, 0.0);
    let source = wrap(&vec![1.0f32; w * h]);
    let mut vx = wrap(&vec![0.0f32; w * h]);
    let vy = wrap(&vec![0.0f32; w * h]);
    vx[1 + w] = Real(f32::NAN);
    vx[2 + w] = Real(f32::INFINITY);
    vx[1 + 2 * w] = Real(f32::NEG_INFINITY);
    let mut d = wrap(&vec![0.0f32; w * h]);
    f.advect(&mut d, &source, &vx, &vy);
    assert!(d[1 + w].0.is_nan());
    assert_eq!(d[2 + w], Real(1.0));
    assert_eq!(d[1 + 2 * w], Real(1.0));
    assert_eq!(d[2 + 2 * w], Real(1.0));
}

#[test]
fn projection_matches_direct_arithmetic() {
    let (w, h) = (7, 6);
    let mut noise = Noise(4);
    let px = noise.field(w * h);
    let py = noise.field(w * h);
    let mut ex = px.clone();
    let mut ey = py.clone();
    direct_project(&mut ex, &mut ey, w, h);
    let mut f = fluid(w, h, 0.5, 0.0, 0.0);
    f.px = wrap(&px);
    f.py = wrap(&py);
    f.project();
    assert_eq!(bits(&f.px), raw_bits(&ex));
    assert_eq!(bits(&f.py), raw_bits(&ey));
}

#[test]
fn divergence_and_pressure_are_zero_on_the_rim() {
    let (w, h) = (5, 5);
    let mut noise = Noise(5);
    let px = wrap(&noise.field(w * h));
    let py = wrap(&noise.field(w * h));
    let div = compute_divergence(&px, &py, w, h);
    let p = solve_pressure(&div, w, h);
    for y in 0..h {
        for x in 0..w {
            if x == 0 || y == 0 || x == w - 1 || y == h - 1 {
                assert_eq!(div[x + y * w], Real(0.0));
                assert_eq!(p[x + y * w], Real(0.0));
            }
        }
    }
}

fn total_divergence(px: &[Real], py: &[Real], w: usize, h: usize) -> f32 {
    let px: Vec<f32> = px.iter().map(|v| v.0).collect();
    let py: Vec<f32> = py.iter().map(|v| v.0).collect();
    direct_divergence(&px, &py, w, h).iter().map(|v| v.abs()).sum()
}

#[test]
fn projection_reduces_total_divergence() {
    let (w, h) = (16, 16);
    for seed in 10..20 {
        let mut noise = Noise(seed);
        let mut f = fluid(w, h, 0.5, 0.0, 0.0);
        f.px = wrap(&noise.field(w * h));
        f.py = wrap(&noise.field(w * h));
        let before = total_divergence(&f.px, &f.py, w, h);
        f.project();
        let after = total_divergence(&f.px, &f.py, w, h);
        assert!(after < before, "seed {}: {} -> {}", seed, before, after);
    }
}

#[test]
fn jitter_spans_a_quarter_radian_each_way() {
    assert_eq!(draw_jitter::<Real>(0), Real(-0.25));
    assert_eq!(draw_jitter::<Real>(255), Real(-0.25));
    assert_eq!(draw_jitter::<Real>(1 << 31), Real(0.0));
    assert_eq!(draw_jitter::<Real>(3 << 30), Real(0.125));
    let top = draw_jitter::<Real>(u32::MAX);
    assert!(top.0 < 0.25 && top.0 > 0.2499999);
}

fn emitter(x: usize, y: usize, radius: usize, strength: f32, angle: f32) -> Emitter<Real> {
    let mut e = Emitter::new(x, y);
    e.radius = radius;
    e.strength = Real(strength);
    e.angle = Real(angle);
    e
}

#[test]
fn single_cell_injection_with_a_given_draw() {
    let (w, h) = (10, 10);
    let mut f = fluid(w, h, 0.5, 0.0, 0.0);
    let mut e = emitter(5, 5, 0, 1.0, 0.0);
    e.color = Color { r: 255, g: 128, b: 0 };
    f.emitters.push(e);
    f.inject_emitters(&vec![vec![3u32 << 30]]);
    let k = f.index(5, 5);
    assert_eq!(f.density_r[k], Real(1.0));
    assert_eq!(f.density_g[k], Real(128.0 / 255.0));
    assert_eq!(f.density_b[k], Real(0.0));
    assert_eq!(f.px[k], Real(0.125f32.cos()));
    assert_eq!(f.py[k], Real(0.125f32.sin()));
    for i in 0..w * h {
        if i != k {
            assert_eq!(f.density_r[i], Real(0.0));
            assert_eq!(f.px[i], Real(0.0));
            assert_eq!(f.py[i], Real(0.0));
        }
    }
}

#[test]
fn single_cell_injection_with_a_random_draw() {
    let (w, h) = (10, 10);
    for _ in 0..50 {
        let mut red = vec![Real(0.25); w * h];
        let mut green = vec![Real(0.5); w * h];
        let mut blue = vec![Real(0.75); w * h];
        let mut px = vec![Real(2.0); w * h];
        let mut py = vec![Real(-2.0); w * h];
        let mut e = emitter(5, 5, 0, 1.0, 0.0);
        e.color = Color { r: 51, g: 102, b: 204 };
        e.inject(w, h, &mut red, &mut green, &mut blue, &mut px, &mut py, |x, y| x + y * w);
        let k = 5 + 5 * w;
        assert_eq!(red[k], Real(0.25 + 51.0 / 255.0));
        assert_eq!(green[k], Real(0.5 + 102.0 / 255.0));
        assert_eq!(blue[k], Real(0.75 + 204.0 / 255.0));
        let dx = px[k].0 - 2.0;
        let dy = py[k].0 + 2.0;
        assert!(dx <= 1.0 + 1e-6 && dx >= 0.25f32.cos() - 1e-6, "dx {}", dx);
        assert!(dy.abs() <= 0.25f32.sin() + 1e-6, "dy {}", dy);
        assert!((dx * dx + dy * dy - 1.0).abs() < 1e-5);
    }
}

#[test]
fn random_draws_differ() {
    let draws = random_draws(64);
    assert_eq!(draws.len(), 64);
    assert!(draws.iter().any(|d| *d != draws[0]));
    assert_eq!(random_draws(0).len(), 0);
}

#[test]
fn update_turns_and_wraps_once() {
    let mut e = emitter(0, 0, 1, 1.0, 6.0);
    e.rotation_speed = Real(1.0);
    e.update(Real(0.5));
    assert_eq!(e.angle, Real(6.5 - std::f32::consts::TAU));
    e.angle = Real(0.25);
    e.rotation_speed = Real(-1.0);
    e.update(Real(0.5));
    assert_eq!(e.angle, Real(-0.25 + std::f32::consts::TAU));
    e.angle = Real(1.0);
    e.rotation_speed = Real(0.5);
    e.update(Real(2.0));
    assert_eq!(e.angle, Real(2.0));
    e.angle = Real(std::f32::consts::TAU);
    e.rotation_speed = Real(0.0);
    e.update(Real(1.0));
    assert_eq!(e.angle, Real(0.0));
}

#[test]
fn update_keeps_the_angle_within_a_turn() {
    let mut k = -600;
    while k <= 1200 {
        let mut e = emitter(0, 0, 1, 1.0, 0.0);
        e.rotation_speed = Real(k as f32 * 0.01);
        e.update(Real(1.0));
        assert!(e.angle.0 >= 0.0 && e.angle.0 < std::f32::consts::TAU, "{}", k);
        k += 7;
    }
}

fn direct_step(f: &Fluid<Real>, draws: &[Vec<u32>]) -> (Vec<Vec<f32>>, Vec<f32>) {
    let (w, h) = (f.width, f.height);
    let mut dens: Vec<Vec<f32>> = vec![
        f.density_r.iter().map(|v| v.0).collect(),
        f.density_g.iter().map(|v| v.0).collect(),
        f.density_b.iter().map(|v| v.0).collect(),
    ];
    let mut px: Vec<f32> = f.px.iter().map(|v| v.0).collect();
    let mut py: Vec<f32> = f.py.iter().map(|v| v.0).collect();
    let mut angles = Vec::new();
    for e in f.emitters.iter() {
        let mut angle = e.angle.0 + e.rotation_speed.0 * f.time.0;
        if !(angle < std::f32::consts::TAU) {
            angle -= std::f32::consts::TAU;
        } else if angle < 0.0 {
            angle += std::f32::consts::TAU;
        }
        angles.push(angle);
    }
    for (n, e) in f.emitters.iter().enumerate() {
        let amounts = [
            e.color.r as f32 / 255.0 * e.strength.0,
            e.color.g as f32 / 255.0 * e.strength.0,
            e.color.b as f32 / 255.0 * e.strength.0,
        ];
        let rad = e.radius as i64;
        let mut used = 0;
        for dy in -rad..=rad {
            for dx in -rad..=rad {
                let x = e.x as i64 + dx;
                let y = e.y as i64 + dy;
                if x >= 0 && x < w as i64 && y >= 0 && y < h as i64 {
                    let k = x as usize + y as usize * w;
                    for c in 0..3 {
                        dens[c][k] += amounts[c];
                    }
                    let unit = (draws[n][used] >> 8) as f32 / 16777216.0;
                    used += 1;
                    let spread = (unit - 0.5) * 0.5;
                    let angle = angles[n] + spread;
                    px[k] += angle.cos() * e.strength.0;
                    py[k] += angle.sin() * e.strength.0;
                }
            }
        }
        assert_eq!(used, draws[n].len());
    }
    let cells = ((w - 2) * (h - 2)) as f32;
    let a = f.time.0 * f.viscosity.0 * cells;
    let c = 1.0 + 6.0 * a;
    let mut tx = px.clone();
    let mut ty = py.clone();
    direct_relax(&mut tx, &px, a, c, w, h);
    direct_relax(&mut ty, &py, a, c, w, h);
    px = tx;
    py = ty;
    direct_project(&mut px, &mut py, w, h);
    let mut nx = px.clone();
    let mut ny = py.clone();
    direct_advect(&mut nx, &px, &px, &py, f.time.0, w, h);
    direct_advect(&mut ny, &py, &px, &py, f.time.0, w, h);
    px = nx;
    py = ny;
    direct_project(&mut px, &mut py, w, h);
    for c in 0..3 {
        let mut moved = dens[c].clone();
        direct_advect(&mut moved, &dens[c], &px, &py, f.time.0, w, h);
        for v in moved.iter_mut() {
            *v *= f.dissipation.0;
        }
        dens[c] = moved;
    }
    dens.push(px);
    dens.push(py);
    (dens, angles)
}

#[test]
fn steps_match_the_direct_pipeline() {
    let (w, h) = (12, 9);
    let mut f = fluid(w, h, 0.5, 0.0, 0.0001);
    let mut first = emitter(3, 4, 1, 2.0, 1.0);
    first.rotation_speed = Real(0.7);
    first.color = Color { r: 255, g: 64, b: 0 };
    let mut second = emitter(11, 0, 2, 0.5, 6.0);
    second.rotation_speed = Real(0.9);
    second.color = Color { r: 10, g: 200, b: 255 };
    let mut third = emitter(40, 3, 3, 1.0, 0.0);
    third.rotation_speed = Real(-0.4);
    f.emitters.push(first);
    f.emitters.push(second);
    f.emitters.push(third);
    let mut seed = 77u32;
    for _ in 0..6 {
        let mut draws = Vec::new();
        for e in f.emitters.iter() {
            let mut list = Vec::new();
            for _ in 0..e.footprint_len(w, h) {
                seed = seed.wrapping_mul(1664525).wrapping_add(1013904223);
                list.push(seed);
            }
            draws.push(list);
        }
        let (expected, angles) = direct_step(&f, &draws);
        f.step_with(&draws);
        assert_eq!(bits(&f.density_r), raw_bits(&expected[0]));
        assert_eq!(bits(&f.density_g), raw_bits(&expected[1]));
        assert_eq!(bits(&f.density_b), raw_bits(&expected[2]));
        assert_eq!(bits(&f.px), raw_bits(&expected[3]));
        assert_eq!(bits(&f.py), raw_bits(&expected[4]));
        for (e, angle) in f.emitters.iter().zip(angles.iter()) {
            assert_eq!(e.angle.0.to_bits(), angle.to_bits());
        }
    }
    assert!(f.density_r.iter().any(|v| v.0 > 0.0));
}

#[test]
fn a_random_step_keeps_the_rim_of_the_velocity_field() {
    let mut f: Fluid<Real> = Fluid::new(Real(0.5), Real(0.0), Real(0.0));
    for _ in 0..3 {
        f.step();
    }
    let (w, h) = (f.width, f.height);
    assert_eq!((w, h), (200, 150));
    assert_eq!(f.px.len(), w * h);
    for x in 0..w {
        assert_eq!(f.px[x], Real(0.0));
        assert_eq!(f.py[x + (h - 1) * w], Real(0.0));
    }
    assert!(f.density_r[f.index(50, 75)].0 > 0.0);
    assert!(f.density_g[f.index(100, 75)].0 > 0.0);
    assert!(f.density_b[f.index(150, 75)].0 > 0.0);
}
