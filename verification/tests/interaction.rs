use fluid_sim::emitter::{Color, Emitter};
use fluid_sim::field::filled;
use fluid_sim::fixed::{Fixed, SCALE};
use fluid_sim::fluid::{level_of, Fluid, DEFAULT_HEIGHT, DEFAULT_WIDTH};
use fluid_sim::grid::index;
use fluid_sim::scalar::{clamp, half, neg_half, one, zero, Scalar};

fn fx(v: f64) -> Fixed {
    Fixed { raw: (v * SCALE as f64).round() as i64 }
}

fn fluid(w: usize, h: usize) -> Fluid<Fixed> {
    Fluid::with_size(w, h, fx(0.5), fx(0.0), fx(0.0)).unwrap()
}

#[test]
fn small_constants() {
    assert_eq!(zero::<Fixed>(), fx(0.0));
    assert_eq!(one::<Fixed>(), fx(1.0));
    assert_eq!(half::<Fixed>(), fx(0.5));
    assert_eq!(neg_half::<Fixed>(), fx(-0.5));
}

#[test]
fn clamp_holds_a_value_between_two_others() {
    assert_eq!(clamp(fx(0.25), fx(0.5), fx(3.5)), fx(0.5));
    assert_eq!(clamp(fx(4.0), fx(0.5), fx(3.5)), fx(3.5));
    assert_eq!(clamp(fx(2.0), fx(0.5), fx(3.5)), fx(2.0));
    assert_eq!(clamp(fx(0.5), fx(0.5), fx(3.5)), fx(0.5));
    assert_eq!(clamp(fx(3.5), fx(0.5), fx(3.5)), fx(3.5));
}

#[test]
fn cells_are_numbered_row_by_row() {
    assert_eq!(index(10, 4, 0, 0), 0);
    assert_eq!(index(10, 4, 9, 0), 9);
    assert_eq!(index(10, 4, 0, 1), 10);
    assert_eq!(index(10, 4, 7, 3), 37);
    let f = fluid(10, 4);
    assert_eq!(f.index(7, 3), 37);
}

#[test]
fn grids_the_solver_cannot_work_on() {
    let make = |w: usize, h: usize| Fluid::<Fixed>::with_size(w, h, fx(0.5), fx(0.0), fx(0.0));
    assert!(make(0, 0).is_none());
    assert!(make(1, 5).is_none());
    assert!(make(5, 1).is_none());
    assert!(make(usize::MAX, 2).is_none());
    assert!(make(2, usize::MAX).is_none());
    assert!(make(2, 2).is_some());
}

#[test]
fn a_sized_fluid_is_at_rest_and_empty() {
    let f = Fluid::<Fixed>::with_size(7, 3, fx(0.5), fx(0.25), fx(0.125)).unwrap();
    assert_eq!((f.width, f.height), (7, 3));
    assert_eq!(f.time, fx(0.5));
    assert_eq!(f.diffusion, fx(0.25));
    assert_eq!(f.viscosity, fx(0.125));
    assert_eq!(f.dissipation, Fixed::from_usize(995).over(Fixed::from_usize(1000)));
    assert_eq!(f.density_r, filled(21, fx(0.0)));
    assert_eq!(f.density_g, filled(21, fx(0.0)));
    assert_eq!(f.density_b, filled(21, fx(0.0)));
    assert_eq!(f.px, filled(21, fx(0.0)));
    assert_eq!(f.py, filled(21, fx(0.0)));
    assert!(f.emitters.is_empty());
    assert!(f.is_ready());
}

#[test]
fn a_new_fluid() {
    let f: Fluid<Fixed> = Fluid::new(fx(0.5), fx(0.0), fx(0.0));
    assert_eq!((f.width, f.height), (200, 150));
    assert_eq!((DEFAULT_WIDTH, DEFAULT_HEIGHT), (200, 150));
    assert_eq!(f.px.len(), 30000);
    assert_eq!(f.density_b.len(), 30000);
    assert!(f.is_ready());
    assert_eq!(f.emitters.len(), 3);
    let places: Vec<(usize, usize)> = f.emitters.iter().map(|e| (e.x, e.y)).collect();
    assert_eq!(places, vec![(50, 75), (100, 75), (150, 75)]);
    assert_eq!(f.emitters[0].color, Color { r: 255, g: 0, b: 0 });
    assert_eq!(f.emitters[1].color, Color { r: 0, g: 255, b: 0 });
    assert_eq!(f.emitters[2].color, Color { r: 0, g: 0, b: 255 });
    for e in f.emitters.iter() {
        assert_eq!(e.strength, fx(1.0));
        assert_eq!(e.radius, 1);
        assert_eq!(e.angle, fx(0.0));
    }
    assert!((f.dissipation.raw as f64 / SCALE as f64 - 0.995).abs() < 1e-9);
}

#[test]
fn readiness_needs_fields_that_fit() {
    let mut f = fluid(4, 4);
    assert!(f.is_ready());
    f.px.push(fx(0.0));
    assert!(!f.is_ready());
    f.px.pop();
    assert!(f.is_ready());
    f.width = 1;
    assert!(!f.is_ready());
    f.width = 8;
    f.height = 2;
    assert!(f.is_ready());
    f.density_g.pop();
    assert!(!f.is_ready());
}

#[test]
fn a_push_falls_off_with_the_squared_distance() {
    let (w, h) = (5, 5);
    let mut f = fluid(w, h);
    f.px = filled(w * h, fx(10.0));
    f.py = filled(w * h, fx(-10.0));
    let s = fx(6.0);
    f.push_velocity(2, 2, s, 2);
    let mut inside = 0;
    for y in 0..h {
        for x in 0..w {
            let dx = x as i64 - 2;
            let dy = y as i64 - 2;
            let d2 = dx * dx + dy * dy;
            let k = x + y * w;
            if d2 < 4 {
                inside += 1;
                let factor = s.over(Fixed::from_usize(d2 as usize).plus(fx(1.0)));
                assert_eq!(f.px[k], fx(10.0).plus(fx(dx as f64).times(factor)));
                assert_eq!(f.py[k], fx(-10.0).plus(fx(dy as f64).times(factor)));
            } else {
                assert_eq!(f.px[k], fx(10.0));
                assert_eq!(f.py[k], fx(-10.0));
            }
        }
    }
    assert_eq!(inside, 9);
    assert_eq!(f.px[2 + 2 * w], fx(10.0));
    assert_eq!(f.px[3 + 2 * w], fx(13.0));
    assert_eq!(f.px[1 + 2 * w], fx(7.0));
    assert_eq!(f.py[2 + 3 * w], fx(-7.0));
    assert_eq!(f.px[3 + 3 * w], fx(12.0));
    assert_eq!(f.py[1 + 1 * w], fx(-12.0));
    assert_eq!(f.density_r, filled(w * h, fx(0.0)));
}

#[test]
fn a_push_of_radius_zero_or_far_away_moves_nothing() {
    let (w, h) = (5, 4);
    let mut f = fluid(w, h);
    f.push_velocity(2, 2, fx(6.0), 0);
    assert_eq!(f.px, filled(w * h, fx(0.0)));
    f.push_velocity(2, 2, fx(6.0), 1);
    assert_eq!(f.px, filled(w * h, fx(0.0)));
    assert_eq!(f.py, filled(w * h, fx(0.0)));
    f.push_velocity(50, 50, fx(6.0), 3);
    assert_eq!(f.px, filled(w * h, fx(0.0)));
    f.push_velocity(usize::MAX, usize::MAX, fx(6.0), 4_000_000_000);
    assert_eq!(f.px, filled(w * h, fx(0.0)));
}

#[test]
fn a_push_from_outside_the_grid() {
    let (w, h) = (4, 3);
    let mut f = fluid(w, h);
    f.push_velocity(5, 1, fx(5.0), 3);
    // Only (3, 1) with offset (-2, 0) lies within three cells... and (3, 0), (3, 2).
    assert_eq!(f.px[3 + w], fx(-2.0));
    assert_eq!(f.py[3 + w], fx(0.0));
    assert_eq!(f.px[3], fx(-2.0).times(fx(5.0).over(fx(6.0))));
    assert_eq!(f.py[3], fx(-1.0).times(fx(5.0).over(fx(6.0))));
    assert_eq!(f.py[3 + 2 * w], fx(1.0).times(fx(5.0).over(fx(6.0))));
    assert_eq!(f.px[2 + w], fx(0.0));
}

#[test]
fn the_nearest_emitter() {
    let mut f = fluid(20, 20);
    assert_eq!(f.nearest_emitter(3, 3), None);
    f.emitters.push(Emitter::new(2, 2));
    assert_eq!(f.nearest_emitter(19, 19), Some(0));
    f.emitters.push(Emitter::new(10, 10));
    f.emitters.push(Emitter::new(18, 2));
    assert_eq!(f.nearest_emitter(3, 3), Some(0));
    assert_eq!(f.nearest_emitter(9, 12), Some(1));
    assert_eq!(f.nearest_emitter(19, 0), Some(2));
    // Equally near to the first and the third: the first stays.
    assert_eq!(f.nearest_emitter(10, 2), Some(0));
    assert_eq!(f.nearest_emitter(10, 6), Some(1));
}

#[test]
fn dragging_moves_the_nearest_emitter() {
    let mut f = fluid(20, 20);
    assert_eq!(f.drag_emitter(3, 3), None);
    let mut first = Emitter::new(2, 2);
    first.strength = fx(4.0);
    first.color = Color { r: 1, g: 2, b: 3 };
    f.emitters.push(first);
    f.emitters.push(Emitter::new(10, 10));
    assert_eq!(f.drag_emitter(4, 5), Some(0));
    assert_eq!((f.emitters[0].x, f.emitters[0].y), (4, 5));
    assert_eq!(f.emitters[0].strength, fx(4.0));
    assert_eq!(f.emitters[0].color, Color { r: 1, g: 2, b: 3 });
    assert_eq!((f.emitters[1].x, f.emitters[1].y), (10, 10));
    assert_eq!(f.drag_emitter(19, 19), Some(1));
    assert_eq!((f.emitters[1].x, f.emitters[1].y), (19, 19));
    assert_eq!(f.drag_emitter(20, 3), None);
    assert_eq!(f.drag_emitter(3, 20), None);
    assert_eq!((f.emitters[0].x, f.emitters[0].y), (4, 5));
    assert_eq!((f.emitters[1].x, f.emitters[1].y), (19, 19));
}

#[test]
fn display_levels() {
    assert_eq!(level_of(fx(0.0)), 0);
    assert_eq!(level_of(fx(1.0)), 255);
    assert_eq!(level_of(fx(0.5)), 127);
    assert_eq!(level_of(fx(7.0)), 255);
    assert_eq!(level_of(fx(-3.0)), 0);
    assert_eq!(level_of(Fixed::from_usize(51).over(Fixed::from_usize(255))), 50);
    assert_eq!(level_of(fx(0.25)), 63);
    assert_eq!(level_of(Fixed { raw: SCALE / 255 }), 0);
    assert_eq!(level_of(Fixed { raw: SCALE / 255 + 1 }), 1);
}

#[test]
fn the_shade_of_a_cell() {
    let mut f = fluid(4, 4);
    let k = f.index(1, 2);
    f.density_r[k] = fx(1.0);
    f.density_g[k] = fx(0.5);
    f.density_b[k] = fx(9.0);
    assert_eq!(f.shade(1, 2), Color { r: 255, g: 127, b: 255 });
    assert_eq!(f.shade(2, 1), Color { r: 0, g: 0, b: 0 });
}

#[test]
fn turning_the_emitters_leaves_the_fields() {
    let mut f = fluid(6, 6);
    f.time = fx(2.0);
    let mut e = Emitter::new(3, 3);
    e.rotation_speed = fx(0.25);
    f.emitters.push(e);
    e.rotation_speed = fx(-0.25);
    f.emitters.push(e);
    f.turn_emitters();
    assert_eq!(f.emitters[0].angle, fx(0.5));
    assert_eq!(f.emitters[1].angle.raw, fx(-0.5).raw + fluid_sim::fixed::TAU_RAW);
    assert_eq!(f.px, filled(36, fx(0.0)));
    assert_eq!(f.density_r, filled(36, fx(0.0)));
}

#[test]
fn settling_a_fluid_at_rest_changes_nothing_but_density() {
    let mut f = fluid(6, 6);
    f.dissipation = fx(0.5);
    f.density_r = filled(36, fx(2.0));
    f.settle();
    assert_eq!(f.density_r, filled(36, fx(1.0)));
    assert_eq!(f.density_g, filled(36, fx(0.0)));
    assert_eq!(f.px, filled(36, fx(0.0)));
    assert_eq!(f.py, filled(36, fx(0.0)));
}
