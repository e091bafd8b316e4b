use fluid_sim::emitter::{draw_jitter, Color, Emitter};
use fluid_sim::field::filled;
use fluid_sim::fixed::{Fixed, SCALE, TAU_RAW};
use fluid_sim::scalar::Scalar;

fn fx(v: f64) -> Fixed {
    Fixed { raw: (v * SCALE as f64).round() as i64 }
}

fn val(v: Fixed) -> f64 {
    v.raw as f64 / SCALE as f64
}

struct Grid {
    w: usize,
    h: usize,
    red: Vec<Fixed>,
    green: Vec<Fixed>,
    blue: Vec<Fixed>,
    px: Vec<Fixed>,
    py: Vec<Fixed>,
}

impl Grid {
    fn new(w: usize, h: usize) -> Grid {
        Grid {
            w,
            h,
            red: filled(w * h, fx(0.0)),
            green: filled(w * h, fx(0.0)),
            blue: filled(w * h, fx(0.0)),
            px: filled(w * h, fx(0.0)),
            py: filled(w * h, fx(0.0)),
        }
    }

    fn inject(&mut self, e: &Emitter<Fixed>, draws: &Vec<u32>) {
        let w = self.w;
        e.inject_with(
            self.w,
            self.h,
            &mut self.red,
            &mut self.green,
            &mut self.blue,
            &mut self.px,
            &mut self.py,
            |x, y| x + y * w,
            draws,
        );
    }

    fn touched(&self) -> Vec<(usize, usize)> {
        let mut cells = Vec::new();
        for y in 0..self.h {
            for x in 0..self.w {
                if self.red[x + y * self.w].raw != 0 {
                    cells.push((x, y));
                }
            }
        }
        cells
    }
}

#[test]
fn a_new_emitter() {
    let e: Emitter<Fixed> = Emitter::new(7, 9);
    assert_eq!((e.x, e.y), (7, 9));
    assert_eq!(e.strength, fx(1.0));
    assert_eq!(e.radius, 1);
    assert_eq!(e.angle, fx(0.0));
    assert_eq!(e.rotation_speed, fx(0.0));
    assert_eq!(e.color, Color { r: 255, g: 255, b: 255 });
    assert_eq!(Color::white(), Color { r: 255, g: 255, b: 255 });
}

#[test]
fn footprint_sizes() {
    let at = |x: usize, y: usize, radius: usize| {
        let mut e: Emitter<Fixed> = Emitter::new(x, y);
        e.radius = radius;
        e.footprint_len(10, 8)
    };
    assert_eq!(at(5, 4, 0), 1);
    assert_eq!(at(5, 4, 1), 9);
    assert_eq!(at(5, 4, 2), 25);
    assert_eq!(at(0, 0, 1), 4);
    assert_eq!(at(9, 7, 1), 4);
    assert_eq!(at(0, 4, 2), 15);
    assert_eq!(at(5, 4, 100), 80);
    assert_eq!(at(10, 4, 0), 0);
    assert_eq!(at(10, 4, 1), 3);
    assert_eq!(at(12, 4, 1), 0);
    assert_eq!(at(5, 9, 1), 0);
    assert_eq!(at(5, 8, 1), 3);
    assert_eq!(at(usize::MAX, usize::MAX, 3), 0);
    assert_eq!(at(usize::MAX, usize::MAX, usize::MAX), 80);
    assert_eq!(at(3, 3, usize::MAX), 80);
}

#[test]
fn injection_covers_the_square_inside_the_grid() {
    let mut g = Grid::new(6, 5);
    let mut e: Emitter<Fixed> = Emitter::new(5, 0);
    e.radius = 1;
    e.inject(g.w, g.h, &mut g.red, &mut g.green, &mut g.blue, &mut g.px, &mut g.py, |x, y| {
        x + y * 6
    });
    assert_eq!(g.touched(), vec![(4, 0), (5, 0), (4, 1), (5, 1)]);

    let mut g = Grid::new(6, 5);
    let mut e: Emitter<Fixed> = Emitter::new(2, 2);
    e.radius = 1;
    g.inject(&e, &vec![0; 9]);
    assert_eq!(
        g.touched(),
        vec![(1, 1), (2, 1), (3, 1), (1, 2), (2, 2), (3, 2), (1, 3), (2, 3), (3, 3)]
    );

    let mut g = Grid::new(6, 5);
    e.x = 9;
    g.inject(&e, &vec![]);
    assert_eq!(g.touched(), vec![]);
}

#[test]
fn injection_adds_colour_over_255_times_strength() {
    let mut g = Grid::new(4, 4);
    let mut e: Emitter<Fixed> = Emitter::new(1, 2);
    e.radius = 0;
    e.strength = fx(3.0);
    e.color = Color { r: 255, g: 51, b: 0 };
    g.inject(&e, &vec![9]);
    let k = 1 + 2 * 4;
    assert_eq!(g.red[k], fx(3.0));
    assert_eq!(g.green[k], Fixed::from_usize(51).over(Fixed::from_usize(255)).times(fx(3.0)));
    assert!((val(g.green[k]) - 0.6).abs() < 1e-9);
    assert_eq!(g.blue[k], fx(0.0));
}

#[test]
fn injection_accumulates() {
    let mut g = Grid::new(4, 4);
    let mut e: Emitter<Fixed> = Emitter::new(1, 2);
    e.radius = 0;
    g.inject(&e, &vec![1 << 31]);
    g.inject(&e, &vec![1 << 31]);
    g.inject(&e, &vec![1 << 31]);
    let k = 1 + 2 * 4;
    assert_eq!(g.red[k], fx(3.0));
    assert_eq!(g.px[k], fx(3.0));
    assert_eq!(g.py[k], fx(0.0));
}

#[test]
fn every_cell_is_turned_by_its_own_draw() {
    let mut g = Grid::new(5, 5);
    let mut e: Emitter<Fixed> = Emitter::new(4, 2);
    e.radius = 1;
    e.strength = fx(2.0);
    e.angle = fx(1.0);
    let draws: Vec<u32> = vec![0, 0x4000_0000, 0x8000_0000, 0xc000_0000, 0xffff_ffff, 0x1000_0000];
    g.inject(&e, &draws);
    let cells = [(3, 1), (4, 1), (3, 2), (4, 2), (3, 3), (4, 3)];
    for (n, (x, y)) in cells.iter().enumerate() {
        let heading = fx(1.0).plus(draw_jitter::<Fixed>(draws[n]));
        assert_eq!(g.px[x + y * 5], heading.cos().times(fx(2.0)));
        assert_eq!(g.py[x + y * 5], heading.sin().times(fx(2.0)));
    }
    assert_eq!(draw_jitter::<Fixed>(0), fx(-0.25));
    assert_eq!(draw_jitter::<Fixed>(0x4000_0000), fx(-0.125));
    assert_eq!(draw_jitter::<Fixed>(0x8000_0000), fx(0.0));
    assert_eq!(draw_jitter::<Fixed>(0xc000_0000), fx(0.125));
    let top = draw_jitter::<Fixed>(0xffff_ffff);
    assert!(top.raw < SCALE / 4 && top.raw > SCALE / 4 - 256);
    assert!((val(g.px[3 + 5]) - 2.0 * 0.75f64.cos()).abs() < 1e-5);
    assert!((val(g.py[3 + 5]) - 2.0 * 0.75f64.sin()).abs() < 1e-5);
}

#[test]
fn an_emitter_of_strength_zero_injects_nothing() {
    let mut g = Grid::new(5, 5);
    g.red = filled(25, fx(0.5));
    g.px = filled(25, fx(-1.5));
    g.py = filled(25, fx(2.5));
    let mut e: Emitter<Fixed> = Emitter::new(2, 2);
    e.strength = fx(0.0);
    e.angle = fx(1.0);
    g.inject(&e, &vec![123456789; 9]);
    assert_eq!(g.red, filled(25, fx(0.5)));
    assert_eq!(g.green, filled(25, fx(0.0)));
    assert_eq!(g.px, filled(25, fx(-1.5)));
    assert_eq!(g.py, filled(25, fx(2.5)));
}

#[test]
fn injection_leaves_the_emitter_alone() {
    let mut g = Grid::new(5, 5);
    let mut e: Emitter<Fixed> = Emitter::new(2, 2);
    e.angle = fx(1.0);
    e.rotation_speed = fx(0.5);
    g.inject(&e, &vec![5; 9]);
    assert_eq!(e.angle, fx(1.0));
    assert_eq!((e.x, e.y, e.radius), (2, 2, 1));
}

fn turned(angle: f64, speed: f64, dt: f64) -> Fixed {
    let mut e: Emitter<Fixed> = Emitter::new(0, 0);
    e.angle = fx(angle);
    e.rotation_speed = fx(speed);
    e.update(fx(dt));
    assert_eq!(e.rotation_speed, fx(speed));
    assert_eq!((e.x, e.y, e.radius), (0, 0, 1));
    e.angle
}

#[test]
fn update_turns_by_speed_times_time() {
    assert_eq!(turned(1.0, 0.5, 0.5), fx(1.25));
    assert_eq!(turned(1.0, -0.5, 0.5), fx(0.75));
    assert_eq!(turned(1.0, 0.5, 0.0), fx(1.0));
}

#[test]
fn update_wraps_by_one_turn() {
    assert_eq!(turned(6.0, 1.0, 0.5).raw, fx(6.5).raw - TAU_RAW);
    assert_eq!(turned(0.25, -1.0, 0.5).raw, fx(-0.25).raw + TAU_RAW);
    let mut e: Emitter<Fixed> = Emitter::new(0, 0);
    e.angle = Fixed { raw: TAU_RAW };
    e.update(fx(1.0));
    assert_eq!(e.angle.raw, 0);
    e.angle = Fixed { raw: TAU_RAW - 1 };
    e.update(fx(1.0));
    assert_eq!(e.angle.raw, TAU_RAW - 1);
}

#[test]
fn update_keeps_a_fixed_point_angle_within_a_turn() {
    let mut k = -628;
    while k < 1256 {
        let a = turned(0.0, k as f64 * 0.01, 1.0);
        assert!(a.raw >= 0 && a.raw < TAU_RAW, "{}", k);
        let b = turned(3.0, (k as f64 * 0.01 - 3.0) * 2.0, 0.5);
        assert!(b.raw >= 0 && b.raw < TAU_RAW, "{}", k);
        k += 1;
    }
}

#[test]
fn update_wraps_only_once() {
    assert_eq!(turned(0.0, 100.0, 1.0).raw, fx(100.0).raw - TAU_RAW);
    assert_eq!(turned(0.0, -100.0, 1.0).raw, fx(-100.0).raw + TAU_RAW);
}
