//! A fixed-point number with 32 fractional bits whose arithmetic saturates
//! instead of overflowing and rounds towards zero.
//!
//! Results do not depend on the machine, which makes runs of the solver on
//! `Fixed` reproducible bit for bit.

use crate::scalar::{Scalar, spec_half, spec_neg_half};
use vstd::prelude::*;

verus! {

/// The raw value of one.
pub const SCALE: i64 = 4294967296;

/// The raw value of a full turn, 2π.
pub const TAU_RAW: i64 = 26986075409;

/// The raw value of a quarter turn, π/2.
pub const QUARTER_RAW: i64 = 6746518852;

/// The number `raw / 2^32`.
#[derive(Clone, Copy, Debug, PartialEq, Eq, Structural)]
pub struct Fixed {
    pub raw: i64,
}

/// `v`, or the nearest raw value where `v` is out of range.
pub open spec fn saturate(v: int) -> i64 {
    if v < i64::MIN {
        i64::MIN
    } else if v > i64::MAX {
        i64::MAX
    } else {
        v as i64
    }
}

pub open spec fn magnitude(v: int) -> int {
    if v < 0 {
        -v
    } else {
        v
    }
}

pub open spec fn with_sign(negative: bool, m: int) -> int {
    if negative {
        -m
    } else {
        m
    }
}

/// Raw value of a product: exact, rounded towards zero, saturated.
pub open spec fn product_raw(a: i64, b: i64) -> i64 {
    saturate(
        with_sign((a < 0) != (b < 0), magnitude(a as int) * magnitude(b as int) / (SCALE as int)),
    )
}

/// Raw value of a quotient: exact, rounded towards zero, saturated. A
/// division by zero gives the largest value of the dividend's sign, and
/// zero for zero.
pub open spec fn quotient_raw(a: i64, b: i64) -> i64 {
    if b == 0 {
        if a > 0 {
            i64::MAX
        } else if a < 0 {
            i64::MIN
        } else {
            0
        }
    } else {
        saturate(
            with_sign((a < 0) != (b < 0), magnitude(a as int) * SCALE / magnitude(b as int)),
        )
    }
}

/// The angle of raw value `raw`, brought into `[0, 2π)` by whole turns.
pub open spec fn reduced(raw: i64) -> int {
    if raw >= 0 {
        (raw as int) % (TAU_RAW as int)
    } else {
        let m = (-raw) % (TAU_RAW as int);
        if m == 0 {
            0
        } else {
            TAU_RAW - m
        }
    }
}

/// The multiple of a quarter turn nearest to the reduced angle `r`.
pub open spec fn quadrant(r: int) -> int {
    (r + QUARTER_RAW / 2) / (QUARTER_RAW as int)
}

/// What is left of the reduced angle `r` beyond its nearest quarter turn;
/// at most an eighth of a turn either way.
pub open spec fn residue(r: int) -> Fixed {
    Fixed { raw: (r - quadrant(r) * QUARTER_RAW) as i64 }
}

pub open spec fn whole(n: usize) -> Fixed {
    Fixed { raw: saturate(n * SCALE) }
}

pub open spec fn negated(v: Fixed) -> Fixed {
    Fixed { raw: saturate(-v.raw) }
}

/// The sine series up to the seventh power, for small angles:
/// `p (1 - p²/6 (1 - p²/20 (1 - p²/42)))`.
pub open spec fn sin_series(p: Fixed) -> Fixed {
    let sq = p.spec_times(p);
    let one = whole(1);
    p.spec_times(
        one.spec_minus(
            sq.spec_over(whole(6)).spec_times(
                one.spec_minus(
                    sq.spec_over(whole(20)).spec_times(one.spec_minus(sq.spec_over(whole(42)))),
                ),
            ),
        ),
    )
}

/// The cosine series up to the eighth power, for small angles:
/// `1 - p²/2 (1 - p²/12 (1 - p²/30 (1 - p²/56)))`.
pub open spec fn cos_series(p: Fixed) -> Fixed {
    let sq = p.spec_times(p);
    let one = whole(1);
    one.spec_minus(
        sq.spec_over(whole(2)).spec_times(
            one.spec_minus(
                sq.spec_over(whole(12)).spec_times(
                    one.spec_minus(
                        sq.spec_over(whole(30)).spec_times(one.spec_minus(sq.spec_over(whole(56)))),
                    ),
                ),
            ),
        ),
    )
}

/// Whole numbers below 2^31 are represented exactly, and are their own
/// floor.
pub proof fn lemma_whole_exact(n: usize)
    requires
        n < 0x8000_0000,
    ensures
        whole(n).raw == n * SCALE,
        whole(n).spec_floor_index() == n,
{
    assert(n * SCALE / (SCALE as int) == n);
}

/// Zero times anything is zero.
pub proof fn lemma_times_zero(a: Fixed)
    ensures
        a.spec_times(whole(0)) == whole(0),
        whole(0).spec_times(a) == whole(0),
{
    assert(magnitude(a.raw as int) * 0 == 0);
    assert(0 * magnitude(a.raw as int) == 0);
}

/// One times anything is that thing.
pub proof fn lemma_times_one(a: Fixed)
    ensures
        a.spec_times(whole(1)) == a,
        whole(1).spec_times(a) == a,
{
    let m = magnitude(a.raw as int);
    assert(m * SCALE / (SCALE as int) == m);
    assert(SCALE * m == m * SCALE);
}

/// Adding or taking away zero changes nothing.
pub proof fn lemma_plus_zero(a: Fixed)
    ensures
        a.spec_plus(whole(0)) == a,
        whole(0).spec_plus(a) == a,
        a.spec_minus(whole(0)) == a,
{
}

/// Zero over anything is zero.
pub proof fn lemma_zero_over(c: Fixed)
    ensures
        whole(0).spec_over(c) == whole(0),
{
    if c.raw != 0 {
        let m = magnitude(c.raw as int);
        assert(0 * SCALE / m == 0) by (nonlinear_arith)
            requires
                m > 0,
        ;
    }
}

/// One half is exact.
pub proof fn lemma_half()
    ensures
        spec_half::<Fixed>() == (Fixed { raw: 2147483648 }),
        spec_neg_half::<Fixed>() == (Fixed { raw: (-2147483648i64) }),
{
    assert(whole(1).raw == 4294967296);
    assert(whole(2).raw == 8589934592);
    assert(4294967296int * 4294967296 / 8589934592 == 2147483648) by (nonlinear_arith);
}

/// At angle zero the cosine is exactly one and the sine exactly zero.
pub proof fn lemma_trig_at_zero()
    ensures
        whole(0).spec_cos() == whole(1),
        whole(0).spec_sin() == whole(0),
{
    let zero = whole(0);
    assert(reduced(0) == 0);
    assert(quadrant(0) == 0);
    assert(residue(0) == zero);
    lemma_times_zero(zero);
    lemma_zero_over(whole(2));
    lemma_plus_zero(whole(1));
    let inner = whole(1).spec_minus(
        zero.spec_over(whole(12)).spec_times(
            whole(1).spec_minus(
                zero.spec_over(whole(30)).spec_times(
                    whole(1).spec_minus(zero.spec_over(whole(56))),
                ),
            ),
        ),
    );
    lemma_times_zero(inner);
    assert(cos_series(zero) == whole(1));
    lemma_times_zero(
        whole(1).spec_minus(
            zero.spec_over(whole(6)).spec_times(
                whole(1).spec_minus(
                    zero.spec_over(whole(20)).spec_times(
                        whole(1).spec_minus(zero.spec_over(whole(42))),
                    ),
                ),
            ),
        ),
    );
    assert(sin_series(zero) == zero);
}

/// A value that is not negative, times a factor between zero and one, is
/// not negative and not larger than it was.
pub proof fn lemma_times_fraction(d: Fixed, f: Fixed)
    requires
        0 <= d.raw,
        0 <= f.raw <= SCALE,
    ensures
        0 <= d.spec_times(f).raw <= d.raw,
{
    let a = d.raw as int;
    let b = f.raw as int;
    assert(0 <= a * b <= a * SCALE) by (nonlinear_arith)
        requires
            0 <= a,
            0 <= b <= SCALE,
    ;
    assert(a * SCALE / (SCALE as int) == a);
    assert(0 <= a * b / (SCALE as int) <= a * SCALE / (SCALE as int)) by (nonlinear_arith)
        requires
            0 <= a * b <= a * SCALE,
            SCALE > 0,
    ;
}

fn saturating(v: i128) -> (r: i64)
    ensures
        r == saturate(v as int),
{
    if v < -9223372036854775808i128 {
        i64::MIN
    } else if v > 9223372036854775807i128 {
        i64::MAX
    } else {
        v as i64
    }
}

fn magnitude_of(v: i64) -> (m: u128)
    ensures
        m == magnitude(v as int),
        m <= 9223372036854775808,
{
    if v < 0 {
        let wide: i128 = v as i128;
        (-wide) as u128
    } else {
        v as u128
    }
}

fn signed(negative: bool, m: u128) -> (r: i128)
    requires
        m <= 0x4000_0000_0000_0000_0000_0000_0000_0000,
    ensures
        r == with_sign(negative, m as int),
{
    if negative {
        -(m as i128)
    } else {
        m as i128
    }
}

fn negate(v: Fixed) -> (r: Fixed)
    ensures
        r == negated(v),
{
    Fixed { raw: saturating(-(v.raw as i128)) }
}

fn reduce(raw: i64) -> (r: i64)
    ensures
        r == reduced(raw),
        0 <= r < TAU_RAW,
{
    if raw >= 0 {
        raw % TAU_RAW
    } else {
        let m: u128 = magnitude_of(raw) % 26986075409u128;
        if m == 0 {
            0
        } else {
            TAU_RAW - (m as i64)
        }
    }
}

/// Quadrant and residue of a reduced angle.
fn split(r: i64) -> (qp: (i64, Fixed))
    requires
        0 <= r < TAU_RAW,
    ensures
        qp.0 == quadrant(r as int),
        qp.1 == residue(r as int),
        0 <= qp.0 <= 4,
{
    let q: i64 = (r + QUARTER_RAW / 2) / QUARTER_RAW;
    (q, Fixed { raw: r - q * QUARTER_RAW })
}

fn sin_small(p: Fixed) -> (r: Fixed)
    ensures
        r == sin_series(p),
{
    let sq = p.times(p);
    let one = Fixed::from_usize(1);
    p.times(
        one.minus(
            sq.over(Fixed::from_usize(6)).times(
                one.minus(
                    sq.over(Fixed::from_usize(20)).times(one.minus(sq.over(Fixed::from_usize(42)))),
                ),
            ),
        ),
    )
}

fn cos_small(p: Fixed) -> (r: Fixed)
    ensures
        r == cos_series(p),
{
    let sq = p.times(p);
    let one = Fixed::from_usize(1);
    one.minus(
        sq.over(Fixed::from_usize(2)).times(
            one.minus(
                sq.over(Fixed::from_usize(12)).times(
                    one.minus(
                        sq.over(Fixed::from_usize(30)).times(
                            one.minus(sq.over(Fixed::from_usize(56))),
                        ),
                    ),
                ),
            ),
        ),
    )
}

impl Scalar for Fixed {
    open spec fn spec_from_usize(n: usize) -> Self {
        whole(n)
    }

    open spec fn spec_tau() -> Self {
        Fixed { raw: TAU_RAW }
    }

    open spec fn spec_plus(self, rhs: Self) -> Self {
        Fixed { raw: saturate(self.raw + rhs.raw) }
    }

    open spec fn spec_minus(self, rhs: Self) -> Self {
        Fixed { raw: saturate(self.raw - rhs.raw) }
    }

    open spec fn spec_times(self, rhs: Self) -> Self {
        Fixed { raw: product_raw(self.raw, rhs.raw) }
    }

    open spec fn spec_over(self, rhs: Self) -> Self {
        Fixed { raw: quotient_raw(self.raw, rhs.raw) }
    }

    open spec fn spec_less(self, rhs: Self) -> bool {
        self.raw < rhs.raw
    }

    open spec fn spec_floor_index(self) -> usize {
        if self.raw < 0 {
            0
        } else {
            (self.raw / SCALE) as usize
        }
    }

    /// Cosine by the series around the nearest quarter turn.
    open spec fn spec_cos(self) -> Self {
        let r = reduced(self.raw);
        let p = residue(r);
        let q = quadrant(r) % 4;
        if q == 0 {
            cos_series(p)
        } else if q == 1 {
            negated(sin_series(p))
        } else if q == 2 {
            negated(cos_series(p))
        } else {
            sin_series(p)
        }
    }

    /// Sine by the series around the nearest quarter turn.
    open spec fn spec_sin(self) -> Self {
        let r = reduced(self.raw);
        let p = residue(r);
        let q = quadrant(r) % 4;
        if q == 0 {
            sin_series(p)
        } else if q == 1 {
            cos_series(p)
        } else if q == 2 {
            negated(sin_series(p))
        } else {
            negated(cos_series(p))
        }
    }

    fn from_usize(n: usize) -> (r: Self) {
        proof {
            assert(n * SCALE <= 0x1_0000_0000_0000_0000 * SCALE) by (nonlinear_arith)
                requires
                    n <= 0x1_0000_0000_0000_0000,
            ;
        }
        Fixed { raw: saturating((n as i128) * (SCALE as i128)) }
    }

    fn tau() -> (r: Self) {
        Fixed { raw: TAU_RAW }
    }

    fn plus(self, rhs: Self) -> (r: Self) {
        Fixed { raw: saturating(self.raw as i128 + rhs.raw as i128) }
    }

    fn minus(self, rhs: Self) -> (r: Self) {
        Fixed { raw: saturating(self.raw as i128 - rhs.raw as i128) }
    }

    fn times(self, rhs: Self) -> (r: Self) {
        let a: u128 = magnitude_of(self.raw);
        let b: u128 = magnitude_of(rhs.raw);
        proof {
            assert(a * b <= 0x4000_0000_0000_0000_0000_0000_0000_0000) by (nonlinear_arith)
                requires
                    0 <= a <= 0x8000_0000_0000_0000,
                    0 <= b <= 0x8000_0000_0000_0000,
            ;
        }
        let q: u128 = a * b / 4294967296u128;
        Fixed { raw: saturating(signed((self.raw < 0) != (rhs.raw < 0), q)) }
    }

    fn over(self, rhs: Self) -> (r: Self) {
        if rhs.raw == 0 {
            if self.raw > 0 {
                Fixed { raw: i64::MAX }
            } else if self.raw < 0 {
                Fixed { raw: i64::MIN }
            } else {
                Fixed { raw: 0 }
            }
        } else {
            let a: u128 = magnitude_of(self.raw);
            let b: u128 = magnitude_of(rhs.raw);
            proof {
                assert(a * 4294967296 <= 0x8000_0000_0000_0000 * 4294967296) by (nonlinear_arith)
                    requires
                        0 <= a <= 0x8000_0000_0000_0000,
                ;
            }
            let n: u128 = a * 4294967296u128;
            let q: u128 = n / b;
            proof {
                assert(n / b <= n) by (nonlinear_arith)
                    requires
                        0 <= n,
                        1 <= b,
                ;
            }
            Fixed { raw: saturating(signed((self.raw < 0) != (rhs.raw < 0), q)) }
        }
    }

    fn less(self, rhs: Self) -> (r: bool) {
        self.raw < rhs.raw
    }

    fn floor_index(self) -> (r: usize) {
        if self.raw < 0 {
            0
        } else {
            (self.raw / SCALE) as usize
        }
    }

    fn cos(self) -> (r: Self) {
        let (q, p) = split(reduce(self.raw));
        let q4: i64 = q % 4;
        if q4 == 0 {
            cos_small(p)
        } else if q4 == 1 {
            negate(sin_small(p))
        } else if q4 == 2 {
            negate(cos_small(p))
        } else {
            sin_small(p)
        }
    }

    fn sin(self) -> (r: Self) {
        let (q, p) = split(reduce(self.raw));
        let q4: i64 = q % 4;
        if q4 == 0 {
            sin_small(p)
        } else if q4 == 1 {
            cos_small(p)
        } else if q4 == 2 {
            negate(sin_small(p))
        } else {
            negate(cos_small(p))
        }
    }
}

} // verus!
