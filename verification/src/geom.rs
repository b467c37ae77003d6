//! Geometry primitives on fixed-point integers.
//!
//! Lengths are milli-pixels, speeds milli-pixels per second, angles
//! millidegrees, durations milliseconds. All trigonometry is integer
//! arithmetic: sine and cosine use a rational approximation, and the angle
//! of a vector is recovered by a binary search over that approximation.

use vstd::prelude::*;
use vstd::arithmetic::div_mod::*;

verus! {

/// Fixed-point scale: one pixel, one second, or one unit of throttle is
/// represented as this many integer steps.
pub const SCALE: i64 = 1000;

/// A full turn, in millidegrees.
pub const TURN: i64 = 360_000;

/// Half a turn, in millidegrees.
pub const HALF_TURN: i64 = 180_000;

/// A quarter turn, in millidegrees.
pub const QUARTER_TURN: i64 = 90_000;

/// Largest unnormalized angle magnitude the library works with.
pub const MAX_ANGLE: i64 = 100_000_000;

/// Largest coordinate magnitude of a world position, in milli-pixels.
pub const MAX_COORD: i64 = 100_000_000;

/// Largest speed magnitude of an entity, in milli-pixels per second.
pub const MAX_SPEED: i64 = 10_000_000;

/// Largest collision radius, in milli-pixels.
pub const MAX_RADIUS: i64 = 10_000_000;

/// Largest projection interval, in milliseconds.
pub const MAX_INTERVAL_MS: u64 = 10_000;

/// Largest magnitude of a velocity derived from two history samples:
/// a displacement of at most `2 * MAX_COORD` over at least one millisecond.
pub const MAX_RATE: i64 = 200_000_000_000;

pub open spec fn abs_i(a: int) -> int {
    if a < 0 {
        -a
    } else {
        a
    }
}

/// A product of bounded factors is bounded by the product of the bounds.
pub proof fn lemma_mul_bound(x: int, y: int, mx: int, my: int)
    requires
        -mx <= x <= mx,
        -my <= y <= my,
        0 <= mx,
        0 <= my,
    ensures
        -(mx * my) <= x * y <= mx * my,
{
    assert(-(mx * my) <= x * y <= mx * my) by (nonlinear_arith)
        requires
            -mx <= x <= mx,
            -my <= y <= my,
            0 <= mx,
            0 <= my,
    ;
}

/// An immutable 2D coordinate, in milli-pixels.
#[derive(Clone, Copy, PartialEq, Eq, Structural, Debug)]
pub struct Point {
    pub x: i64,
    pub y: i64,
}

/// A 2D displacement or velocity, in milli-pixels (per second).
#[derive(Clone, Copy, PartialEq, Eq, Structural, Debug)]
pub struct Vector {
    pub dx: i64,
    pub dy: i64,
}

/// An angle in millidegrees; `positive` yields the canonical
/// representative in `[0, TURN)`.
#[derive(Clone, Copy, PartialEq, Eq, Structural, Debug)]
pub struct Angle {
    pub mdeg: i64,
}

impl Point {
    pub fn zero() -> (r: Point)
        ensures
            r == (Point { x: 0i64, y: 0i64 }),
    {
        Point { x: 0, y: 0 }
    }

    pub open spec fn bounded(self) -> bool {
        -MAX_COORD <= self.x <= MAX_COORD && -MAX_COORD <= self.y <= MAX_COORD
    }
}

impl Vector {
    pub fn zero() -> (r: Vector)
        ensures
            r == (Vector { dx: 0i64, dy: 0i64 }),
    {
        Vector { dx: 0, dy: 0 }
    }

    pub open spec fn bounded_by(self, m: int) -> bool {
        -m <= self.dx <= m && -m <= self.dy <= m
    }
}

/// The canonical form of an angle: its Euclidean remainder modulo a turn,
/// always in `[0, TURN)`.
pub open spec fn norm(a: int) -> int {
    a % (TURN as int)
}

impl Angle {
    pub fn new(mdeg: i64) -> (r: Angle)
        ensures
            r.mdeg == mdeg,
    {
        Angle { mdeg }
    }

    pub fn zero() -> (r: Angle)
        ensures
            r.mdeg == 0,
    {
        Angle { mdeg: 0 }
    }

    /// An angle of the given number of whole degrees.
    pub fn degrees(d: i64) -> (r: Angle)
        requires
            -360 <= d <= 360,
        ensures
            r.mdeg == d * 1000,
    {
        Angle { mdeg: d * 1000 }
    }

    pub open spec fn bounded(self) -> bool {
        -MAX_ANGLE <= self.mdeg <= MAX_ANGLE
    }

    /// The canonical representative of this angle in `[0, TURN)`.
    pub fn positive(self) -> (r: Angle)
        requires
            self.bounded(),
        ensures
            r.mdeg == norm(self.mdeg as int),
            0 <= r.mdeg < TURN,
    {
        if self.mdeg >= 0 {
            let r = (self.mdeg as u64 % 360_000) as i64;
            proof {
                lemma_fundamental_div_mod(self.mdeg as int, TURN as int);
            }
            Angle { mdeg: r }
        } else {
            let x = (-self.mdeg) as u64;
            let k = x % 360_000;
            let q = x / 360_000;
            proof {
                lemma_fundamental_div_mod(x as int, TURN as int);
                if k == 0 {
                    lemma_fundamental_div_mod_converse_mod(
                        self.mdeg as int,
                        TURN as int,
                        -(q as int),
                        0,
                    );
                } else {
                    lemma_fundamental_div_mod_converse_mod(
                        self.mdeg as int,
                        TURN as int,
                        -(q as int) - 1,
                        TURN - k as int,
                    );
                }
            }
            if k == 0 {
                Angle { mdeg: 0 }
            } else {
                Angle { mdeg: 360_000 - k as i64 }
            }
        }
    }
}

/// The normalized angular distance between two angles: the length of the
/// shortest path around the circle, in `[0, HALF_TURN]`.
pub open spec fn ang_dist(a: int, b: int) -> int {
    let d = abs_i(norm(a) - norm(b));
    if d > HALF_TURN {
        TURN - d
    } else {
        d
    }
}

/// Shortest-path angular distance of two angles, on their canonical forms.
pub fn angle_dist(a: Angle, b: Angle) -> (r: i64)
    requires
        a.bounded(),
        b.bounded(),
    ensures
        r == ang_dist(a.mdeg as int, b.mdeg as int),
        0 <= r <= HALF_TURN,
{
    let na = a.positive().mdeg;
    let nb = b.positive().mdeg;
    let d = if na >= nb {
        na - nb
    } else {
        nb - na
    };
    if d > HALF_TURN {
        360_000 - d
    } else {
        d
    }
}

/// Squared distance between two points.
pub open spec fn dist_sq(a: Point, b: Point) -> int {
    (a.x - b.x) * (a.x - b.x) + (a.y - b.y) * (a.y - b.y)
}

/// Squared distance between two points whose coordinates stay within four
/// times the world bound (room for projected positions).
pub fn distance_sq(a: Point, b: Point) -> (r: i64)
    requires
        -4 * MAX_COORD <= a.x <= 4 * MAX_COORD,
        -4 * MAX_COORD <= a.y <= 4 * MAX_COORD,
        -4 * MAX_COORD <= b.x <= 4 * MAX_COORD,
        -4 * MAX_COORD <= b.y <= 4 * MAX_COORD,
    ensures
        r == dist_sq(a, b),
        r >= 0,
{
    let dx = a.x - b.x;
    let dy = a.y - b.y;
    proof {
        lemma_mul_bound(dx as int, dx as int, 8 * MAX_COORD, 8 * MAX_COORD);
        lemma_mul_bound(dy as int, dy as int, 8 * MAX_COORD, 8 * MAX_COORD);
        assert(dx as int * dx as int >= 0) by (nonlinear_arith);
        assert(dy as int * dy as int >= 0) by (nonlinear_arith);
    }
    dx * dx + dy * dy
}

/// Displacement of a velocity component over a duration in milliseconds,
/// truncated toward zero.
pub open spec fn scaled(d: int, ms: int) -> int {
    if d >= 0 {
        d * ms / 1000
    } else {
        -((-d) * ms / 1000)
    }
}

fn scale_disp(d: i64, ms: u64) -> (r: i64)
    requires
        -MAX_SPEED <= d <= MAX_SPEED,
        ms <= MAX_INTERVAL_MS,
    ensures
        r == scaled(d as int, ms as int),
        -MAX_COORD <= r <= MAX_COORD,
{
    if d >= 0 {
        proof {
            lemma_mul_bound(d as int, ms as int, MAX_SPEED as int, MAX_INTERVAL_MS as int);
        }
        let n = (d as u64) * ms;
        proof {
            lemma_div_is_ordered(n as int, MAX_SPEED * MAX_INTERVAL_MS, 1000);
            lemma_div_pos_is_pos(n as int, 1000);
        }
        (n / 1000) as i64
    } else {
        proof {
            lemma_mul_bound(-d as int, ms as int, MAX_SPEED as int, MAX_INTERVAL_MS as int);
        }
        let n = ((-d) as u64) * ms;
        proof {
            lemma_div_is_ordered(n as int, MAX_SPEED * MAX_INTERVAL_MS, 1000);
            lemma_div_pos_is_pos(n as int, 1000);
        }
        -((n / 1000) as i64)
    }
}

/// Linear projection of a position along a velocity for a duration.
pub open spec fn proj_x(p: Point, v: Vector, ms: int) -> int {
    p.x + scaled(v.dx as int, ms)
}

pub open spec fn proj_y(p: Point, v: Vector, ms: int) -> int {
    p.y + scaled(v.dy as int, ms)
}

/// Projects `p` along `v` for `ms` milliseconds: pure linear extrapolation.
pub fn project_from(p: Point, v: Vector, ms: u64) -> (r: Point)
    requires
        p.bounded(),
        v.bounded_by(MAX_SPEED as int),
        ms <= MAX_INTERVAL_MS,
    ensures
        r.x == proj_x(p, v, ms as int),
        r.y == proj_y(p, v, ms as int),
        -2 * MAX_COORD <= r.x <= 2 * MAX_COORD,
        -2 * MAX_COORD <= r.y <= 2 * MAX_COORD,
{
    let dx = scale_disp(v.dx, ms);
    let dy = scale_disp(v.dy, ms);
    Point { x: p.x + dx, y: p.y + dy }
}

/// Per-second velocity component from a displacement over `dt` milliseconds,
/// truncated toward zero.
pub open spec fn rate(diff: int, dt: int) -> int {
    if diff >= 0 {
        diff * 1000 / dt
    } else {
        -((-diff) * 1000 / dt)
    }
}

fn rate_of(diff: i64, dt: u64) -> (r: i64)
    requires
        1 <= dt,
        -2 * MAX_COORD <= diff <= 2 * MAX_COORD,
    ensures
        r == rate(diff as int, dt as int),
        -MAX_RATE <= r <= MAX_RATE,
{
    if diff >= 0 {
        let n = (diff as u64) * 1000;
        proof {
            lemma_div_is_ordered(n as int, 2 * MAX_COORD * 1000, dt as int);
            lemma_div_is_ordered_by_denominator(2 * MAX_COORD * 1000, 1, dt as int);
            lemma_div_pos_is_pos(n as int, dt as int);
        }
        (n / dt) as i64
    } else {
        let n = ((-diff) as u64) * 1000;
        proof {
            lemma_div_is_ordered(n as int, 2 * MAX_COORD * 1000, dt as int);
            lemma_div_is_ordered_by_denominator(2 * MAX_COORD * 1000, 1, dt as int);
            lemma_div_pos_is_pos(n as int, dt as int);
        }
        -((n / dt) as i64)
    }
}

/// The velocity that carries `prev` to `next` over `dt` milliseconds.
pub fn velocity_between(prev: Point, next: Point, dt: u64) -> (r: Vector)
    requires
        1 <= dt,
        prev.bounded(),
        next.bounded(),
    ensures
        r.dx == rate(next.x - prev.x, dt as int),
        r.dy == rate(next.y - prev.y, dt as int),
        r.bounded_by(MAX_RATE as int),
{
    Vector { dx: rate_of(next.x - prev.x, dt), dy: rate_of(next.y - prev.y, dt) }
}

/// Squared magnitude of a vector given by its components.
pub open spec fn mag_sq(dx: int, dy: int) -> int {
    dx * dx + dy * dy
}

/// Squared magnitude, computed in 128 bits so derived velocities (which may
/// be large when samples are close in time) cannot overflow.
pub fn magnitude_sq(v: Vector) -> (r: i128)
    requires
        v.bounded_by(MAX_RATE as int),
    ensures
        r == mag_sq(v.dx as int, v.dy as int),
        r >= 0,
{
    proof {
        lemma_mul_bound(v.dx as int, v.dx as int, MAX_RATE as int, MAX_RATE as int);
        lemma_mul_bound(v.dy as int, v.dy as int, MAX_RATE as int, MAX_RATE as int);
        assert(v.dx as int * v.dx as int >= 0) by (nonlinear_arith);
        assert(v.dy as int * v.dy as int >= 0) by (nonlinear_arith);
    }
    (v.dx as i128) * (v.dx as i128) + (v.dy as i128) * (v.dy as i128)
}

/// Sine of an angle in `[0, HALF_TURN]` millidegrees, scaled by 1000,
/// by a rational approximation that is exact at 0, 30, 90, 150 and 180
/// degrees and monotone on the first quarter turn.
pub open spec fn sin_half(m: int) -> int {
    let p = m * (HALF_TURN - m);
    4000 * p / (40_500_000_000 - p)
}

/// Sine of a canonical angle in `[0, TURN)`, scaled by 1000.
pub open spec fn sin_fx(m: int) -> int {
    if m <= HALF_TURN {
        sin_half(m)
    } else {
        -sin_half(m - HALF_TURN)
    }
}

/// Cosine of a canonical angle in `[0, TURN)`, scaled by 1000.
pub open spec fn cos_fx(m: int) -> int {
    sin_fx(norm(m + QUARTER_TURN))
}

proof fn lemma_sin_half_range(m: int)
    requires
        0 <= m <= HALF_TURN,
    ensures
        0 <= sin_half(m) <= 1000,
        m * (HALF_TURN - m) <= 8_100_000_000,
        m * (HALF_TURN - m) >= 0,
{
    let p = m * (HALF_TURN - m);
    assert(p <= 8_100_000_000 && p >= 0) by (nonlinear_arith)
        requires
            0 <= m <= 180_000,
            p == m * (180_000 - m),
    ;
    let d = 40_500_000_000 - p;
    lemma_div_pos_is_pos(4000 * p, d);
    assert(4000 * p <= 1000 * d);
    lemma_div_is_ordered(4000 * p, 1000 * d, d);
    lemma_div_by_multiple(1000, d);
}

fn sin_half_x(m: i64) -> (r: i64)
    requires
        0 <= m <= HALF_TURN,
    ensures
        r == sin_half(m as int),
        0 <= r <= 1000,
{
    proof {
        lemma_sin_half_range(m as int);
    }
    let p = m * (HALF_TURN - m);
    let n = 4000u64 * (p as u64);
    let d = 40_500_000_000u64 - (p as u64);
    (n / d) as i64
}

/// Sine of a canonical angle, scaled by 1000.
pub fn sin_mdeg(m: i64) -> (r: i64)
    requires
        0 <= m < TURN,
    ensures
        r == sin_fx(m as int),
        -1000 <= r <= 1000,
{
    if m <= HALF_TURN {
        sin_half_x(m)
    } else {
        proof {
            lemma_sin_half_range(m as int - HALF_TURN);
        }
        -sin_half_x(m - HALF_TURN)
    }
}

/// Cosine of a canonical angle, scaled by 1000.
pub fn cos_mdeg(m: i64) -> (r: i64)
    requires
        0 <= m < TURN,
    ensures
        r == cos_fx(m as int),
        -1000 <= r <= 1000,
{
    let s = m + QUARTER_TURN;
    let t = if s >= TURN {
        s - TURN
    } else {
        s
    };
    proof {
        if s >= TURN {
            lemma_mod_sub_multiples_vanish(s as int, TURN as int);
            lemma_small_mod((s - TURN) as nat, TURN as nat);
        } else {
            lemma_small_mod(s as nat, TURN as nat);
        }
    }
    sin_mdeg(t)
}

/// A velocity component from direction cosine `c`, throttle `thr`
/// (thousandths) and speed: `c * thr * speed / 1_000_000`, truncated
/// toward zero.
pub open spec fn dir_comp(c: int, thr: int, speed: int) -> int {
    let n = c * thr * speed;
    if n >= 0 {
        n / 1_000_000
    } else {
        -((-n) / 1_000_000)
    }
}

fn dir_comp_x(c: i64, thr: i64, speed: i64) -> (r: i64)
    requires
        -1000 <= c <= 1000,
        -1000 <= thr <= 1000,
        0 <= speed <= MAX_SPEED,
    ensures
        r == dir_comp(c as int, thr as int, speed as int),
        -MAX_SPEED <= r <= MAX_SPEED,
{
    proof {
        lemma_mul_bound(c as int, thr as int, 1000, 1000);
    }
    let a = c * thr;
    proof {
        lemma_mul_bound(a as int, speed as int, 1_000_000, MAX_SPEED as int);
    }
    let n = a * speed;
    proof {
        assert(n == c as int * thr as int * speed as int);
        if n >= 0 {
            lemma_div_is_ordered(n as int, 1_000_000 * MAX_SPEED, 1_000_000);
            lemma_div_by_multiple(MAX_SPEED as int, 1_000_000);
        } else {
            lemma_div_is_ordered(-n as int, 1_000_000 * MAX_SPEED, 1_000_000);
            lemma_div_by_multiple(MAX_SPEED as int, 1_000_000);
        }
    }
    if n >= 0 {
        ((n as u64) / 1_000_000) as i64
    } else {
        -((((-n) as u64) / 1_000_000) as i64)
    }
}

/// The velocity of an entity heading along `ang` with the given throttle
/// (thousandths) and base speed.
pub open spec fn vel_x(ang: int, thr: int, speed: int) -> int {
    dir_comp(cos_fx(norm(ang)), thr, speed)
}

pub open spec fn vel_y(ang: int, thr: int, speed: int) -> int {
    dir_comp(sin_fx(norm(ang)), thr, speed)
}

/// Velocity from a heading, a throttle in thousandths, and a base speed:
/// the unit direction of the angle scaled by `thr * speed`.
pub fn velocity_from(ang: Angle, thr: i64, speed: i64) -> (r: Vector)
    requires
        ang.bounded(),
        -1000 <= thr <= 1000,
        0 <= speed <= MAX_SPEED,
    ensures
        r.dx == vel_x(ang.mdeg as int, thr as int, speed as int),
        r.dy == vel_y(ang.mdeg as int, thr as int, speed as int),
        r.bounded_by(MAX_SPEED as int),
{
    let n = ang.positive().mdeg;
    let c = cos_mdeg(n);
    let s = sin_mdeg(n);
    Vector { dx: dir_comp_x(c, thr, speed), dy: dir_comp_x(s, thr, speed) }
}

/// Whether the direction `a` (millidegrees in `[0, QUARTER_TURN]`) points no
/// higher than the vector `(ax, ay)`: `tan(a) <= ay / ax`, cross-multiplied.
pub open spec fn leq_tan(a: int, ax: int, ay: int) -> bool {
    sin_fx(a) * ax <= cos_fx(a) * ay
}

/// Binary search for the first-quadrant angle of `(ax, ay)`: the largest
/// `a` in `[lo, hi)` whose tangent does not exceed `ay / ax`.
pub open spec fn q1_angle(ax: int, ay: int, lo: int, hi: int) -> int
    decreases hi - lo,
{
    if hi - lo <= 1 {
        lo
    } else {
        let mid = lo + (hi - lo) / 2;
        if leq_tan(mid, ax, ay) {
            q1_angle(ax, ay, mid, hi)
        } else {
            q1_angle(ax, ay, lo, mid)
        }
    }
}

pub proof fn lemma_q1_angle_range(ax: int, ay: int, lo: int, hi: int)
    requires
        lo < hi,
    ensures
        lo <= q1_angle(ax, ay, lo, hi) < hi,
    decreases hi - lo,
{
    if hi - lo > 1 {
        let mid = lo + (hi - lo) / 2;
        lemma_div_pos_is_pos(hi - lo, 2);
        lemma_div_is_strictly_smaller(hi - lo, 2);
        if leq_tan(mid, ax, ay) {
            lemma_q1_angle_range(ax, ay, mid, hi);
        } else {
            lemma_q1_angle_range(ax, ay, lo, mid);
        }
    }
}

/// Bound on vector components accepted by the angle search.
pub const VEC_BOUND: i64 = 1_000_000_000;

fn q1_angle_x(ax: i64, ay: i64, lo: i64, hi: i64) -> (r: i64)
    requires
        0 < ax <= VEC_BOUND,
        0 < ay <= VEC_BOUND,
        0 <= lo < hi <= QUARTER_TURN,
    ensures
        r == q1_angle(ax as int, ay as int, lo as int, hi as int),
        lo <= r < hi,
    decreases hi - lo,
{
    proof {
        lemma_q1_angle_range(ax as int, ay as int, lo as int, hi as int);
    }
    if hi - lo <= 1 {
        lo
    } else {
        let mid = lo + (((hi - lo) as u64) / 2) as i64;
        proof {
            lemma_div_pos_is_pos((hi - lo) as int, 2);
            lemma_div_is_strictly_smaller((hi - lo) as int, 2);
        }
        let s = sin_mdeg(mid);
        let c = cos_mdeg(mid);
        proof {
            lemma_mul_bound(s as int, ax as int, 1000, VEC_BOUND as int);
            lemma_mul_bound(c as int, ay as int, 1000, VEC_BOUND as int);
        }
        if s * ax <= c * ay {
            q1_angle_x(ax, ay, mid, hi)
        } else {
            q1_angle_x(ax, ay, lo, mid)
        }
    }
}

/// The canonical angle of the vector `(dx, dy)`, in millidegrees.
/// Exact on the four axes; elsewhere recovered from the sine approximation
/// quadrant by quadrant.
pub open spec fn vec_angle(dx: int, dy: int) -> int {
    if dy == 0 {
        if dx >= 0 {
            0
        } else {
            HALF_TURN as int
        }
    } else if dx == 0 {
        if dy > 0 {
            QUARTER_TURN as int
        } else {
            3 * QUARTER_TURN
        }
    } else if dx > 0 && dy > 0 {
        q1_angle(dx, dy, 0, QUARTER_TURN as int)
    } else if dx < 0 && dy > 0 {
        QUARTER_TURN + q1_angle(dy, -dx, 0, QUARTER_TURN as int)
    } else if dx < 0 {
        HALF_TURN + q1_angle(-dx, -dy, 0, QUARTER_TURN as int)
    } else {
        3 * QUARTER_TURN + q1_angle(-dy, dx, 0, QUARTER_TURN as int)
    }
}

/// The angle of the vector from the origin toward `(dx, dy)`.
pub fn angle_of(dx: i64, dy: i64) -> (r: Angle)
    requires
        -VEC_BOUND <= dx <= VEC_BOUND,
        -VEC_BOUND <= dy <= VEC_BOUND,
    ensures
        r.mdeg == vec_angle(dx as int, dy as int),
        0 <= r.mdeg < TURN,
{
    if dy == 0 {
        if dx >= 0 {
            Angle { mdeg: 0 }
        } else {
            Angle { mdeg: HALF_TURN }
        }
    } else if dx == 0 {
        if dy > 0 {
            Angle { mdeg: QUARTER_TURN }
        } else {
            Angle { mdeg: 3 * QUARTER_TURN }
        }
    } else if dx > 0 && dy > 0 {
        Angle { mdeg: q1_angle_x(dx, dy, 0, QUARTER_TURN) }
    } else if dx < 0 && dy > 0 {
        Angle { mdeg: QUARTER_TURN + q1_angle_x(dy, -dx, 0, QUARTER_TURN) }
    } else if dx < 0 {
        Angle { mdeg: HALF_TURN + q1_angle_x(-dx, -dy, 0, QUARTER_TURN) }
    } else {
        Angle { mdeg: 3 * QUARTER_TURN + q1_angle_x(-dy, dx, 0, QUARTER_TURN) }
    }
}

/// The angle of the vector, i.e. the direction `v` points to.
pub fn vector_angle(v: Vector) -> (r: Angle)
    requires
        v.bounded_by(VEC_BOUND as int),
    ensures
        r.mdeg == vec_angle(v.dx as int, v.dy as int),
        0 <= r.mdeg < TURN,
{
    angle_of(v.dx, v.dy)
}

/// The tangent direction of a vector: its angle plus a quarter turn.
pub open spec fn tangent_spec(dx: int, dy: int) -> int {
    vec_angle(dx, dy) + QUARTER_TURN
}

/// The direction perpendicular to `v` (a quarter turn beyond its angle),
/// used to flee roughly sideways from an incoming entity.
pub fn tangent(v: Vector) -> (r: Angle)
    requires
        v.bounded_by(VEC_BOUND as int),
    ensures
        r.mdeg == tangent_spec(v.dx as int, v.dy as int),
        0 <= r.mdeg < TURN + QUARTER_TURN,
{
    let a = angle_of(v.dx, v.dy);
    Angle { mdeg: a.mdeg + QUARTER_TURN }
}

/// Discretization step of the collision prediction, in milliseconds: small
/// enough that the fastest entity travels well under the smallest relevant
/// radius in one step.
pub const ANALYSIS_INTERVAL_MS: u64 = 10;

/// Anything with a current position, a current velocity and a collision
/// radius; collision queries are written generically against it.
pub trait Moving: Sized {
    spec fn pos_spec(&self) -> Point;

    spec fn vel_spec(&self) -> Vector;

    spec fn rad_spec(&self) -> i64;

    fn position(&self) -> (r: Point)
        ensures
            r == self.pos_spec(),
    ;

    fn velocity(&self) -> (r: Vector)
        ensures
            r == self.vel_spec(),
    ;

    fn radius(&self) -> (r: i64)
        ensures
            r == self.rad_spec(),
    ;
}

/// Whether two moving bodies overlap `ms` milliseconds from now: each is
/// projected linearly (the first stays put if `self_stop`), and the
/// projected distance is compared with the sum of the radii.
pub open spec fn colliding_at(
    p1: Point,
    v1: Vector,
    r1: i64,
    p2: Point,
    v2: Vector,
    r2: i64,
    ms: int,
    self_stop: bool,
) -> bool {
    let sx = if self_stop {
        p1.x as int
    } else {
        proj_x(p1, v1, ms)
    };
    let sy = if self_stop {
        p1.y as int
    } else {
        proj_y(p1, v1, ms)
    };
    let tx = proj_x(p2, v2, ms);
    let ty = proj_y(p2, v2, ms);
    (sx - tx) * (sx - tx) + (sy - ty) * (sy - ty) < (r1 + r2) * (r1 + r2)
}

/// Whether the bodies collide at any of the first `k` discretization steps
/// (sampling at step 1 through `k`, inclusive).
pub open spec fn colliding_within(
    p1: Point,
    v1: Vector,
    r1: i64,
    p2: Point,
    v2: Vector,
    r2: i64,
    k: int,
    self_stop: bool,
) -> bool
    decreases k,
{
    k >= 1 && (colliding_at(p1, v1, r1, p2, v2, r2, k * (ANALYSIS_INTERVAL_MS as int), self_stop)
        || colliding_within(p1, v1, r1, p2, v2, r2, k - 1, self_stop))
}

} // verus!
