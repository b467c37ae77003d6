//! The per-player entity: current pose and stats, retained histories, and
//! the discretized collision prediction all tactics rely on.

use vstd::prelude::*;
use vstd::arithmetic::div_mod::lemma_fundamental_div_mod;
use crate::geom::{
    colliding_at, colliding_within, distance_sq, lemma_mul_bound, project_from, vel_x, vel_y,
    velocity_from, Angle, Moving, Point, Vector, ANALYSIS_INTERVAL_MS, MAX_INTERVAL_MS, MAX_RADIUS,
    MAX_SPEED,
};
use crate::history::{ScoreHistory, Trajectory};
use crate::models::{score_of, PlayerState, PLAYER_BASE_SPEED};

verus! {

/// The past and current state of a single player, identified by an id.
/// Created on first sighting; updated in place on every later snapshot so
/// the histories persist; removed when the id disappears.
#[derive(Debug)]
pub struct Player {
    pub id: u32,
    pub angle: Angle,
    pub throttle: i64,
    pub position: Point,
    pub velocity: Vector,
    pub trajectory: Trajectory,
    pub score_history: ScoreHistory,
    pub radius: i64,
    pub bullet_speed: i64,
    pub bullet_radius: i64,
}

impl Player {
    /// Every field within machine bounds, both histories non-empty and
    /// well-formed, and their newest samples taken at the same instant.
    pub open spec fn wf(self) -> bool {
        &&& self.angle.bounded()
        &&& -1000 <= self.throttle <= 1000
        &&& self.position.bounded()
        &&& self.velocity.bounded_by(MAX_SPEED as int)
        &&& 0 <= self.radius <= MAX_RADIUS
        &&& 0 <= self.bullet_speed <= MAX_SPEED
        &&& 0 <= self.bullet_radius <= MAX_RADIUS
        &&& self.trajectory.wf()
        &&& self.trajectory.positions@.len() >= 1
        &&& self.score_history.wf()
        &&& self.score_history.inner@.len() >= 1
        &&& self.trajectory.positions@.last().1 == self.score_history.inner@.last().1
    }

    /// The time of the newest sample in the histories.
    pub open spec fn last_seen(self) -> int {
        self.trajectory.positions@.last().1 as int
    }

    /// Creates a fresh entity from a reported state, seeding both
    /// histories with exactly one sample at `time`. The derived velocity
    /// is heading times throttle times the base speed.
    pub fn with_state(state: &PlayerState, scoreboard: &Vec<(u32, u32)>, time: u64) -> (r: Player)
        requires
            state.valid(),
        ensures
            r.id == state.id,
            r.angle.mdeg == state.angle,
            r.throttle == state.throttle,
            r.position == (Point { x: state.x, y: state.y }),
            r.velocity.dx == vel_x(state.angle as int, state.throttle as int, PLAYER_BASE_SPEED as int),
            r.velocity.dy == vel_y(state.angle as int, state.throttle as int, PLAYER_BASE_SPEED as int),
            r.radius == state.radius,
            r.bullet_speed == state.bullet_speed,
            r.bullet_radius == state.bullet_radius,
            r.trajectory.positions@ == seq![(r.position, time)],
            r.score_history.inner@ == seq![(score_of(scoreboard@, state.id), time)],
            r.wf(),
            r.last_seen() == time,
    {
        let angle = Angle::new(state.angle);
        let position = Point { x: state.x, y: state.y };
        let velocity = velocity_from(angle, state.throttle, PLAYER_BASE_SPEED);

        let mut trajectory = Trajectory::new();
        trajectory.push(position, time);

        let mut score_history = ScoreHistory::new();
        score_history.push(lookup(scoreboard, state.id), time);

        proof {
            assert(trajectory.positions@ =~= seq![(position, time)]);
            assert(score_history.inner@ =~= seq![(score_of(scoreboard@, state.id), time)]);
        }
        Player {
            id: state.id,
            angle,
            throttle: state.throttle,
            radius: state.radius,
            bullet_speed: state.bullet_speed,
            bullet_radius: state.bullet_radius,
            position,
            velocity,
            trajectory,
            score_history,
        }
    }

    /// Updates the entity with a new reported state: recomputes pose and
    /// derived velocity and appends one sample to each history. The state
    /// must carry this entity's id — mixing entities up is a caller bug.
    pub fn push_state(&mut self, state: &PlayerState, scoreboard: &Vec<(u32, u32)>, time: u64)
        requires
            old(self).wf(),
            state.valid(),
            old(self).id == state.id,
            old(self).last_seen() < time,
        ensures
            final(self).id == old(self).id,
            final(self).angle.mdeg == state.angle,
            final(self).throttle == state.throttle,
            final(self).position == (Point { x: state.x, y: state.y }),
            final(self).velocity.dx == vel_x(
                state.angle as int,
                state.throttle as int,
                PLAYER_BASE_SPEED as int,
            ),
            final(self).velocity.dy == vel_y(
                state.angle as int,
                state.throttle as int,
                PLAYER_BASE_SPEED as int,
            ),
            final(self).radius == state.radius,
            final(self).bullet_speed == state.bullet_speed,
            final(self).bullet_radius == state.bullet_radius,
            final(self).trajectory.positions@ == old(self).trajectory.positions@.push(
                (Point { x: state.x, y: state.y }, time),
            ),
            final(self).score_history.inner@ == old(self).score_history.inner@.push(
                (score_of(scoreboard@, state.id), time),
            ),
            final(self).wf(),
            final(self).last_seen() == time,
    {
        self.angle = Angle::new(state.angle);
        self.throttle = state.throttle;
        self.position = Point { x: state.x, y: state.y };
        self.velocity = velocity_from(self.angle, state.throttle, PLAYER_BASE_SPEED);
        self.radius = state.radius;
        self.bullet_speed = state.bullet_speed;
        self.bullet_radius = state.bullet_radius;
        self.trajectory.push(self.position, time);
        self.score_history.push(lookup(scoreboard, state.id), time);
    }

    /// A field-wise copy with an exact contract (the derived `Clone` of a
    /// history-bearing struct would say nothing about the copy).
    pub fn copied(&self) -> (r: Player)
        ensures
            r.id == self.id,
            r.angle == self.angle,
            r.throttle == self.throttle,
            r.position == self.position,
            r.velocity == self.velocity,
            r.trajectory.positions@ == self.trajectory.positions@,
            r.score_history.inner@ == self.score_history.inner@,
            r.radius == self.radius,
            r.bullet_speed == self.bullet_speed,
            r.bullet_radius == self.bullet_radius,
    {
        Player {
            id: self.id,
            angle: self.angle,
            throttle: self.throttle,
            position: self.position,
            velocity: self.velocity,
            trajectory: self.trajectory.copied(),
            score_history: self.score_history.copied(),
            radius: self.radius,
            bullet_speed: self.bullet_speed,
            bullet_radius: self.bullet_radius,
        }
    }

    /// The current score of the player.
    pub fn score(&self) -> (r: u32)
        requires
            self.wf(),
        ensures
            r == self.score_history.inner@.last().0,
    {
        self.score_history.last_score()
    }

    /// Whether this player and `target` overlap `interval_ms` from now:
    /// self is projected for the full interval, or kept still if
    /// `self_stop` (models "I stop now"); the target always moves for the
    /// full interval.
    pub fn is_colliding_at<M: Moving>(&self, target: &M, interval_ms: u64, self_stop: bool) -> (r:
        bool)
        requires
            self.wf(),
            target.pos_spec().bounded(),
            target.vel_spec().bounded_by(MAX_SPEED as int),
            0 <= target.rad_spec() <= MAX_RADIUS,
            interval_ms <= MAX_INTERVAL_MS,
        ensures
            r == colliding_at(
                self.position,
                self.velocity,
                self.radius,
                target.pos_spec(),
                target.vel_spec(),
                target.rad_spec(),
                interval_ms as int,
                self_stop,
            ),
    {
        let p = if self_stop {
            self.position
        } else {
            project_from(self.position, self.velocity, interval_ms)
        };
        let t = project_from(target.position(), target.velocity(), interval_ms);
        let d2 = distance_sq(p, t);
        let rsum = target.radius() + self.radius;
        proof {
            lemma_mul_bound(rsum as int, rsum as int, 2 * MAX_RADIUS, 2 * MAX_RADIUS);
        }
        d2 < rsum * rsum
    }

    /// Whether this player and `target` collide at any discretization step
    /// within `interval_ms`, sampling from one step through the interval,
    /// inclusive.
    pub fn is_colliding_during<M: Moving>(
        &self,
        target: &M,
        interval_ms: u64,
        self_stop: bool,
    ) -> (r: bool)
        requires
            self.wf(),
            target.pos_spec().bounded(),
            target.vel_spec().bounded_by(MAX_SPEED as int),
            0 <= target.rad_spec() <= MAX_RADIUS,
            interval_ms <= MAX_INTERVAL_MS,
        ensures
            r == colliding_within(
                self.position,
                self.velocity,
                self.radius,
                target.pos_spec(),
                target.vel_spec(),
                target.rad_spec(),
                (interval_ms / ANALYSIS_INTERVAL_MS) as int,
                self_stop,
            ),
    {
        let n = interval_ms / ANALYSIS_INTERVAL_MS;
        let mut tick: u64 = 1;
        let mut hit = false;
        proof {
            lemma_fundamental_div_mod(interval_ms as int, ANALYSIS_INTERVAL_MS as int);
        }
        while tick <= n
            invariant
                1 <= tick <= n + 1,
                n == interval_ms / ANALYSIS_INTERVAL_MS,
                interval_ms <= MAX_INTERVAL_MS,
                n * (ANALYSIS_INTERVAL_MS as int) <= interval_ms,
                self.wf(),
                target.pos_spec().bounded(),
                target.vel_spec().bounded_by(MAX_SPEED as int),
                0 <= target.rad_spec() <= MAX_RADIUS,
                hit == colliding_within(
                    self.position,
                    self.velocity,
                    self.radius,
                    target.pos_spec(),
                    target.vel_spec(),
                    target.rad_spec(),
                    tick - 1,
                    self_stop,
                ),
            decreases n + 1 - tick,
        {
            proof {
                lemma_mul_bound(tick as int, ANALYSIS_INTERVAL_MS as int, n as int, ANALYSIS_INTERVAL_MS as int);
                assert(tick * (ANALYSIS_INTERVAL_MS as int) <= n * (ANALYSIS_INTERVAL_MS as int))
                    by (nonlinear_arith)
                    requires
                        1 <= tick <= n,
                ;
            }
            let at = self.is_colliding_at(target, ANALYSIS_INTERVAL_MS * tick, self_stop);
            hit = hit || at;
            tick = tick + 1;
        }
        hit
    }
}

impl Default for Player {
    /// A placeholder entity with the base stats and no history yet; its
    /// histories must be seeded before any query.
    fn default() -> (r: Player)
        ensures
            r.id == 0,
            r.angle.mdeg == 0,
            r.throttle == crate::models::PLAYER_MIN_THROTTLE,
            r.radius == crate::models::PLAYER_BASE_RADIUS,
            r.bullet_radius == crate::models::BULLET_BASE_RADIUS,
            r.bullet_speed == crate::models::BULLET_BASE_SPEED,
            r.position == (Point { x: 0i64, y: 0i64 }),
            r.velocity == (Vector { dx: 0i64, dy: 0i64 }),
            r.trajectory.positions@.len() == 0,
            r.score_history.inner@.len() == 0,
    {
        Player {
            id: 0,
            angle: Angle::zero(),
            throttle: crate::models::PLAYER_MIN_THROTTLE,
            radius: crate::models::PLAYER_BASE_RADIUS,
            bullet_radius: crate::models::BULLET_BASE_RADIUS,
            bullet_speed: crate::models::BULLET_BASE_SPEED,
            position: Point::zero(),
            velocity: Vector::zero(),
            trajectory: Trajectory::new(),
            score_history: ScoreHistory::new(),
        }
    }
}

/// Scoreboard lookup shared by the constructors.
fn lookup(scoreboard: &Vec<(u32, u32)>, id: u32) -> (r: u32)
    ensures
        r == score_of(scoreboard@, id),
{
    crate::models::lookup_score(scoreboard, id)
}

impl Moving for Player {
    open spec fn pos_spec(&self) -> Point {
        self.position
    }

    open spec fn vel_spec(&self) -> Vector {
        self.velocity
    }

    open spec fn rad_spec(&self) -> i64 {
        self.radius
    }

    fn position(&self) -> (r: Point) {
        self.position
    }

    fn velocity(&self) -> (r: Vector) {
        self.velocity
    }

    fn radius(&self) -> (r: i64) {
        self.radius
    }
}

} // verus!
