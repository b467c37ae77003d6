//! The per-bullet entity. Bullets are re-derived fresh from each snapshot:
//! they are short-lived and carry no multi-tick state.

use vstd::prelude::*;
use crate::geom::{
    vel_x, vel_y, velocity_from, Angle, Moving, Point, Vector, MAX_RADIUS, MAX_SPEED,
};
use crate::models::BulletState;

verus! {

/// The current state of a single bullet.
#[derive(Clone, Copy, Debug)]
pub struct Bullet {
    pub id: u32,
    pub position: Point,
    pub velocity: Vector,
    pub player_id: u32,
    pub radius: i64,
}

impl Bullet {
    pub open spec fn wf(self) -> bool {
        &&& self.position.bounded()
        &&& self.velocity.bounded_by(MAX_SPEED as int)
        &&& 0 <= self.radius <= MAX_RADIUS
    }

    /// A bullet as a snapshot reports it: its velocity is its heading at
    /// full magnitude `speed`.
    pub fn new(state: &BulletState) -> (r: Bullet)
        requires
            state.valid(),
        ensures
            r.id == state.id,
            r.player_id == state.player_id,
            r.position == (Point { x: state.x, y: state.y }),
            r.velocity.dx == vel_x(state.angle as int, 1000, state.speed as int),
            r.velocity.dy == vel_y(state.angle as int, 1000, state.speed as int),
            r.radius == state.radius,
            r.wf(),
    {
        Bullet {
            id: state.id,
            position: Point { x: state.x, y: state.y },
            velocity: velocity_from(Angle::new(state.angle), 1000, state.speed),
            player_id: state.player_id,
            radius: state.radius,
        }
    }

    /// A virtual bullet for hypothetical collision simulation ("if I fired
    /// at this angle, would it hit"); it carries no real identity.
    pub fn with_position_angle(position: Point, angle: Angle, speed: i64, radius: i64) -> (r:
        Bullet)
        requires
            position.bounded(),
            angle.bounded(),
            0 <= speed <= MAX_SPEED,
            0 <= radius <= MAX_RADIUS,
        ensures
            r.id == 0,
            r.player_id == 0,
            r.position == position,
            r.velocity.dx == vel_x(angle.mdeg as int, 1000, speed as int),
            r.velocity.dy == vel_y(angle.mdeg as int, 1000, speed as int),
            r.radius == radius,
            r.wf(),
    {
        Bullet {
            id: 0,
            position,
            velocity: velocity_from(angle, 1000, speed),
            player_id: 0,
            radius,
        }
    }
}

impl Moving for Bullet {
    open spec fn pos_spec(&self) -> Point {
        self.position
    }

    open spec fn vel_spec(&self) -> Vector {
        self.velocity
    }

    open spec fn rad_spec(&self) -> i64 {
        self.radius
    }

    fn position(&self) -> (r: Point) {
        self.position
    }

    fn velocity(&self) -> (r: Vector) {
        self.velocity
    }

    fn radius(&self) -> (r: i64) {
        self.radius
    }
}

} // verus!
