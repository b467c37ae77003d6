//! The behavior engine: composable, stateful, pull-based decision
//! primitives. Each behavior is asked once per tick for its next command;
//! `None` means "nothing to contribute right now". The whole engine is
//! specified by one pure transition function, `step`, over a ghost model
//! of the behavior tree.

use vstd::prelude::*;
use crate::analyzer::{
    best_from, closest_item_from, closest_key, find_player_from, first_bullet_from,
    first_player_from, highest_score_after_key, highest_score_key, least_moving_key,
    lemma_find_in_range, Analyzer,
};
use crate::bullet::Bullet;
use crate::geom::{
    abs_i, ang_dist, colliding_within, dist_sq, distance_sq, lemma_mul_bound, norm, tangent_spec,
    vec_angle, vel_x, vel_y, Angle, Point, Vector, ANALYSIS_INTERVAL_MS, MAX_ANGLE, MAX_COORD,
    MAX_INTERVAL_MS, TURN, VEC_BOUND,
};
use crate::models::{GameCommand, PLAYER_MAX_THROTTLE, PLAYER_MIN_THROTTLE};
use crate::player::Player;
use crate::entropy::draw_in_range;

verus! {

/// A throttle already within this tolerance (thousandths) of the target
/// needs no command.
pub const THROTTLE_TOLERANCE: i64 = 50;

/// `MoveTo` considers itself arrived within this distance (milli-pixels).
pub const MOVETO_PROXIMITY: i64 = 10_000;

/// How far ahead `FireAt` predicts a hit, in milliseconds.
pub const FIRE_PREDICT_MS: u64 = 4_000;

/// Radius and window of `DodgePlayer`'s threat scan.
pub const DODGE_PLAYER_RADIUS: i64 = 400_000;

pub const DODGE_PLAYER_MS: u64 = 2_000;

/// A rule for resolving which player a tactic acts against, evaluated
/// lazily against the analyzer each time it is needed.
#[derive(Clone, Copy, PartialEq, Eq, Structural, Debug)]
pub enum Target {
    /// The player with this id.
    Id(u32),
    /// The player currently closest to the bot.
    Closest,
    /// The player that moved least over its retained history.
    LeastMoving,
    /// The player with the highest current score.
    HighestScore,
    /// The player with the highest score projected this far ahead (ms).
    HighestScoreAfter(u64),
}

/// The ghost model of a behavior: the same tree with sequences as ghost
/// sequences, so the transition function can be stated purely.
#[verifier::ext_equal]
pub enum BehaviorModel {
    Skip,
    Stop,
    Noop,
    Throttle { value: i64 },
    Rotate { angle: i64, margin: i64 },
    Fire { times: u32 },
    MoveTo { destination: Point, end_with_brake: bool },
    Sequence { children: Seq<BehaviorModel> },
    FireAt { target: Target, times: u32, next: Seq<BehaviorModel> },
    Chase { target: Target, distance: i64 },
    Dodge { next: Seq<BehaviorModel>, radius: i64, during_ms: u64 },
    GetAway { next: Seq<BehaviorModel> },
    DodgePlayer { next: Seq<BehaviorModel> },
    PickItem,
}

/// Termination measure of the behavior tree: composites outrank whatever
/// they can build and delegate to.
pub open spec fn m_rank(m: BehaviorModel) -> nat
    decreases m,
{
    match m {
        BehaviorModel::Sequence { children } => seq_rank(children),
        BehaviorModel::FireAt { next, .. } => 4 + seq_rank(next),
        BehaviorModel::Dodge { next, .. } => 4 + seq_rank(next),
        BehaviorModel::GetAway { next } => 4 + seq_rank(next),
        BehaviorModel::DodgePlayer { next } => 9 + seq_rank(next),
        _ => 0,
    }
}

pub open spec fn seq_rank(cs: Seq<BehaviorModel>) -> nat
    decreases cs,
{
    if cs.len() == 0 {
        1
    } else {
        1 + m_rank(cs[0]) + seq_rank(cs.subrange(1, cs.len() as int))
    }
}

/// Bounds that keep the fixed-point arithmetic of a behavior in range.
pub open spec fn target_wf(t: Target) -> bool {
    match t {
        Target::HighestScoreAfter(ms) => ms <= MAX_INTERVAL_MS,
        _ => true,
    }
}

pub open spec fn m_wf(m: BehaviorModel) -> bool
    decreases m,
{
    match m {
        BehaviorModel::Throttle { value } => PLAYER_MIN_THROTTLE <= value <= PLAYER_MAX_THROTTLE,
        BehaviorModel::Rotate { angle, margin } => -MAX_ANGLE <= angle <= MAX_ANGLE && 0 <= margin
            <= MAX_ANGLE,
        BehaviorModel::MoveTo { destination, .. } => destination.bounded(),
        BehaviorModel::Sequence { children } => seq_wf(children),
        BehaviorModel::FireAt { target, next, .. } => target_wf(target) && seq_wf(next),
        BehaviorModel::Chase { target, distance } => target_wf(target) && 0 <= distance
            <= VEC_BOUND,
        BehaviorModel::Dodge { next, radius, during_ms } => seq_wf(next) && 0 <= radius
            <= VEC_BOUND && during_ms <= MAX_INTERVAL_MS,
        BehaviorModel::GetAway { next } => seq_wf(next),
        BehaviorModel::DodgePlayer { next } => seq_wf(next),
        _ => true,
    }
}

pub open spec fn seq_wf(cs: Seq<BehaviorModel>) -> bool
    decreases cs,
{
    forall|i: int| 0 <= i < cs.len() ==> m_wf(#[trigger] cs[i])
}

/// Which player a target rule resolves to, as an index into the
/// analyzer's players; `None` when no player satisfies the rule.
pub open spec fn resolve(t: Target, a: Analyzer) -> Option<int> {
    match t {
        Target::Id(id) => find_player_from(a.players@, id, 0),
        Target::Closest => best_from(a.players@, a.own_id, closest_key(a), 0),
        Target::LeastMoving => best_from(a.players@, a.own_id, least_moving_key(), 0),
        Target::HighestScore => best_from(a.players@, a.own_id, highest_score_key(), 0),
        Target::HighestScoreAfter(ms) => best_from(
            a.players@,
            a.own_id,
            highest_score_after_key(ms),
            0,
        ),
    }
}

/// A resolved target designates an in-range player index.
pub proof fn lemma_resolved_in_range(t: Target, a: Analyzer)
    requires
        resolve(t, a) is Some,
    ensures
        0 <= resolve(t, a)->Some_0 < a.players@.len(),
{
    match t {
        Target::Id(id) => lemma_find_in_range(a.players@, id, 0),
        Target::Closest => crate::analyzer::lemma_best_in_range(
            a.players@,
            a.own_id,
            closest_key(a),
            0,
        ),
        Target::LeastMoving => crate::analyzer::lemma_best_in_range(
            a.players@,
            a.own_id,
            least_moving_key(),
            0,
        ),
        Target::HighestScore => crate::analyzer::lemma_best_in_range(
            a.players@,
            a.own_id,
            highest_score_key(),
            0,
        ),
        Target::HighestScoreAfter(ms) => crate::analyzer::lemma_best_in_range(
            a.players@,
            a.own_id,
            highest_score_after_key(ms),
            0,
        ),
    }
}

/// One step of the `Rotate` atom: command the angle unless the current
/// heading is already within the margin (shortest-path distance).
pub open spec fn rotate_step(own_angle: i64, angle: i64, margin: i64) -> Option<GameCommand> {
    if ang_dist(own_angle as int, angle as int) > margin {
        Some(GameCommand::Rotate(norm(angle as int) as i64))
    } else {
        None
    }
}

/// One step of the `Throttle` atom: command the value unless already
/// within the tolerance.
pub open spec fn throttle_step(own_throttle: i64, value: i64) -> Option<GameCommand> {
    if abs_i(own_throttle - value) > THROTTLE_TOLERANCE {
        Some(GameCommand::Throttle(value))
    } else {
        None
    }
}

/// The `Noop` atom: rotate to the current heading — sent but without
/// physical effect, consuming the tick's one command.
pub open spec fn noop_step(own_angle: i64) -> Option<GameCommand> {
    Some(GameCommand::Rotate(norm(own_angle as int) as i64))
}

/// The steering chain used by `MoveTo` and `Chase`: rotate toward `angle`
/// within `margin`, else full throttle, else a placeholder no-op. Always
/// yields a command.
pub open spec fn steer_step(own: Player, angle: i64, margin: i64) -> Option<GameCommand> {
    match rotate_step(own.angle.mdeg, angle, margin) {
        Option::Some(c) => Some(c),
        Option::None => match throttle_step(own.throttle, PLAYER_MAX_THROTTLE) {
            Option::Some(c) => Some(c),
            Option::None => noop_step(own.angle.mdeg),
        },
    }
}

/// The flight chain cached by the dodging tactics: full throttle, then
/// rotate to `angle` within 5 degrees. Returns the leftover chain and the
/// command, exactly as a `Sequence` of the two atoms would.
pub open spec fn flee_step(own: Player, angle: i64) -> (Seq<BehaviorModel>, Option<GameCommand>) {
    match throttle_step(own.throttle, PLAYER_MAX_THROTTLE) {
        Option::Some(c) => (
            seq![
                BehaviorModel::Throttle { value: PLAYER_MAX_THROTTLE },
                BehaviorModel::Rotate { angle, margin: 5000 },
            ],
            Some(c),
        ),
        Option::None => match rotate_step(own.angle.mdeg, angle, 5000) {
            Option::Some(c) => (seq![BehaviorModel::Rotate { angle, margin: 5000 }], Some(c)),
            Option::None => (Seq::empty(), None),
        },
    }
}

/// Whether a virtual bullet fired from the bot's position at `ang` (with
/// the bot's bullet speed and radius) is predicted to hit `t` within the
/// prediction window, the target kept moving.
pub open spec fn hits_target(own: Player, t: Player, ang: i64) -> bool {
    colliding_within(
        t.position,
        t.velocity,
        t.radius,
        own.position,
        Vector {
            dx: vel_x(ang as int, 1000, own.bullet_speed as int) as i64,
            dy: vel_y(ang as int, 1000, own.bullet_speed as int) as i64,
        },
        own.bullet_radius,
        (FIRE_PREDICT_MS / ANALYSIS_INTERVAL_MS) as int,
        false,
    )
}

/// The discretized angle search of `FireAt`: whole-degree offsets from
/// -30 through +30 around `raw`, most negative first; the first offset
/// predicted to hit wins, else the raw angle.
pub open spec fn search_offset(own: Player, t: Player, raw: i64, d: int) -> i64
    decreases 31 - d,
{
    if d > 30 {
        raw
    } else if hits_target(own, t, (raw + d * 1000) as i64) {
        (raw + d * 1000) as i64
    } else {
        search_offset(own, t, raw, d + 1)
    }
}

/// The raw angle from the bot to the target.
pub open spec fn raw_angle_to(own: Player, t: Player) -> i64 {
    vec_angle(t.position.x - own.position.x, t.position.y - own.position.y) as i64
}

/// The angle `FireAt` fires at: the corrected angle if some sampled
/// offset predicts a hit, the raw angle otherwise.
pub open spec fn fire_angle(own: Player, t: Player) -> i64 {
    search_offset(own, t, raw_angle_to(own, t), -30)
}

/// The transition function of the behavior engine: one tick of `m`
/// against the analyzer yields the successor behavior and at most one
/// command.
pub open spec fn step(m: BehaviorModel, a: Analyzer) -> (BehaviorModel, Option<GameCommand>)
    decreases m_rank(m), 1nat,
{
    let own = a.own();
    match m {
        BehaviorModel::Skip => (m, None),
        BehaviorModel::Stop => (m, Some(GameCommand::Throttle(0))),
        BehaviorModel::Noop => (m, noop_step(own.angle.mdeg)),
        BehaviorModel::Throttle { value } => (m, throttle_step(own.throttle, value)),
        BehaviorModel::Rotate { angle, margin } => (m, rotate_step(own.angle.mdeg, angle, margin)),
        BehaviorModel::Fire { times } => if times > 0 {
            (BehaviorModel::Fire { times: (times - 1) as u32 }, Some(GameCommand::Fire))
        } else {
            (m, None)
        },
        BehaviorModel::MoveTo { destination, end_with_brake } => {
            if dist_sq(own.position, destination) < MOVETO_PROXIMITY * MOVETO_PROXIMITY {
                if end_with_brake {
                    (
                        BehaviorModel::MoveTo { destination, end_with_brake: false },
                        Some(GameCommand::Throttle(0)),
                    )
                } else {
                    (m, None)
                }
            } else {
                let ang = vec_angle(
                    destination.x - own.position.x,
                    destination.y - own.position.y,
                ) as i64;
                (m, steer_step(own, ang, 5000))
            }
        },
        BehaviorModel::Sequence { children } => {
            let r = step_seq(children, a);
            (BehaviorModel::Sequence { children: r.0 }, r.1)
        },
        BehaviorModel::Chase { target, distance } => {
            match resolve(target, a) {
                Option::None => (m, None),
                Option::Some(j) => {
                    let t = a.players@[j];
                    if dist_sq(own.position, t.position) > distance * distance {
                        (m, steer_step(own, raw_angle_to(own, t), 10000))
                    } else {
                        (m, None)
                    }
                },
            }
        },
        BehaviorModel::PickItem => {
            match closest_item_from(a.items@, own.position, 0) {
                Option::None => (m, None),
                Option::Some(j) => {
                    let it = a.items@[j];
                    let ang = vec_angle(it.x - own.position.x, it.y - own.position.y) as i64;
                    match rotate_step(own.angle.mdeg, ang, 100) {
                        Option::Some(c) => (m, Some(c)),
                        Option::None => (m, Some(GameCommand::Throttle(PLAYER_MAX_THROTTLE))),
                    }
                },
            }
        },
        BehaviorModel::FireAt { target, times, next } => {
            let sr = step_seq(next, a);
            if sr.1 is Some {
                (BehaviorModel::FireAt { target, times, next: sr.0 }, sr.1)
            } else if times > 0 && resolve(target, a) is Some {
                let t = a.players@[resolve(target, a)->Some_0];
                let ang = fire_angle(own, t);
                match rotate_step(own.angle.mdeg, ang, 100) {
                    Option::Some(c) => (
                        BehaviorModel::FireAt {
                            target,
                            times: (times - 1) as u32,
                            next: seq![
                                BehaviorModel::Rotate { angle: ang, margin: 100 },
                                BehaviorModel::Fire { times: 1 },
                            ],
                        },
                        Some(c),
                    ),
                    Option::None => (
                        BehaviorModel::FireAt {
                            target,
                            times: (times - 1) as u32,
                            next: seq![BehaviorModel::Fire { times: 0 }],
                        },
                        Some(GameCommand::Fire),
                    ),
                }
            } else {
                (BehaviorModel::FireAt { target, times, next: sr.0 }, None)
            }
        },
        BehaviorModel::Dodge { next, radius, during_ms } => {
            let sr = step_seq(next, a);
            if sr.1 is Some {
                (BehaviorModel::Dodge { next: sr.0, radius, during_ms }, sr.1)
            } else {
                match first_bullet_from(
                    a,
                    radius,
                    (during_ms / ANALYSIS_INTERVAL_MS) as int,
                    0,
                ) {
                    Option::Some(j) => {
                        let b = a.bullets@[j];
                        let ang = tangent_spec(b.velocity.dx as int, b.velocity.dy as int) as i64;
                        let fr = flee_step(own, ang);
                        (BehaviorModel::Dodge { next: fr.0, radius, during_ms }, fr.1)
                    },
                    Option::None => (
                        BehaviorModel::Dodge { next: sr.0, radius, during_ms },
                        None,
                    ),
                }
            }
        },
        BehaviorModel::GetAway { next } => {
            let sr = step_seq(next, a);
            if sr.1 is Some {
                (BehaviorModel::GetAway { next: sr.0 }, sr.1)
            } else {
                match best_from(a.players@, a.own_id, closest_key(a), 0) {
                    Option::Some(j) => {
                        let p = a.players@[j];
                        let ang = vec_angle(
                            own.position.x - p.position.x,
                            own.position.y - p.position.y,
                        ) as i64;
                        let fr = flee_step(own, ang);
                        (BehaviorModel::GetAway { next: fr.0 }, fr.1)
                    },
                    Option::None => (BehaviorModel::GetAway { next: sr.0 }, None),
                }
            }
        },
        BehaviorModel::DodgePlayer { next } => step_dodge_player(next, a),
    }
}

/// One tick of `DodgePlayer`: play out the cached chain; else flee along
/// the tangent of a player about to collide with the moving bot; else
/// counter-attack a chaser (a player that would catch the stopped bot)
/// with a two-shot `FireAt` while also turning away; else nothing.
pub open spec fn step_dodge_player(next: Seq<BehaviorModel>, a: Analyzer) -> (
    BehaviorModel,
    Option<GameCommand>,
)
    decreases 9 + seq_rank(next), 0nat,
{
    let own = a.own();
    let sr = step_seq(next, a);
    if sr.1 is Some {
        (BehaviorModel::DodgePlayer { next: sr.0 }, sr.1)
    } else {
        let k = (DODGE_PLAYER_MS / ANALYSIS_INTERVAL_MS) as int;
        match first_player_from(a, DODGE_PLAYER_RADIUS, k, false, 0) {
            Option::Some(j) => {
                let p = a.players@[j];
                let ang = tangent_spec(p.velocity.dx as int, p.velocity.dy as int) as i64;
                let fr = flee_step(own, ang);
                (BehaviorModel::DodgePlayer { next: fr.0 }, fr.1)
            },
            Option::None => {
                match first_player_from(a, DODGE_PLAYER_RADIUS, k, true, 0) {
                    Option::Some(j) => {
                        let p = a.players@[j];
                        let ang = tangent_spec(p.velocity.dx as int, p.velocity.dy as int) as i64;
                        let fr = step(
                            BehaviorModel::FireAt {
                                target: Target::Id(p.id),
                                times: 2,
                                next: Seq::empty(),
                            },
                            a,
                        );
                        if fr.1 is Some {
                            (
                                BehaviorModel::DodgePlayer {
                                    next: seq![
                                        fr.0,
                                        BehaviorModel::Rotate { angle: ang, margin: 5000 },
                                    ],
                                },
                                fr.1,
                            )
                        } else {
                            match rotate_step(own.angle.mdeg, ang, 5000) {
                                Option::Some(c) => (
                                    BehaviorModel::DodgePlayer {
                                        next: seq![
                                            BehaviorModel::Rotate { angle: ang, margin: 5000 },
                                        ],
                                    },
                                    Some(c),
                                ),
                                Option::None => (
                                    BehaviorModel::DodgePlayer { next: Seq::empty() },
                                    None,
                                ),
                            }
                        }
                    },
                    Option::None => (BehaviorModel::DodgePlayer { next: sr.0 }, None),
                }
            },
        }
    }
}

/// One tick of a queue of behaviors: the front is stepped; if it yields a
/// command it stays (mutated) at the front, otherwise it is dropped and
/// the rest is stepped, until the queue empties.
pub open spec fn step_seq(cs: Seq<BehaviorModel>, a: Analyzer) -> (
    Seq<BehaviorModel>,
    Option<GameCommand>,
)
    decreases seq_rank(cs), 0nat,
{
    if cs.len() == 0 {
        (cs, None)
    } else {
        let r = step(cs[0], a);
        if r.1 is Some {
            (seq![r.0] + cs.subrange(1, cs.len() as int), r.1)
        } else {
            step_seq(cs.subrange(1, cs.len() as int), a)
        }
    }
}

/// The law of sequence consumption: a front behavior that yields no
/// command is consumed permanently — stepping a queue that begins with
/// it is exactly stepping the rest, and the exhausted front is never
/// asked again.
pub proof fn lemma_sequence_consumes_exhausted(
    x: BehaviorModel,
    rest: Seq<BehaviorModel>,
    a: Analyzer,
)
    requires
        step(x, a).1 is None,
    ensures
        step_seq(seq![x] + rest, a) == step_seq(rest, a),
{
    let s = seq![x] + rest;
    assert(s[0] == x);
    assert(s.subrange(1, s.len() as int) =~= rest);
}

/// How a two-element queue steps, written out: the form every cached
/// tactic chain takes.
pub proof fn lemma_step_seq2(x: BehaviorModel, y: BehaviorModel, a: Analyzer)
    ensures
        step_seq(seq![x, y], a) == ({
            let rx = step(x, a);
            if rx.1 is Some {
                (seq![rx.0, y], rx.1)
            } else {
                let ry = step(y, a);
                if ry.1 is Some {
                    (seq![ry.0], ry.1)
                } else {
                    (Seq::<BehaviorModel>::empty(), None::<GameCommand>)
                }
            }
        }),
{
    let s = seq![x, y];
    reveal_with_fuel(step_seq, 4);
    assert(s.subrange(1, 2) =~= seq![y]);
    assert(seq![y].subrange(1, 1) =~= Seq::<BehaviorModel>::empty());
    let rx = step(x, a);
    if rx.1 is Some {
        assert(seq![rx.0] + s.subrange(1, 2) =~= seq![rx.0, y]);
    } else {
        let ry = step(y, a);
        if ry.1 is Some {
            assert(seq![ry.0] + seq![y].subrange(1, 1) =~= seq![ry.0]);
        }
    }
}

/// A `Behavior` that always has nothing to contribute.
#[derive(Clone, Copy, Debug)]
pub struct Skip;

/// A `Behavior` that always commands zero throttle.
#[derive(Clone, Copy, Debug)]
pub struct Stop;

/// A `Behavior` that always commands a rotation to the current heading:
/// no physical effect, but the tick's one command is consumed.
#[derive(Clone, Copy, Debug)]
pub struct Noop;

/// A `Behavior` that sets the throttle, unless it is already within the
/// tolerance of the target value.
#[derive(Clone, Copy, Debug)]
pub struct Throttle {
    pub value: i64,
}

/// A `Behavior` that rotates to `angle`, yielding `None` once the
/// shortest-path distance to the current heading is within `margin`.
#[derive(Clone, Copy, Debug)]
pub struct Rotate {
    pub angle: Angle,
    pub margin: Angle,
}

/// A `Behavior` that fires the given number of times, one per tick.
#[derive(Clone, Copy, Debug)]
pub struct Fire {
    pub times: u32,
}

/// A `Behavior` that moves to `destination`, optionally braking once on
/// arrival.
#[derive(Clone, Copy, Debug)]
pub struct MoveTo {
    pub destination: Point,
    pub end_with_brake: bool,
}

/// A series of behaviors: the front one is asked until it yields `None`,
/// then it is dropped for good and the next takes over.
#[derive(Debug)]
pub struct Sequence {
    pub inner: Vec<Behavior>,
}

/// A `Behavior` that rotates to the target (with a discretized
/// lead-correction search) and fires, the given number of times.
#[derive(Debug)]
pub struct FireAt {
    pub target: Target,
    pub times: u32,
    pub next: Sequence,
}

/// A `Behavior` that keeps moving toward the target until within
/// `distance`.
#[derive(Clone, Copy, Debug)]
pub struct Chase {
    pub target: Target,
    pub distance: i64,
}

/// A `Behavior` that dodges bullets predicted to collide within the
/// window, fleeing along the bullet's tangent at full throttle.
#[derive(Debug)]
pub struct Dodge {
    pub next: Sequence,
    pub radius: i64,
    pub during_ms: u64,
}

/// A `Behavior` that flees from the closest player, away from the angle
/// that player sees the bot under.
#[derive(Debug)]
pub struct GetAwayFromPlayer {
    pub next: Sequence,
}

/// A `Behavior` that evades players about to collide with the bot, and
/// counter-attacks a chaser.
#[derive(Debug)]
pub struct DodgePlayer {
    pub next: Sequence,
}

/// A `Behavior` that heads for the closest item: rotate toward it, then
/// full throttle; `None` only when no item exists.
#[derive(Clone, Copy, Debug)]
pub struct PickItem;

/// The closed sum of all deterministic behaviors.
#[derive(Debug)]
pub enum Behavior {
    Skip(Skip),
    Stop(Stop),
    Noop(Noop),
    Throttle(Throttle),
    Rotate(Rotate),
    Fire(Fire),
    MoveTo(MoveTo),
    Sequence(Sequence),
    FireAt(FireAt),
    Chase(Chase),
    Dodge(Dodge),
    GetAwayFromPlayer(GetAwayFromPlayer),
    DodgePlayer(DodgePlayer),
    PickItem(PickItem),
}

/// The ghost model of a behavior value.
pub open spec fn bmodel(b: Behavior) -> BehaviorModel
    decreases b,
{
    match b {
        Behavior::Skip(_) => BehaviorModel::Skip,
        Behavior::Stop(_) => BehaviorModel::Stop,
        Behavior::Noop(_) => BehaviorModel::Noop,
        Behavior::Throttle(t) => BehaviorModel::Throttle { value: t.value },
        Behavior::Rotate(ro) => BehaviorModel::Rotate {
            angle: ro.angle.mdeg,
            margin: ro.margin.mdeg,
        },
        Behavior::Fire(f) => BehaviorModel::Fire { times: f.times },
        Behavior::MoveTo(mv) => BehaviorModel::MoveTo {
            destination: mv.destination,
            end_with_brake: mv.end_with_brake,
        },
        Behavior::Sequence(s) => BehaviorModel::Sequence { children: seq_model(s.inner@) },
        Behavior::FireAt(f) => BehaviorModel::FireAt {
            target: f.target,
            times: f.times,
            next: seq_model(f.next.inner@),
        },
        Behavior::Chase(c) => BehaviorModel::Chase { target: c.target, distance: c.distance },
        Behavior::Dodge(d) => BehaviorModel::Dodge {
            next: seq_model(d.next.inner@),
            radius: d.radius,
            during_ms: d.during_ms,
        },
        Behavior::GetAwayFromPlayer(g) => BehaviorModel::GetAway {
            next: seq_model(g.next.inner@),
        },
        Behavior::DodgePlayer(d) => BehaviorModel::DodgePlayer {
            next: seq_model(d.next.inner@),
        },
        Behavior::PickItem(_) => BehaviorModel::PickItem,
    }
}

pub open spec fn seq_model(s: Seq<Behavior>) -> Seq<BehaviorModel>
    decreases s,
{
    if s.len() == 0 {
        Seq::empty()
    } else {
        seq![bmodel(s[0])] + seq_model(s.subrange(1, s.len() as int))
    }
}

/// The model of a queue is the queue of the models, element by element.
pub proof fn lemma_seq_model(s: Seq<Behavior>)
    ensures
        seq_model(s).len() == s.len(),
        forall|i: int| 0 <= i < s.len() ==> #[trigger] seq_model(s)[i] == bmodel(s[i]),
    decreases s,
{
    if s.len() > 0 {
        let rest = s.subrange(1, s.len() as int);
        lemma_seq_model(rest);
        assert forall|i: int| 0 <= i < s.len() implies #[trigger] seq_model(s)[i] == bmodel(
            s[i],
        ) by {
            if i > 0 {
                assert(rest[i - 1] == s[i]);
                assert(seq_model(s)[i] == seq_model(rest)[i - 1]);
            }
        }
    }
}

/// The rank of a two-element queue, written out.
pub proof fn lemma_seq_rank2(x: BehaviorModel, y: BehaviorModel)
    ensures
        seq_rank(seq![x, y]) == 3 + m_rank(x) + m_rank(y),
{
    let s = seq![x, y];
    assert(s.subrange(1, 2) =~= seq![y]);
    assert(seq![y].subrange(1, 1) =~= Seq::<BehaviorModel>::empty());
    assert(seq_rank(Seq::<BehaviorModel>::empty()) == 1);
    assert(seq_rank(seq![y]) == 2 + m_rank(y));
    assert(seq_rank(s) == 1 + m_rank(x) + seq_rank(seq![y]));
}

impl View for Behavior {
    type V = BehaviorModel;

    open spec fn view(&self) -> BehaviorModel {
        bmodel(*self)
    }
}

impl View for Sequence {
    type V = Seq<BehaviorModel>;

    open spec fn view(&self) -> Seq<BehaviorModel> {
        seq_model(self.inner@)
    }
}

impl Skip {
    pub fn next_command(&mut self, a: &Analyzer) -> (r: Option<GameCommand>)
        ensures
            r is None,
            *final(self) == *old(self),
    {
        None
    }
}

impl Stop {
    pub fn next_command(&mut self, a: &Analyzer) -> (r: Option<GameCommand>)
        ensures
            r == Some(GameCommand::Throttle(0i64)),
            *final(self) == *old(self),
    {
        Some(GameCommand::Throttle(0))
    }
}

impl Noop {
    pub fn next_command(&mut self, a: &Analyzer) -> (r: Option<GameCommand>)
        requires
            a.wf(),
            a.has_own(),
        ensures
            r == noop_step(a.own().angle.mdeg),
            *final(self) == *old(self),
    {
        proof {
            lemma_find_in_range(a.players@, a.own_id, 0);
            assert(a.own().wf());
        }
        let own = a.own_player();
        Some(GameCommand::Rotate(own.angle.positive().mdeg))
    }
}

impl Throttle {
    /// A behavior that brakes to a standstill.
    pub fn stop() -> (r: Throttle)
        ensures
            r.value == 0,
    {
        Throttle { value: 0 }
    }

    /// A behavior that accelerates to full throttle.
    pub fn max() -> (r: Throttle)
        ensures
            r.value == PLAYER_MAX_THROTTLE,
    {
        Throttle { value: PLAYER_MAX_THROTTLE }
    }

    /// Commands the target throttle; `None` exactly when the current
    /// throttle is already within the tolerance of it.
    pub fn next_command(&mut self, a: &Analyzer) -> (r: Option<GameCommand>)
        requires
            a.wf(),
            a.has_own(),
            PLAYER_MIN_THROTTLE <= old(self).value <= PLAYER_MAX_THROTTLE,
        ensures
            r == throttle_step(a.own().throttle, old(self).value),
            r is None <==> abs_i(a.own().throttle - old(self).value) <= THROTTLE_TOLERANCE,
            *final(self) == *old(self),
    {
        proof {
            lemma_find_in_range(a.players@, a.own_id, 0);
            assert(a.own().wf());
        }
        let own_thr = a.own_player().throttle;
        let d = if own_thr >= self.value {
            own_thr - self.value
        } else {
            self.value - own_thr
        };
        if d > THROTTLE_TOLERANCE {
            Some(GameCommand::Throttle(self.value))
        } else {
            None
        }
    }
}

impl Rotate {
    /// Rotate to `angle` with the default tight margin of a tenth of a
    /// degree.
    pub fn new(angle: Angle) -> (r: Rotate)
        ensures
            r.angle == angle,
            r.margin.mdeg == 100,
    {
        Rotate { angle, margin: Angle::new(100) }
    }

    /// Rotate to `angle`, satisfied within `margin_degrees` whole
    /// degrees.
    pub fn with_margin_degrees(angle: Angle, margin_degrees: i64) -> (r: Rotate)
        requires
            0 <= margin_degrees <= 360,
        ensures
            r.angle == angle,
            r.margin.mdeg == margin_degrees * 1000,
    {
        Rotate { angle, margin: Angle::degrees(margin_degrees) }
    }

    /// Commands the rotation; `None` exactly when the shortest-path
    /// distance from the current heading to the target is within the
    /// margin.
    pub fn next_command(&mut self, a: &Analyzer) -> (r: Option<GameCommand>)
        requires
            a.wf(),
            a.has_own(),
            old(self).angle.bounded(),
            0 <= old(self).margin.mdeg <= MAX_ANGLE,
        ensures
            r == rotate_step(a.own().angle.mdeg, old(self).angle.mdeg, old(self).margin.mdeg),
            *final(self) == *old(self),
    {
        proof {
            lemma_find_in_range(a.players@, a.own_id, 0);
            assert(a.own().wf());
        }
        let own = a.own_player();
        let d = crate::geom::angle_dist(own.angle, self.angle);
        if d > self.margin.mdeg {
            Some(GameCommand::Rotate(self.angle.positive().mdeg))
        } else {
            None
        }
    }
}

impl Fire {
    /// Fire once.
    pub fn new() -> (r: Fire)
        ensures
            r.times == 1,
    {
        Fire { times: 1 }
    }

    /// Fire the given number of times, one shot per tick.
    pub fn with_times(times: u32) -> (r: Fire)
        ensures
            r.times == times,
    {
        Fire { times }
    }

    /// Emits a shot and decrements the counter while any shots remain;
    /// `None` forever once exhausted.
    pub fn next_command(&mut self, a: &Analyzer) -> (r: Option<GameCommand>)
        ensures
            old(self).times > 0 ==> r == Some(GameCommand::Fire) && final(self).times == old(
                self,
            ).times - 1,
            old(self).times == 0 ==> r is None && *final(self) == *old(self),
    {
        if self.times > 0 {
            self.times = self.times - 1;
            Some(GameCommand::Fire)
        } else {
            None
        }
    }
}

/// The steering chain shared by `MoveTo` and `Chase`.
fn steer(a: &Analyzer, angle: Angle, margin_mdeg: i64) -> (r: Option<GameCommand>)
    requires
        a.wf(),
        a.has_own(),
        angle.bounded(),
        0 <= margin_mdeg <= MAX_ANGLE,
    ensures
        r == steer_step(a.own(), angle.mdeg, margin_mdeg),
{
    proof {
        lemma_find_in_range(a.players@, a.own_id, 0);
        assert(a.own().wf());
    }
    let own = a.own_player();
    let d = crate::geom::angle_dist(own.angle, angle);
    if d > margin_mdeg {
        return Some(GameCommand::Rotate(angle.positive().mdeg));
    }
    let own_thr = own.throttle;
    let dd = if own_thr >= PLAYER_MAX_THROTTLE {
        own_thr - PLAYER_MAX_THROTTLE
    } else {
        PLAYER_MAX_THROTTLE - own_thr
    };
    if dd > THROTTLE_TOLERANCE {
        return Some(GameCommand::Throttle(PLAYER_MAX_THROTTLE));
    }
    Some(GameCommand::Rotate(own.angle.positive().mdeg))
}

impl MoveTo {
    pub open spec fn model(self) -> BehaviorModel {
        BehaviorModel::MoveTo { destination: self.destination, end_with_brake: self.end_with_brake }
    }

    /// Within the proximity of the destination: brake once if asked,
    /// else nothing; otherwise steer toward it (5 degree margin).
    pub fn next_command(&mut self, a: &Analyzer) -> (r: Option<GameCommand>)
        requires
            a.wf(),
            a.has_own(),
            old(self).destination.bounded(),
        ensures
            ({
                let s = step(old(self).model(), *a);
                final(self).model() == s.0 && r == s.1
            }),
            final(self).destination == old(self).destination,
    {
        proof {
            lemma_find_in_range(a.players@, a.own_id, 0);
            assert(a.own().wf());
        }
        let own = a.own_player();
        let d2 = distance_sq(own.position, self.destination);
        if d2 < MOVETO_PROXIMITY * MOVETO_PROXIMITY {
            if self.end_with_brake {
                self.end_with_brake = false;
                Some(GameCommand::Throttle(0))
            } else {
                None
            }
        } else {
            let ang = crate::geom::angle_of(
                self.destination.x - own.position.x,
                self.destination.y - own.position.y,
            );
            steer(a, ang, 5000)
        }
    }
}

impl Target {
    /// Resolves the rule to a live player; `None` when no player
    /// satisfies the condition.
    pub fn get<'a>(&self, analyzer: &'a Analyzer) -> (r: Option<&'a Player>)
        requires
            analyzer.wf(),
            analyzer.has_own(),
            target_wf(*self),
        ensures
            match r {
                Option::None => resolve(*self, *analyzer) is None,
                Option::Some(p) => resolve(*self, *analyzer) is Some && *p
                    == analyzer.players@[resolve(*self, *analyzer)->Some_0],
            },
    {
        match self {
            Target::Id(id) => analyzer.player(*id),
            Target::Closest => analyzer.player_closest(),
            Target::LeastMoving => analyzer.player_least_moving(),
            Target::HighestScore => analyzer.player_highest_score(),
            Target::HighestScoreAfter(after) => analyzer.player_highest_score_after(*after),
        }
    }
}

impl Chase {
    pub fn new(target: Target, distance: i64) -> (r: Chase)
        ensures
            r.target == target,
            r.distance == distance,
    {
        Chase { target, distance }
    }

    pub open spec fn model(self) -> BehaviorModel {
        BehaviorModel::Chase { target: self.target, distance: self.distance }
    }

    /// Steers toward the resolved target (10 degree margin) while it is
    /// farther than `distance`; `None` once close enough or unresolved.
    pub fn next_command(&mut self, a: &Analyzer) -> (r: Option<GameCommand>)
        requires
            a.wf(),
            a.has_own(),
            target_wf(old(self).target),
            0 <= old(self).distance <= VEC_BOUND,
        ensures
            ({
                let s = step(old(self).model(), *a);
                final(self).model() == s.0 && r == s.1
            }),
            *final(self) == *old(self),
    {
        let resolved = self.target.get(a);
        match resolved {
            Option::Some(t) => {
                proof {
                    lemma_find_in_range(a.players@, a.own_id, 0);
                    assert(a.own().wf());
                    lemma_resolved_in_range(old(self).target, *a);
                    assert(t.wf());
                }
                let own = a.own_player();
                let d2 = distance_sq(own.position, t.position);
                proof {
                    lemma_mul_bound(
                        self.distance as int,
                        self.distance as int,
                        VEC_BOUND as int,
                        VEC_BOUND as int,
                    );
                }
                if d2 > self.distance * self.distance {
                    let ang = crate::geom::angle_of(
                        t.position.x - own.position.x,
                        t.position.y - own.position.y,
                    );
                    steer(a, ang, 10000)
                } else {
                    None
                }
            },
            Option::None => None,
        }
    }
}

/// The discretized lead-correction search of `FireAt`, from offset `d`
/// upward: the first whole-degree offset whose virtual bullet is
/// predicted to hit, else the raw angle.
fn search_exec(own: &Player, t: &Player, raw: i64, d: i64) -> (r: i64)
    requires
        own.wf(),
        t.wf(),
        0 <= raw < TURN,
        -30 <= d <= 31,
    ensures
        r == search_offset(*own, *t, raw, d as int),
        -30_000 <= r < TURN + 30_000,
    decreases 31 - d,
{
    if d > 30 {
        raw
    } else {
        let ang = raw + d * 1000;
        let vb = Bullet::with_position_angle(
            own.position,
            Angle::new(ang),
            own.bullet_speed,
            own.bullet_radius,
        );
        if t.is_colliding_during(&vb, FIRE_PREDICT_MS, false) {
            proof {
                assert(vb.velocity == (Vector {
                    dx: vel_x(ang as int, 1000, own.bullet_speed as int) as i64,
                    dy: vel_y(ang as int, 1000, own.bullet_speed as int) as i64,
                }));
            }
            ang
        } else {
            search_exec(own, t, raw, d + 1)
        }
    }
}

impl Sequence {
    /// An empty series.
    pub fn new() -> (r: Sequence)
        ensures
            r.inner@.len() == 0,
            r@ == Seq::<BehaviorModel>::empty(),
    {
        Sequence { inner: Vec::new() }
    }

    /// A series of the given behaviors, run front to back.
    pub fn with_slice(behaviors: Vec<Behavior>) -> (r: Sequence)
        ensures
            r.inner@ == behaviors@,
    {
        Sequence { inner: behaviors }
    }

    /// Asks the front behavior for a command; a front that yields `None`
    /// is consumed for good and the next takes over. `None` once all are
    /// exhausted.
    pub fn next_command(&mut self, a: &Analyzer) -> (r: Option<GameCommand>)
        requires
            a.wf(),
            a.has_own(),
            seq_wf(old(self)@),
        ensures
            ({
                let s = step_seq(old(self)@, *a);
                final(self)@ == s.0 && r == s.1 && seq_wf(final(self)@)
            }),
        decreases seq_rank(self@), 0nat,
    {
        proof {
            lemma_seq_model(self.inner@);
        }
        if self.inner.len() == 0 {
            return None;
        }
        let ghost cs0 = self@;
        let mut front = self.inner.remove(0);
        proof {
            lemma_seq_model(old(self).inner@);
            lemma_seq_model(self.inner@);
            assert(self.inner@ =~= old(self).inner@.subrange(
                1,
                old(self).inner@.len() as int,
            ));
            assert(self@ =~= cs0.subrange(1, cs0.len() as int));
            assert(front@ == cs0[0]);
            assert(m_wf(cs0[0]));
        }
        let r = front.next_command(a);
        if r.is_some() {
            let ghost mid = self@;
            self.inner.insert(0, front);
            proof {
                lemma_seq_model(self.inner@);
                assert(self.inner@ =~= seq![front] + old(self).inner@.subrange(
                    1,
                    old(self).inner@.len() as int,
                ));
                assert(self@ =~= seq![front@] + mid);
                assert(step_seq(cs0, *a).0 == seq![step(cs0[0], *a).0] + cs0.subrange(
                    1,
                    cs0.len() as int,
                ));
                assert(self@ =~= step_seq(cs0, *a).0);
                assert forall|i: int| 0 <= i < self@.len() implies m_wf(#[trigger] self@[i]) by {
                    if i > 0 {
                        assert(self@[i] == cs0[i]);
                    }
                }
            }
            return r;
        }
        let out = self.next_command(a);
        out
    }
}

impl Behavior {
    /// One tick of any behavior: the exec engine follows the `step`
    /// transition function exactly.
    pub fn next_command(&mut self, a: &Analyzer) -> (r: Option<GameCommand>)
        requires
            a.wf(),
            a.has_own(),
            m_wf(old(self)@),
        ensures
            ({
                let s = step(old(self)@, *a);
                final(self)@ == s.0 && r == s.1 && m_wf(final(self)@)
            }),
        decreases m_rank(self@), 1nat,
    {
        match self {
            Behavior::Skip(b) => b.next_command(a),
            Behavior::Stop(b) => b.next_command(a),
            Behavior::Noop(b) => b.next_command(a),
            Behavior::Throttle(b) => b.next_command(a),
            Behavior::Rotate(b) => b.next_command(a),
            Behavior::Fire(b) => b.next_command(a),
            Behavior::MoveTo(b) => b.next_command(a),
            Behavior::Sequence(b) => {
                let r = b.next_command(a);
                proof {
                    let s = step_seq(seq_model(old(self)->Sequence_0.inner@), *a);
                    assert(step(old(self)@, *a) == (
                        BehaviorModel::Sequence { children: s.0 },
                        s.1,
                    ));
                }
                r
            },
            Behavior::FireAt(b) => b.next_command(a),
            Behavior::Chase(b) => b.next_command(a),
            Behavior::Dodge(b) => b.next_command(a),
            Behavior::GetAwayFromPlayer(b) => b.next_command(a),
            Behavior::DodgePlayer(b) => b.next_command(a),
            Behavior::PickItem(b) => b.next_command(a),
        }
    }
}

impl FireAt {
    /// Rotate to the target and fire once.
    pub fn new(target: Target) -> (r: FireAt)
        ensures
            r.target == target,
            r.times == 1,
            r.next.inner@.len() == 0,
    {
        FireAt { target, times: 1, next: Sequence::new() }
    }

    /// Rotate to the target and fire, the given number of times.
    pub fn with_times(target: Target, times: u32) -> (r: FireAt)
        ensures
            r.target == target,
            r.times == times,
            r.next.inner@.len() == 0,
    {
        FireAt { target, times, next: Sequence::new() }
    }

    pub open spec fn model(self) -> BehaviorModel {
        BehaviorModel::FireAt { target: self.target, times: self.times, next: self.next@ }
    }

    /// Plays out the cached rotate-and-fire chain; when it is exhausted
    /// and shots remain, resolves the target, searches for a hit-
    /// predicting angle, and caches a fresh chain. The shot counter is
    /// consumed at resolution time.
    #[verifier::rlimit(80)]
    pub fn next_command(&mut self, a: &Analyzer) -> (r: Option<GameCommand>)
        requires
            a.wf(),
            a.has_own(),
            m_wf(old(self).model()),
        ensures
            ({
                let s = step(old(self).model(), *a);
                final(self).model() == s.0 && r == s.1 && m_wf(final(self).model())
            }),
        decreases m_rank(self.model()), 0nat,
    {
        proof {
            assert(seq_rank(self.next@) >= 1);
        }
        let c = self.next.next_command(a);
        if c.is_some() {
            return c;
        }
        if self.times > 0 {
            let resolved = self.target.get(a);
            match resolved {
                Option::Some(t) => {
                    proof {
                        lemma_find_in_range(a.players@, a.own_id, 0);
                        assert(a.own().wf());
                        lemma_resolved_in_range(old(self).target, *a);
                        assert(t.wf());
                    }
                    self.times = self.times - 1;
                    let own = a.own_player();
                    let raw = crate::geom::angle_of(
                        t.position.x - own.position.x,
                        t.position.y - own.position.y,
                    );
                    let ang = search_exec(own, t, raw.mdeg, -30);
                    let built = vec![
                        Behavior::Rotate(Rotate { angle: Angle::new(ang), margin: Angle::new(100) }),
                        Behavior::Fire(Fire { times: 1 }),
                    ];
                    self.next = Sequence::with_slice(built);
                    let ghost rm = BehaviorModel::Rotate { angle: ang, margin: 100 };
                    let ghost fm = BehaviorModel::Fire { times: 1 };
                    proof {
                        lemma_seq_model(self.next.inner@);
                        assert(self.next@ =~= seq![rm, fm]);
                        lemma_step_seq2(rm, fm, *a);
                        lemma_seq_rank2(rm, fm);
                    }
                    let r2 = self.next.next_command(a);
                    proof {
                        assert(ang == fire_angle(a.own(), *t));
                    }
                    return r2;
                },
                Option::None => (),
            }
        }
        None
    }
}


/// Replaces the cached chain with the flight chain (full throttle, then
/// rotate to `ang` within 5 degrees) and steps it once.
fn flee_into(next: &mut Sequence, a: &Analyzer, ang: Angle) -> (r: Option<GameCommand>)
    requires
        a.wf(),
        a.has_own(),
        0 <= ang.mdeg <= MAX_ANGLE,
    ensures
        ({
            let fr = flee_step(a.own(), ang.mdeg);
            final(next)@ == fr.0 && r == fr.1 && seq_wf(final(next)@)
        }),
    decreases 4nat, 0nat,
{
    let built = vec![
        Behavior::Throttle(Throttle { value: PLAYER_MAX_THROTTLE }),
        Behavior::Rotate(Rotate { angle: ang, margin: Angle::new(5000) }),
    ];
    *next = Sequence::with_slice(built);
    let ghost tm = BehaviorModel::Throttle { value: PLAYER_MAX_THROTTLE };
    let ghost rm = BehaviorModel::Rotate { angle: ang.mdeg, margin: 5000 };
    proof {
        lemma_seq_model(next.inner@);
        assert(next@ =~= seq![tm, rm]);
        lemma_step_seq2(tm, rm, *a);
        lemma_seq_rank2(tm, rm);
    }
    let r2 = next.next_command(a);
    proof {
        assert(step_seq(seq![tm, rm], *a) == flee_step(a.own(), ang.mdeg));
    }
    r2
}

/// Replaces the cached chain with the counter-attack chain (a two-shot
/// `FireAt` on the chaser, then rotate to `ang` within 5 degrees) and
/// steps it once.
fn counter_into(next: &mut Sequence, a: &Analyzer, pid: u32, ang: Angle) -> (r: Option<
    GameCommand,
>)
    requires
        a.wf(),
        a.has_own(),
        0 <= ang.mdeg <= MAX_ANGLE,
    ensures
        ({
            let fr = step(
                BehaviorModel::FireAt { target: Target::Id(pid), times: 2, next: Seq::empty() },
                *a,
            );
            let rm = BehaviorModel::Rotate { angle: ang.mdeg, margin: 5000 };
            &&& seq_wf(final(next)@)
            &&& if fr.1 is Some {
                final(next)@ == seq![fr.0, rm] && r == fr.1
            } else {
                match rotate_step(a.own().angle.mdeg, ang.mdeg, 5000) {
                    Option::Some(c) => final(next)@ == seq![rm] && r == Some(c),
                    Option::None => final(next)@ == Seq::<BehaviorModel>::empty() && r is None,
                }
            }
        }),
    decreases 9nat, 0nat,
{
    let built = vec![
        Behavior::FireAt(FireAt::with_times(Target::Id(pid), 2)),
        Behavior::Rotate(Rotate { angle: ang, margin: Angle::new(5000) }),
    ];
    *next = Sequence::with_slice(built);
    let ghost fam = BehaviorModel::FireAt { target: Target::Id(pid), times: 2, next: Seq::empty() };
    let ghost rm = BehaviorModel::Rotate { angle: ang.mdeg, margin: 5000 };
    proof {
        lemma_seq_model(next.inner@);
        assert(seq_model(next.inner@[0]->FireAt_0.next.inner@) =~= Seq::<BehaviorModel>::empty());
        assert(next@ =~= seq![fam, rm]);
        lemma_step_seq2(fam, rm, *a);
        lemma_seq_rank2(fam, rm);
        assert(seq_rank(Seq::<BehaviorModel>::empty()) == 1);
        assert(m_rank(fam) == 5);
        assert(seq_wf(Seq::<BehaviorModel>::empty()));
        assert(m_wf(fam));
        assert(m_wf(rm));
        assert forall|i: int| 0 <= i < next@.len() implies m_wf(#[trigger] next@[i]) by {
            assert(next@[i] == fam || next@[i] == rm);
        }
    }
    let r2 = next.next_command(a);
    proof {
        let rr = step_seq(seq![fam, rm], *a);
        let fr = step(fam, *a);
        if fr.1 is Some {
            assert(rr == (seq![fr.0, rm], fr.1));
        }
    }
    r2
}

impl Dodge {
    /// Dodge bullets within `radius` predicted to collide within
    /// `during_ms`.
    pub fn new(radius: i64, during_ms: u64) -> (r: Dodge)
        ensures
            r.radius == radius,
            r.during_ms == during_ms,
            r.next.inner@.len() == 0,
    {
        Dodge { next: Sequence::new(), radius, during_ms }
    }

    pub open spec fn model(self) -> BehaviorModel {
        BehaviorModel::Dodge { next: self.next@, radius: self.radius, during_ms: self.during_ms }
    }

    /// Plays out the cached flight chain; when it is exhausted, scans for
    /// a threatening bullet and, if one is found, flees along its
    /// tangent at full throttle.
    #[verifier::rlimit(80)]
    pub fn next_command(&mut self, a: &Analyzer) -> (r: Option<GameCommand>)
        requires
            a.wf(),
            a.has_own(),
            m_wf(old(self).model()),
        ensures
            ({
                let s = step(old(self).model(), *a);
                final(self).model() == s.0 && r == s.1 && m_wf(final(self).model())
            }),
        decreases m_rank(self.model()), 0nat,
    {
        proof {
            assert(seq_rank(self.next@) >= 1);
        }
        let c = self.next.next_command(a);
        if c.is_some() {
            return c;
        }
        match a.first_bullet_colliding(self.radius, self.during_ms) {
            Option::Some(j) => {
                proof {
                    assert(a.bullets@[j as int].wf());
                }
                let ang = crate::geom::tangent(a.bullets[j].velocity);
                flee_into(&mut self.next, a, ang)
            },
            Option::None => None,
        }
    }
}

impl GetAwayFromPlayer {
    pub fn new() -> (r: GetAwayFromPlayer)
        ensures
            r.next.inner@.len() == 0,
    {
        GetAwayFromPlayer { next: Sequence::new() }
    }

    pub open spec fn model(self) -> BehaviorModel {
        BehaviorModel::GetAway { next: self.next@ }
    }

    /// Plays out the cached flight chain; when it is exhausted, flees
    /// from the closest player, away from the angle under which that
    /// player sees the bot.
    #[verifier::rlimit(80)]
    pub fn next_command(&mut self, a: &Analyzer) -> (r: Option<GameCommand>)
        requires
            a.wf(),
            a.has_own(),
            m_wf(old(self).model()),
        ensures
            ({
                let s = step(old(self).model(), *a);
                final(self).model() == s.0 && r == s.1 && m_wf(final(self).model())
            }),
        decreases m_rank(self.model()), 0nat,
    {
        proof {
            assert(seq_rank(self.next@) >= 1);
        }
        let c = self.next.next_command(a);
        if c.is_some() {
            return c;
        }
        match a.player_closest() {
            Option::Some(p) => {
                proof {
                    lemma_find_in_range(a.players@, a.own_id, 0);
                    assert(a.own().wf());
                    crate::analyzer::lemma_best_in_range(
                        a.players@,
                        a.own_id,
                        closest_key(*a),
                        0,
                    );
                    assert(p.wf());
                }
                let own = a.own_player();
                let ang = crate::geom::angle_of(
                    own.position.x - p.position.x,
                    own.position.y - p.position.y,
                );
                flee_into(&mut self.next, a, ang)
            },
            Option::None => None,
        }
    }
}

impl DodgePlayer {
    pub fn new() -> (r: DodgePlayer)
        ensures
            r.next.inner@.len() == 0,
    {
        DodgePlayer { next: Sequence::new() }
    }

    pub open spec fn model(self) -> BehaviorModel {
        BehaviorModel::DodgePlayer { next: self.next@ }
    }

    /// Plays out the cached chain; when it is exhausted, flees from a
    /// player about to collide while the bot keeps moving, or, if a
    /// player would catch the stopped bot (a chaser), counter-attacks it
    /// with two shots while also turning away.
    #[verifier::rlimit(100)]
    #[verifier::spinoff_prover]
    pub fn next_command(&mut self, a: &Analyzer) -> (r: Option<GameCommand>)
        requires
            a.wf(),
            a.has_own(),
            m_wf(old(self).model()),
        ensures
            ({
                let s = step(old(self).model(), *a);
                final(self).model() == s.0 && r == s.1 && m_wf(final(self).model())
            }),
        decreases m_rank(self.model()), 0nat,
    {
        proof {
            assert(seq_rank(self.next@) >= 1);
        }
        let c = self.next.next_command(a);
        if c.is_some() {
            return c;
        }
        match a.first_player_colliding(DODGE_PLAYER_RADIUS, DODGE_PLAYER_MS, false) {
            Option::Some(j) => {
                proof {
                    assert(a.players@[j as int].wf());
                }
                let ang = crate::geom::tangent(a.players[j].velocity);
                flee_into(&mut self.next, a, ang)
            },
            Option::None => {
                match a.first_player_colliding(DODGE_PLAYER_RADIUS, DODGE_PLAYER_MS, true) {
                    Option::Some(j) => {
                        proof {
                            assert(a.players@[j as int].wf());
                        }
                        let pid = a.players[j].id;
                        let ang = crate::geom::tangent(a.players[j].velocity);
                        counter_into(&mut self.next, a, pid, ang)
                    },
                    Option::None => None,
                }
            },
        }
    }
}

/// A behavior that draws one of four outcomes uniformly: do nothing,
/// rotate to a random angle, set a random throttle, or fire. The draws
/// are random: only the ranges of the emitted commands are promised.
#[derive(Clone, Copy, Debug)]
pub struct Random;

impl Random {
    pub fn next_command(&mut self, a: &Analyzer) -> (r: Option<GameCommand>)
        ensures
            match r {
                Option::None => true,
                Option::Some(cmd) => match cmd {
                    GameCommand::Rotate(m) => 0 <= m < TURN,
                    GameCommand::Throttle(t) => PLAYER_MIN_THROTTLE <= t < PLAYER_MAX_THROTTLE,
                    GameCommand::Fire => true,
                },
            },
            *final(self) == *old(self),
    {
        let k = draw_in_range(0, 4);
        if k == 0 {
            None
        } else if k == 1 {
            Some(GameCommand::Rotate(draw_in_range(0, TURN)))
        } else if k == 2 {
            Some(GameCommand::Throttle(draw_in_range(PLAYER_MIN_THROTTLE, PLAYER_MAX_THROTTLE)))
        } else {
            Some(GameCommand::Fire)
        }
    }
}

impl PickItem {
    /// Rotates toward the closest item (default tight margin), then goes
    /// full throttle; `None` only when no item exists.
    pub fn next_command(&mut self, a: &Analyzer) -> (r: Option<GameCommand>)
        requires
            a.wf(),
            a.has_own(),
        ensures
            ({
                let s = step(BehaviorModel::PickItem, *a);
                r == s.1
            }),
            *final(self) == *old(self),
    {
        proof {
            lemma_find_in_range(a.players@, a.own_id, 0);
            assert(a.own().wf());
        }
        match a.item_closest() {
            Option::Some(it) => {
                proof {
                    crate::analyzer::lemma_closest_item_in_range(
                        a.items@,
                        a.own().position,
                        0,
                    );
                }
                let own = a.own_player();
                let ang = crate::geom::angle_of(it.x - own.position.x, it.y - own.position.y);
                let d = crate::geom::angle_dist(own.angle, ang);
                if d > 100 {
                    Some(GameCommand::Rotate(ang.positive().mdeg))
                } else {
                    Some(GameCommand::Throttle(PLAYER_MAX_THROTTLE))
                }
            },
            Option::None => None,
        }
    }
}

} // verus!
