//! The aggregate query surface over all currently known players, bullets
//! and items: merges each snapshot into the per-entity histories and
//! answers every read query the behaviors use.

use vstd::prelude::*;
use crate::bullet::Bullet;
use crate::geom::{
    colliding_within, dist_sq, distance_sq, lemma_mul_bound, mag_sq, vel_x, vel_y, Point,
    ANALYSIS_INTERVAL_MS, MAX_INTERVAL_MS, VEC_BOUND,
};
use crate::history::{ave_abs_vx, ave_abs_vy, spec_project};
use crate::models::{score_of, BulletState, ClientState, Item, PlayerState};
use crate::player::Player;

verus! {

/// The analyzer: per-entity state derived from the snapshot stream.
/// Players keep identity (and history) across ticks; bullets and items are
/// re-derived fresh each tick. All collection queries answer in snapshot
/// order; the extremal queries break ties by ascending id.
pub struct Analyzer {
    pub own_id: u32,
    pub players: Vec<Player>,
    pub bullets: Vec<Bullet>,
    pub items: Vec<Item>,
    pub last_time: u64,
}

/// The first index at or after `i` whose player carries `id`.
pub open spec fn find_player_from(ps: Seq<Player>, id: u32, i: int) -> Option<int>
    decreases ps.len() - i,
{
    if i < 0 || i >= ps.len() {
        None
    } else if ps[i].id == id {
        Some(i)
    } else {
        find_player_from(ps, id, i + 1)
    }
}

/// The index of the best player at or after `i`, skipping the bot itself:
/// the one minimizing `key`, ties broken by ascending id.
pub open spec fn best_from(
    ps: Seq<Player>,
    own_id: u32,
    key: spec_fn(Player) -> int,
    i: int,
) -> Option<int>
    decreases ps.len() - i,
{
    if i < 0 || i >= ps.len() {
        None
    } else {
        let rest = best_from(ps, own_id, key, i + 1);
        if ps[i].id == own_id {
            rest
        } else {
            match rest {
                Option::None => Some(i),
                Option::Some(j) => if key(ps[i]) < key(ps[j]) || (key(ps[i]) == key(ps[j])
                    && ps[i].id < ps[j].id) {
                    Some(i)
                } else {
                    Some(j)
                },
            }
        }
    }
}

/// The index of the closest item at or after `i`; on equal distances the
/// earlier one (snapshot order) wins.
pub open spec fn closest_item_from(items: Seq<Item>, own: Point, i: int) -> Option<int>
    decreases items.len() - i,
{
    if i < 0 || i >= items.len() {
        None
    } else {
        match closest_item_from(items, own, i + 1) {
            Option::None => Some(i),
            Option::Some(j) => if dist_sq(own, Point { x: items[i].x, y: items[i].y }) <= dist_sq(
                own,
                Point { x: items[j].x, y: items[j].y },
            ) {
                Some(i)
            } else {
                Some(j)
            },
        }
    }
}

/// A successful search yields an index in range carrying the id.
pub proof fn lemma_find_in_range(ps: Seq<Player>, id: u32, i: int)
    requires
        find_player_from(ps, id, i) is Some,
    ensures
        i <= find_player_from(ps, id, i)->Some_0 < ps.len(),
        ps[find_player_from(ps, id, i)->Some_0].id == id,
    decreases ps.len() - i,
{
    if 0 <= i < ps.len() && ps[i].id != id {
        lemma_find_in_range(ps, id, i + 1);
    }
}

/// A successful extremal query yields an in-range index of another
/// player.
pub proof fn lemma_best_in_range(ps: Seq<Player>, own_id: u32, key: spec_fn(Player) -> int, i: int)
    requires
        best_from(ps, own_id, key, i) is Some,
    ensures
        i <= best_from(ps, own_id, key, i)->Some_0 < ps.len(),
        ps[best_from(ps, own_id, key, i)->Some_0].id != own_id,
    decreases ps.len() - i,
{
    if 0 <= i < ps.len() {
        if best_from(ps, own_id, key, i + 1) is Some {
            lemma_best_in_range(ps, own_id, key, i + 1);
        }
    }
}

/// A successful closest-item query yields an in-range index.
pub proof fn lemma_closest_item_in_range(items: Seq<Item>, own: Point, i: int)
    requires
        closest_item_from(items, own, i) is Some,
    ensures
        i <= closest_item_from(items, own, i)->Some_0 < items.len(),
    decreases items.len() - i,
{
    if 0 <= i < items.len() {
        if closest_item_from(items, own, i + 1) is Some {
            lemma_closest_item_in_range(items, own, i + 1);
        }
    }
}

/// Whether an exec index option designates the same index as a spec one.
pub open spec fn opt_idx_matches(r: Option<usize>, s: Option<int>) -> bool {
    match r {
        Option::None => s is None,
        Option::Some(a) => s is Some && a == s->Some_0,
    }
}

/// Whether bullet `i` is within `radius` of the bot now and predicted to
/// collide with it within the first `k` discretization steps (the bot
/// keeps moving).
pub open spec fn bullet_hit(a: Analyzer, i: int, radius: i64, k: int) -> bool {
    let own = a.own();
    let b = a.bullets@[i];
    &&& dist_sq(own.position, b.position) < radius * radius
    &&& colliding_within(
        own.position,
        own.velocity,
        own.radius,
        b.position,
        b.velocity,
        b.radius,
        k,
        false,
    )
}

/// Whether player `i` (not the bot itself) is within `radius` of the bot
/// now and predicted to collide with it within the first `k` steps, the
/// bot stopping or moving per `self_stop`.
pub open spec fn player_hit(a: Analyzer, i: int, radius: i64, k: int, self_stop: bool) -> bool {
    let own = a.own();
    let p = a.players@[i];
    &&& p.id != a.own_id
    &&& dist_sq(own.position, p.position) < radius * radius
    &&& colliding_within(
        own.position,
        own.velocity,
        own.radius,
        p.position,
        p.velocity,
        p.radius,
        k,
        self_stop,
    )
}

/// The first bullet index at or after `i` that `bullet_hit` accepts.
pub open spec fn first_bullet_from(a: Analyzer, radius: i64, k: int, i: int) -> Option<int>
    decreases a.bullets@.len() - i,
{
    if i < 0 || i >= a.bullets@.len() {
        None
    } else if bullet_hit(a, i, radius, k) {
        Some(i)
    } else {
        first_bullet_from(a, radius, k, i + 1)
    }
}

/// The first player index at or after `i` that `player_hit` accepts.
pub open spec fn first_player_from(
    a: Analyzer,
    radius: i64,
    k: int,
    self_stop: bool,
    i: int,
) -> Option<int>
    decreases a.players@.len() - i,
{
    if i < 0 || i >= a.players@.len() {
        None
    } else if player_hit(a, i, radius, k, self_stop) {
        Some(i)
    } else {
        first_player_from(a, radius, k, self_stop, i + 1)
    }
}

/// Whether a constructed bullet mirrors a reported bullet state.
pub open spec fn bullet_matches(b: Bullet, st: BulletState) -> bool {
    &&& b.id == st.id
    &&& b.player_id == st.player_id
    &&& b.position == (Point { x: st.x, y: st.y })
    &&& b.velocity.dx == vel_x(st.angle as int, 1000, st.speed as int)
    &&& b.velocity.dy == vel_y(st.angle as int, 1000, st.speed as int)
    &&& b.radius == st.radius
}

/// Whether a merged player mirrors a reported state: pose and stats are
/// recomputed, and the histories extend the previously tracked entity of
/// the same id, or start fresh if the id is new.
pub open spec fn merged_matches(
    olds: Seq<Player>,
    p: Player,
    st: PlayerState,
    sb: Seq<(u32, u32)>,
    time: u64,
) -> bool {
    let pos = Point { x: st.x, y: st.y };
    &&& p.id == st.id
    &&& p.angle.mdeg == st.angle
    &&& p.throttle == st.throttle
    &&& p.position == pos
    &&& p.velocity.dx == vel_x(
        st.angle as int,
        st.throttle as int,
        crate::models::PLAYER_BASE_SPEED as int,
    )
    &&& p.velocity.dy == vel_y(
        st.angle as int,
        st.throttle as int,
        crate::models::PLAYER_BASE_SPEED as int,
    )
    &&& p.radius == st.radius
    &&& p.bullet_speed == st.bullet_speed
    &&& p.bullet_radius == st.bullet_radius
    &&& match find_player_from(olds, st.id, 0) {
        Option::Some(j) => p.trajectory.positions@ == olds[j].trajectory.positions@.push(
            (pos, time),
        ) && p.score_history.inner@ == olds[j].score_history.inner@.push(
            (score_of(sb, st.id), time),
        ),
        Option::None => p.trajectory.positions@ == seq![(pos, time)]
            && p.score_history.inner@ == seq![(score_of(sb, st.id), time)],
    }
}

impl Analyzer {
    /// Every tracked entity is well-formed, newest history samples all sit
    /// at the merge time, and player ids are pairwise distinct.
    pub open spec fn wf(self) -> bool {
        &&& forall|i: int| 0 <= i < self.players@.len() ==> (#[trigger] self.players@[i]).wf()
        &&& forall|i: int|
            0 <= i < self.players@.len() ==> (#[trigger] self.players@[i]).last_seen()
                == self.last_time
        &&& forall|i: int, j: int|
            0 <= i < j < self.players@.len() ==> (#[trigger] self.players@[i]).id != (
            #[trigger] self.players@[j]).id
        &&& forall|i: int| 0 <= i < self.bullets@.len() ==> (#[trigger] self.bullets@[i]).wf()
        &&& forall|i: int| 0 <= i < self.items@.len() ==> (#[trigger] self.items@[i]).valid()
    }

    pub open spec fn own_index(self) -> Option<int> {
        find_player_from(self.players@, self.own_id, 0)
    }

    /// The bot's own entity is among the players (the host guarantees it
    /// while the bot is alive).
    pub open spec fn has_own(self) -> bool {
        self.own_index() is Some
    }

    pub open spec fn own(self) -> Player {
        self.players@[self.own_index()->Some_0]
    }

    /// An analyzer that has seen no snapshot yet.
    pub fn new() -> (r: Analyzer)
        ensures
            r.own_id == 0,
            r.players@.len() == 0,
            r.bullets@.len() == 0,
            r.items@.len() == 0,
            r.last_time == 0,
            r.wf(),
    {
        Analyzer {
            own_id: 0,
            players: Vec::new(),
            bullets: Vec::new(),
            items: Vec::new(),
            last_time: 0,
        }
    }

    /// The first index holding `id`, if any.
    fn find_index(&self, id: u32) -> (r: Option<usize>)
        ensures
            opt_idx_matches(r, find_player_from(self.players@, id, 0)),
            r matches Some(i) ==> i < self.players@.len() && self.players@[i as int].id == id,
    {
        let mut i: usize = 0;
        while i < self.players.len()
            invariant
                0 <= i <= self.players@.len(),
                find_player_from(self.players@, id, 0) == find_player_from(
                    self.players@,
                    id,
                    i as int,
                ),
                forall|j: int| 0 <= j < i ==> (#[trigger] self.players@[j]).id != id,
            decreases self.players@.len() - i,
        {
            if self.players[i].id == id {
                return Some(i);
            }
            i = i + 1;
        }
        None
    }

    /// Looks a player up by id.
    pub fn player(&self, id: u32) -> (r: Option<&Player>)
        ensures
            match r {
                Option::None => find_player_from(self.players@, id, 0) is None,
                Option::Some(p) => find_player_from(self.players@, id, 0) is Some && *p
                    == self.players@[find_player_from(self.players@, id, 0)->Some_0],
            },
    {
        match self.find_index(id) {
            Option::Some(i) => Some(&self.players[i]),
            Option::None => None,
        }
    }

    /// The bot's own entity; the host only ticks the bot while it is
    /// alive, so the entity must be present.
    pub fn own_player(&self) -> (r: &Player)
        requires
            self.has_own(),
        ensures
            *r == self.own(),
    {
        let found = self.find_index(self.own_id);
        match found {
            Option::Some(i) => &self.players[i],
            Option::None => vstd::pervasive::unreached(),
        }
    }

    /// Merges a new snapshot taken at `time`: every reported player id is
    /// created or updated in place (histories persist), every tracked id
    /// absent from the snapshot is dropped, and bullets and items are
    /// replaced wholesale. The resulting order is the snapshot's.
    pub fn push_state(&mut self, state: &ClientState, time: u64)
        requires
            old(self).wf(),
            state.game_state.valid(),
            old(self).last_time < time,
        ensures
            final(self).wf(),
            final(self).own_id == state.id,
            final(self).last_time == time,
            final(self).items@ == state.game_state.items@,
            final(self).bullets@.len() == state.game_state.bullets@.len(),
            forall|i: int|
                0 <= i < state.game_state.bullets@.len() ==> bullet_matches(
                    #[trigger] final(self).bullets@[i],
                    state.game_state.bullets@[i],
                ),
            final(self).players@.len() == state.game_state.players@.len(),
            forall|i: int|
                0 <= i < state.game_state.players@.len() ==> merged_matches(
                    old(self).players@,
                    #[trigger] final(self).players@[i],
                    state.game_state.players@[i],
                    state.game_state.scoreboard@,
                    time,
                ),
    {
        let gs = &state.game_state;
        let ghost olds = self.players@;

        let mut new_players: Vec<Player> = Vec::new();
        let mut i: usize = 0;
        while i < gs.players.len()
            invariant
                0 <= i <= gs.players@.len(),
                gs == &state.game_state,
                state.game_state.valid(),
                self.players@ == olds,
                self.wf(),
                self.last_time < time,
                new_players@.len() == i,
                forall|t: int|
                    0 <= t < i ==> merged_matches(
                        olds,
                        #[trigger] new_players@[t],
                        gs.players@[t],
                        gs.scoreboard@,
                        time,
                    ),
                forall|t: int| 0 <= t < i ==> (#[trigger] new_players@[t]).wf(),
                forall|t: int| 0 <= t < i ==> (#[trigger] new_players@[t]).last_seen() == time,
            decreases gs.players@.len() - i,
        {
            let st = gs.players[i];
            assert(st.valid());
            match self.find_index(st.id) {
                Option::Some(j) => {
                    let mut p = self.players[j].copied();
                    assert(p.wf());
                    p.push_state(&st, &gs.scoreboard, time);
                    new_players.push(p);
                },
                Option::None => {
                    new_players.push(Player::with_state(&st, &gs.scoreboard, time));
                },
            }
            i = i + 1;
        }

        let mut new_bullets: Vec<Bullet> = Vec::new();
        let mut b: usize = 0;
        while b < gs.bullets.len()
            invariant
                0 <= b <= gs.bullets@.len(),
                gs == &state.game_state,
                state.game_state.valid(),
                new_bullets@.len() == b,
                forall|t: int|
                    0 <= t < b ==> bullet_matches(
                        #[trigger] new_bullets@[t],
                        gs.bullets@[t],
                    ),
                forall|t: int| 0 <= t < b ==> (#[trigger] new_bullets@[t]).wf(),
            decreases gs.bullets@.len() - b,
        {
            let bst = gs.bullets[b];
            assert(bst.valid());
            new_bullets.push(Bullet::new(&bst));
            b = b + 1;
        }

        let mut new_items: Vec<Item> = Vec::new();
        let mut t: usize = 0;
        while t < gs.items.len()
            invariant
                0 <= t <= gs.items@.len(),
                gs == &state.game_state,
                new_items@ == gs.items@.subrange(0, t as int),
            decreases gs.items@.len() - t,
        {
            new_items.push(gs.items[t]);
            proof {
                assert(new_items@ =~= gs.items@.subrange(0, t + 1));
            }
            t = t + 1;
        }
        proof {
            assert(new_items@ =~= gs.items@);
        }

        self.players = new_players;
        self.bullets = new_bullets;
        self.items = new_items;
        self.own_id = state.id;
        self.last_time = time;

        proof {
            assert forall|a: int, c: int|
                0 <= a < c < self.players@.len() implies (#[trigger] self.players@[a]).id != (
            #[trigger] self.players@[c]).id by {
                assert(self.players@[a].id == gs.players@[a].id);
                assert(self.players@[c].id == gs.players@[c].id);
            }
        }
    }

    /// The live player currently closest to the bot (never the bot
    /// itself); `None` when no other player is live.
    pub fn player_closest(&self) -> (r: Option<&Player>)
        requires
            self.wf(),
            self.has_own(),
        ensures
            ({
                let s = best_from(self.players@, self.own_id, closest_key(*self), 0);
                match r {
                    Option::None => s is None,
                    Option::Some(p) => s is Some && *p == self.players@[s->Some_0],
                }
            }),
    {
        let own_pos = self.own_player().position;
        let ghost key = closest_key(*self);
        let mut i: usize = self.players.len();
        let mut best: Option<usize> = None;
        let mut best_key: i128 = 0;
        while i > 0
            invariant
                0 <= i <= self.players@.len(),
                self.wf(),
                self.has_own(),
                own_pos == self.own().position,
                key == closest_key(*self),
                match best {
                    Option::None => best_from(self.players@, self.own_id, key, i as int) is None,
                    Option::Some(b) => {
                        let s = best_from(self.players@, self.own_id, key, i as int);
                        &&& s is Some
                        &&& b == s->Some_0
                        &&& b < self.players@.len()
                        &&& best_key == key(self.players@[b as int])
                    },
                },
            decreases i,
        {
            i = i - 1;
            proof {
                lemma_find_in_range(self.players@, self.own_id, 0);
                assert(self.own().wf());
            }
            if self.players[i].id != self.own_id {
                let ki = distance_sq(own_pos, self.players[i].position) as i128;
                match best {
                    Option::None => {
                        best = Some(i);
                        best_key = ki;
                    },
                    Option::Some(b) => {
                        if ki < best_key || (ki == best_key && self.players[i].id
                            < self.players[b].id) {
                            best = Some(i);
                            best_key = ki;
                        }
                    },
                }
            }
        }
        match best {
            Option::Some(b) => Some(&self.players[b]),
            Option::None => None,
        }
    }

    /// The player that moved least over its whole retained history, by
    /// the squared magnitude of its average absolute velocity.
    pub fn player_least_moving(&self) -> (r: Option<&Player>)
        requires
            self.wf(),
            self.has_own(),
        ensures
            ({
                let s = best_from(self.players@, self.own_id, least_moving_key(), 0);
                match r {
                    Option::None => s is None,
                    Option::Some(p) => s is Some && *p == self.players@[s->Some_0],
                }
            }),
    {
        let ghost key = least_moving_key();
        let mut i: usize = self.players.len();
        let mut best: Option<usize> = None;
        let mut best_key: i128 = 0;
        while i > 0
            invariant
                0 <= i <= self.players@.len(),
                self.wf(),
                key == least_moving_key(),
                match best {
                    Option::None => best_from(self.players@, self.own_id, key, i as int) is None,
                    Option::Some(b) => {
                        let s = best_from(self.players@, self.own_id, key, i as int);
                        &&& s is Some
                        &&& b == s->Some_0
                        &&& b < self.players@.len()
                        &&& best_key == key(self.players@[b as int])
                    },
                },
            decreases i,
        {
            i = i - 1;
            if self.players[i].id != self.own_id {
                let v = self.players[i].trajectory.ave_abs_velocity();
                let ki = crate::geom::magnitude_sq(v);
                match best {
                    Option::None => {
                        best = Some(i);
                        best_key = ki;
                    },
                    Option::Some(b) => {
                        if ki < best_key || (ki == best_key && self.players[i].id
                            < self.players[b].id) {
                            best = Some(i);
                            best_key = ki;
                        }
                    },
                }
            }
        }
        match best {
            Option::Some(b) => Some(&self.players[b]),
            Option::None => None,
        }
    }

    /// The player with the highest current score, ties broken by
    /// ascending id.
    pub fn player_highest_score(&self) -> (r: Option<&Player>)
        requires
            self.wf(),
            self.has_own(),
        ensures
            ({
                let s = best_from(self.players@, self.own_id, highest_score_key(), 0);
                match r {
                    Option::None => s is None,
                    Option::Some(p) => s is Some && *p == self.players@[s->Some_0],
                }
            }),
    {
        let ghost key = highest_score_key();
        let mut i: usize = self.players.len();
        let mut best: Option<usize> = None;
        let mut best_key: i128 = 0;
        while i > 0
            invariant
                0 <= i <= self.players@.len(),
                self.wf(),
                key == highest_score_key(),
                match best {
                    Option::None => best_from(self.players@, self.own_id, key, i as int) is None,
                    Option::Some(b) => {
                        let s = best_from(self.players@, self.own_id, key, i as int);
                        &&& s is Some
                        &&& b == s->Some_0
                        &&& b < self.players@.len()
                        &&& best_key == key(self.players@[b as int])
                    },
                },
            decreases i,
        {
            i = i - 1;
            if self.players[i].id != self.own_id {
                let ki = -(self.players[i].score() as i128);
                match best {
                    Option::None => {
                        best = Some(i);
                        best_key = ki;
                    },
                    Option::Some(b) => {
                        if ki < best_key || (ki == best_key && self.players[i].id
                            < self.players[b].id) {
                            best = Some(i);
                            best_key = ki;
                        }
                    },
                }
            }
        }
        match best {
            Option::Some(b) => Some(&self.players[b]),
            Option::None => None,
        }
    }

    /// The player whose score, projected `after_ms` into the future from
    /// its scoring trend, is highest; ties broken by ascending id.
    pub fn player_highest_score_after(&self, after_ms: u64) -> (r: Option<&Player>)
        requires
            self.wf(),
            self.has_own(),
            after_ms <= MAX_INTERVAL_MS,
        ensures
            ({
                let s = best_from(self.players@, self.own_id, highest_score_after_key(after_ms), 0);
                match r {
                    Option::None => s is None,
                    Option::Some(p) => s is Some && *p == self.players@[s->Some_0],
                }
            }),
    {
        let ghost key = highest_score_after_key(after_ms);
        let mut i: usize = self.players.len();
        let mut best: Option<usize> = None;
        let mut best_key: i128 = 0;
        while i > 0
            invariant
                0 <= i <= self.players@.len(),
                self.wf(),
                after_ms <= MAX_INTERVAL_MS,
                key == highest_score_after_key(after_ms),
                match best {
                    Option::None => best_from(self.players@, self.own_id, key, i as int) is None,
                    Option::Some(b) => {
                        let s = best_from(self.players@, self.own_id, key, i as int);
                        &&& s is Some
                        &&& b == s->Some_0
                        &&& b < self.players@.len()
                        &&& best_key == key(self.players@[b as int])
                    },
                },
            decreases i,
        {
            i = i - 1;
            if self.players[i].id != self.own_id {
                let ki = -(self.players[i].score_history.project(after_ms) as i128);
                match best {
                    Option::None => {
                        best = Some(i);
                        best_key = ki;
                    },
                    Option::Some(b) => {
                        if ki < best_key || (ki == best_key && self.players[i].id
                            < self.players[b].id) {
                            best = Some(i);
                            best_key = ki;
                        }
                    },
                }
            }
        }
        match best {
            Option::Some(b) => Some(&self.players[b]),
            Option::None => None,
        }
    }

    /// The item currently closest to the bot; on equal distances the one
    /// reported earlier in the snapshot wins.
    pub fn item_closest(&self) -> (r: Option<&Item>)
        requires
            self.wf(),
            self.has_own(),
        ensures
            ({
                let s = closest_item_from(self.items@, self.own().position, 0);
                match r {
                    Option::None => s is None,
                    Option::Some(it) => s is Some && *it == self.items@[s->Some_0],
                }
            }),
    {
        let own_pos = self.own_player().position;
        let mut i: usize = self.items.len();
        let mut best: Option<usize> = None;
        while i > 0
            invariant
                0 <= i <= self.items@.len(),
                self.wf(),
                self.has_own(),
                own_pos == self.own().position,
                match best {
                    Option::None => closest_item_from(self.items@, own_pos, i as int) is None,
                    Option::Some(b) => {
                        let s = closest_item_from(self.items@, own_pos, i as int);
                        &&& s is Some
                        &&& b == s->Some_0
                        &&& b < self.items@.len()
                    },
                },
            decreases i,
        {
            i = i - 1;
            proof {
                lemma_find_in_range(self.players@, self.own_id, 0);
                assert(self.own().wf());
            }
            let it = self.items[i];
            match best {
                Option::None => {
                    best = Some(i);
                },
                Option::Some(b) => {
                    let bt = self.items[b];
                    let ki = distance_sq(own_pos, Point { x: it.x, y: it.y });
                    let kb = distance_sq(own_pos, Point { x: bt.x, y: bt.y });
                    if ki <= kb {
                        best = Some(i);
                    }
                },
            }
        }
        match best {
            Option::Some(b) => Some(&self.items[b]),
            Option::None => None,
        }
    }

    /// The first bullet (snapshot order) within `radius` of the bot that
    /// is predicted to collide with it within `during_ms`, the bot
    /// modeled as continuing at its current velocity.
    pub fn first_bullet_colliding(&self, radius: i64, during_ms: u64) -> (r: Option<usize>)
        requires
            self.wf(),
            self.has_own(),
            0 <= radius <= VEC_BOUND,
            during_ms <= MAX_INTERVAL_MS,
        ensures
            opt_idx_matches(
                r,
                first_bullet_from(
                    *self,
                    radius,
                    (during_ms / ANALYSIS_INTERVAL_MS) as int,
                    0,
                ),
            ),
            r matches Some(i) ==> i < self.bullets@.len(),
    {
        let own = self.own_player();
        let ghost k = (during_ms / ANALYSIS_INTERVAL_MS) as int;
        proof {
            lemma_mul_bound(radius as int, radius as int, VEC_BOUND as int, VEC_BOUND as int);
        }
        let rad2 = radius * radius;
        let mut i: usize = 0;
        while i < self.bullets.len()
            invariant
                0 <= i <= self.bullets@.len(),
                self.wf(),
                self.has_own(),
                *own == self.own(),
                0 <= radius <= VEC_BOUND,
                during_ms <= MAX_INTERVAL_MS,
                rad2 == radius * radius,
                k == (during_ms / ANALYSIS_INTERVAL_MS) as int,
                first_bullet_from(*self, radius, k, 0) == first_bullet_from(
                    *self,
                    radius,
                    k,
                    i as int,
                ),
            decreases self.bullets@.len() - i,
        {
            proof {
                lemma_find_in_range(self.players@, self.own_id, 0);
                assert(self.own().wf());
            }
            let b = &self.bullets[i];
            let d2 = distance_sq(own.position, b.position);
            if d2 < rad2 {
                if own.is_colliding_during(b, during_ms, false) {
                    return Some(i);
                }
            }
            i = i + 1;
        }
        None
    }

    /// The first player (snapshot order, never the bot) within `radius`
    /// of the bot predicted to collide with it within `during_ms`; with
    /// `self_stop` the bot is modeled as stopping now (detecting being
    /// chased), without it as keeping its motion (hazard avoidance).
    pub fn first_player_colliding(&self, radius: i64, during_ms: u64, self_stop: bool) -> (r:
        Option<usize>)
        requires
            self.wf(),
            self.has_own(),
            0 <= radius <= VEC_BOUND,
            during_ms <= MAX_INTERVAL_MS,
        ensures
            opt_idx_matches(
                r,
                first_player_from(
                    *self,
                    radius,
                    (during_ms / ANALYSIS_INTERVAL_MS) as int,
                    self_stop,
                    0,
                ),
            ),
            r matches Some(i) ==> i < self.players@.len(),
    {
        let own = self.own_player();
        let ghost k = (during_ms / ANALYSIS_INTERVAL_MS) as int;
        proof {
            lemma_mul_bound(radius as int, radius as int, VEC_BOUND as int, VEC_BOUND as int);
        }
        let rad2 = radius * radius;
        let mut i: usize = 0;
        while i < self.players.len()
            invariant
                0 <= i <= self.players@.len(),
                self.wf(),
                self.has_own(),
                *own == self.own(),
                0 <= radius <= VEC_BOUND,
                during_ms <= MAX_INTERVAL_MS,
                rad2 == radius * radius,
                k == (during_ms / ANALYSIS_INTERVAL_MS) as int,
                first_player_from(*self, radius, k, self_stop, 0) == first_player_from(
                    *self,
                    radius,
                    k,
                    self_stop,
                    i as int,
                ),
            decreases self.players@.len() - i,
        {
            proof {
                lemma_find_in_range(self.players@, self.own_id, 0);
                assert(self.own().wf());
            }
            let p = &self.players[i];
            if p.id != self.own_id {
                let d2 = distance_sq(own.position, p.position);
                if d2 < rad2 {
                    if own.is_colliding_during(p, during_ms, self_stop) {
                        return Some(i);
                    }
                }
            }
            i = i + 1;
        }
        None
    }

    /// All bullets (indices, snapshot order) within `radius` of the bot
    /// and predicted to collide with it within `during_ms`.
    pub fn bullets_within_colliding(&self, radius: i64, during_ms: u64) -> (r: Vec<usize>)
        requires
            self.wf(),
            self.has_own(),
            0 <= radius <= VEC_BOUND,
            during_ms <= MAX_INTERVAL_MS,
        ensures
            forall|t: int|
                0 <= t < r@.len() ==> #[trigger] r@[t] < self.bullets@.len() && bullet_hit(
                    *self,
                    r@[t] as int,
                    radius,
                    (during_ms / ANALYSIS_INTERVAL_MS) as int,
                ),
            forall|t1: int, t2: int| 0 <= t1 < t2 < r@.len() ==> r@[t1] < r@[t2],
            forall|i: int|
                0 <= i < self.bullets@.len() && #[trigger] bullet_hit(
                    *self,
                    i,
                    radius,
                    (during_ms / ANALYSIS_INTERVAL_MS) as int,
                ) ==> exists|t: int| 0 <= t < r@.len() && #[trigger] r@[t] == i,
    {
        let own = self.own_player();
        let ghost k = (during_ms / ANALYSIS_INTERVAL_MS) as int;
        proof {
            lemma_mul_bound(radius as int, radius as int, VEC_BOUND as int, VEC_BOUND as int);
        }
        let rad2 = radius * radius;
        let mut out: Vec<usize> = Vec::new();
        let mut i: usize = 0;
        while i < self.bullets.len()
            invariant
                0 <= i <= self.bullets@.len(),
                self.wf(),
                self.has_own(),
                *own == self.own(),
                0 <= radius <= VEC_BOUND,
                during_ms <= MAX_INTERVAL_MS,
                rad2 == radius * radius,
                k == (during_ms / ANALYSIS_INTERVAL_MS) as int,
                forall|t: int|
                    0 <= t < out@.len() ==> #[trigger] out@[t] < i && bullet_hit(
                        *self,
                        out@[t] as int,
                        radius,
                        k,
                    ),
                forall|t1: int, t2: int| 0 <= t1 < t2 < out@.len() ==> out@[t1] < out@[t2],
                forall|j: int|
                    0 <= j < i && #[trigger] bullet_hit(*self, j, radius, k) ==> exists|t: int|
                        0 <= t < out@.len() && #[trigger] out@[t] == j,
            decreases self.bullets@.len() - i,
        {
            proof {
                lemma_find_in_range(self.players@, self.own_id, 0);
                assert(self.own().wf());
            }
            let b = &self.bullets[i];
            let d2 = distance_sq(own.position, b.position);
            let mut hit = false;
            if d2 < rad2 {
                if own.is_colliding_during(b, during_ms, false) {
                    hit = true;
                }
            }
            let ghost out0 = out@;
            let ghost hit_i = bullet_hit(*self, i as int, radius, k);
            if hit {
                out.push(i);
            }
            proof {
                assert forall|j: int|
                    0 <= j < i + 1 && #[trigger] bullet_hit(*self, j, radius, k) implies exists|
                t: int|
                    0 <= t < out@.len() && #[trigger] out@[t] == j by {
                    if j < i {
                        let t0 = choose|t: int| 0 <= t < out0.len() && #[trigger] out0[t] == j;
                        assert(out@[t0] == j);
                    } else {
                        assert(hit_i && hit);
                        assert(out@[out0.len() as int] == i);
                    }
                }
            }
            i = i + 1;
        }
        out
    }

    /// All players (indices, snapshot order, never the bot) within
    /// `radius` of the bot and predicted to collide with it within
    /// `during_ms`, modeling the bot per `self_stop`.
    pub fn players_within_colliding(&self, radius: i64, during_ms: u64, self_stop: bool) -> (r:
        Vec<usize>)
        requires
            self.wf(),
            self.has_own(),
            0 <= radius <= VEC_BOUND,
            during_ms <= MAX_INTERVAL_MS,
        ensures
            forall|t: int|
                0 <= t < r@.len() ==> #[trigger] r@[t] < self.players@.len() && player_hit(
                    *self,
                    r@[t] as int,
                    radius,
                    (during_ms / ANALYSIS_INTERVAL_MS) as int,
                    self_stop,
                ),
            forall|t1: int, t2: int| 0 <= t1 < t2 < r@.len() ==> r@[t1] < r@[t2],
            forall|i: int|
                0 <= i < self.players@.len() && #[trigger] player_hit(
                    *self,
                    i,
                    radius,
                    (during_ms / ANALYSIS_INTERVAL_MS) as int,
                    self_stop,
                ) ==> exists|t: int| 0 <= t < r@.len() && #[trigger] r@[t] == i,
    {
        let own = self.own_player();
        let ghost k = (during_ms / ANALYSIS_INTERVAL_MS) as int;
        proof {
            lemma_mul_bound(radius as int, radius as int, VEC_BOUND as int, VEC_BOUND as int);
        }
        let rad2 = radius * radius;
        let mut out: Vec<usize> = Vec::new();
        let mut i: usize = 0;
        while i < self.players.len()
            invariant
                0 <= i <= self.players@.len(),
                self.wf(),
                self.has_own(),
                *own == self.own(),
                0 <= radius <= VEC_BOUND,
                during_ms <= MAX_INTERVAL_MS,
                rad2 == radius * radius,
                k == (during_ms / ANALYSIS_INTERVAL_MS) as int,
                forall|t: int|
                    0 <= t < out@.len() ==> #[trigger] out@[t] < i && player_hit(
                        *self,
                        out@[t] as int,
                        radius,
                        k,
                        self_stop,
                    ),
                forall|t1: int, t2: int| 0 <= t1 < t2 < out@.len() ==> out@[t1] < out@[t2],
                forall|j: int|
                    0 <= j < i && #[trigger] player_hit(*self, j, radius, k, self_stop) ==> exists|t: int|
                        0 <= t < out@.len() && #[trigger] out@[t] == j,
            decreases self.players@.len() - i,
        {
            proof {
                lemma_find_in_range(self.players@, self.own_id, 0);
                assert(self.own().wf());
            }
            let p = &self.players[i];
            let mut hit = false;
            if p.id != self.own_id {
                let d2 = distance_sq(own.position, p.position);
                if d2 < rad2 {
                    if own.is_colliding_during(p, during_ms, self_stop) {
                        hit = true;
                    }
                }
            }
            let ghost out0 = out@;
            let ghost hit_i = player_hit(*self, i as int, radius, k, self_stop);
            if hit {
                out.push(i);
            }
            proof {
                assert forall|j: int|
                    0 <= j < i + 1 && #[trigger] player_hit(*self, j, radius, k, self_stop) implies exists|
                t: int|
                    0 <= t < out@.len() && #[trigger] out@[t] == j by {
                    if j < i {
                        let t0 = choose|t: int| 0 <= t < out0.len() && #[trigger] out0[t] == j;
                        assert(out@[t0] == j);
                    } else {
                        assert(hit_i && hit);
                        assert(out@[out0.len() as int] == i);
                    }
                }
            }
            i = i + 1;
        }
        out
    }
}

/// Key of the closest-player query: squared distance to the bot.
pub open spec fn closest_key(a: Analyzer) -> spec_fn(Player) -> int {
    |p: Player| dist_sq(a.own().position, p.position)
}

/// Key of the least-moving query: squared magnitude of the average
/// absolute velocity over the whole retained trajectory.
pub open spec fn least_moving_key() -> spec_fn(Player) -> int {
    |p: Player| mag_sq(ave_abs_vx(p.trajectory.positions@), ave_abs_vy(p.trajectory.positions@))
}

/// Key of the highest-score query (negated: `best_from` minimizes).
pub open spec fn highest_score_key() -> spec_fn(Player) -> int {
    |p: Player| -(p.score_history.inner@.last().0 as int)
}

/// Key of the highest-projected-score query (negated).
pub open spec fn highest_score_after_key(after_ms: u64) -> spec_fn(Player) -> int {
    |p: Player| -spec_project(p.score_history.inner@, after_ms as int)
}

} // verus!
