//! Wire-level world model: the plain values a snapshot carries, the
//! commands the bot can emit, and the game's base constants, all in the
//! crate's fixed-point units.

use vstd::prelude::*;
use vstd::arithmetic::div_mod::{lemma_div_pos_is_pos, lemma_multiply_divide_le};
use crate::entropy::draw_in_range;
use crate::geom::{MAX_ANGLE, MAX_COORD, MAX_RADIUS, MAX_SPEED, TURN};

verus! {

pub const BULLET_BASE_LIMIT: u32 = 3;

/// 4 pixels, in milli-pixels.
pub const BULLET_BASE_RADIUS: i64 = 4_000;

/// 500 pixels per second, in milli-pixels per second.
pub const BULLET_BASE_SPEED: i64 = 500_000;

/// Multiplicative item bonus: factor 1.05 as a ratio of thousandths.
pub const ITEM_BONUS_NUM: i64 = 1050;

pub const ITEM_BONUS_DEN: i64 = 1000;

/// The flat speed malus of the bigger-bullet item: 1.05 pixels per second.
pub const BIGGER_BULLET_SPEED_MALUS: i64 = 1050;

/// 10 pixels, in milli-pixels.
pub const ITEM_RADIUS: i64 = 10_000;

pub const PLAYER_BASE_RADIUS: i64 = 10_000;

/// 300 pixels per second, in milli-pixels per second.
pub const PLAYER_BASE_SPEED: i64 = 300_000;

/// Throttle fraction bounds, in thousandths.
pub const PLAYER_MIN_THROTTLE: i64 = -1000;

pub const PLAYER_MAX_THROTTLE: i64 = 1000;

/// Send commands no more often than this, in milliseconds.
pub const MIN_COMMAND_INTERVAL_MS: u64 = 50;

/// The world bounds reported at the handshake.
#[derive(Clone, Copy, PartialEq, Eq, Structural, Debug)]
pub struct GameConfig {
    pub bound_x: i64,
    pub bound_y: i64,
}

/// One control command per tick: rotate to a canonical angle
/// (millidegrees), set the throttle (thousandths), or fire at the current
/// heading.
#[derive(Clone, Copy, PartialEq, Eq, Structural, Debug)]
pub enum GameCommand {
    Rotate(i64),
    Throttle(i64),
    Fire,
}

/// One live player as a snapshot reports it.
#[derive(Clone, Copy, PartialEq, Eq, Structural, Debug)]
pub struct PlayerState {
    pub id: u32,
    pub angle: i64,
    pub throttle: i64,
    pub x: i64,
    pub y: i64,
    pub radius: i64,
    pub bullet_radius: i64,
    pub bullet_speed: i64,
    pub bullet_limit: u32,
}

/// One live bullet as a snapshot reports it.
#[derive(Clone, Copy, PartialEq, Eq, Structural, Debug)]
pub struct BulletState {
    pub id: u32,
    pub player_id: u32,
    pub angle: i64,
    pub x: i64,
    pub y: i64,
    pub radius: i64,
    pub speed: i64,
}

/// A dead player waiting to respawn at the given time.
#[derive(Clone, Copy, PartialEq, Eq, Structural, Debug)]
pub struct DeadPlayer {
    pub respawn_ms: u64,
    pub player: PlayerState,
    pub killer: u32,
}

#[derive(Clone, Copy, PartialEq, Eq, Structural, Debug)]
pub enum ItemType {
    FasterBullet,
    MoreBullet,
    BiggerBullet,
}

/// A pick-up item lying in the world.
#[derive(Clone, Copy, PartialEq, Eq, Structural, Debug)]
pub struct Item {
    pub id: u32,
    pub x: i64,
    pub y: i64,
    pub radius: i64,
    pub item_type: ItemType,
}

/// One full periodic report of the world.
#[derive(Debug)]
pub struct GameState {
    pub bounds: (i64, i64),
    pub players: Vec<PlayerState>,
    pub items: Vec<Item>,
    pub dead: Vec<DeadPlayer>,
    pub bullets: Vec<BulletState>,
    pub scoreboard: Vec<(u32, u32)>,
}

/// The latest world state together with the bot's own id.
#[derive(Debug)]
pub struct ClientState {
    pub id: u32,
    pub game_state: GameState,
}

/// What the server can push to the client.
#[derive(Debug)]
pub enum ServerToClient {
    Id(u32),
    GameState(GameState),
    TeamNames(Vec<(u32, String)>),
}

impl PlayerState {
    /// A reported player the library can work with: every field within the
    /// machine bounds of the fixed-point arithmetic.
    pub open spec fn valid(self) -> bool {
        &&& -MAX_ANGLE <= self.angle <= MAX_ANGLE
        &&& PLAYER_MIN_THROTTLE <= self.throttle <= PLAYER_MAX_THROTTLE
        &&& -MAX_COORD <= self.x <= MAX_COORD
        &&& -MAX_COORD <= self.y <= MAX_COORD
        &&& 0 <= self.radius <= MAX_RADIUS
        &&& 0 <= self.bullet_radius <= MAX_RADIUS
        &&& 0 <= self.bullet_speed <= MAX_SPEED
    }

    /// A fresh player at the origin with the base stats.
    pub fn new(id: u32) -> (r: PlayerState)
        ensures
            r == (PlayerState {
                id,
                angle: 0i64,
                throttle: 0i64,
                x: 0i64,
                y: 0i64,
                radius: PLAYER_BASE_RADIUS,
                bullet_radius: BULLET_BASE_RADIUS,
                bullet_speed: BULLET_BASE_SPEED,
                bullet_limit: BULLET_BASE_LIMIT,
            }),
            r.valid(),
    {
        PlayerState {
            id,
            angle: 0,
            throttle: 0,
            x: 0,
            y: 0,
            radius: PLAYER_BASE_RADIUS,
            bullet_radius: BULLET_BASE_RADIUS,
            bullet_speed: BULLET_BASE_SPEED,
            bullet_limit: BULLET_BASE_LIMIT,
        }
    }

    /// Respawns the player somewhere inside the bounds with a random
    /// heading, zero throttle, and the base stats. The draws are random:
    /// only their ranges are promised.
    pub fn randomize(&mut self, bounds: (i64, i64))
        requires
            0 < bounds.0 <= MAX_COORD,
            0 < bounds.1 <= MAX_COORD,
        ensures
            0 <= final(self).angle < TURN,
            final(self).throttle == 0,
            0 <= final(self).x < bounds.0,
            0 <= final(self).y < bounds.1,
            final(self).radius == PLAYER_BASE_RADIUS,
            final(self).bullet_radius == BULLET_BASE_RADIUS,
            final(self).bullet_speed == BULLET_BASE_SPEED,
            final(self).bullet_limit == BULLET_BASE_LIMIT,
            final(self).id == old(self).id,
            final(self).valid(),
    {
        self.angle = draw_in_range(0, TURN);
        self.throttle = 0;
        self.x = draw_in_range(0, bounds.0);
        self.y = draw_in_range(0, bounds.1);
        self.radius = PLAYER_BASE_RADIUS;
        self.bullet_radius = BULLET_BASE_RADIUS;
        self.bullet_speed = BULLET_BASE_SPEED;
        self.bullet_limit = BULLET_BASE_LIMIT;
    }
}

impl BulletState {
    pub open spec fn valid(self) -> bool {
        &&& -MAX_ANGLE <= self.angle <= MAX_ANGLE
        &&& -MAX_COORD <= self.x <= MAX_COORD
        &&& -MAX_COORD <= self.y <= MAX_COORD
        &&& 0 <= self.radius <= MAX_RADIUS
        &&& 0 <= self.speed <= MAX_SPEED
    }
}

impl Item {
    pub open spec fn valid(self) -> bool {
        &&& -MAX_COORD <= self.x <= MAX_COORD
        &&& -MAX_COORD <= self.y <= MAX_COORD
        &&& 0 <= self.radius <= MAX_RADIUS
    }

    /// A fresh item of a random type somewhere inside the bounds. The
    /// draws are random: only their ranges are promised.
    pub fn new_randomized(id: u32, bounds: (i64, i64)) -> (r: Item)
        requires
            0 < bounds.0 <= MAX_COORD,
            0 < bounds.1 <= MAX_COORD,
        ensures
            r.id == id,
            0 <= r.x < bounds.0,
            0 <= r.y < bounds.1,
            r.radius == ITEM_RADIUS,
            r.valid(),
    {
        let x = draw_in_range(0, bounds.0);
        let y = draw_in_range(0, bounds.1);
        let k = draw_in_range(0, 3);
        let item_type = if k == 0 {
            ItemType::FasterBullet
        } else if k == 1 {
            ItemType::MoreBullet
        } else {
            ItemType::BiggerBullet
        };
        Item { id, x, y, item_type, radius: ITEM_RADIUS }
    }

    /// Applies this item's bonus to the picking player: each type grows the
    /// player and improves one bullet stat. Grown stats saturate at the
    /// library's machine bounds, and the bigger-bullet speed malus stops at
    /// zero, so a valid player stays valid.
    pub fn apply_to(&self, player: &mut PlayerState)
        requires
            old(player).valid(),
        ensures
            final(player).valid(),
            final(player).id == old(player).id,
            final(player).angle == old(player).angle,
            final(player).throttle == old(player).throttle,
            final(player).x == old(player).x,
            final(player).y == old(player).y,
            final(player).radius == grow_radius(old(player).radius as int),
            match self.item_type {
                ItemType::FasterBullet => {
                    &&& final(player).bullet_speed == grow_speed(old(player).bullet_speed as int)
                    &&& final(player).bullet_radius == old(player).bullet_radius
                    &&& final(player).bullet_limit == old(player).bullet_limit
                },
                ItemType::MoreBullet => {
                    &&& final(player).bullet_speed == old(player).bullet_speed
                    &&& final(player).bullet_radius == old(player).bullet_radius
                    &&& final(player).bullet_limit == if old(player).bullet_limit == u32::MAX {
                        u32::MAX as int
                    } else {
                        old(player).bullet_limit + 1
                    }
                },
                ItemType::BiggerBullet => {
                    &&& final(player).bullet_speed == if old(player).bullet_speed
                        >= BIGGER_BULLET_SPEED_MALUS {
                        old(player).bullet_speed - BIGGER_BULLET_SPEED_MALUS
                    } else {
                        0
                    }
                    &&& final(player).bullet_radius == grow_radius(
                        old(player).bullet_radius as int,
                    )
                    &&& final(player).bullet_limit == old(player).bullet_limit
                },
            },
    {
        match self.item_type {
            ItemType::FasterBullet => {
                player.bullet_speed = grow_speed_x(player.bullet_speed);
                player.radius = grow_radius_x(player.radius);
            },
            ItemType::MoreBullet => {
                if player.bullet_limit < u32::MAX {
                    player.bullet_limit = player.bullet_limit + 1;
                }
                player.radius = grow_radius_x(player.radius);
            },
            ItemType::BiggerBullet => {
                player.bullet_radius = grow_radius_x(player.bullet_radius);
                player.radius = grow_radius_x(player.radius);
                if player.bullet_speed >= BIGGER_BULLET_SPEED_MALUS {
                    player.bullet_speed = player.bullet_speed - BIGGER_BULLET_SPEED_MALUS;
                } else {
                    player.bullet_speed = 0;
                }
            },
        }
    }
}

/// A radius grown by the item bonus factor, saturated at the radius bound.
pub open spec fn grow_radius(r: int) -> int {
    let raw = r * (ITEM_BONUS_NUM as int) / (ITEM_BONUS_DEN as int);
    if raw > MAX_RADIUS {
        MAX_RADIUS as int
    } else {
        raw
    }
}

/// A speed grown by the item bonus factor, saturated at the speed bound.
pub open spec fn grow_speed(s: int) -> int {
    let raw = s * (ITEM_BONUS_NUM as int) / (ITEM_BONUS_DEN as int);
    if raw > MAX_SPEED {
        MAX_SPEED as int
    } else {
        raw
    }
}

fn grow_radius_x(r: i64) -> (res: i64)
    requires
        0 <= r <= MAX_RADIUS,
    ensures
        res == grow_radius(r as int),
        0 <= res <= MAX_RADIUS,
{
    proof {
        lemma_div_pos_is_pos(r as int * ITEM_BONUS_NUM, ITEM_BONUS_DEN as int);
        lemma_multiply_divide_le(r as int * ITEM_BONUS_NUM, ITEM_BONUS_DEN as int, 10_500_000);
    }
    let raw = ((r as u64) * (ITEM_BONUS_NUM as u64) / (ITEM_BONUS_DEN as u64)) as i64;
    if raw > MAX_RADIUS {
        MAX_RADIUS
    } else {
        raw
    }
}

fn grow_speed_x(s: i64) -> (res: i64)
    requires
        0 <= s <= MAX_SPEED,
    ensures
        res == grow_speed(s as int),
        0 <= res <= MAX_SPEED,
{
    proof {
        lemma_div_pos_is_pos(s as int * ITEM_BONUS_NUM, ITEM_BONUS_DEN as int);
        lemma_multiply_divide_le(s as int * ITEM_BONUS_NUM, ITEM_BONUS_DEN as int, 10_500_000);
    }
    let raw = ((s as u64) * (ITEM_BONUS_NUM as u64) / (ITEM_BONUS_DEN as u64)) as i64;
    if raw > MAX_SPEED {
        MAX_SPEED
    } else {
        raw
    }
}

impl GameState {
    /// An empty world with the given bounds.
    pub fn new(bounds: (i64, i64)) -> (r: GameState)
        ensures
            r.bounds == bounds,
            r.players@.len() == 0,
            r.items@.len() == 0,
            r.dead@.len() == 0,
            r.bullets@.len() == 0,
            r.scoreboard@.len() == 0,
            r.valid(),
    {
        GameState {
            bounds,
            players: Vec::new(),
            items: Vec::new(),
            dead: Vec::new(),
            bullets: Vec::new(),
            scoreboard: Vec::new(),
        }
    }

    /// A snapshot the analyzer can merge: every entity within the machine
    /// bounds and player ids pairwise distinct.
    pub open spec fn valid(self) -> bool {
        &&& forall|i: int| 0 <= i < self.players@.len() ==> (#[trigger] self.players@[i]).valid()
        &&& forall|i: int, j: int|
            0 <= i < j < self.players@.len() ==> (#[trigger] self.players@[i]).id != (
            #[trigger] self.players@[j]).id
        &&& forall|i: int| 0 <= i < self.bullets@.len() ==> (#[trigger] self.bullets@[i]).valid()
        &&& forall|i: int| 0 <= i < self.items@.len() ==> (#[trigger] self.items@[i]).valid()
    }
}

/// The score the scoreboard assigns to `id`: the first entry that matches,
/// or 0 if none does.
pub open spec fn score_of(sb: Seq<(u32, u32)>, id: u32) -> u32
    decreases sb.len(),
{
    if sb.len() == 0 {
        0
    } else if sb[0].0 == id {
        sb[0].1
    } else {
        score_of(sb.subrange(1, sb.len() as int), id)
    }
}

/// Looks `id` up in a scoreboard; 0 if the id has no entry yet.
pub fn lookup_score(sb: &Vec<(u32, u32)>, id: u32) -> (r: u32)
    ensures
        r == score_of(sb@, id),
{
    let mut i: usize = 0;
    proof {
        assert(sb@.subrange(0, sb@.len() as int) =~= sb@);
    }
    while i < sb.len()
        invariant
            0 <= i <= sb@.len(),
            score_of(sb@, id) == score_of(sb@.subrange(i as int, sb@.len() as int), id),
        decreases sb@.len() - i,
    {
        let (k, v) = sb[i];
        proof {
            let rest = sb@.subrange(i as int, sb@.len() as int);
            assert(rest[0] == sb@[i as int]);
            assert(rest.subrange(1, rest.len() as int) =~= sb@.subrange(
                i + 1,
                sb@.len() as int,
            ));
        }
        if k == id {
            return v;
        }
        i = i + 1;
    }
    proof {
        assert(sb@.subrange(i as int, sb@.len() as int).len() == 0);
    }
    0
}

/// Whether the bot's own id is among the live players of the snapshot.
pub fn is_player_alive(state: &ClientState) -> (r: bool)
    ensures
        r == exists|i: int|
            0 <= i < state.game_state.players@.len() && (#[trigger] state.game_state.players@[i]).id
                == state.id,
{
    let players = &state.game_state.players;
    let mut i: usize = 0;
    while i < players.len()
        invariant
            0 <= i <= players@.len(),
            players == &state.game_state.players,
            forall|j: int| 0 <= j < i ==> (#[trigger] players@[j]).id != state.id,
        decreases players@.len() - i,
    {
        if players[i].id == state.id {
            return true;
        }
        i = i + 1;
    }
    false
}

} // verus!
