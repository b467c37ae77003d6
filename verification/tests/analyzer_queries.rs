use arena_bot::analyzer::Analyzer;
use arena_bot::models::{BulletState, ClientState, GameState, Item, ItemType, PlayerState};

fn player_state(id: u32, angle: i64, throttle: i64, x: i64, y: i64) -> PlayerState {
    PlayerState {
        id,
        angle,
        throttle,
        x,
        y,
        radius: 10_000,
        bullet_radius: 4_000,
        bullet_speed: 500_000,
        bullet_limit: 3,
    }
}

fn world(
    own: u32,
    players: Vec<PlayerState>,
    bullets: Vec<BulletState>,
    items: Vec<Item>,
    scoreboard: Vec<(u32, u32)>,
    time: u64,
) -> Analyzer {
    let gs = GameState {
        bounds: (2_000_000, 2_000_000),
        players,
        items,
        dead: Vec::new(),
        bullets,
        scoreboard,
    };
    let cs = ClientState { id: own, game_state: gs };
    let mut a = Analyzer::new();
    a.push_state(&cs, time);
    a
}

#[test]
fn merge_creates_updates_and_removes() {
    let mut a = world(
        1,
        vec![player_state(1, 0, 0, 0, 0), player_state(2, 0, 0, 50_000, 0)],
        Vec::new(),
        Vec::new(),
        Vec::new(),
        1000,
    );
    assert_eq!(a.players.len(), 2);
    assert_eq!(a.players[0].trajectory.positions.len(), 1);

    // Second snapshot: player 2 is gone, player 1 moved.
    let gs = GameState {
        bounds: (2_000_000, 2_000_000),
        players: vec![player_state(1, 0, 0, 10_000, 0)],
        items: Vec::new(),
        dead: Vec::new(),
        bullets: Vec::new(),
        scoreboard: Vec::new(),
    };
    let cs = ClientState { id: 1, game_state: gs };
    a.push_state(&cs, 2000);
    assert_eq!(a.players.len(), 1);
    assert_eq!(a.players[0].id, 1);
    // History persisted across the merge.
    assert_eq!(a.players[0].trajectory.positions.len(), 2);
    let lv = a.players[0].trajectory.last_velocity();
    assert_eq!((lv.dx, lv.dy), (10_000, 0));
}

#[test]
fn own_player_and_lookup() {
    let a = world(
        7,
        vec![player_state(3, 0, 0, 0, 0), player_state(7, 0, 0, 5000, 5000)],
        Vec::new(),
        Vec::new(),
        Vec::new(),
        1000,
    );
    assert_eq!(a.own_player().id, 7);
    assert_eq!(a.player(3).unwrap().id, 3);
    assert!(a.player(99).is_none());
}

#[test]
fn closest_player_excludes_self_and_breaks_ties_by_id() {
    let a = world(
        1,
        vec![
            player_state(1, 0, 0, 0, 0),
            player_state(5, 0, 0, 100_000, 0),
            player_state(4, 0, 0, -100_000, 0),
            player_state(9, 0, 0, 500_000, 0),
        ],
        Vec::new(),
        Vec::new(),
        Vec::new(),
        1000,
    );
    // Players 4 and 5 are equally close: the smaller id wins.
    assert_eq!(a.player_closest().unwrap().id, 4);
}

#[test]
fn highest_score_breaks_ties_by_id() {
    let a = world(
        1,
        vec![
            player_state(1, 0, 0, 0, 0),
            player_state(6, 0, 0, 100_000, 0),
            player_state(2, 0, 0, 200_000, 0),
            player_state(8, 0, 0, 300_000, 0),
        ],
        Vec::new(),
        Vec::new(),
        vec![(1, 50), (6, 10), (2, 10), (8, 3)],
        1000,
    );
    assert_eq!(a.player_highest_score().unwrap().id, 2);
}

#[test]
fn least_moving_prefers_the_stiller_player() {
    let mut a = world(
        1,
        vec![
            player_state(1, 0, 0, 0, 0),
            player_state(2, 0, 0, 100_000, 0),
            player_state(3, 0, 0, -100_000, 0),
        ],
        Vec::new(),
        Vec::new(),
        Vec::new(),
        1000,
    );
    // Player 2 moves, player 3 stays.
    let gs = GameState {
        bounds: (2_000_000, 2_000_000),
        players: vec![
            player_state(1, 0, 0, 0, 0),
            player_state(2, 0, 0, 150_000, 0),
            player_state(3, 0, 0, -100_000, 0),
        ],
        items: Vec::new(),
        dead: Vec::new(),
        bullets: Vec::new(),
        scoreboard: Vec::new(),
    };
    let cs = ClientState { id: 1, game_state: gs };
    a.push_state(&cs, 2000);
    assert_eq!(a.player_least_moving().unwrap().id, 3);
}

#[test]
fn closest_item_is_found() {
    let a = world(
        1,
        vec![player_state(1, 0, 0, 0, 0)],
        Vec::new(),
        vec![
            Item { id: 10, x: 300_000, y: 0, radius: 10_000, item_type: ItemType::MoreBullet },
            Item { id: 11, x: 50_000, y: 0, radius: 10_000, item_type: ItemType::FasterBullet },
        ],
        Vec::new(),
        1000,
    );
    assert_eq!(a.item_closest().unwrap().id, 11);
}

#[test]
fn bullets_heading_at_the_bot_are_flagged() {
    // A bullet 50 px east flying west at 500 px/s reaches the bot well
    // within a second.
    let b = BulletState {
        id: 1,
        player_id: 2,
        angle: 180_000,
        x: 50_000,
        y: 0,
        radius: 4_000,
        speed: 500_000,
    };
    let a = world(
        1,
        vec![player_state(1, 0, 0, 0, 0)],
        vec![b],
        Vec::new(),
        Vec::new(),
        1000,
    );
    let hits = a.bullets_within_colliding(400_000, 1000);
    assert_eq!(hits, vec![0]);
    // A bullet flying away never collides.
    let b2 = BulletState { angle: 0, ..b };
    let a2 = world(
        1,
        vec![player_state(1, 0, 0, 0, 0)],
        vec![b2],
        Vec::new(),
        Vec::new(),
        1000,
    );
    assert!(a2.bullets_within_colliding(400_000, 1000).is_empty());
}

#[test]
fn players_colliding_respects_the_stop_flag() {
    // The other player charges west toward the bot at full throttle.
    let a = world(
        1,
        vec![player_state(1, 0, 0, 0, 0), player_state(2, 180_000, 1000, 100_000, 0)],
        Vec::new(),
        Vec::new(),
        Vec::new(),
        1000,
    );
    // Whether the bot stops or keeps standing still, the charger hits.
    assert_eq!(a.players_within_colliding(400_000, 2000, true), vec![1]);
    assert_eq!(a.players_within_colliding(400_000, 2000, false), vec![1]);
}
