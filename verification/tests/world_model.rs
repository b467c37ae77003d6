use arena_bot::bullet::Bullet;
use arena_bot::geom::{Angle, Point};
use arena_bot::models::{
    is_player_alive, lookup_score, ClientState, GameState, Item, ItemType, PlayerState,
};
use arena_bot::player::Player;

fn base_player(id: u32) -> PlayerState {
    let mut p = PlayerState::new(id);
    p.radius = 5_000;
    p
}

#[test]
fn new_player_state_has_base_stats() {
    let p = PlayerState::new(3);
    assert_eq!(p.id, 3);
    assert_eq!(p.radius, 10_000);
    assert_eq!(p.bullet_radius, 4_000);
    assert_eq!(p.bullet_speed, 500_000);
    assert_eq!(p.bullet_limit, 3);
    assert_eq!((p.x, p.y, p.angle, p.throttle), (0, 0, 0, 0));
}

#[test]
fn colliding_at_compares_distance_with_radius_sum() {
    // Self at the origin with radius 5 px, stopping now. The target is a
    // stationary 2 px bullet: at 4 px it overlaps (4 < 5 + 2), at
    // exactly 7 px it does not (7 is not < 7).
    let own = Player::with_state(&base_player(1), &Vec::new(), 1000);
    let near = Bullet::with_position_angle(Point { x: 4_000, y: 0 }, Angle::new(0), 0, 2_000);
    assert!(own.is_colliding_at(&near, 1000, true));
    let far = Bullet::with_position_angle(Point { x: 7_000, y: 0 }, Angle::new(0), 0, 2_000);
    assert!(!own.is_colliding_at(&far, 1000, true));
}

#[test]
fn colliding_during_samples_the_whole_interval() {
    // A bullet 50 px east flying west at 500 px/s crosses the bot after
    // 100 ms: a one-second scan sees it, a 50 ms scan does not.
    let own = Player::with_state(&base_player(1), &Vec::new(), 1000);
    let b = Bullet::with_position_angle(
        Point { x: 50_000, y: 0 },
        Angle::new(180_000),
        500_000,
        4_000,
    );
    assert!(own.is_colliding_during(&b, 1000, true));
    assert!(!own.is_colliding_during(&b, 50, true));
}

#[test]
fn colliding_during_self_stop_asymmetry() {
    // A bullet ahead flying the same way as the bot: it only hits if the
    // bot keeps driving into it... the bullet is faster, so it outruns
    // the bot; but a bullet behind, flying forward, catches a stopped
    // bot and misses nothing.
    let mut state = base_player(1);
    state.angle = 0;
    state.throttle = 1000;
    let own = Player::with_state(&state, &Vec::new(), 1000);
    let behind = Bullet::with_position_angle(
        Point { x: -30_000, y: 0 },
        Angle::new(0),
        500_000,
        4_000,
    );
    // Stopped, the bot is caught; at full speed ahead it is also caught
    // (the bullet is faster), just later.
    assert!(own.is_colliding_during(&behind, 1000, true));
    assert!(own.is_colliding_during(&behind, 1000, false));
}

#[test]
fn player_update_appends_history() {
    let sb = vec![(1, 5)];
    let mut p = Player::with_state(&base_player(1), &sb, 1000);
    assert_eq!(p.score(), 5);
    let mut next = base_player(1);
    next.x = 10_000;
    let sb2 = vec![(1, 9)];
    p.push_state(&next, &sb2, 2000);
    assert_eq!(p.score(), 9);
    assert_eq!(p.trajectory.positions.len(), 2);
    assert_eq!(p.score_history.inner.len(), 2);
    assert_eq!(p.position, Point { x: 10_000, y: 0 });
}

#[test]
fn scoreboard_lookup_defaults_to_zero() {
    let sb = vec![(4, 10), (6, 20)];
    assert_eq!(lookup_score(&sb, 6), 20);
    assert_eq!(lookup_score(&sb, 5), 0);
}

#[test]
fn faster_bullet_item_grows_speed_and_radius() {
    let item = Item { id: 1, x: 0, y: 0, radius: 10_000, item_type: ItemType::FasterBullet };
    let mut p = PlayerState::new(1);
    item.apply_to(&mut p);
    assert_eq!(p.bullet_speed, 525_000);
    assert_eq!(p.radius, 10_500);
    assert_eq!(p.bullet_radius, 4_000);
    assert_eq!(p.bullet_limit, 3);
}

#[test]
fn more_bullet_item_raises_the_limit() {
    let item = Item { id: 1, x: 0, y: 0, radius: 10_000, item_type: ItemType::MoreBullet };
    let mut p = PlayerState::new(1);
    item.apply_to(&mut p);
    assert_eq!(p.bullet_limit, 4);
    assert_eq!(p.radius, 10_500);
    assert_eq!(p.bullet_speed, 500_000);
}

#[test]
fn bigger_bullet_item_trades_speed_for_size() {
    let item = Item { id: 1, x: 0, y: 0, radius: 10_000, item_type: ItemType::BiggerBullet };
    let mut p = PlayerState::new(1);
    item.apply_to(&mut p);
    assert_eq!(p.bullet_radius, 4_200);
    assert_eq!(p.bullet_speed, 500_000 - 1_050);
    assert_eq!(p.radius, 10_500);
}

#[test]
fn randomized_player_stays_in_bounds() {
    let mut p = PlayerState::new(1);
    for _ in 0..50 {
        p.randomize((800_000, 600_000));
        assert!((0..360_000).contains(&p.angle));
        assert!((0..800_000).contains(&p.x));
        assert!((0..600_000).contains(&p.y));
        assert_eq!(p.throttle, 0);
        assert_eq!(p.radius, 10_000);
    }
}

#[test]
fn randomized_item_stays_in_bounds() {
    for _ in 0..50 {
        let it = Item::new_randomized(9, (800_000, 600_000));
        assert_eq!(it.id, 9);
        assert!((0..800_000).contains(&it.x));
        assert!((0..600_000).contains(&it.y));
        assert_eq!(it.radius, 10_000);
    }
}

#[test]
fn alive_means_own_id_among_players() {
    let gs = GameState {
        bounds: (1_000_000, 1_000_000),
        players: vec![PlayerState::new(4)],
        items: Vec::new(),
        dead: Vec::new(),
        bullets: Vec::new(),
        scoreboard: Vec::new(),
    };
    let alive = ClientState { id: 4, game_state: gs };
    assert!(is_player_alive(&alive));
    let dead = ClientState { id: 5, game_state: alive.game_state };
    assert!(!is_player_alive(&dead));
}

#[test]
fn empty_game_state() {
    let gs = GameState::new((500_000, 400_000));
    assert_eq!(gs.bounds, (500_000, 400_000));
    assert!(gs.players.is_empty() && gs.bullets.is_empty() && gs.items.is_empty());
}
