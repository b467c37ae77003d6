use arena_bot::analyzer::Analyzer;
use arena_bot::behavior::{
    Behavior, Chase, Dodge, DodgePlayer, Fire, FireAt, GetAwayFromPlayer, MoveTo, Noop, PickItem,
    Random, Rotate, Sequence, Skip, Stop, Target, Throttle,
};
use arena_bot::geom::{Angle, Point};
use arena_bot::models::{
    BulletState, ClientState, GameCommand, GameState, Item, ItemType, PlayerState,
};

fn player_state(id: u32, angle: i64, throttle: i64, x: i64, y: i64) -> PlayerState {
    PlayerState {
        id,
        angle,
        throttle,
        x,
        y,
        radius: 10_000,
        bullet_radius: 4_000,
        bullet_speed: 500_000,
        bullet_limit: 3,
    }
}

fn world(
    own: u32,
    players: Vec<PlayerState>,
    bullets: Vec<BulletState>,
    items: Vec<Item>,
    time: u64,
) -> Analyzer {
    let gs = GameState {
        bounds: (2_000_000, 2_000_000),
        players,
        items,
        dead: Vec::new(),
        bullets,
        scoreboard: Vec::new(),
    };
    let cs = ClientState { id: own, game_state: gs };
    let mut a = Analyzer::new();
    a.push_state(&cs, time);
    a
}

fn lone_bot(angle: i64, throttle: i64) -> Analyzer {
    world(1, vec![player_state(1, angle, throttle, 0, 0)], Vec::new(), Vec::new(), 1000)
}

#[test]
fn skip_always_defers() {
    let a = lone_bot(0, 0);
    assert_eq!(Skip.next_command(&a), None);
}

#[test]
fn stop_always_brakes() {
    let a = lone_bot(0, 500);
    assert_eq!(Stop.next_command(&a), Some(GameCommand::Throttle(0)));
}

#[test]
fn noop_rotates_to_the_current_heading() {
    let a = lone_bot(42_000, 0);
    assert_eq!(Noop.next_command(&a), Some(GameCommand::Rotate(42_000)));
}

#[test]
fn throttle_defers_inside_the_tolerance() {
    let a = lone_bot(0, 500);
    // |500 - 520| <= 50: nothing to do.
    assert_eq!(Throttle { value: 520 }.next_command(&a), None);
    // The boundary itself is inside the tolerance.
    assert_eq!(Throttle { value: 550 }.next_command(&a), None);
    // One step beyond it commands the value.
    assert_eq!(Throttle { value: 551 }.next_command(&a), Some(GameCommand::Throttle(551)));
    assert_eq!(Throttle { value: 0 }.next_command(&a), Some(GameCommand::Throttle(0)));
}

#[test]
fn rotate_defers_inside_the_margin() {
    let a = lone_bot(10_000, 0);
    let mut near = Rotate::with_margin_degrees(Angle::new(12_000), 5);
    assert_eq!(near.next_command(&a), None);
    let mut far = Rotate::with_margin_degrees(Angle::new(100_000), 5);
    assert_eq!(far.next_command(&a), Some(GameCommand::Rotate(100_000)));
}

#[test]
fn fire_twice_then_never_again() {
    let a = lone_bot(0, 0);
    let mut f = Fire::with_times(2);
    assert_eq!(f.next_command(&a), Some(GameCommand::Fire));
    assert_eq!(f.next_command(&a), Some(GameCommand::Fire));
    assert_eq!(f.next_command(&a), None);
    assert_eq!(f.next_command(&a), None);
}

#[test]
fn sequence_consumes_an_exhausted_child_permanently() {
    let a = lone_bot(0, 500);
    // Skip always yields nothing; Stop always yields a command.
    let mut s = Sequence::with_slice(vec![Behavior::Skip(Skip), Behavior::Stop(Stop)]);
    assert_eq!(s.next_command(&a), Some(GameCommand::Throttle(0)));
    // The first child was dropped for good on the first call.
    assert_eq!(s.inner.len(), 1);
    assert_eq!(s.next_command(&a), Some(GameCommand::Throttle(0)));
    assert_eq!(s.inner.len(), 1);
}

#[test]
fn empty_sequence_defers() {
    let a = lone_bot(0, 0);
    let mut s = Sequence::new();
    assert_eq!(s.next_command(&a), None);
}

#[test]
fn move_to_brakes_once_on_arrival() {
    let a = lone_bot(0, 0);
    let mut m = MoveTo { destination: Point { x: 5000, y: 0 }, end_with_brake: true };
    // Within 10 px of the destination: brake exactly once.
    assert_eq!(m.next_command(&a), Some(GameCommand::Throttle(0)));
    assert_eq!(m.next_command(&a), None);
}

#[test]
fn move_to_steers_when_far() {
    // Destination due north; bot faces east, so it must rotate first.
    let a = lone_bot(0, 0);
    let mut m = MoveTo { destination: Point { x: 0, y: 500_000 }, end_with_brake: false };
    assert_eq!(m.next_command(&a), Some(GameCommand::Rotate(90_000)));
    // Facing north already: full throttle next.
    let a2 = lone_bot(90_000, 0);
    let mut m2 = MoveTo { destination: Point { x: 0, y: 500_000 }, end_with_brake: false };
    assert_eq!(m2.next_command(&a2), Some(GameCommand::Throttle(1000)));
}

#[test]
fn chase_stops_when_close_enough() {
    let a = world(
        1,
        vec![player_state(1, 0, 0, 0, 0), player_state(2, 0, 0, 100_000, 0)],
        Vec::new(),
        Vec::new(),
        1000,
    );
    // Target is 100 px away; give up at 200 px: nothing to do.
    let mut near = Chase::new(Target::Id(2), 200_000);
    assert_eq!(near.next_command(&a), None);
    // Pursue to within 50 px: steer (already facing it: full throttle).
    let mut far = Chase::new(Target::Id(2), 50_000);
    assert_eq!(far.next_command(&a), Some(GameCommand::Throttle(1000)));
}

#[test]
fn chase_defers_without_a_target() {
    let a = lone_bot(0, 0);
    let mut c = Chase::new(Target::Closest, 50_000);
    assert_eq!(c.next_command(&a), None);
}

#[test]
fn pick_item_rotates_then_throttles() {
    let item = Item { id: 5, x: 100_000, y: 0, radius: 10_000, item_type: ItemType::MoreBullet };
    // The closest item is due east; the bot faces north: rotate first.
    let a = world(1, vec![player_state(1, 90_000, 0, 0, 0)], Vec::new(), vec![item], 1000);
    assert_eq!(PickItem.next_command(&a), Some(GameCommand::Rotate(0)));
    // Facing east now: full throttle.
    let a2 = world(1, vec![player_state(1, 0, 0, 0, 0)], Vec::new(), vec![item], 1000);
    assert_eq!(PickItem.next_command(&a2), Some(GameCommand::Throttle(1000)));
    // No items: nothing to do.
    let a3 = lone_bot(0, 0);
    assert_eq!(PickItem.next_command(&a3), None);
}

#[test]
fn dodge_flees_an_incoming_bullet() {
    let b = BulletState {
        id: 9,
        player_id: 2,
        angle: 180_000,
        x: 50_000,
        y: 0,
        radius: 4_000,
        speed: 500_000,
    };
    let a = world(1, vec![player_state(1, 0, 0, 0, 0)], vec![b], Vec::new(), 1000);
    let mut d = Dodge::new(400_000, 1000);
    // First reaction: full throttle (the flight chain's first atom).
    assert_eq!(d.next_command(&a), Some(GameCommand::Throttle(1000)));
    // The cached chain continues: rotate to the bullet's tangent.
    let a2 = world(1, vec![player_state(1, 0, 1000, 0, 0)], vec![b], Vec::new(), 1000);
    match d.next_command(&a2) {
        Some(GameCommand::Rotate(m)) => assert_eq!(m, 270_000),
        other => panic!("expected a rotate, got {other:?}"),
    }
}

#[test]
fn dodge_defers_with_no_threat() {
    let a = lone_bot(0, 0);
    let mut d = Dodge::new(400_000, 1000);
    assert_eq!(d.next_command(&a), None);
}

#[test]
fn fire_at_corrects_and_fires() {
    // A stationary target due east; the bot faces north.
    let a = world(
        1,
        vec![player_state(1, 90_000, 0, 0, 0), player_state(2, 0, 0, 200_000, 0)],
        Vec::new(),
        Vec::new(),
        1000,
    );
    let mut f = FireAt::with_times(Target::Id(2), 1);
    // First: rotate toward (nearly) due east.
    let aim = match f.next_command(&a) {
        Some(GameCommand::Rotate(m)) => {
            assert!(m <= 5000 || m >= 355_000, "aim angle {m} not near east");
            m
        },
        other => panic!("expected a rotate, got {other:?}"),
    };
    // Once aligned, the cached chain fires.
    let a2 = world(
        1,
        vec![player_state(1, aim, 0, 0, 0), player_state(2, 0, 0, 200_000, 0)],
        Vec::new(),
        Vec::new(),
        1000,
    );
    assert_eq!(f.next_command(&a2), Some(GameCommand::Fire));
    // The one shot is spent.
    assert_eq!(f.next_command(&a2), None);
}

#[test]
fn fire_at_defers_without_a_target() {
    let a = lone_bot(0, 0);
    let mut f = FireAt::new(Target::Id(99));
    assert_eq!(f.next_command(&a), None);
}

#[test]
fn behavior_dispatch_matches_the_atoms() {
    let a = lone_bot(0, 900);
    let mut b = Behavior::Throttle(Throttle { value: 0 });
    assert_eq!(b.next_command(&a), Some(GameCommand::Throttle(0)));
    let mut s = Behavior::Sequence(Sequence::with_slice(vec![Behavior::Fire(Fire::new())]));
    assert_eq!(s.next_command(&a), Some(GameCommand::Fire));
}

#[test]
fn get_away_flees_the_closest_player() {
    // Another player sits due east; fleeing goes along the angle from
    // that player toward the bot, i.e. due west.
    let a = world(
        1,
        vec![player_state(1, 0, 1000, 0, 0), player_state(2, 0, 0, 100_000, 0)],
        Vec::new(),
        Vec::new(),
        1000,
    );
    let mut g = GetAwayFromPlayer::new();
    // Already at full throttle: the chain's second atom rotates west.
    assert_eq!(g.next_command(&a), Some(GameCommand::Rotate(180_000)));
}

#[test]
fn get_away_defers_when_alone() {
    let a = lone_bot(0, 0);
    let mut g = GetAwayFromPlayer::new();
    assert_eq!(g.next_command(&a), None);
}

#[test]
fn dodge_player_flees_a_collider() {
    // A charger storms west into the standing bot: flee along its
    // tangent at full throttle.
    let a = world(
        1,
        vec![player_state(1, 0, 0, 0, 0), player_state(2, 180_000, 1000, 100_000, 0)],
        Vec::new(),
        Vec::new(),
        1000,
    );
    let mut d = DodgePlayer::new();
    assert_eq!(d.next_command(&a), Some(GameCommand::Throttle(1000)));
}

#[test]
fn dodge_player_counter_attacks_a_chaser() {
    // The bot runs east at full speed; a same-speed chaser trails 50 px
    // behind. It never catches the moving bot, but would catch a
    // stopped one: that is the chase case, answered with a counter
    // attack at the chaser.
    let a = world(
        1,
        vec![player_state(1, 0, 1000, 0, 0), player_state(2, 0, 1000, -50_000, 0)],
        Vec::new(),
        Vec::new(),
        1000,
    );
    let mut d = DodgePlayer::new();
    match d.next_command(&a) {
        Some(GameCommand::Rotate(m)) => {
            // The aim is the chaser's direction, lead-corrected by at
            // most the 30 degree search window.
            assert!((150_000..=210_000).contains(&m), "counter aim {m} not near the chaser");
        },
        other => panic!("expected the counter-attack rotate, got {other:?}"),
    }
}

#[test]
fn dodge_player_defers_in_peace() {
    let a = lone_bot(0, 0);
    let mut d = DodgePlayer::new();
    assert_eq!(d.next_command(&a), None);
}

#[test]
fn random_commands_stay_in_range() {
    let a = lone_bot(0, 0);
    for _ in 0..200 {
        match Random.next_command(&a) {
            None => {},
            Some(GameCommand::Fire) => {},
            Some(GameCommand::Rotate(m)) => assert!((0..360_000).contains(&m)),
            Some(GameCommand::Throttle(t)) => assert!((-1000..1000).contains(&t)),
        }
    }
}
