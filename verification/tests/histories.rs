use arena_bot::geom::Point;
use arena_bot::history::{ScoreHistory, Trajectory};

#[test]
fn single_sample_velocities_are_zero() {
    let mut t = Trajectory::new();
    t.push(Point { x: 5000, y: 7000 }, 1000);
    let lv = t.last_velocity();
    assert_eq!((lv.dx, lv.dy), (0, 0));
    let av = t.ave_abs_velocity();
    assert_eq!((av.dx, av.dy), (0, 0));
}

#[test]
fn last_velocity_from_two_samples() {
    // (0,0) then (10 px, 0) one second later: 10 px/s east.
    let mut t = Trajectory::new();
    t.push(Point { x: 0, y: 0 }, 1000);
    t.push(Point { x: 10_000, y: 0 }, 2000);
    let lv = t.last_velocity();
    assert_eq!((lv.dx, lv.dy), (10_000, 0));
}

#[test]
fn last_position_is_newest() {
    let mut t = Trajectory::new();
    t.push(Point { x: 1, y: 2 }, 10);
    t.push(Point { x: 3, y: 4 }, 20);
    let p = t.last_position();
    assert_eq!((p.x, p.y), (3, 4));
}

#[test]
fn average_absolute_velocity_ignores_direction() {
    // One second east at 10 px/s, then one second west at 10 px/s.
    let mut t = Trajectory::new();
    t.push(Point { x: 0, y: 0 }, 1000);
    t.push(Point { x: 10_000, y: 0 }, 2000);
    t.push(Point { x: 0, y: 0 }, 3000);
    let av = t.ave_abs_velocity();
    assert_eq!((av.dx, av.dy), (10_000, 0));
}

#[test]
fn score_since_takes_most_recent_at_or_before() {
    let mut s = ScoreHistory::new();
    s.push(0, 1000);
    s.push(5, 2000);
    s.push(12, 3000);
    // Strictly between the first two samples: earned 12 - 0.
    assert_eq!(s.score_since(1500), 12);
    // At exactly the newest sample: earned 12 - 12.
    assert_eq!(s.score_since(3000), 0);
}

#[test]
fn score_since_before_all_samples_counts_from_zero() {
    let mut s = ScoreHistory::new();
    s.push(7, 1000);
    assert_eq!(s.score_since(10), 7);
}

#[test]
fn last_score_is_newest() {
    let mut s = ScoreHistory::new();
    s.push(3, 10);
    s.push(9, 20);
    assert_eq!(s.last_score(), 9);
}

#[test]
fn projection_extrapolates_the_lookback_window() {
    // 10 points earned within the 10 s window; half a window ahead
    // projects 5 more.
    let mut s = ScoreHistory::new();
    s.push(0, 1000);
    s.push(10, 5000);
    assert_eq!(s.project(5000), 15);
}

#[test]
fn projection_of_flat_history_is_flat() {
    let mut s = ScoreHistory::new();
    s.push(4, 1000);
    s.push(4, 20_000);
    assert_eq!(s.project(10_000), 4);
}
