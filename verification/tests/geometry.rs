use arena_bot::geom::{
    angle_dist, angle_of, cos_mdeg, distance_sq, project_from, sin_mdeg, tangent, velocity_from,
    Angle, Point, Vector,
};

#[test]
fn normalize_positive_angle() {
    assert_eq!(Angle::new(370_000).positive().mdeg, 10_000);
    assert_eq!(Angle::new(360_000).positive().mdeg, 0);
    assert_eq!(Angle::new(123).positive().mdeg, 123);
}

#[test]
fn normalize_negative_angle() {
    assert_eq!(Angle::new(-90_000).positive().mdeg, 270_000);
    assert_eq!(Angle::new(-360_000).positive().mdeg, 0);
    assert_eq!(Angle::new(-1).positive().mdeg, 359_999);
}

#[test]
fn angular_distance_is_shortest_path() {
    assert_eq!(angle_dist(Angle::new(359_000), Angle::new(1_000)), 2_000);
    assert_eq!(angle_dist(Angle::new(0), Angle::new(180_000)), 180_000);
    assert_eq!(angle_dist(Angle::new(10_000), Angle::new(10_000)), 0);
    assert_eq!(angle_dist(Angle::new(-10_000), Angle::new(10_000)), 20_000);
}

#[test]
fn sine_exact_points() {
    assert_eq!(sin_mdeg(0), 0);
    assert_eq!(sin_mdeg(30_000), 500);
    assert_eq!(sin_mdeg(90_000), 1000);
    assert_eq!(sin_mdeg(150_000), 500);
    assert_eq!(sin_mdeg(180_000), 0);
    assert_eq!(sin_mdeg(270_000), -1000);
}

#[test]
fn cosine_exact_points() {
    assert_eq!(cos_mdeg(0), 1000);
    assert_eq!(cos_mdeg(90_000), 0);
    assert_eq!(cos_mdeg(180_000), -1000);
    assert_eq!(cos_mdeg(270_000), 0);
}

#[test]
fn angle_of_axes_is_exact() {
    assert_eq!(angle_of(1000, 0).mdeg, 0);
    assert_eq!(angle_of(0, 1000).mdeg, 90_000);
    assert_eq!(angle_of(-1000, 0).mdeg, 180_000);
    assert_eq!(angle_of(0, -1000).mdeg, 270_000);
}

#[test]
fn angle_of_diagonal_is_close() {
    // 45 degrees, up to the resolution of the integer search.
    let a = angle_of(1_000_000, 1_000_000).mdeg;
    assert!((a - 45_000).abs() < 200, "got {a}");
}

#[test]
fn tangent_is_a_quarter_turn_beyond() {
    let t = tangent(Vector { dx: 1000, dy: 0 });
    assert_eq!(t.mdeg, 90_000);
}

#[test]
fn distance_squared_exact() {
    let a = Point { x: 0, y: 0 };
    let b = Point { x: 3000, y: 4000 };
    assert_eq!(distance_sq(a, b), 25_000_000);
}

#[test]
fn projection_is_linear() {
    let p = Point { x: 1000, y: 2000 };
    let v = Vector { dx: 500_000, dy: -250_000 };
    // Half a second at 500 px/s east and 250 px/s south.
    let q = project_from(p, v, 500);
    assert_eq!(q.x, 1000 + 250_000);
    assert_eq!(q.y, 2000 - 125_000);
}

#[test]
fn velocity_from_heading_east_full_throttle() {
    let v = velocity_from(Angle::new(0), 1000, 300_000);
    assert_eq!(v.dx, 300_000);
    assert_eq!(v.dy, 0);
}

#[test]
fn velocity_from_heading_north_half_throttle() {
    let v = velocity_from(Angle::new(90_000), 500, 300_000);
    assert_eq!(v.dx, 0);
    assert_eq!(v.dy, 150_000);
}
