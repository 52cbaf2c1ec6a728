use side_pool::ball::{Ball, BallColor, Vec2};
use side_pool::pocket::{pocket_ball, SidePocket};

const RADIUS: i64 = 10_000_000;

fn left() -> SidePocket {
    SidePocket { x_position: 0, width: 25_000_000, depth: 15_000_000 }
}

fn right() -> SidePocket {
    SidePocket { x_position: 540_000_000, width: 25_000_000, depth: 15_000_000 }
}

#[test]
fn the_capture_zone_is_half_the_mouth_plus_a_fifth_of_the_radius() {
    assert!(left().contains_ball(0, RADIUS));
    assert!(left().contains_ball(14_499_999, RADIUS));
    assert!(!left().contains_ball(14_500_000, RADIUS));
    assert!(left().contains_ball(-14_499_999, RADIUS));
    assert!(!left().contains_ball(-14_500_000, RADIUS));
    assert!(right().contains_ball(525_500_001, RADIUS));
    assert!(!right().contains_ball(525_500_000, RADIUS));
    assert!(right().contains_ball(554_499_999, RADIUS));
    assert!(!right().contains_ball(554_500_000, RADIUS));
}

#[test]
fn half_an_odd_width_is_not_rounded() {
    let odd = SidePocket { x_position: 0, width: 25_000_001, depth: 0 };
    assert!(odd.contains_ball(14_500_000, RADIUS));
    assert!(!odd.contains_ball(14_500_001, RADIUS));
    let narrow = SidePocket { x_position: 0, width: 7, depth: 0 };
    assert!(narrow.contains_ball(3, 0));
    assert!(!narrow.contains_ball(4, 0));
    assert!(narrow.contains_ball(3, 9));
}

#[test]
fn a_pocket_without_a_mouth_still_takes_the_tolerance() {
    let point = SidePocket { x_position: 0, width: 0, depth: 0 };
    assert!(point.contains_ball(0, 1));
    assert!(point.contains_ball(0, 3));
    assert!(!point.contains_ball(0, 0));
    assert!(!point.contains_ball(1, 3));
}

#[test]
fn the_test_holds_at_the_ends_of_the_range() {
    let far = SidePocket { x_position: i64::MIN, width: i64::MAX, depth: 0 };
    assert!(!far.contains_ball(i64::MAX, i64::MAX));
    assert!(far.contains_ball(i64::MIN, 0));
    let wide = SidePocket { x_position: 0, width: i64::MAX, depth: 0 };
    assert!(wide.contains_ball(i64::MAX / 2, 0));
    assert!(!wide.contains_ball(i64::MAX, i64::MIN));
}

#[test]
fn a_ball_in_the_capture_zone_is_taken_off_the_table() {
    let mut falling = Ball::new(Vec2::new(5_000_000, 290_000_000), BallColor::White, true, true);
    falling.linear_velocity = Vec2::new(-100_000_000, 7);
    falling.angular_velocity = 5;
    falling.angle = 17;
    falling.is_slipping = true;
    pocket_ball(&mut falling, &left());
    assert!(!falling.active);
    assert_eq!(falling.linear_velocity, Vec2 { x: 0, y: 0 });
    assert_eq!(falling.angular_velocity, 0);
    assert_eq!(falling.position, Vec2 { x: 5_000_000, y: 415_000_000 });
    assert_eq!(falling.angle, 17);
    assert!(falling.is_slipping);
    assert!(falling.is_q_ball && falling.has_angular_momentum);
    assert_eq!(falling.color, BallColor::White);
}

#[test]
fn the_parking_height_follows_the_depth_of_the_pocket() {
    let deep = SidePocket { x_position: 0, width: 25_000_000, depth: 40_000_000 };
    let mut falling = Ball::new(Vec2::new(0, 290_000_000), BallColor::Purple, false, false);
    pocket_ball(&mut falling, &deep);
    assert_eq!(falling.position.y, 440_000_000);
}

#[test]
fn a_ball_outside_the_capture_zone_stays() {
    let mut rolling = Ball::new(Vec2::new(14_500_000, 290_000_000), BallColor::White, true, false);
    rolling.linear_velocity.x = -100_000_000;
    let before = rolling;
    pocket_ball(&mut rolling, &left());
    assert_eq!(rolling, before);
    pocket_ball(&mut rolling, &right());
    assert_eq!(rolling, before);
}

#[test]
fn pocketing_twice_is_pocketing_once() {
    let mut falling = Ball::new(Vec2::new(5_000_000, 290_000_000), BallColor::White, true, false);
    falling.linear_velocity.x = -100_000_000;
    pocket_ball(&mut falling, &left());
    let once = falling;
    pocket_ball(&mut falling, &left());
    assert_eq!(falling, once);
    let deep = SidePocket { x_position: 5_000_000, width: 25_000_000, depth: 40_000_000 };
    pocket_ball(&mut falling, &deep);
    assert_eq!(falling, once);
}
