use side_pool::ball::{Ball, BallColor, Vec2};
use side_pool::pair::{is_colliding, resolve_pair};

fn ball(x: i64, vx: i64, spin: i64, is_q_ball: bool, has_angular_momentum: bool) -> Ball {
    let color = if is_q_ball { BallColor::White } else { BallColor::Purple };
    let mut made = Ball::new(Vec2::new(x, 290_000_000), color, is_q_ball, has_angular_momentum);
    made.linear_velocity.x = vx;
    made.angular_velocity = spin;
    made
}

fn resolved(mut first: Ball, mut second: Ball) -> ((i64, i64, i64), (i64, i64, i64)) {
    resolve_pair(&mut first, &mut second);
    (
        (first.position.x, first.linear_velocity.x, first.angular_velocity),
        (second.position.x, second.linear_velocity.x, second.angular_velocity),
    )
}

#[test]
fn head_on_collision_hands_over_nine_tenths() {
    let mut cue = ball(100_000_000, 100_000_000, 0, true, false);
    let mut object = ball(119_999_999, 0, 0, false, false);
    assert!(is_colliding(&cue, &object));
    resolve_pair(&mut cue, &mut object);
    assert_eq!(cue.linear_velocity.x, 10_000_000);
    assert_eq!(object.linear_velocity.x, 90_000_000);
    assert!(object.position.x - cue.position.x >= 20_000_000);
    assert_eq!(cue.position.x, 100_000_000);
    assert_eq!(object.position.x, 120_000_000);
    assert!(!is_colliding(&cue, &object));
}

#[test]
fn balls_that_only_touch_do_not_collide() {
    let cue = ball(100_000_000, 100_000_000, 0, true, false);
    let object = ball(120_000_000, 0, 0, false, false);
    assert!(!is_colliding(&cue, &object));
    assert_eq!(resolved(cue, object), ((100_000_000, 100_000_000, 0), (120_000_000, 0, 0)));
}

#[test]
fn the_second_ball_adds_the_share_to_its_own_velocity() {
    let cue = ball(100_000_000, 100_000_000, 0, true, false);
    let object = ball(115_000_001, 20_000_000, 0, false, false);
    assert_eq!(resolved(cue, object), ((97_500_001, 10_000_000, 0), (117_500_001, 110_000_000, 0)));
}

#[test]
fn an_odd_overlap_leaves_the_balls_exactly_touching() {
    let mut cue = ball(100_000_000, 100_000_000, 0, true, false);
    let mut object = ball(115_000_001, 20_000_000, 0, false, false);
    resolve_pair(&mut cue, &mut object);
    assert_eq!(object.position.x - cue.position.x, 20_000_000);
}

#[test]
fn a_collision_from_the_right_mirrors_one_from_the_left() {
    let cue = ball(100_000_000, -7_777_777, 3_000_001, true, true);
    let object = ball(90_000_000, 5_000_003, -1_000_000, false, true);
    assert!(is_colliding(&cue, &object));
    assert_eq!(
        resolved(cue, object),
        ((105_000_000, -777_777, 500_000), (85_000_000, -1_999_996, 500_000))
    );
}

#[test]
fn spin_is_shared_only_between_balls_that_can_spin() {
    assert_eq!(
        resolved(
            ball(100_000_000, 50_000_000, 3_000_001, true, true),
            ball(110_000_000, 0, 0, false, false)
        ),
        ((95_000_000, 5_000_000, 1_500_000), (115_000_000, 45_000_000, 0))
    );
    assert_eq!(
        resolved(
            ball(100_000_000, 50_000_000, 0, true, false),
            ball(110_000_000, 0, 2_000_000, false, true)
        ),
        ((95_000_000, 5_000_000, 0), (115_000_000, 45_000_000, 2_000_000))
    );
}

#[test]
fn balls_in_the_same_place_part_along_the_positive_axis() {
    let cue = ball(100_000_000, 10_000_000, 0, true, false);
    let object = ball(100_000_000, 0, 0, false, false);
    assert!(is_colliding(&cue, &object));
    assert_eq!(resolved(cue, object), ((110_000_000, 1_000_000, 0), (90_000_000, 9_000_000, 0)));
    let leaving = ball(100_000_000, -10_000_000, 0, true, false);
    assert!(!is_colliding(&leaving, &object));
}

#[test]
fn separating_balls_are_not_resolved_again() {
    let object = ball(110_000_000, 0, 0, false, false);
    assert!(!is_colliding(&ball(100_000_000, -10_000_000, 0, true, false), &object));
    let faster = ball(110_000_000, 10_000_000, 0, false, false);
    assert!(!is_colliding(&ball(100_000_000, 5_000_000, 0, true, false), &faster));
    let behind = ball(100_000_000, 0, 0, false, false);
    assert!(!is_colliding(&ball(110_000_000, 0, 0, true, false), &behind));
    let before = (ball(100_000_000, -10_000_000, 0, true, false), object);
    let mut after = before;
    resolve_pair(&mut after.0, &mut after.1);
    assert_eq!(after, before);
}

#[test]
fn overlapping_balls_at_equal_velocity_are_pushed_apart() {
    let cue = ball(100_000_000, 0, 0, true, false);
    let object = ball(110_000_000, 0, 0, false, false);
    assert!(is_colliding(&cue, &object));
    assert_eq!(resolved(cue, object), ((95_000_000, 0, 0), (115_000_000, 0, 0)));
}

#[test]
fn a_pocketed_ball_takes_no_part_in_a_collision() {
    let cue = ball(100_000_000, 100_000_000, 0, true, false);
    let mut gone = ball(110_000_000, 0, 0, false, false);
    gone.active = false;
    assert!(!is_colliding(&cue, &gone));
    assert!(!is_colliding(&gone, &cue));
    let before = (cue, gone);
    let mut after = before;
    resolve_pair(&mut after.0, &mut after.1);
    assert_eq!(after, before);
}

#[test]
fn a_collision_changes_only_position_velocity_and_spin() {
    let mut cue = ball(100_000_000, 100_000_000, 0, true, true);
    let mut object = ball(110_000_000, 0, 0, false, true);
    cue.linear_velocity.y = 3;
    cue.angle = 99;
    cue.is_slipping = true;
    object.position.y = 1;
    resolve_pair(&mut cue, &mut object);
    assert_eq!(cue.linear_velocity.y, 3);
    assert_eq!(cue.angle, 99);
    assert!(cue.is_slipping);
    assert!(cue.is_q_ball && cue.active && cue.has_angular_momentum);
    assert_eq!(cue.position.y, 290_000_000);
    assert_eq!(object.position.y, 1);
    assert_eq!(object.color, BallColor::Purple);
    assert!(!object.is_q_ball && object.active);
}
