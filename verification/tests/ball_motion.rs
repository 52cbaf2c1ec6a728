use side_pool::ball::{is_speed_below, Ball, BallColor, Vec2};
use side_pool::constants::{CUE_BALL_INITIAL_VELOCITY_MAGNITUDE, TAU};

const TICK: u32 = 16_667;

fn ball(x: i64, vx: i64, spin: i64, has_angular_momentum: bool) -> Ball {
    let position = Vec2::new(x, 290_000_000);
    let mut made = Ball::new(position, BallColor::White, true, has_angular_momentum);
    made.linear_velocity.x = vx;
    made.angular_velocity = spin;
    made
}

#[test]
fn a_new_ball_rests_on_the_table() {
    let made = Ball::new(Vec2::new(54_000_000, 290_000_000), BallColor::Purple, false, true);
    assert_eq!(made.position, Vec2 { x: 54_000_000, y: 290_000_000 });
    assert_eq!(made.linear_velocity, Vec2 { x: 0, y: 0 });
    assert_eq!(made.angular_velocity, 0);
    assert_eq!(made.angle, 0);
    assert_eq!(made.color, BallColor::Purple);
    assert!(!made.is_q_ball);
    assert!(made.active);
    assert!(!made.is_slipping);
    assert!(made.has_angular_momentum);
    assert_eq!(Vec2::zero(), Vec2::new(0, 0));
}

#[test]
fn speed_is_compared_by_squares() {
    assert!(is_speed_below(&Vec2::new(999_999, 0), 1_000_000));
    assert!(!is_speed_below(&Vec2::new(1_000_000, 0), 1_000_000));
    assert!(!is_speed_below(&Vec2::new(-1_000_000, 0), 1_000_000));
    assert!(is_speed_below(&Vec2::new(600_000, 799_999), 1_000_000));
    assert!(!is_speed_below(&Vec2::new(600_000, 800_000), 1_000_000));
    assert!(!is_speed_below(&Vec2::new(i64::MIN, i64::MIN), i64::MAX));
    assert!(is_speed_below(&Vec2::new(0, 0), 1));
}

#[test]
fn a_ball_at_rest_is_halted_where_it_stands() {
    let mut slow = ball(123_456_789, 999_999, 49_999, true);
    slow.angle = 1_234_567;
    slow.is_slipping = true;
    assert!(slow.is_at_rest());
    slow.update(TICK);
    assert_eq!(slow.position, Vec2 { x: 123_456_789, y: 290_000_000 });
    assert_eq!(slow.linear_velocity, Vec2 { x: 0, y: 0 });
    assert_eq!(slow.angular_velocity, 0);
    assert_eq!(slow.angle, 1_234_567);
    assert!(!slow.is_slipping);
    assert!(slow.active);
    let halted = slow;
    slow.update(TICK);
    assert_eq!(slow, halted);
    slow.update(1_000_000);
    assert_eq!(slow, halted);
}

#[test]
fn rest_needs_both_speeds_below_their_thresholds() {
    assert!(ball(0, 0, 0, true).is_at_rest());
    assert!(!ball(0, 1_000_000, 0, true).is_at_rest());
    assert!(!ball(0, 0, 50_000, true).is_at_rest());
    assert!(!ball(0, 0, -50_000, true).is_at_rest());
    assert!(ball(0, -999_999, -49_999, true).is_at_rest());
    let mut rising = ball(0, 0, 0, false);
    rising.linear_velocity.y = 1_000_000;
    assert!(!rising.is_at_rest());
}

#[test]
fn a_ball_without_spin_is_stopped_by_its_speed_alone() {
    assert!(ball(0, 999_999, 0, false).is_stopped());
    assert!(!ball(0, 1_000_000, 0, false).is_stopped());
    assert!(ball(0, 999_999, 49_999, true).is_stopped());
    assert!(!ball(0, 999_999, 50_000, true).is_stopped());
}

#[test]
fn a_pocketed_ball_is_left_alone() {
    let mut gone = ball(5_000_000, 0, 0, true);
    gone.active = false;
    gone.position.y = 415_000_000;
    gone.angle = 17;
    let before = gone;
    gone.update(TICK);
    assert_eq!(gone, before);
    gone.update(4_000_000_000);
    assert_eq!(gone, before);
}

#[test]
fn a_sliding_ball_without_spin_loses_a_fixed_speed_per_tick() {
    let mut sliding = ball(72_000_000, CUE_BALL_INITIAL_VELOCITY_MAGNITUDE, 0, false);
    sliding.update(TICK);
    assert_eq!(sliding.linear_velocity.x, 149_672_994);
    assert_eq!(sliding.position.x, 74_494_599);
    assert_eq!(sliding.angular_velocity, 0);
    assert_eq!(sliding.angle, 0);
    assert!(sliding.is_slipping);
    sliding.update(TICK);
    assert_eq!(sliding.linear_velocity.x, 149_345_988);
    assert_eq!(sliding.position.x, 76_983_748);
}

#[test]
fn a_sliding_ball_slows_steadily_and_stops() {
    let mut sliding = ball(72_000_000, CUE_BALL_INITIAL_VELOCITY_MAGNITUDE, 0, false);
    let mut ticks = 0;
    while sliding.linear_velocity.x != 0 {
        let before = sliding.linear_velocity.x;
        sliding.update(TICK);
        ticks += 1;
        assert!(sliding.linear_velocity.x >= 0);
        assert!(sliding.linear_velocity.x < before);
        assert!(ticks <= 457);
    }
    assert_eq!(ticks, 457);
    assert_eq!(sliding.position.x, 644_132_594);
    assert!(!sliding.is_slipping);
    assert!(sliding.is_at_rest());
}

#[test]
fn a_ball_sliding_left_slows_toward_zero() {
    let mut sliding = ball(100_000_000, -30_000_000, 0, false);
    sliding.update(1_000_000);
    assert_eq!(sliding.linear_velocity.x, -10_380_000);
    assert_eq!(sliding.position.x, 89_620_000);
    assert!(sliding.is_slipping);
}

#[test]
fn a_slipping_ball_with_spin_trades_speed_for_spin() {
    let mut slipping = ball(72_000_000, CUE_BALL_INITIAL_VELOCITY_MAGNITUDE, 0, true);
    slipping.update(TICK);
    assert_eq!(slipping.linear_velocity.x, 149_672_994);
    assert_eq!(slipping.angular_velocity, 81_751);
    assert_eq!(slipping.position.x, 74_494_599);
    assert_eq!(slipping.angle, 1_362);
    assert!(slipping.is_slipping);
    slipping.update(TICK);
    slipping.update(TICK);
    assert_eq!(slipping.linear_velocity.x, 149_018_982);
    assert_eq!(slipping.angular_velocity, 245_253);
    assert_eq!(slipping.position.x, 79_467_447);
    assert_eq!(slipping.angle, 8_174);
}

#[test]
fn spin_alone_sets_a_ball_in_motion() {
    let mut spinning = ball(100_000_000, 0, 20_000_000, true);
    spinning.update(TICK);
    assert_eq!(spinning.linear_velocity.x, 327_006);
    assert_eq!(spinning.angular_velocity, 19_918_249);
    assert_eq!(spinning.position.x, 100_005_450);
    assert_eq!(spinning.angle, 331_977);
    assert!(spinning.is_slipping);
}

#[test]
fn a_rolling_ball_is_drawn_toward_pure_rolling() {
    let mut rolling = ball(100_000_000, 50_000_000, 4_950_000, true);
    rolling.update(TICK);
    assert_eq!(rolling.linear_velocity.x, 49_975_490);
    assert_eq!(rolling.angular_velocity, 4_954_394);
    assert_eq!(rolling.position.x, 100_832_941);
    assert_eq!(rolling.angle, 82_574);
    assert!(!rolling.is_slipping);
}

#[test]
fn a_backward_turn_wraps_to_the_top_of_the_range() {
    let mut rolling = ball(100_000_000, -50_000_000, -5_000_000, true);
    rolling.angle = 10_000;
    rolling.update(TICK);
    assert_eq!(rolling.linear_velocity.x, -49_975_490);
    assert_eq!(rolling.angular_velocity, -4_999_388);
    assert_eq!(rolling.position.x, 99_167_059);
    assert_eq!(rolling.angle, 6_209_861);
    assert!(rolling.angle >= 0 && rolling.angle < TAU);
}

#[test]
fn a_tick_of_no_length_moves_nothing() {
    let mut sliding = ball(72_000_000, 150_000_000, 0, false);
    sliding.update(0);
    assert_eq!(sliding.linear_velocity.x, 150_000_000);
    assert_eq!(sliding.position.x, 72_000_000);
    assert!(sliding.is_slipping);
}

#[test]
fn the_limits_are_a_million_units() {
    let mut edge = ball(1_000_000_000_000, -1_000_000_000_000, 1_000_000_000_000, true);
    assert!(edge.is_within_limits());
    edge.position.y = -1_000_000_000_001;
    assert!(!edge.is_within_limits());
    edge.position.y = 0;
    edge.linear_velocity.y = 1_000_000_000_001;
    assert!(!edge.is_within_limits());
    edge.linear_velocity.y = 0;
    edge.angular_velocity = i64::MIN;
    assert!(!edge.is_within_limits());
}

#[test]
fn the_longest_tick_at_the_limits_stays_representable() {
    let mut fast = ball(1_000_000_000_000, 1_000_000_000_000, 100_000_000_000, true);
    fast.update(u32::MAX);
    assert!(fast.position.x.abs() <= 1_000_000_000_000_000_000);
    assert!(fast.linear_velocity.x.abs() <= 1_000_000_000_000_000_000);
    assert!(fast.angle >= 0 && fast.angle < TAU);
}
