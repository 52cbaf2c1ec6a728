//! Collisions of a ball with the cushions at the two ends of the table.
//!
//! The table reaches from zero to its playable width. A ball that has gone
//! past an end is put back against the cushion and thrown back with part of
//! its speed, unless it is in the capture zone of the pocket at that end: a
//! pocket's mouth is no cushion.

use vstd::prelude::*;
use crate::ball::{ball_bounded, ball_wf, Ball, BallModel};
use crate::constants::{BALL_RADIUS, SQRT_HALF, WALL_RESTITUTION_COEFF};
use crate::fixed::{
    abs_of, lemma_mul_div_bound, lemma_scaled_mul_shrinks, lemma_trunc_div_mirror, mul_div_narrow,
    scaled_mul, SCALE,
};
use crate::pocket::{pocket_contains, PocketModel, SidePocket};

verus! {

/// Velocity of a ball thrown back by a cushion: reversed, reduced by the
/// restitution, and reduced again by the square root of one half.
pub open spec fn rebound(v: int) -> int {
    scaled_mul(scaled_mul(v, -(WALL_RESTITUTION_COEFF as int)), SQRT_HALF as int)
}

/// Spin of a ball thrown back by a cushion: reversed and reduced by the
/// restitution.
pub open spec fn spin_rebound(spin: int) -> int {
    scaled_mul(spin, -(WALL_RESTITUTION_COEFF as int))
}

/// Whether the ball has gone past the left end where there is cushion.
pub open spec fn hits_left_wall(b: BallModel, left: PocketModel) -> bool {
    b.x - BALL_RADIUS < 0 && !pocket_contains(left, b.x, BALL_RADIUS as int)
}

/// Whether the ball has gone past the right end where there is cushion.
pub open spec fn hits_right_wall(b: BallModel, table_width: int, right: PocketModel) -> bool {
    b.x + BALL_RADIUS > table_width && !pocket_contains(right, b.x, BALL_RADIUS as int)
}

/// The ball put at `x` and thrown back.
pub open spec fn bounced(b: BallModel, x: int) -> BallModel {
    BallModel {
        x: x,
        vx: rebound(b.vx),
        spin: if b.has_angular_momentum {
            spin_rebound(b.spin)
        } else {
            b.spin
        },
        ..b
    }
}

/// The ball after the cushions have acted on it. A pocketed ball is left
/// alone; the left end is examined first.
pub open spec fn ball_after_walls(
    b: BallModel,
    table_width: int,
    left: PocketModel,
    right: PocketModel,
) -> BallModel {
    if !b.active {
        b
    } else if hits_left_wall(b, left) {
        bounced(b, BALL_RADIUS as int)
    } else if hits_right_wall(b, table_width, right) {
        bounced(b, table_width - BALL_RADIUS)
    } else {
        b
    }
}

/// A cushion never speeds a ball up, and it reverses its direction.
pub proof fn lemma_rebound_loses_speed(v: int)
    ensures
        abs_of(rebound(v)) <= abs_of(v),
        v >= 0 ==> rebound(v) <= 0,
        v <= 0 ==> rebound(v) >= 0,
        abs_of(spin_rebound(v)) <= abs_of(v),
        v >= 0 ==> spin_rebound(v) <= 0,
        v <= 0 ==> spin_rebound(v) >= 0,
{
    lemma_scaled_mul_shrinks(v, -(WALL_RESTITUTION_COEFF as int));
    lemma_scaled_mul_shrinks(scaled_mul(v, -(WALL_RESTITUTION_COEFF as int)), SQRT_HALF as int);
}

/// A ball that has gone past the left end with velocity `-v`, outside the
/// pocket's capture zone, comes back with velocity `v` times the restitution
/// times the square root of one half, one radius from the end.
pub proof fn lemma_left_wall_restitution(
    b: BallModel,
    v: int,
    table_width: int,
    left: PocketModel,
    right: PocketModel,
)
    requires
        b.active,
        b.x - BALL_RADIUS < 0,
        !pocket_contains(left, b.x, BALL_RADIUS as int),
        v > 0,
        b.vx == -v,
    ensures
        ball_after_walls(b, table_width, left, right).vx == scaled_mul(
            scaled_mul(v, WALL_RESTITUTION_COEFF as int),
            SQRT_HALF as int,
        ),
        ball_after_walls(b, table_width, left, right).vx >= 0,
        ball_after_walls(b, table_width, left, right).x == 0 + BALL_RADIUS,
{
    assert((-v) * -(WALL_RESTITUTION_COEFF as int) == v * (WALL_RESTITUTION_COEFF as int))
        by (nonlinear_arith);
    lemma_rebound_loses_speed(-v);
}

/// A ball that has gone past the right end with velocity `v`, outside either
/// pocket's capture zone, comes back with velocity `-v` times the restitution
/// times the square root of one half, one radius from the end.
pub proof fn lemma_right_wall_restitution(
    b: BallModel,
    v: int,
    table_width: int,
    left: PocketModel,
    right: PocketModel,
)
    requires
        b.active,
        b.x - BALL_RADIUS >= 0,
        b.x + BALL_RADIUS > table_width,
        !pocket_contains(right, b.x, BALL_RADIUS as int),
        v > 0,
        b.vx == v,
    ensures
        ball_after_walls(b, table_width, left, right).vx == -scaled_mul(
            scaled_mul(v, WALL_RESTITUTION_COEFF as int),
            SQRT_HALF as int,
        ),
        ball_after_walls(b, table_width, left, right).vx <= 0,
        ball_after_walls(b, table_width, left, right).x == table_width - BALL_RADIUS,
{
    let forth = scaled_mul(v, WALL_RESTITUTION_COEFF as int);
    assert(v * -(WALL_RESTITUTION_COEFF as int) == -(v * (WALL_RESTITUTION_COEFF as int)))
        by (nonlinear_arith);
    lemma_trunc_div_mirror(v * (WALL_RESTITUTION_COEFF as int), SCALE as int);
    assert((-forth) * (SQRT_HALF as int) == -(forth * (SQRT_HALF as int))) by (nonlinear_arith);
    lemma_trunc_div_mirror(forth * (SQRT_HALF as int), SCALE as int);
    lemma_rebound_loses_speed(v);
}

/// The cushions keep the invariant of a ball; they change nothing but its
/// horizontal position, its horizontal velocity and its spin, and they leave
/// a pocketed ball alone.
pub proof fn lemma_walls_wf(b: BallModel, table_width: int, left: PocketModel, right: PocketModel)
    ensures
        ball_wf(b) ==> ball_wf(ball_after_walls(b, table_width, left, right)),
        ball_after_walls(b, table_width, left, right) == (BallModel {
            x: ball_after_walls(b, table_width, left, right).x,
            vx: ball_after_walls(b, table_width, left, right).vx,
            spin: ball_after_walls(b, table_width, left, right).spin,
            ..b
        }),
        !b.active ==> ball_after_walls(b, table_width, left, right) == b,
{
    lemma_rebound_loses_speed(b.spin);
}

/// Velocity of a ball thrown back by a cushion.
pub fn rebound_of(v: i64) -> (r: i64)
    ensures
        r == rebound(v as int),
        abs_of(r as int) <= abs_of(v as int),
{
    proof {
        lemma_rebound_loses_speed(v as int);
        lemma_mul_div_bound(
            v as int,
            -(WALL_RESTITUTION_COEFF as int),
            SCALE as int,
            0x8000_0000_0000_0000,
            800_000,
        );
    }
    let back: i64 = mul_div_narrow(v, -WALL_RESTITUTION_COEFF, SCALE);
    proof {
        lemma_mul_div_bound(
            back as int,
            SQRT_HALF as int,
            SCALE as int,
            0x8000_0000_0000_0000,
            707_107,
        );
    }
    mul_div_narrow(back, SQRT_HALF, SCALE)
}

/// Spin of a ball thrown back by a cushion.
pub fn spin_rebound_of(spin: i64) -> (r: i64)
    ensures
        r == spin_rebound(spin as int),
        abs_of(r as int) <= abs_of(spin as int),
{
    proof {
        lemma_rebound_loses_speed(spin as int);
        lemma_mul_div_bound(
            spin as int,
            -(WALL_RESTITUTION_COEFF as int),
            SCALE as int,
            0x8000_0000_0000_0000,
            800_000,
        );
    }
    mul_div_narrow(spin, -WALL_RESTITUTION_COEFF, SCALE)
}

/// Lets the cushions of a table of width `table_width` act on `ball`; `left`
/// and `right` are the pockets at its ends.
pub fn bounce_off_walls(ball: &mut Ball, table_width: i64, left: &SidePocket, right: &SidePocket)
    requires
        table_width > 0,
    ensures
        final(ball)@ == ball_after_walls(old(ball)@, table_width as int, left@, right@),
        forall|m: int|
            m >= table_width && m >= BALL_RADIUS && #[trigger] ball_bounded(
                old(ball)@,
                m,
            ) ==> ball_bounded(final(ball)@, m),
        old(ball).wf() ==> final(ball).wf(),
{
    if !ball.active {
        return ;
    }
    let x: i128 = ball.position.x as i128;
    let radius: i128 = BALL_RADIUS as i128;
    if x - radius < 0 && !left.contains_ball(ball.position.x, BALL_RADIUS) {
        ball.position.x = BALL_RADIUS;
    } else if x + radius > (table_width as i128) && !right.contains_ball(
        ball.position.x,
        BALL_RADIUS,
    ) {
        ball.position.x = table_width - BALL_RADIUS;
    } else {
        return ;
    }
    ball.linear_velocity.x = rebound_of(ball.linear_velocity.x);
    if ball.has_angular_momentum {
        ball.angular_velocity = spin_rebound_of(ball.angular_velocity);
    }
}

} // verus!

