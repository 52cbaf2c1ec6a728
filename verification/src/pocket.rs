//! A pocket at one end of the table, and the test for a ball entering it.

use vstd::prelude::*;
use crate::ball::{ball_wf, same_ball, Ball, BallModel, Vec2};
use crate::constants::{
    BALL_RADIUS, CAPTURE_REACH, POCKETED_DROP, POCKET_TOLERANCE_FRACTION, POCKET_WIDTH,
    TABLE_THICKNESS, TABLE_Y_POS,
};
use crate::fixed::{abs_of, lemma_product_bound, mul_wide, within, MAX_MAGNITUDE, SCALE};

verus! {

/// A pocket: where along the table its mouth is centred, how wide the mouth
/// is and how deep the pocket reaches below the table.
#[derive(Clone, Copy, PartialEq, Eq, Debug)]
pub struct SidePocket {
    /// Centre of the mouth along the table.
    pub x_position: i64,
    /// Width of the mouth.
    pub width: i64,
    /// Depth below the table's bed.
    pub depth: i64,
}

/// A pocket as the contracts see it.
pub struct PocketModel {
    pub x: int,
    pub width: int,
    pub depth: int,
}

impl View for SidePocket {
    type V = PocketModel;

    open spec fn view(&self) -> PocketModel {
        PocketModel {
            x: self.x_position as int,
            width: self.width as int,
            depth: self.depth as int,
        }
    }
}

/// Whether a ball of radius `ball_radius` centred at `ball_x` is inside the
/// pocket's capture zone: its distance from the mouth's centre is below half
/// the mouth's width plus the tolerated share of the radius. The comparison
/// is exact; both sides are written over the common denominator.
pub open spec fn pocket_contains(p: PocketModel, ball_x: int, ball_radius: int) -> bool {
    2 * SCALE * abs_of(ball_x - p.x) < SCALE * p.width + 2 * (ball_radius
        * POCKET_TOLERANCE_FRACTION)
}

/// Height at which a ball that fell into pocket `p` is parked: below the
/// table's bed and the pocket's floor.
pub open spec fn parking_height(p: PocketModel) -> int {
    TABLE_Y_POS + TABLE_THICKNESS + p.depth + POCKETED_DROP
}

/// The ball taken off the table by pocket `p`.
pub open spec fn pocketed(b: BallModel, p: PocketModel) -> BallModel {
    BallModel { y: parking_height(p), vx: 0, vy: 0, spin: 0, active: false, ..b }
}

/// The ball after pocket `p` has been examined: a ball on the table inside
/// the capture zone is taken off; any other ball is left alone.
pub open spec fn ball_after_pocket(b: BallModel, p: PocketModel) -> BallModel {
    if b.active && pocket_contains(p, b.x, BALL_RADIUS as int) {
        pocketed(b, p)
    } else {
        b
    }
}

/// A pocket keeps the invariant of a ball. It never puts a ball back on the
/// table, it leaves a pocketed ball alone, and the ball it takes in has no
/// velocity and no spin.
pub proof fn lemma_pocket_wf(b: BallModel, p: PocketModel)
    ensures
        ball_wf(b) ==> ball_wf(ball_after_pocket(b, p)),
        same_ball(b, ball_after_pocket(b, p)),
        ball_after_pocket(b, p).active ==> b.active,
        !b.active ==> ball_after_pocket(b, p) == b,
        !ball_after_pocket(b, p).active && b.active ==> {
            &&& ball_after_pocket(b, p).vx == 0
            &&& ball_after_pocket(b, p).vy == 0
            &&& ball_after_pocket(b, p).spin == 0
            &&& ball_after_pocket(b, p).x == b.x
        },
{
}

/// For a pocket with the standard mouth, a ball is inside the capture zone
/// exactly when its centre is nearer to the mouth's centre than the capture
/// reach.
pub proof fn lemma_capture_zone(p: PocketModel, ball_x: int)
    requires
        p.width == POCKET_WIDTH,
    ensures
        pocket_contains(p, ball_x, BALL_RADIUS as int) <==> abs_of(ball_x - p.x) < CAPTURE_REACH,
{
    let d = abs_of(ball_x - p.x);
    assert(2 * SCALE * d == 2_000_000 * d) by (nonlinear_arith)
        requires
            SCALE == 1_000_000,
    ;
    assert(SCALE * p.width + 2 * (BALL_RADIUS * POCKET_TOLERANCE_FRACTION) == 2_000_000
        * 14_500_000) by (nonlinear_arith)
        requires
            SCALE == 1_000_000,
            p.width == 25_000_000,
            BALL_RADIUS == 10_000_000,
            POCKET_TOLERANCE_FRACTION == 200_000,
    ;
}

/// Examines `pocket` and takes `ball` off the table if it is inside the
/// capture zone.
pub fn pocket_ball(ball: &mut Ball, pocket: &SidePocket)
    requires
        within(pocket.depth as int, MAX_MAGNITUDE as int),
    ensures
        final(ball)@ == ball_after_pocket(old(ball)@, pocket@),
        old(ball).wf() ==> final(ball).wf(),
{
    if ball.active && pocket.contains_ball(ball.position.x, BALL_RADIUS) {
        ball.active = false;
        ball.linear_velocity = Vec2::zero();
        ball.angular_velocity = 0;
        ball.position.y = TABLE_Y_POS + TABLE_THICKNESS + pocket.depth + POCKETED_DROP;
    }
}

impl SidePocket {
    /// Whether a ball of radius `ball_radius` centred at `ball_x` is inside
    /// the pocket's capture zone.
    pub fn contains_ball(&self, ball_x: i64, ball_radius: i64) -> (inside: bool)
        ensures
            inside == pocket_contains(self@, ball_x as int, ball_radius as int),
    {
        let offset: i128 = (ball_x as i128) - (self.x_position as i128);
        let distance: i128 = if offset >= 0 {
            offset
        } else {
            -offset
        };
        let reach: i128 = mul_wide(SCALE, self.width) + 2 * mul_wide(
            ball_radius,
            POCKET_TOLERANCE_FRACTION,
        );
        proof {
            lemma_product_bound(
                SCALE as int,
                self.width as int,
                1_000_000,
                0x8000_0000_0000_0000,
            );
            lemma_product_bound(
                ball_radius as int,
                POCKET_TOLERANCE_FRACTION as int,
                0x8000_0000_0000_0000,
                200_000,
            );
            assert(2 * SCALE * distance == 2_000_000 * distance) by (nonlinear_arith)
                requires
                    SCALE == 1_000_000,
            ;
        }
        2_000_000 * distance < reach
    }
}

} // verus!
