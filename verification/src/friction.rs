//! The friction of the cloth on one ball, in its two regimes.
//!
//! A ball whose contact point moves over the cloth faster than the slipping
//! threshold slips: kinetic friction of fixed magnitude opposes the motion of
//! the contact point, slowing the ball and spinning it up (or the reverse)
//! until the two agree. Below the threshold the ball rolls: a small friction
//! proportional to its velocity and spin slows both, and the spin is drawn
//! toward the value of pure rolling. A ball that cannot spin always slips.

use vstd::prelude::*;
use crate::ball::{Ball, BallModel};
use crate::constants::{
    lemma_derived_constants, ANGULAR_CORRECTION_RATE, BALL_MASS, BALL_RADIUS, GRAVITY,
    KINETIC_FRICTION_COEFF, KINETIC_FRICTION_FORCE, KINETIC_FRICTION_TORQUE,
    ROLLING_FRICTION_COEFF, SLIPPING_THRESHOLD,
};
use crate::fixed::{
    abs_of, lemma_mul_div_bound, mul_div_narrow, scaled_div, scaled_mul, within, SCALE,
};

verus! {

/// Largest magnitude of a friction force on a ball within its limits.
pub const MAX_FORCE: i64 = 5_000_000_000;

/// Largest magnitude of a friction torque on a ball within its limits.
pub const MAX_TORQUE: i64 = 50_000_000_000;

/// Largest magnitude of a blended spin of a ball within its limits.
pub const MAX_BLENDED_SPIN: i64 = 1_110_000_000_000;

/// What friction does to a ball in one tick.
#[derive(Clone, Copy, PartialEq, Eq, Debug)]
pub struct Friction {
    /// Force along the table.
    pub force: i64,
    /// Torque about the ball's centre.
    pub torque: i64,
    /// Whether the ball slips on the cloth.
    pub slipping: bool,
    /// The ball's spin after the blend toward pure rolling.
    pub spin: i64,
}

/// `m` in the direction of `v`: `m` if `v` is zero or above, else `-m`.
pub open spec fn toward(v: int, m: int) -> int {
    if v >= 0 {
        m
    } else {
        -m
    }
}

/// `a` moved toward `b` by the share `t` of their difference.
pub open spec fn lerp(a: int, b: int, t: int) -> int {
    a + scaled_mul(b - a, t)
}

/// Velocity of the ball's lowest point over the cloth.
pub open spec fn contact_velocity(b: BallModel) -> int {
    b.vx - scaled_mul(b.spin, BALL_RADIUS as int)
}

/// Whether the ball slips: always if it cannot spin, else when its contact
/// point moves faster than the threshold.
pub open spec fn slips(b: BallModel) -> bool {
    !b.has_angular_momentum || abs_of(contact_velocity(b)) > SLIPPING_THRESHOLD
}

/// Magnitude of kinetic friction: its coefficient times the normal force,
/// which is mass times gravity.
pub open spec fn kinetic_force() -> int {
    scaled_mul(KINETIC_FRICTION_COEFF as int, scaled_mul(BALL_MASS as int, GRAVITY as int))
}

/// Friction force on the ball.
pub open spec fn friction_force(b: BallModel) -> int {
    if !b.has_angular_momentum {
        -toward(b.vx, kinetic_force())
    } else if slips(b) {
        -toward(contact_velocity(b), kinetic_force())
    } else {
        -scaled_mul(b.vx, ROLLING_FRICTION_COEFF as int)
    }
}

/// Friction torque on the ball.
pub open spec fn friction_torque(b: BallModel) -> int {
    if !b.has_angular_momentum {
        0
    } else if slips(b) {
        toward(contact_velocity(b), scaled_mul(kinetic_force(), BALL_RADIUS as int))
    } else {
        -scaled_mul(scaled_mul(b.spin, ROLLING_FRICTION_COEFF as int), BALL_RADIUS as int)
    }
}

/// The ball's spin before the torque acts: while rolling it is drawn toward
/// the spin of pure rolling, velocity over radius; otherwise it is unchanged.
pub open spec fn blended_spin(b: BallModel) -> int {
    if b.has_angular_momentum && !slips(b) {
        lerp(b.spin, scaled_div(b.vx, BALL_RADIUS as int), ANGULAR_CORRECTION_RATE as int)
    } else {
        b.spin
    }
}

/// Velocity of the ball's lowest point over the cloth.
pub fn contact_velocity_of(ball: &Ball) -> (v: i64)
    requires
        ball.within_limits(),
    ensures
        v == contact_velocity(ball@),
        within(v as int, 11_000_000_000_000),
{
    proof {
        lemma_mul_div_bound(
            ball.angular_velocity as int,
            BALL_RADIUS as int,
            SCALE as int,
            1_000_000_000_000,
            10_000_000,
        );
    }
    ball.linear_velocity.x - mul_div_narrow(ball.angular_velocity, BALL_RADIUS, SCALE)
}

/// `a` moved toward `b` by the share `t` of their difference.
pub fn blend(a: i64, b: i64, t: i64) -> (r: i64)
    requires
        within(a as int, 1_000_000_000_000),
        within(b as int, 1_000_000_000_000),
        0 <= t <= SCALE,
    ensures
        r == lerp(a as int, b as int, t as int),
        within(r as int, 1_000_000_000_000 + (2_000_000_000_000 * t) / (SCALE as int)),
{
    proof {
        lemma_mul_div_bound((b - a) as int, t as int, SCALE as int, 2_000_000_000_000, t as int);
    }
    a + mul_div_narrow(b - a, t, SCALE)
}

/// The friction that acts on `ball` in its present state.
pub fn friction_on(ball: &Ball) -> (f: Friction)
    requires
        ball.within_limits(),
    ensures
        f.force == friction_force(ball@),
        f.torque == friction_torque(ball@),
        f.slipping == slips(ball@),
        f.spin == blended_spin(ball@),
        within(f.force as int, MAX_FORCE as int),
        within(f.torque as int, MAX_TORQUE as int),
        within(f.spin as int, MAX_BLENDED_SPIN as int),
{
    proof {
        lemma_derived_constants();
    }
    if !ball.has_angular_momentum {
        let force: i64 = if ball.linear_velocity.x >= 0 {
            -KINETIC_FRICTION_FORCE
        } else {
            KINETIC_FRICTION_FORCE
        };
        return Friction { force, torque: 0, slipping: true, spin: ball.angular_velocity };
    }
    let contact: i64 = contact_velocity_of(ball);
    if contact > SLIPPING_THRESHOLD || contact < -SLIPPING_THRESHOLD {
        if contact >= 0 {
            Friction {
                force: -KINETIC_FRICTION_FORCE,
                torque: KINETIC_FRICTION_TORQUE,
                slipping: true,
                spin: ball.angular_velocity,
            }
        } else {
            Friction {
                force: KINETIC_FRICTION_FORCE,
                torque: -KINETIC_FRICTION_TORQUE,
                slipping: true,
                spin: ball.angular_velocity,
            }
        }
    } else {
        proof {
            lemma_mul_div_bound(
                ball.linear_velocity.x as int,
                ROLLING_FRICTION_COEFF as int,
                SCALE as int,
                1_000_000_000_000,
                5_000,
            );
            lemma_mul_div_bound(
                ball.angular_velocity as int,
                ROLLING_FRICTION_COEFF as int,
                SCALE as int,
                1_000_000_000_000,
                5_000,
            );
            lemma_mul_div_bound(
                scaled_mul(ball.angular_velocity as int, ROLLING_FRICTION_COEFF as int),
                BALL_RADIUS as int,
                SCALE as int,
                5_000_000_000,
                10_000_000,
            );
            lemma_mul_div_bound(
                ball.linear_velocity.x as int,
                SCALE as int,
                BALL_RADIUS as int,
                1_000_000_000_000,
                1_000_000,
            );
        }
        let force: i64 = -mul_div_narrow(ball.linear_velocity.x, ROLLING_FRICTION_COEFF, SCALE);
        let drag: i64 = mul_div_narrow(ball.angular_velocity, ROLLING_FRICTION_COEFF, SCALE);
        let torque: i64 = -mul_div_narrow(drag, BALL_RADIUS, SCALE);
        let rolling_spin: i64 = mul_div_narrow(ball.linear_velocity.x, SCALE, BALL_RADIUS);
        let spin: i64 = blend(ball.angular_velocity, rolling_spin, ANGULAR_CORRECTION_RATE);
        Friction { force, torque, slipping: false, spin }
    }
}

} // verus!
