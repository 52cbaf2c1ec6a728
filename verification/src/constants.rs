//! The table's dimensions and the tuned physical constants, in millionths.
//!
//! Lengths are pixels, times seconds, angles radians, masses kilograms. The
//! friction values are chosen for how the motion looks, not for fidelity to a
//! real cloth.

use vstd::prelude::*;
use crate::fixed::{scaled_mul, SCALE};

verus! {

/// Height of the playing surface on screen.
pub const TABLE_Y_POS: i64 = 300_000_000;

/// Thickness of the table's bed.
pub const TABLE_THICKNESS: i64 = 50_000_000;

/// Radius of every ball.
pub const BALL_RADIUS: i64 = 10_000_000;

/// Mass of every ball.
pub const BALL_MASS: i64 = 170_000;

/// Speed the cue ball is given by a shot.
pub const CUE_BALL_INITIAL_VELOCITY_MAGNITUDE: i64 = 150_000_000;

/// Coefficient of kinetic friction, applied while the ball slips on the cloth.
pub const KINETIC_FRICTION_COEFF: i64 = 2_000_000;

/// Coefficient of rolling friction, applied while the ball rolls.
pub const ROLLING_FRICTION_COEFF: i64 = 5_000;

/// Fraction of its speed a ball keeps when it bounces off a cushion.
pub const WALL_RESTITUTION_COEFF: i64 = 800_000;

/// Linear speed below which a ball counts as stopped.
pub const MIN_VELOCITY_THRESHOLD: i64 = 1_000_000;

/// Angular speed below which a ball counts as no longer spinning.
pub const MIN_ANGULAR_VELOCITY_THRESHOLD: i64 = 50_000;

/// Speed of the contact point over the cloth above which a ball slips.
pub const SLIPPING_THRESHOLD: i64 = 1_000_000;

/// Gravitational acceleration.
pub const GRAVITY: i64 = 9_810_000;

/// Force with which the cloth carries a ball: mass times gravity.
pub const NORMAL_FORCE: i64 = 1_667_700;

/// Magnitude of the friction force on a slipping ball.
pub const KINETIC_FRICTION_FORCE: i64 = 3_335_400;

/// Magnitude of the friction torque on a slipping ball.
pub const KINETIC_FRICTION_TORQUE: i64 = 33_354_000;

/// Two fifths, the shape factor of a solid sphere's moment of inertia.
pub const SOLID_SPHERE_FACTOR: i64 = 400_000;

/// Moment of inertia of a ball about its centre.
pub const MOMENT_OF_INERTIA: i64 = 6_800_000;

/// Share of a rolling ball's spin error that is removed in one tick.
pub const ANGULAR_CORRECTION_RATE: i64 = 100_000;

/// A full turn.
pub const TAU: i64 = 6_283_185;

/// The square root of one half, to the nearest millionth.
pub const SQRT_HALF: i64 = 707_107;

/// Share of the cue ball's speed that a collision hands to the other ball.
pub const TRANSFER_FACTOR: i64 = 900_000;

/// Share of the pair's spin that survives a collision.
pub const COLLISION_SPIN_RETENTION: i64 = 500_000;

/// Share of a view's width that the playable table takes.
pub const WORLD_TABLE_PLAYABLE_WIDTH_FACTOR: i64 = 900_000;

/// Where along the table the cue ball is spotted, as a share of its width.
pub const CUE_SPOT_FRACTION: i64 = 100_000;

/// Where along the table the object ball is spotted, as a share of its width.
pub const OBJECT_SPOT_FRACTION: i64 = 900_000;

/// Width of a pocket's mouth: two and a half radii.
pub const POCKET_WIDTH: i64 = 25_000_000;

/// Depth of a pocket: one and a half radii.
pub const POCKET_DEPTH: i64 = 15_000_000;

/// Share of a ball's radius by which a pocket's capture zone exceeds its mouth.
pub const POCKET_TOLERANCE_FRACTION: i64 = 200_000;

/// How far from the centre of a pocket's mouth its capture zone reaches for
/// a ball: half the mouth's width and the tolerated share of the radius.
pub const CAPTURE_REACH: i64 = 14_500_000;

/// How far below a pocket's floor a pocketed ball is parked: five radii.
pub const POCKETED_DROP: i64 = 50_000_000;

/// Widest view a table can be laid out in.
pub const MAX_VIEW_WIDTH: i64 = 1_000_000_000_000;

/// The derived constants are what their definitions give, with nothing lost
/// to rounding: the normal force is mass times gravity, the kinetic friction
/// force is its coefficient times the normal force, the torque is that force
/// at one radius, and the moment of inertia is two fifths of mass times
/// radius squared.
pub proof fn lemma_derived_constants()
    ensures
        NORMAL_FORCE == scaled_mul(BALL_MASS as int, GRAVITY as int),
        NORMAL_FORCE * SCALE == BALL_MASS * GRAVITY,
        KINETIC_FRICTION_FORCE == scaled_mul(KINETIC_FRICTION_COEFF as int, NORMAL_FORCE as int),
        KINETIC_FRICTION_FORCE * SCALE == KINETIC_FRICTION_COEFF * NORMAL_FORCE,
        KINETIC_FRICTION_TORQUE == scaled_mul(KINETIC_FRICTION_FORCE as int, BALL_RADIUS as int),
        KINETIC_FRICTION_TORQUE * SCALE == KINETIC_FRICTION_FORCE * BALL_RADIUS,
        MOMENT_OF_INERTIA == scaled_mul(
            scaled_mul(
                scaled_mul(SOLID_SPHERE_FACTOR as int, BALL_MASS as int),
                BALL_RADIUS as int,
            ),
            BALL_RADIUS as int,
        ),
        MOMENT_OF_INERTIA * SCALE * SCALE * SCALE == SOLID_SPHERE_FACTOR * BALL_MASS * BALL_RADIUS
            * BALL_RADIUS,
        POCKET_WIDTH * 2 == BALL_RADIUS * 5,
        POCKET_DEPTH * 2 == BALL_RADIUS * 3,
        POCKETED_DROP == BALL_RADIUS * 5,
        CAPTURE_REACH * 2 * SCALE == POCKET_WIDTH * SCALE + 2 * (BALL_RADIUS
            * POCKET_TOLERANCE_FRACTION),
{
}

/// No millionth is nearer to the square root of one half than `SQRT_HALF`:
/// the square of the value half a step below it is under one half, the square
/// of the value half a step above it is over.
pub proof fn lemma_sqrt_half_is_nearest()
    ensures
        2 * (2 * SQRT_HALF - 1) * (2 * SQRT_HALF - 1) < (2 * SCALE) * (2 * SCALE),
        (2 * SCALE) * (2 * SCALE) < 2 * (2 * SQRT_HALF + 1) * (2 * SQRT_HALF + 1),
{
    assert(2 * (2 * SQRT_HALF - 1) * (2 * SQRT_HALF - 1) < (2 * SCALE) * (2 * SCALE) && (2 * SCALE)
        * (2 * SCALE) < 2 * (2 * SQRT_HALF + 1) * (2 * SQRT_HALF + 1)) by (nonlinear_arith)
        requires
            SQRT_HALF == 707_107,
            SCALE == 1_000_000,
    ;
}

} // verus!
