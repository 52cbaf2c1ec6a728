//! The collision of the cue ball with the object ball.
//!
//! The two balls collide when both are on the table, they overlap, and they
//! are closing on each other. The collision pushes them apart until they
//! touch, hands a fixed share of the cue ball's velocity to the object ball,
//! and damps the spin of the pair. The share is a tuned constant: the
//! collision is not elastic, and it is not meant to be.
//!
//! Zero counts as the positive direction throughout. Two balls in the same
//! place therefore part along the positive axis, the first ball to the right,
//! and balls at equal velocity count as closing when the second lies to the
//! right of the first.

use vstd::prelude::*;
use crate::ball::{ball_bounded, ball_wf, Ball, BallModel};
use crate::constants::{BALL_RADIUS, COLLISION_SPIN_RETENTION, TRANSFER_FACTOR};
use crate::fixed::{
    abs_of, lemma_scaled_mul_shrinks, lemma_trunc_div_bound, mul_div_narrow, scaled_mul, sign_of,
    trunc_div, MAX_TRANSIENT, SCALE,
};
use crate::friction::toward;

verus! {

/// Distance between the centres of two touching balls.
pub open spec fn combined_radii() -> int {
    2 * BALL_RADIUS
}

/// Distance between the centres of the two balls along the table.
pub open spec fn distance(a: BallModel, b: BallModel) -> int {
    abs_of(a.x - b.x)
}

/// Whether `a` closes on `b`: the side of `a` on which `b` lies is the
/// direction in which `a` moves relative to `b`. Zero counts as the positive
/// direction on either side.
pub open spec fn approaching(a: BallModel, b: BallModel) -> bool {
    sign_of(b.x - a.x) == sign_of(a.vx - b.vx)
}

/// Whether the two balls collide.
pub open spec fn collides(a: BallModel, b: BallModel) -> bool {
    &&& a.active
    &&& b.active
    &&& distance(a, b) < combined_radii()
    &&& approaching(a, b)
}

/// How far the two balls reach into each other.
pub open spec fn overlap(a: BallModel, b: BallModel) -> int {
    combined_radii() - distance(a, b)
}

/// Spin of the first ball after a collision: half the pair's mean spin if
/// both can spin, half its own if only it can.
pub open spec fn first_spin_after(a: BallModel, b: BallModel) -> int {
    if a.has_angular_momentum && b.has_angular_momentum {
        scaled_mul(trunc_div(a.spin + b.spin, 2), COLLISION_SPIN_RETENTION as int)
    } else if a.has_angular_momentum {
        scaled_mul(a.spin, COLLISION_SPIN_RETENTION as int)
    } else {
        a.spin
    }
}

/// Spin of the second ball after a collision: half the pair's mean spin if
/// both can spin, else unchanged.
pub open spec fn second_spin_after(a: BallModel, b: BallModel) -> int {
    if a.has_angular_momentum && b.has_angular_momentum {
        scaled_mul(trunc_div(a.spin + b.spin, 2), COLLISION_SPIN_RETENTION as int)
    } else {
        b.spin
    }
}

/// The first ball after the pair `(a, b)` has been examined: on a collision
/// it backs off by half the overlap, rounded down, and keeps the share of its
/// velocity that is not handed over.
pub open spec fn first_after_pair(a: BallModel, b: BallModel) -> BallModel {
    if collides(a, b) {
        BallModel {
            x: a.x + toward(a.x - b.x, overlap(a, b) / 2),
            vx: scaled_mul(a.vx, SCALE - TRANSFER_FACTOR),
            spin: first_spin_after(a, b),
            ..a
        }
    } else {
        a
    }
}

/// The second ball after the pair `(a, b)` has been examined: on a collision
/// it backs off by the rest of the overlap and gains the share of the first
/// ball's velocity that is handed over.
pub open spec fn second_after_pair(a: BallModel, b: BallModel) -> BallModel {
    if collides(a, b) {
        BallModel {
            x: b.x - toward(a.x - b.x, overlap(a, b) - overlap(a, b) / 2),
            vx: b.vx + scaled_mul(a.vx, TRANSFER_FACTOR as int),
            spin: second_spin_after(a, b),
            ..b
        }
    } else {
        b
    }
}

/// The transfer law: after a collision the first ball has its velocity times
/// one minus the transfer factor, and the second ball its own velocity plus
/// the first ball's velocity times the transfer factor.
pub proof fn lemma_transfer_ratio(a: BallModel, b: BallModel)
    requires
        collides(a, b),
    ensures
        first_after_pair(a, b).vx == scaled_mul(a.vx, SCALE - TRANSFER_FACTOR),
        second_after_pair(a, b).vx == b.vx + scaled_mul(a.vx, TRANSFER_FACTOR as int),
        abs_of(first_after_pair(a, b).vx) <= abs_of(a.vx),
        abs_of(second_after_pair(a, b).vx - b.vx) <= abs_of(a.vx),
{
    lemma_scaled_mul_shrinks(a.vx, SCALE - TRANSFER_FACTOR);
    lemma_scaled_mul_shrinks(a.vx, TRANSFER_FACTOR as int);
}

/// A collision leaves no overlap: afterwards the balls are exactly touching,
/// so the same pair does not collide a second time.
pub proof fn lemma_no_residual_overlap(a: BallModel, b: BallModel)
    requires
        collides(a, b),
    ensures
        distance(first_after_pair(a, b), second_after_pair(a, b)) == combined_radii(),
        !collides(first_after_pair(a, b), second_after_pair(a, b)),
{
}

/// A collision moves neither ball by more than one radius.
pub proof fn lemma_pair_shift(a: BallModel, b: BallModel)
    ensures
        abs_of(first_after_pair(a, b).x - a.x) <= BALL_RADIUS,
        abs_of(second_after_pair(a, b).x - b.x) <= BALL_RADIUS,
{
}

/// Balls that do not collide are left as they are, and a collision changes
/// nothing but the horizontal position, the horizontal velocity and the spin.
pub proof fn lemma_pair_frame(a: BallModel, b: BallModel)
    ensures
        !collides(a, b) ==> first_after_pair(a, b) == a && second_after_pair(a, b) == b,
        first_after_pair(a, b) == (BallModel {
            x: first_after_pair(a, b).x,
            vx: first_after_pair(a, b).vx,
            spin: first_after_pair(a, b).spin,
            ..a
        }),
        second_after_pair(a, b) == (BallModel {
            x: second_after_pair(a, b).x,
            vx: second_after_pair(a, b).vx,
            spin: second_after_pair(a, b).spin,
            ..b
        }),
{
}

/// A collision keeps the invariant of both balls, and a pocketed ball takes
/// no part in one.
pub proof fn lemma_pair_wf(a: BallModel, b: BallModel)
    ensures
        ball_wf(a) && ball_wf(b) ==> ball_wf(first_after_pair(a, b)) && ball_wf(
            second_after_pair(a, b),
        ),
        !a.active || !b.active ==> first_after_pair(a, b) == a && second_after_pair(a, b) == b,
{
}

/// Whether the two balls collide.
pub fn is_colliding(first: &Ball, second: &Ball) -> (hit: bool)
    ensures
        hit == collides(first@, second@),
{
    if !first.active || !second.active {
        return false;
    }
    let gap: i128 = (first.position.x as i128) - (second.position.x as i128);
    let apart: i128 = if gap >= 0 {
        gap
    } else {
        -gap
    };
    let closing: i128 = (first.linear_velocity.x as i128) - (second.linear_velocity.x as i128);
    let second_is_ahead: bool = -gap >= 0;
    let first_gains: bool = closing >= 0;
    apart < 2 * (BALL_RADIUS as i128) && second_is_ahead == first_gains
}

/// Examines the pair and, if the balls collide, resolves the collision.
pub fn resolve_pair(first: &mut Ball, second: &mut Ball)
    requires
        ball_bounded(old(first)@, MAX_TRANSIENT as int),
        ball_bounded(old(second)@, MAX_TRANSIENT as int),
    ensures
        final(first)@ == first_after_pair(old(first)@, old(second)@),
        final(second)@ == second_after_pair(old(first)@, old(second)@),
        old(first).wf() && old(second).wf() ==> final(first).wf() && final(second).wf(),
{
    if !is_colliding(first, second) {
        return ;
    }
    let ghost a = first@;
    let ghost b = second@;
    let gap: i64 = first.position.x - second.position.x;
    let apart: i64 = if gap >= 0 {
        gap
    } else {
        -gap
    };
    let depth: i64 = 2 * BALL_RADIUS - apart;
    let half: i64 = depth / 2;
    let rest: i64 = depth - half;
    if gap >= 0 {
        first.position.x = first.position.x + half;
        second.position.x = second.position.x - rest;
    } else {
        first.position.x = first.position.x - half;
        second.position.x = second.position.x + rest;
    }
    proof {
        lemma_scaled_mul_shrinks(a.vx, SCALE - TRANSFER_FACTOR);
        lemma_scaled_mul_shrinks(a.vx, TRANSFER_FACTOR as int);
    }
    let incoming: i64 = first.linear_velocity.x;
    first.linear_velocity.x = mul_div_narrow(incoming, SCALE - TRANSFER_FACTOR, SCALE);
    second.linear_velocity.x = second.linear_velocity.x + mul_div_narrow(
        incoming,
        TRANSFER_FACTOR,
        SCALE,
    );
    if first.has_angular_momentum && second.has_angular_momentum {
        let mean: i64 = (first.angular_velocity + second.angular_velocity) / 2;
        proof {
            lemma_trunc_div_bound(a.spin + b.spin, 2, 2 * MAX_TRANSIENT);
            lemma_scaled_mul_shrinks(mean as int, COLLISION_SPIN_RETENTION as int);
        }
        let shared: i64 = mul_div_narrow(mean, COLLISION_SPIN_RETENTION, SCALE);
        first.angular_velocity = shared;
        second.angular_velocity = shared;
    } else if first.has_angular_momentum {
        proof {
            lemma_scaled_mul_shrinks(a.spin, COLLISION_SPIN_RETENTION as int);
        }
        first.angular_velocity = mul_div_narrow(
            first.angular_velocity,
            COLLISION_SPIN_RETENTION,
            SCALE,
        );
    }
}

} // verus!
