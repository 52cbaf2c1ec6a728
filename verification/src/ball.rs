//! A ball: its state, its mathematical model, and one tick of its motion.

use vstd::prelude::*;
use crate::constants::{
    lemma_derived_constants, BALL_MASS, MIN_ANGULAR_VELOCITY_THRESHOLD, MIN_VELOCITY_THRESHOLD,
    MOMENT_OF_INERTIA, TAU,
};
use crate::fixed::{
    abs_of, euclid_rem, lemma_mul_div_bound, lemma_product_bound, lemma_trunc_div_bound,
    lemma_trunc_div_mirror, magnitude, mul_div, mul_div_narrow, mul_wide, trunc_div, within,
    MAX_MAGNITUDE, MAX_TRANSIENT, SCALE,
};
use crate::friction::{
    blended_spin, friction_force, friction_on, friction_torque, kinetic_force, slips, Friction,
    MAX_FORCE, MAX_TORQUE,
};

verus! {

/// A point or a velocity in the plane of the screen, in millionths.
#[derive(Clone, Copy, PartialEq, Eq, Debug)]
pub struct Vec2 {
    /// Along the table, growing to the right.
    pub x: i64,
    /// Across the screen, growing downward.
    pub y: i64,
}

impl Vec2 {
    /// The vector with the given components.
    pub fn new(x: i64, y: i64) -> (v: Vec2)
        ensures
            v.x == x,
            v.y == y,
    {
        Vec2 { x, y }
    }

    /// The null vector.
    pub fn zero() -> (v: Vec2)
        ensures
            v.x == 0,
            v.y == 0,
    {
        Vec2 { x: 0, y: 0 }
    }
}

/// How a ball is painted.
#[derive(Clone, Copy, PartialEq, Eq, Debug)]
pub enum BallColor {
    /// The cue ball's colour.
    White,
    /// The object ball's colour.
    Purple,
}

/// A ball on the table.
#[derive(Clone, Copy, PartialEq, Eq, Debug)]
pub struct Ball {
    /// Where the centre is, in millionths of a pixel.
    pub position: Vec2,
    /// How fast the centre moves, in millionths of a pixel per second.
    pub linear_velocity: Vec2,
    /// How fast the ball turns, in millionths of a radian per second.
    pub angular_velocity: i64,
    /// How far the ball has turned, in millionths of a radian, within a turn.
    pub angle: i64,
    /// How the ball is painted.
    pub color: BallColor,
    /// Whether this is the cue ball.
    pub is_q_ball: bool,
    /// Whether the ball is on the table; a pocketed ball is not.
    pub active: bool,
    /// Whether the ball slipped on the cloth in its last tick.
    pub is_slipping: bool,
    /// Whether the ball can spin. Fixed when the ball is made.
    pub has_angular_momentum: bool,
}

/// A ball as the contracts see it: the same state over unbounded integers.
pub struct BallModel {
    pub x: int,
    pub y: int,
    pub vx: int,
    pub vy: int,
    pub spin: int,
    pub angle: int,
    pub color: BallColor,
    pub is_q_ball: bool,
    pub active: bool,
    pub is_slipping: bool,
    pub has_angular_momentum: bool,
}

impl View for Ball {
    type V = BallModel;

    open spec fn view(&self) -> BallModel {
        BallModel {
            x: self.position.x as int,
            y: self.position.y as int,
            vx: self.linear_velocity.x as int,
            vy: self.linear_velocity.y as int,
            spin: self.angular_velocity as int,
            angle: self.angle as int,
            color: self.color,
            is_q_ball: self.is_q_ball,
            active: self.active,
            is_slipping: self.is_slipping,
            has_angular_momentum: self.has_angular_momentum,
        }
    }
}

/// Whether the speed of the velocity `(vx, vy)` is below `threshold`.
pub open spec fn speed_below(vx: int, vy: int, threshold: int) -> bool {
    vx * vx + vy * vy < threshold * threshold
}

/// Whether the ball moves and spins too slowly to be kept in motion.
pub open spec fn at_rest(b: BallModel) -> bool {
    &&& speed_below(b.vx, b.vy, MIN_VELOCITY_THRESHOLD as int)
    &&& abs_of(b.spin) < MIN_ANGULAR_VELOCITY_THRESHOLD
}

/// Whether the ball counts as stopped when the table decides that a shot is
/// over: its speed is below the threshold and, if it can spin, so is its spin.
pub open spec fn stopped(b: BallModel) -> bool {
    &&& speed_below(b.vx, b.vy, MIN_VELOCITY_THRESHOLD as int)
    &&& b.has_angular_momentum ==> abs_of(b.spin) < MIN_ANGULAR_VELOCITY_THRESHOLD
}

/// The invariant of a ball: its orientation is a wrapped angle, a pocketed
/// ball neither moves nor spins, and a ball that cannot spin has no spin and
/// no orientation.
pub open spec fn ball_wf(b: BallModel) -> bool {
    &&& 0 <= b.angle < TAU
    &&& !b.active ==> b.vx == 0 && b.vy == 0 && b.spin == 0
    &&& !b.has_angular_momentum ==> b.spin == 0 && b.angle == 0
}

/// Whether every coordinate, velocity and spin of the ball lies in `[-m, m]`.
pub open spec fn ball_bounded(b: BallModel, m: int) -> bool {
    &&& within(b.x, m)
    &&& within(b.y, m)
    &&& within(b.vx, m)
    &&& within(b.vy, m)
    &&& within(b.spin, m)
}

/// Change of velocity that `force` causes in `dt` millionths of a second.
pub open spec fn velocity_gain(force: int, dt: int) -> int {
    trunc_div(force * dt, BALL_MASS as int)
}

/// Change of spin that `torque` causes in `dt` millionths of a second.
pub open spec fn spin_gain(torque: int, dt: int) -> int {
    trunc_div(torque * dt, MOMENT_OF_INERTIA as int)
}

/// Distance or angle covered at `rate` in `dt` millionths of a second.
pub open spec fn travel(rate: int, dt: int) -> int {
    trunc_div(rate * dt, SCALE as int)
}

/// The ball brought to rest where it stands.
pub open spec fn halted(b: BallModel) -> BallModel {
    BallModel { vx: 0, vy: 0, spin: 0, is_slipping: false, ..b }
}

/// The ball after friction has acted on it for `dt` and it has moved on with
/// its new velocity and spin.
pub open spec fn moved(b: BallModel, dt: int) -> BallModel {
    let vx = b.vx + velocity_gain(friction_force(b), dt);
    let spin = if b.has_angular_momentum {
        blended_spin(b) + spin_gain(friction_torque(b), dt)
    } else {
        b.spin
    };
    BallModel {
        x: b.x + travel(vx, dt),
        vx: vx,
        spin: spin,
        angle: if b.has_angular_momentum {
            (b.angle + travel(spin, dt)) % (TAU as int)
        } else {
            0
        },
        is_slipping: slips(b),
        ..b
    }
}

/// One tick of a ball's own motion: a pocketed ball is left alone, a ball at
/// rest is halted, any other ball is slowed by friction and moved.
pub open spec fn ball_step(b: BallModel, dt: int) -> BallModel {
    if !b.active {
        b
    } else if at_rest(b) {
        halted(b)
    } else {
        moved(b, dt)
    }
}

/// Whether two models are of the same ball: what is fixed when a ball is
/// made (its colour, its role and its capability to spin) agrees.
pub open spec fn same_ball(a: BallModel, b: BallModel) -> bool {
    &&& a.color == b.color
    &&& a.is_q_ball == b.is_q_ball
    &&& a.has_angular_momentum == b.has_angular_momentum
}

/// A ball at rest stays where it is: a tick leaves its position unchanged
/// and its velocity and spin exactly zero, and a second tick changes nothing
/// more.
pub proof fn lemma_rest_is_idempotent(b: BallModel, dt: int, dt2: int)
    requires
        at_rest(b),
    ensures
        ball_step(b, dt).x == b.x,
        ball_step(b, dt).y == b.y,
        b.active ==> ball_step(b, dt).vx == 0 && ball_step(b, dt).vy == 0 && ball_step(b, dt).spin
            == 0,
        b.active ==> ball_step(b, dt) == halted(b),
        at_rest(ball_step(b, dt)),
        ball_step(ball_step(b, dt), dt2) == ball_step(b, dt),
{
    assert(speed_below(0, 0, MIN_VELOCITY_THRESHOLD as int));
}

/// A pocketed ball is not touched by a tick.
pub proof fn lemma_inactive_ball_is_fixed(b: BallModel, dt: int)
    requires
        !b.active,
    ensures
        ball_step(b, dt) == b,
{
}

/// A tick keeps the invariant of a ball, and changes nothing of what was
/// fixed when the ball was made, nor whether it is on the table, nor its
/// height or its vertical velocity unless it halts.
pub proof fn lemma_ball_step_wf(b: BallModel, dt: int)
    requires
        ball_wf(b),
    ensures
        ball_wf(ball_step(b, dt)),
        same_ball(b, ball_step(b, dt)),
        ball_step(b, dt).active == b.active,
        ball_step(b, dt).y == b.y,
{
}

/// Loss of speed of a sliding ball in a tick of `dt`: what kinetic friction
/// takes from the velocity of a ball that cannot spin.
pub open spec fn slide_loss(dt: int) -> int {
    velocity_gain(kinetic_force(), dt)
}

/// Whether the ball slides along the table without any spin: it is on the
/// table, it cannot spin, and it has no vertical velocity.
pub open spec fn slides(b: BallModel) -> bool {
    &&& ball_wf(b)
    &&& b.active
    &&& !b.has_angular_momentum
    &&& b.vy == 0
}

/// The ball after `n` ticks of `dt` each.
pub open spec fn ball_run(b: BallModel, dt: int, n: nat) -> BallModel
    decreases n,
{
    if n == 0 {
        b
    } else {
        ball_run(ball_step(b, dt), dt, (n - 1) as nat)
    }
}

/// Friction alone never turns a sliding ball back. In a tick short enough
/// that the loss of speed does not exceed the stopping threshold, a sliding
/// ball that is not yet at rest loses exactly that much speed and keeps its
/// direction; it goes on sliding.
pub proof fn lemma_slide_slows(b: BallModel, dt: int)
    requires
        slides(b),
        !at_rest(b),
        dt >= 0,
        slide_loss(dt) <= MIN_VELOCITY_THRESHOLD,
    ensures
        slide_loss(dt) >= 0,
        abs_of(ball_step(b, dt).vx) == abs_of(b.vx) - slide_loss(dt),
        b.vx > 0 ==> ball_step(b, dt).vx >= 0,
        b.vx < 0 ==> ball_step(b, dt).vx <= 0,
        slides(ball_step(b, dt)),
{
    let force = kinetic_force();
    lemma_derived_constants();
    assert(abs_of(b.vx) >= MIN_VELOCITY_THRESHOLD) by (nonlinear_arith)
        requires
            b.vx * b.vx + 0 * 0 >= MIN_VELOCITY_THRESHOLD * MIN_VELOCITY_THRESHOLD,
            MIN_VELOCITY_THRESHOLD > 0,
    ;
    assert(force * dt >= 0) by (nonlinear_arith)
        requires
            force == 3_335_400,
            dt >= 0,
    ;
    assert((-force) * dt == -(force * dt)) by (nonlinear_arith);
    lemma_trunc_div_mirror(force * dt, BALL_MASS as int);
    lemma_trunc_div_bound(force * dt, BALL_MASS as int, force * dt);
    lemma_ball_step_wf(b, dt);
}

/// A sliding ball comes to rest in a bounded number of ticks. If a tick of
/// `dt` takes some speed but no more than the stopping threshold, then after
/// any `n` ticks that together would take more than the ball's speed the
/// ball stands still, and along the way its speed never grows.
pub proof fn lemma_slide_stops(b: BallModel, dt: int, n: nat)
    requires
        slides(b),
        dt >= 0,
        0 < slide_loss(dt) <= MIN_VELOCITY_THRESHOLD,
        n * slide_loss(dt) >= abs_of(b.vx) + slide_loss(dt),
    ensures
        ball_run(b, dt, n).vx == 0,
        ball_run(b, dt, n).spin == 0,
        at_rest(ball_run(b, dt, n)),
        slides(ball_run(b, dt, n)),
    decreases n,
{
    let loss = slide_loss(dt);
    assert(n >= 1) by (nonlinear_arith)
        requires
            n * loss >= loss,
            loss > 0,
    ;
    let next = ball_step(b, dt);
    let rest = (n - 1) as nat;
    if at_rest(b) {
        lemma_rest_is_idempotent(b, dt, dt);
        lemma_ball_step_wf(b, dt);
        lemma_rest_persists(next, dt, rest);
    } else {
        lemma_slide_slows(b, dt);
        assert(rest * loss == n * loss - loss) by (nonlinear_arith)
            requires
                rest == n - 1,
        ;
        if rest == 0 {
            assert(0 * loss == 0) by (nonlinear_arith);
        } else {
            lemma_slide_stops(next, dt, rest);
        }
    }
}

/// A halted ball stays halted, however many ticks follow.
pub proof fn lemma_rest_persists(b: BallModel, dt: int, n: nat)
    requires
        b.active,
        b.vx == 0,
        b.vy == 0,
        b.spin == 0,
        !b.is_slipping,
    ensures
        ball_run(b, dt, n) == b,
    decreases n,
{
    assert(speed_below(0, 0, MIN_VELOCITY_THRESHOLD as int));
    if n > 0 {
        assert(ball_step(b, dt) == b);
        lemma_rest_persists(b, dt, (n - 1) as nat);
    }
}

/// Whether the speed of `v` is below the positive `threshold`.
pub fn is_speed_below(v: &Vec2, threshold: i64) -> (below: bool)
    requires
        threshold > 0,
    ensures
        below == speed_below(v.x as int, v.y as int, threshold as int),
{
    let t: i128 = threshold as i128;
    if magnitude(v.x) >= t || magnitude(v.y) >= t {
        proof {
            let (vx, vy, th) = (v.x as int, v.y as int, threshold as int);
            assert(vx * vx + vy * vy >= th * th) by (nonlinear_arith)
                requires
                    th > 0,
                    vx >= th || -vx >= th || vy >= th || -vy >= th,
            ;
        }
        false
    } else {
        proof {
            let (vx, vy, th) = (v.x as int, v.y as int, threshold as int);
            lemma_product_bound(vx, vx, th, th);
            lemma_product_bound(vy, vy, th, th);
            lemma_product_bound(th, th, 0x7fff_ffff_ffff_ffff, 0x7fff_ffff_ffff_ffff);
        }
        mul_wide(v.x, v.x) + mul_wide(v.y, v.y) < mul_wide(threshold, threshold)
    }
}

impl Ball {
    /// The invariant of a ball.
    pub open spec fn wf(&self) -> bool {
        ball_wf(self@)
    }

    /// Whether the ball's state is small enough to start a tick with.
    pub open spec fn within_limits(&self) -> bool {
        ball_bounded(self@, MAX_MAGNITUDE as int)
    }

    /// A ball at rest at `position`, on the table, facing angle zero.
    pub fn new(
        position: Vec2,
        color: BallColor,
        is_q_ball: bool,
        has_angular_momentum: bool,
    ) -> (ball: Ball)
        ensures
            ball@ == (BallModel {
                x: position.x as int,
                y: position.y as int,
                vx: 0,
                vy: 0,
                spin: 0,
                angle: 0,
                color: color,
                is_q_ball: is_q_ball,
                active: true,
                is_slipping: false,
                has_angular_momentum: has_angular_momentum,
            }),
            ball.wf(),
    {
        Ball {
            position,
            linear_velocity: Vec2::zero(),
            angular_velocity: 0,
            angle: 0,
            color,
            is_q_ball,
            active: true,
            is_slipping: false,
            has_angular_momentum,
        }
    }

    /// Whether the ball moves and spins too slowly to be kept in motion.
    pub fn is_at_rest(&self) -> (rest: bool)
        ensures
            rest == at_rest(self@),
    {
        is_speed_below(&self.linear_velocity, MIN_VELOCITY_THRESHOLD) && magnitude(
            self.angular_velocity,
        ) < MIN_ANGULAR_VELOCITY_THRESHOLD as i128
    }

    /// Whether the ball counts as stopped when a shot is judged over.
    pub fn is_stopped(&self) -> (still: bool)
        ensures
            still == stopped(self@),
    {
        is_speed_below(&self.linear_velocity, MIN_VELOCITY_THRESHOLD) && (
        !self.has_angular_momentum || magnitude(self.angular_velocity)
            < MIN_ANGULAR_VELOCITY_THRESHOLD as i128)
    }

    /// Whether the ball's state is small enough to start a tick with.
    pub fn is_within_limits(&self) -> (small: bool)
        ensures
            small == self.within_limits(),
    {
        let limit: i128 = MAX_MAGNITUDE as i128;
        magnitude(self.position.x) <= limit && magnitude(self.position.y) <= limit && magnitude(
            self.linear_velocity.x,
        ) <= limit && magnitude(self.linear_velocity.y) <= limit && magnitude(
            self.angular_velocity,
        ) <= limit
    }

    /// Advances the ball by `dt` millionths of a second.
    pub fn update(&mut self, dt: u32)
        requires
            old(self).within_limits(),
        ensures
            final(self)@ == ball_step(old(self)@, dt as int),
            old(self).wf() ==> final(self).wf(),
            ball_bounded(final(self)@, MAX_TRANSIENT as int),
    {
        if !self.active {
            return ;
        }
        if self.is_at_rest() {
            self.linear_velocity = Vec2::zero();
            self.angular_velocity = 0;
            self.is_slipping = false;
            return ;
        }
        let ghost before = self@;
        let friction: Friction = friction_on(self);
        let step: i64 = dt as i64;
        self.is_slipping = friction.slipping;

        proof {
            lemma_mul_div_bound(
                friction.force as int,
                step as int,
                BALL_MASS as int,
                MAX_FORCE as int,
                0xffff_ffff,
            );
        }
        let vx: i64 = self.linear_velocity.x + mul_div_narrow(friction.force, step, BALL_MASS);
        self.linear_velocity.x = vx;

        if self.has_angular_momentum {
            proof {
                lemma_mul_div_bound(
                    friction.torque as int,
                    step as int,
                    MOMENT_OF_INERTIA as int,
                    MAX_TORQUE as int,
                    0xffff_ffff,
                );
            }
            self.angular_velocity = friction.spin + mul_div_narrow(
                friction.torque,
                step,
                MOMENT_OF_INERTIA,
            );
        }
        proof {
            lemma_mul_div_bound(
                vx as int,
                step as int,
                SCALE as int,
                130_000_000_000_000,
                0xffff_ffff,
            );
        }
        self.position.x = self.position.x + mul_div_narrow(vx, step, SCALE);

        if self.has_angular_momentum {
            proof {
                lemma_mul_div_bound(
                    self.angular_velocity as int,
                    step as int,
                    SCALE as int,
                    40_000_000_000_000,
                    0xffff_ffff,
                );
            }
            let turned: i128 = (self.angle as i128) + mul_div(self.angular_velocity, step, SCALE);
            self.angle = euclid_rem(turned, TAU);
        } else {
            self.angle = 0;
        }
        assert(self@ == moved(before, dt as int));
    }
}

} // verus!
