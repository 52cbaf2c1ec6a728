//! One table: two balls, a pocket at each end, and the pipeline of a tick.
//!
//! While a shot is running, a tick moves every ball, lets the cushions act,
//! resolves the collision of the pair, and takes pocketed balls off the
//! table, in that order. In any other phase a tick leaves the table alone.

use vstd::prelude::*;
use crate::ball::{
    ball_bounded, ball_step, ball_wf, lemma_ball_step_wf, same_ball, speed_below, stopped, Ball,
    BallColor, BallModel, Vec2,
};
use crate::constants::{
    BALL_RADIUS, CAPTURE_REACH, CUE_BALL_INITIAL_VELOCITY_MAGNITUDE, CUE_SPOT_FRACTION,
    MAX_VIEW_WIDTH, MIN_VELOCITY_THRESHOLD, OBJECT_SPOT_FRACTION, POCKET_DEPTH, POCKET_WIDTH,
    TABLE_Y_POS, WORLD_TABLE_PLAYABLE_WIDTH_FACTOR,
};
use crate::fixed::{
    abs_of, lemma_scaled_mul_shrinks, mul_div_narrow, scaled_mul, within, MAX_MAGNITUDE,
    MAX_TRANSIENT, SCALE,
};
use crate::pair::{
    first_after_pair, lemma_pair_frame, lemma_pair_shift, lemma_pair_wf, resolve_pair,
    second_after_pair,
};
use crate::phase::GamePhase;
use crate::pocket::{
    ball_after_pocket, lemma_capture_zone, lemma_pocket_wf, pocket_ball, PocketModel, SidePocket,
};
use crate::wall::{ball_after_walls, bounce_off_walls, lemma_walls_wf};

verus! {

/// Why a table cannot be laid out in a view.
#[derive(Clone, Copy, PartialEq, Eq, Debug)]
pub enum TableError {
    /// The view is so narrow that the table in it would have no width.
    ViewTooNarrow,
    /// The view is wider than the widest a table can be laid out in.
    ViewTooWide,
}

/// One table.
#[derive(Clone, PartialEq, Eq, Debug)]
pub struct SidePoolWorld {
    /// The cue ball and the object ball.
    pub balls: Vec<Ball>,
    /// Where on the screen the table's view begins. Used for drawing only.
    pub screen_x_offset: i64,
    /// The phase of the table: its balls move only while it is running.
    pub game_phase: GamePhase,
    initial_q_ball_pos: Vec2,
    initial_colored_ball_pos: Vec2,
    /// Length of the table from its left end, which lies at zero.
    pub playable_table_width: i64,
    /// Width of the view the table is laid out in.
    pub screen_view_width: i64,
    pockets: Vec<SidePocket>,
}

/// A table as the contracts see it.
pub struct WorldModel {
    pub balls: Seq<BallModel>,
    pub screen_x_offset: int,
    pub phase: GamePhase,
    pub cue_spot: (int, int),
    pub object_spot: (int, int),
    pub playable_table_width: int,
    pub screen_view_width: int,
    pub pockets: Seq<PocketModel>,
}

/// The models of a row of balls.
pub open spec fn ball_models(balls: Seq<Ball>) -> Seq<BallModel> {
    Seq::new(balls.len(), |i: int| balls[i]@)
}

/// The models of a row of pockets.
pub open spec fn pocket_models(pockets: Seq<SidePocket>) -> Seq<PocketModel> {
    Seq::new(pockets.len(), |i: int| pockets[i]@)
}

/// The pocket at the end of the table that lies at `x`.
pub open spec fn end_pocket(x: int) -> PocketModel {
    PocketModel { x: x, width: POCKET_WIDTH as int, depth: POCKET_DEPTH as int }
}

/// Width of the table laid out in a view of width `view_width`.
pub open spec fn playable_width(view_width: int) -> int {
    scaled_mul(view_width, WORLD_TABLE_PLAYABLE_WIDTH_FACTOR as int)
}

/// Whether a table can be laid out in a view of width `view_width`.
pub open spec fn view_fits(view_width: int) -> bool {
    view_width <= MAX_VIEW_WIDTH && playable_width(view_width) > 0
}

/// A ball at rest on the spot `(x, y)`.
pub open spec fn ball_on_spot(
    spot: (int, int),
    color: BallColor,
    is_q_ball: bool,
    has_angular_momentum: bool,
) -> BallModel {
    BallModel {
        x: spot.0,
        y: spot.1,
        vx: 0,
        vy: 0,
        spin: 0,
        angle: 0,
        color: color,
        is_q_ball: is_q_ball,
        active: true,
        is_slipping: false,
        has_angular_momentum: has_angular_momentum,
    }
}

/// The table that is laid out in a view of width `view_width` drawn at
/// `screen_x_offset`: the cue ball a tenth of the way along, the object ball
/// nine tenths, both resting on the surface, and a pocket at each end.
pub open spec fn new_world(
    screen_x_offset: int,
    has_angular_momentum: bool,
    view_width: int,
) -> WorldModel {
    let width = playable_width(view_width);
    let cue_spot = (scaled_mul(width, CUE_SPOT_FRACTION as int), TABLE_Y_POS - BALL_RADIUS);
    let object_spot = (scaled_mul(width, OBJECT_SPOT_FRACTION as int), TABLE_Y_POS - BALL_RADIUS);
    WorldModel {
        balls: seq![
            ball_on_spot(cue_spot, BallColor::White, true, has_angular_momentum),
            ball_on_spot(object_spot, BallColor::Purple, false, has_angular_momentum),
        ],
        screen_x_offset: screen_x_offset,
        phase: GamePhase::Initial,
        cue_spot: cue_spot,
        object_spot: object_spot,
        playable_table_width: width,
        screen_view_width: view_width,
        pockets: seq![end_pocket(0), end_pocket(width)],
    }
}

/// The invariant of a table: exactly two balls, one of them the cue ball,
/// each satisfying its own invariant; a table of positive width with a
/// pocket at each end; and spots that a ball can be put on.
pub open spec fn world_wf(w: WorldModel) -> bool {
    &&& w.balls.len() == 2
    &&& w.balls[0].is_q_ball != w.balls[1].is_q_ball
    &&& ball_wf(w.balls[0])
    &&& ball_wf(w.balls[1])
    &&& 0 < w.playable_table_width <= MAX_VIEW_WIDTH
    &&& w.pockets.len() == 2
    &&& w.pockets[0] == end_pocket(0)
    &&& w.pockets[1] == end_pocket(w.playable_table_width)
    &&& within(w.cue_spot.0, MAX_MAGNITUDE as int)
    &&& within(w.cue_spot.1, MAX_MAGNITUDE as int)
    &&& within(w.object_spot.0, MAX_MAGNITUDE as int)
    &&& within(w.object_spot.1, MAX_MAGNITUDE as int)
}

/// Whether every ball of the table lies within `[-m, m]` in every quantity.
pub open spec fn world_bounded(w: WorldModel, m: int) -> bool {
    forall|i: int| 0 <= i < w.balls.len() ==> ball_bounded(#[trigger] w.balls[i], m)
}

/// Whether every ball that is on the table has stopped.
pub open spec fn all_stopped(w: WorldModel) -> bool {
    forall|i: int| 0 <= i < w.balls.len() && (#[trigger] w.balls[i]).active ==> stopped(w.balls[i])
}

/// Position of the cue ball in the row of balls.
pub open spec fn cue_index(w: WorldModel) -> int {
    if w.balls[0].is_q_ball {
        0
    } else {
        1
    }
}

/// The table after every ball has moved for `dt`.
pub open spec fn after_motion(w: WorldModel, dt: int) -> WorldModel {
    WorldModel { balls: Seq::new(w.balls.len(), |i: int| ball_step(w.balls[i], dt)), ..w }
}

/// The table after the cushions have acted on every ball.
pub open spec fn after_walls(w: WorldModel) -> WorldModel {
    WorldModel {
        balls: Seq::new(
            w.balls.len(),
            |i: int|
                ball_after_walls(w.balls[i], w.playable_table_width, w.pockets[0], w.pockets[1]),
        ),
        ..w
    }
}

/// The table after the collision of the cue ball with the object ball has
/// been resolved.
pub open spec fn after_collision(w: WorldModel) -> WorldModel {
    let c = cue_index(w);
    let o = 1 - c;
    WorldModel {
        balls: w.balls.update(c, first_after_pair(w.balls[c], w.balls[o])).update(
            o,
            second_after_pair(w.balls[c], w.balls[o]),
        ),
        ..w
    }
}

/// The table after each pocket in turn has taken in the balls inside its
/// capture zone.
pub open spec fn after_pocketing(w: WorldModel) -> WorldModel {
    WorldModel {
        balls: Seq::new(
            w.balls.len(),
            |i: int| ball_after_pocket(ball_after_pocket(w.balls[i], w.pockets[0]), w.pockets[1]),
        ),
        ..w
    }
}

/// One tick of the table: while a shot is running, motion, cushions,
/// collision and pocketing in that order; otherwise nothing.
pub open spec fn world_step(w: WorldModel, dt: int) -> WorldModel {
    if w.phase == GamePhase::Running {
        after_pocketing(after_collision(after_walls(after_motion(w, dt))))
    } else {
        w
    }
}

/// The ball put back at rest on `spot` and on the table.
pub open spec fn spotted(b: BallModel, spot: (int, int)) -> BallModel {
    ball_on_spot(spot, b.color, b.is_q_ball, b.has_angular_momentum)
}

/// The table set up for a shot: every ball back on its spot, phase `Initial`.
pub open spec fn world_reset(w: WorldModel) -> WorldModel {
    WorldModel {
        balls: Seq::new(
            w.balls.len(),
            |i: int|
                spotted(
                    w.balls[i],
                    if w.balls[i].is_q_ball {
                        w.cue_spot
                    } else {
                        w.object_spot
                    },
                ),
        ),
        phase: GamePhase::Initial,
        ..w
    }
}

/// The ball struck by the cue: a ball on the table gets the shot's velocity
/// along the table and, if it can spin, starts without spin; a pocketed ball
/// is out of the cue's reach.
pub open spec fn struck(b: BallModel) -> BallModel {
    if b.active {
        BallModel {
            vx: CUE_BALL_INITIAL_VELOCITY_MAGNITUDE as int,
            spin: if b.has_angular_momentum {
                0
            } else {
                b.spin
            },
            ..b
        }
    } else {
        b
    }
}

/// The table after the shot: the cue ball struck, phase `Running`.
pub open spec fn world_shot(w: WorldModel) -> WorldModel {
    WorldModel {
        balls: w.balls.update(cue_index(w), struck(w.balls[cue_index(w)])),
        phase: GamePhase::Running,
        ..w
    }
}

/// Whether every ball of the table is on the table.
pub open spec fn all_active(w: WorldModel) -> bool {
    forall|i: int| 0 <= i < w.balls.len() ==> (#[trigger] w.balls[i]).active
}

/// Whether `after` is the table `before` with its balls in another state:
/// the geometry, the spots and the pockets agree, and so does, ball by ball,
/// what was fixed when the ball was made.
pub open spec fn same_table(before: WorldModel, after: WorldModel) -> bool {
    &&& after.balls.len() == before.balls.len()
    &&& forall|i: int|
        0 <= i < before.balls.len() ==> same_ball(before.balls[i], #[trigger] after.balls[i])
    &&& after.screen_x_offset == before.screen_x_offset
    &&& after.cue_spot == before.cue_spot
    &&& after.object_spot == before.object_spot
    &&& after.playable_table_width == before.playable_table_width
    &&& after.screen_view_width == before.screen_view_width
    &&& after.pockets == before.pockets
}

/// A tick keeps the invariant of a table, its geometry, the identity of its
/// balls and its phase; and a ball that is off the table is left exactly as
/// it is, so that no tick brings a pocketed ball back or moves it.
pub proof fn lemma_world_step(w: WorldModel, dt: int)
    requires
        world_wf(w),
    ensures
        world_wf(world_step(w, dt)),
        same_table(w, world_step(w, dt)),
        world_step(w, dt).phase == w.phase,
        forall|i: int|
            0 <= i < 2 && !(#[trigger] w.balls[i]).active ==> world_step(w, dt).balls[i]
                == w.balls[i],
        forall|i: int|
            0 <= i < 2 && (#[trigger] world_step(w, dt).balls[i]).active ==> w.balls[i].active,
{
    if w.phase == GamePhase::Running {
        let moved = after_motion(w, dt);
        lemma_ball_step_wf(w.balls[0], dt);
        lemma_ball_step_wf(w.balls[1], dt);
        assert(world_wf(moved) && same_table(w, moved));
        let walled = after_walls(moved);
        let width = moved.playable_table_width;
        lemma_walls_wf(moved.balls[0], width, moved.pockets[0], moved.pockets[1]);
        lemma_walls_wf(moved.balls[1], width, moved.pockets[0], moved.pockets[1]);
        assert(world_wf(walled) && same_table(w, walled));
        let hit = after_collision(walled);
        let c = cue_index(walled);
        lemma_pair_wf(walled.balls[c], walled.balls[1 - c]);
        lemma_pair_frame(walled.balls[c], walled.balls[1 - c]);
        assert(world_wf(hit) && same_table(w, hit));
        let done = after_pocketing(hit);
        lemma_pocket_wf(hit.balls[0], hit.pockets[0]);
        lemma_pocket_wf(ball_after_pocket(hit.balls[0], hit.pockets[0]), hit.pockets[1]);
        lemma_pocket_wf(hit.balls[1], hit.pockets[0]);
        lemma_pocket_wf(ball_after_pocket(hit.balls[1], hit.pockets[0]), hit.pockets[1]);
        assert(world_wf(done) && same_table(w, done));
        assert forall|i: int| 0 <= i < 2 && !(#[trigger] w.balls[i]).active implies done.balls[i]
            == w.balls[i] by {
            assert(moved.balls[i] == w.balls[i]);
            assert(walled.balls[i] == w.balls[i]);
            assert(hit.balls[i] == w.balls[i]);
        }
        assert forall|i: int| 0 <= i < 2 && (#[trigger] done.balls[i]).active implies w.balls[i]
            .active by {
            assert(hit.balls[i].active);
            assert(walled.balls[i].active == hit.balls[i].active);
            assert(moved.balls[i].active == walled.balls[i].active);
        }
    }
}

/// How far beyond an end of the table a ball can be and still be on it: the
/// reach of a capture zone and the radius by which a collision can push.
pub open spec fn table_margin() -> int {
    CAPTURE_REACH + BALL_RADIUS
}

/// No tick lets a ball escape: whatever the length of the tick and however
/// fast the balls were, a ball that is on a running table after the tick
/// lies within the margin of the table's ends, and a ball that the tick has
/// pocketed lies in the capture zone of one of the two pockets.
pub proof fn lemma_balls_stay_in_reach(w: WorldModel, dt: int, i: int)
    requires
        world_wf(w),
        w.phase == GamePhase::Running,
        0 <= i < 2,
    ensures
        world_step(w, dt).balls[i].active ==> -table_margin() < world_step(w, dt).balls[i].x
            < w.playable_table_width + table_margin(),
        w.balls[i].active && !world_step(w, dt).balls[i].active ==> {
            ||| abs_of(world_step(w, dt).balls[i].x) < CAPTURE_REACH
            ||| abs_of(world_step(w, dt).balls[i].x - w.playable_table_width) < CAPTURE_REACH
        },
{
    let moved = after_motion(w, dt);
    lemma_ball_step_wf(w.balls[0], dt);
    lemma_ball_step_wf(w.balls[1], dt);
    let left = w.pockets[0];
    let right = w.pockets[1];
    let walled = after_walls(moved);
    lemma_walls_wf(moved.balls[0], w.playable_table_width, left, right);
    lemma_walls_wf(moved.balls[1], w.playable_table_width, left, right);
    lemma_capture_zone(left, moved.balls[i].x);
    lemma_capture_zone(right, moved.balls[i].x);
    let hit = after_collision(walled);
    let c = cue_index(walled);
    lemma_pair_wf(walled.balls[c], walled.balls[1 - c]);
    lemma_pair_frame(walled.balls[c], walled.balls[1 - c]);
    lemma_pair_shift(walled.balls[c], walled.balls[1 - c]);
    lemma_capture_zone(left, hit.balls[i].x);
    lemma_capture_zone(right, hit.balls[i].x);
    lemma_pocket_wf(hit.balls[i], left);
    lemma_pocket_wf(ball_after_pocket(hit.balls[i], left), right);
    assert(walled.balls[i].active ==> -CAPTURE_REACH < walled.balls[i].x < w.playable_table_width
        + CAPTURE_REACH);
    assert(abs_of(hit.balls[i].x - walled.balls[i].x) <= BALL_RADIUS);
}

/// The table after the ticks `ticks`, each given by its length, in order.
pub open spec fn world_run(w: WorldModel, ticks: Seq<int>) -> WorldModel
    decreases ticks.len(),
{
    if ticks.len() == 0 {
        w
    } else {
        world_step(world_run(w, ticks.drop_last()), ticks.last())
    }
}

/// Pocketing is permanent: a ball that is off the table stays exactly as it
/// is, with no velocity and off the table, through any number of ticks of
/// any lengths. The table keeps its invariant throughout.
pub proof fn lemma_pocket_permanence(w: WorldModel, ticks: Seq<int>, i: int)
    requires
        world_wf(w),
        0 <= i < 2,
        !w.balls[i].active,
    ensures
        world_wf(world_run(w, ticks)),
        same_table(w, world_run(w, ticks)),
        world_run(w, ticks).balls[i] == w.balls[i],
        !world_run(w, ticks).balls[i].active,
        world_run(w, ticks).balls[i].vx == 0,
        world_run(w, ticks).balls[i].vy == 0,
        world_run(w, ticks).balls[i].spin == 0,
    decreases ticks.len(),
{
    if ticks.len() > 0 {
        lemma_pocket_permanence(w, ticks.drop_last(), i);
        lemma_world_step(world_run(w, ticks.drop_last()), ticks.last());
    }
}

/// Setting up keeps the invariant and the geometry of a table, and leaves
/// every ball on the table, on its spot, at rest, within the limits; the
/// table is in its initial phase.
pub proof fn lemma_world_reset(w: WorldModel)
    requires
        world_wf(w),
    ensures
        world_wf(world_reset(w)),
        same_table(w, world_reset(w)),
        world_reset(w).phase == GamePhase::Initial,
        all_active(world_reset(w)),
        all_stopped(world_reset(w)),
        world_bounded(world_reset(w), MAX_MAGNITUDE as int),
        world_reset(w).balls[cue_index(w)].x == w.cue_spot.0,
        world_reset(w).balls[1 - cue_index(w)].x == w.object_spot.0,
{
    assert(speed_below(0, 0, MIN_VELOCITY_THRESHOLD as int));
}

/// The shot keeps the invariant and the geometry of a table and starts the
/// running phase. A cue ball on the table leaves with exactly the shot's
/// velocity; nothing else moves, and no ball enters or leaves the table.
pub proof fn lemma_world_shot(w: WorldModel)
    requires
        world_wf(w),
    ensures
        world_wf(world_shot(w)),
        same_table(w, world_shot(w)),
        world_shot(w).phase == GamePhase::Running,
        forall|i: int|
            0 <= i < 2 ==> (#[trigger] world_shot(w).balls[i]).active == w.balls[i].active,
        world_shot(w).balls[1 - cue_index(w)] == w.balls[1 - cue_index(w)],
        w.balls[cue_index(w)].active ==> world_shot(w).balls[cue_index(w)].vx
            == CUE_BALL_INITIAL_VELOCITY_MAGNITUDE,
        world_bounded(w, MAX_MAGNITUDE as int) ==> world_bounded(
            world_shot(w),
            MAX_MAGNITUDE as int,
        ),
{
}

impl View for SidePoolWorld {
    type V = WorldModel;

    closed spec fn view(&self) -> WorldModel {
        WorldModel {
            balls: ball_models(self.balls@),
            screen_x_offset: self.screen_x_offset as int,
            phase: self.game_phase,
            cue_spot: (self.initial_q_ball_pos.x as int, self.initial_q_ball_pos.y as int),
            object_spot: (
                self.initial_colored_ball_pos.x as int,
                self.initial_colored_ball_pos.y as int,
            ),
            playable_table_width: self.playable_table_width as int,
            screen_view_width: self.screen_view_width as int,
            pockets: pocket_models(self.pockets@),
        }
    }
}

/// Moves every ball of the row for `dt`.
fn move_all(balls: &mut Vec<Ball>, dt: u32)
    requires
        forall|i: int|
            0 <= i < old(balls)@.len() ==> (#[trigger] old(balls)@[i]).wf() && old(
                balls,
            )@[i].within_limits(),
    ensures
        final(balls)@.len() == old(balls)@.len(),
        forall|i: int|
            0 <= i < old(balls)@.len() ==> {
                &&& (#[trigger] final(balls)@[i])@ == ball_step(old(balls)@[i]@, dt as int)
                &&& final(balls)@[i].wf()
                &&& ball_bounded(final(balls)@[i]@, MAX_TRANSIENT as int)
            },
{
    let count: usize = balls.len();
    let mut i: usize = 0;
    while i < count
        invariant
            i <= count,
            balls@.len() == count,
            old(balls)@.len() == count,
            forall|j: int|
                0 <= j < i ==> {
                    &&& (#[trigger] balls@[j])@ == ball_step(old(balls)@[j]@, dt as int)
                    &&& balls@[j].wf()
                    &&& ball_bounded(balls@[j]@, MAX_TRANSIENT as int)
                },
            forall|j: int| i <= j < count ==> #[trigger] balls@[j] == old(balls)@[j],
            forall|j: int|
                0 <= j < count ==> (#[trigger] old(balls)@[j]).wf() && old(
                    balls,
                )@[j].within_limits(),
        decreases count - i,
    {
        let mut ball: Ball = balls[i];
        ball.update(dt);
        balls.set(i, ball);
        i += 1;
    }
}

/// Lets the cushions act on every ball of the row.
fn bounce_all(balls: &mut Vec<Ball>, table_width: i64, left: &SidePocket, right: &SidePocket)
    requires
        table_width > 0,
    ensures
        final(balls)@.len() == old(balls)@.len(),
        forall|i: int|
            0 <= i < old(balls)@.len() ==> {
                &&& (#[trigger] final(balls)@[i])@ == ball_after_walls(
                    old(balls)@[i]@,
                    table_width as int,
                    left@,
                    right@,
                )
                &&& old(balls)@[i].wf() ==> final(balls)@[i].wf()
                &&& table_width <= MAX_TRANSIENT && ball_bounded(
                    old(balls)@[i]@,
                    MAX_TRANSIENT as int,
                ) ==> ball_bounded(final(balls)@[i]@, MAX_TRANSIENT as int)
            },
{
    let count: usize = balls.len();
    let mut i: usize = 0;
    while i < count
        invariant
            i <= count,
            table_width > 0,
            balls@.len() == count,
            old(balls)@.len() == count,
            forall|j: int|
                0 <= j < i ==> {
                    &&& (#[trigger] balls@[j])@ == ball_after_walls(
                        old(balls)@[j]@,
                        table_width as int,
                        left@,
                        right@,
                    )
                    &&& old(balls)@[j].wf() ==> balls@[j].wf()
                    &&& table_width <= MAX_TRANSIENT && ball_bounded(
                        old(balls)@[j]@,
                        MAX_TRANSIENT as int,
                    ) ==> ball_bounded(balls@[j]@, MAX_TRANSIENT as int)
                },
            forall|j: int| i <= j < count ==> #[trigger] balls@[j] == old(balls)@[j],
        decreases count - i,
    {
        let mut ball: Ball = balls[i];
        let ghost before = ball@;
        bounce_off_walls(&mut ball, table_width, left, right);
        assert(table_width <= MAX_TRANSIENT && ball_bounded(before, MAX_TRANSIENT as int)
            ==> ball_bounded(ball@, MAX_TRANSIENT as int));
        balls.set(i, ball);
        i += 1;
    }
}

/// Lets each of the two pockets in turn take in the balls of the row.
fn pocket_all(balls: &mut Vec<Ball>, first: &SidePocket, second: &SidePocket)
    requires
        within(first.depth as int, MAX_MAGNITUDE as int),
        within(second.depth as int, MAX_MAGNITUDE as int),
    ensures
        final(balls)@.len() == old(balls)@.len(),
        forall|i: int|
            0 <= i < old(balls)@.len() ==> {
                &&& (#[trigger] final(balls)@[i])@ == ball_after_pocket(
                    ball_after_pocket(old(balls)@[i]@, first@),
                    second@,
                )
                &&& old(balls)@[i].wf() ==> final(balls)@[i].wf()
            },
{
    let count: usize = balls.len();
    let mut i: usize = 0;
    while i < count
        invariant
            i <= count,
            within(first.depth as int, MAX_MAGNITUDE as int),
            within(second.depth as int, MAX_MAGNITUDE as int),
            balls@.len() == count,
            old(balls)@.len() == count,
            forall|j: int|
                0 <= j < i ==> {
                    &&& (#[trigger] balls@[j])@ == ball_after_pocket(
                        ball_after_pocket(old(balls)@[j]@, first@),
                        second@,
                    )
                    &&& old(balls)@[j].wf() ==> balls@[j].wf()
                },
            forall|j: int| i <= j < count ==> #[trigger] balls@[j] == old(balls)@[j],
        decreases count - i,
    {
        let mut ball: Ball = balls[i];
        pocket_ball(&mut ball, first);
        pocket_ball(&mut ball, second);
        balls.set(i, ball);
        i += 1;
    }
}

impl SidePoolWorld {
    /// The invariant of a table.
    pub open spec fn wf(&self) -> bool {
        world_wf(self@)
    }

    /// Whether the state of every ball is small enough to start a tick with.
    pub open spec fn within_limits(&self) -> bool {
        world_bounded(self@, MAX_MAGNITUDE as int)
    }

    /// Lays out a table in a view of width `screen_view_width` that is drawn
    /// at `screen_x_offset`, with two balls that can or cannot spin.
    pub fn new(screen_x_offset: i64, has_angular_momentum: bool, screen_view_width: i64) -> (made:
        Result<SidePoolWorld, TableError>)
        ensures
            made is Ok <==> view_fits(screen_view_width as int),
            made matches Ok(world) ==> {
                &&& world@ == new_world(
                    screen_x_offset as int,
                    has_angular_momentum,
                    screen_view_width as int,
                )
                &&& world.wf()
                &&& world.within_limits()
            },
            made matches Err(e) ==> (e == TableError::ViewTooWide <==> screen_view_width
                > MAX_VIEW_WIDTH),
    {
        if screen_view_width > MAX_VIEW_WIDTH {
            return Err(TableError::ViewTooWide);
        }
        proof {
            lemma_scaled_mul_shrinks(
                screen_view_width as int,
                WORLD_TABLE_PLAYABLE_WIDTH_FACTOR as int,
            );
        }
        let playable_table_width: i64 = mul_div_narrow(
            screen_view_width,
            WORLD_TABLE_PLAYABLE_WIDTH_FACTOR,
            SCALE,
        );
        if playable_table_width <= 0 {
            return Err(TableError::ViewTooNarrow);
        }
        proof {
            lemma_scaled_mul_shrinks(playable_table_width as int, CUE_SPOT_FRACTION as int);
            lemma_scaled_mul_shrinks(playable_table_width as int, OBJECT_SPOT_FRACTION as int);
        }
        let q_ball_y: i64 = TABLE_Y_POS - BALL_RADIUS;
        let colored_ball_y: i64 = TABLE_Y_POS - BALL_RADIUS;
        let q_ball_x: i64 = mul_div_narrow(playable_table_width, CUE_SPOT_FRACTION, SCALE);
        let colored_ball_x: i64 = mul_div_narrow(playable_table_width, OBJECT_SPOT_FRACTION, SCALE);

        let mut balls: Vec<Ball> = Vec::new();
        balls.push(
            Ball::new(Vec2::new(q_ball_x, q_ball_y), BallColor::White, true, has_angular_momentum),
        );
        balls.push(
            Ball::new(
                Vec2::new(colored_ball_x, colored_ball_y),
                BallColor::Purple,
                false,
                has_angular_momentum,
            ),
        );

        let mut pockets: Vec<SidePocket> = Vec::new();
        pockets.push(SidePocket { x_position: 0, width: POCKET_WIDTH, depth: POCKET_DEPTH });
        pockets.push(
            SidePocket {
                x_position: playable_table_width,
                width: POCKET_WIDTH,
                depth: POCKET_DEPTH,
            },
        );

        let world = SidePoolWorld {
            balls,
            screen_x_offset,
            game_phase: GamePhase::Initial,
            initial_q_ball_pos: Vec2::new(q_ball_x, q_ball_y),
            initial_colored_ball_pos: Vec2::new(colored_ball_x, colored_ball_y),
            playable_table_width,
            screen_view_width,
            pockets,
        };
        assert(world@.balls =~= new_world(
            screen_x_offset as int,
            has_angular_momentum,
            screen_view_width as int,
        ).balls);
        assert(world@.pockets =~= new_world(
            screen_x_offset as int,
            has_angular_momentum,
            screen_view_width as int,
        ).pockets);
        Ok(world)
    }

    /// The pockets of the table, the left one first.
    pub fn pockets(&self) -> (pockets: &Vec<SidePocket>)
        ensures
            pocket_models(pockets@) == self@.pockets,
    {
        &self.pockets
    }

    /// The spot the cue ball is put on.
    pub fn initial_q_ball_pos(&self) -> (spot: Vec2)
        ensures
            (spot.x as int, spot.y as int) == self@.cue_spot,
    {
        self.initial_q_ball_pos
    }

    /// The spot the object ball is put on.
    pub fn initial_colored_ball_pos(&self) -> (spot: Vec2)
        ensures
            (spot.x as int, spot.y as int) == self@.object_spot,
    {
        self.initial_colored_ball_pos
    }

    /// Position of the cue ball in `balls`.
    pub fn cue_ball_index(&self) -> (index: usize)
        requires
            self.wf(),
        ensures
            index == cue_index(self@),
            index < 2,
            self@.balls[index as int].is_q_ball,
            !self@.balls[1 - index].is_q_ball,
    {
        if self.balls[0].is_q_ball {
            0
        } else {
            1
        }
    }

    /// Moves every ball for `dt` millionths of a second.
    pub fn move_balls(&mut self, dt: u32)
        requires
            old(self).wf(),
            old(self).within_limits(),
        ensures
            final(self)@ == after_motion(old(self)@, dt as int),
            final(self).wf(),
            world_bounded(final(self)@, MAX_TRANSIENT as int),
    {
        move_all(&mut self.balls, dt);
        assert(self@.balls =~= after_motion(old(self)@, dt as int).balls);
    }

    /// Lets the cushions act on every ball.
    pub fn handle_wall_collisions(&mut self)
        requires
            old(self).wf(),
        ensures
            final(self)@ == after_walls(old(self)@),
            final(self).wf(),
            world_bounded(old(self)@, MAX_TRANSIENT as int) ==> world_bounded(
                final(self)@,
                MAX_TRANSIENT as int,
            ),
    {
        let left: SidePocket = self.pockets[0];
        let right: SidePocket = self.pockets[1];
        bounce_all(&mut self.balls, self.playable_table_width, &left, &right);
        assert(self@.balls =~= after_walls(old(self)@).balls);
    }

    /// Resolves the collision of the cue ball with the object ball.
    pub fn handle_ball_collisions(&mut self)
        requires
            old(self).wf(),
            world_bounded(old(self)@, MAX_TRANSIENT as int),
        ensures
            final(self)@ == after_collision(old(self)@),
            final(self).wf(),
    {
        let q_ball_idx: usize = self.cue_ball_index();
        let other_ball_idx: usize = 1 - q_ball_idx;
        let mut ball1: Ball = self.balls[q_ball_idx];
        let mut ball2: Ball = self.balls[other_ball_idx];
        resolve_pair(&mut ball1, &mut ball2);
        self.balls.set(q_ball_idx, ball1);
        self.balls.set(other_ball_idx, ball2);
        assert(self@.balls =~= after_collision(old(self)@).balls);
    }

    /// Takes the balls inside a pocket's capture zone off the table.
    pub fn handle_pocketing(&mut self)
        requires
            old(self).wf(),
        ensures
            final(self)@ == after_pocketing(old(self)@),
            final(self).wf(),
    {
        let left: SidePocket = self.pockets[0];
        let right: SidePocket = self.pockets[1];
        pocket_all(&mut self.balls, &left, &right);
        assert(self@.balls =~= after_pocketing(old(self)@).balls);
    }

    /// Advances the table by `dt` millionths of a second.
    pub fn update(&mut self, dt: u32)
        requires
            old(self).wf(),
            old(self).within_limits(),
        ensures
            final(self)@ == world_step(old(self)@, dt as int),
            final(self).wf(),
    {
        if self.game_phase.is_running() {
            self.move_balls(dt);
            self.handle_wall_collisions();
            self.handle_ball_collisions();
            self.handle_pocketing();
        }
    }

    /// Puts both balls back on their spots and returns to the initial phase.
    pub fn reset(&mut self)
        requires
            old(self).wf(),
        ensures
            final(self)@ == world_reset(old(self)@),
            final(self).wf(),
            final(self).within_limits(),
    {
        self.game_phase = GamePhase::Initial;
        let count: usize = self.balls.len();
        let mut i: usize = 0;
        while i < count
            invariant
                i <= count,
                count == 2,
                self.balls@.len() == count,
                old(self).wf(),
                self.initial_q_ball_pos == old(self).initial_q_ball_pos,
                self.initial_colored_ball_pos == old(self).initial_colored_ball_pos,
                self.pockets == old(self).pockets,
                self.playable_table_width == old(self).playable_table_width,
                self.screen_view_width == old(self).screen_view_width,
                self.screen_x_offset == old(self).screen_x_offset,
                self.game_phase == GamePhase::Initial,
                forall|j: int|
                    0 <= j < i ==> (#[trigger] self.balls@[j])@ == world_reset(old(self)@).balls[j],
                forall|j: int| i <= j < count ==> #[trigger] self.balls@[j] == old(self).balls@[j],
            decreases count - i,
        {
            let mut ball: Ball = self.balls[i];
            ball.position = if ball.is_q_ball {
                self.initial_q_ball_pos
            } else {
                self.initial_colored_ball_pos
            };
            ball.linear_velocity = Vec2::zero();
            ball.angular_velocity = 0;
            ball.angle = 0;
            ball.is_slipping = false;
            ball.active = true;
            self.balls.set(i, ball);
            i += 1;
        }
        assert(self@.balls =~= world_reset(old(self)@).balls);
    }

    /// Shoots the cue ball and starts the shot.
    pub fn shoot_q_ball(&mut self)
        requires
            old(self).wf(),
        ensures
            final(self)@ == world_shot(old(self)@),
            final(self).wf(),
            old(self).within_limits() ==> final(self).within_limits(),
    {
        let q_ball_idx: usize = self.cue_ball_index();
        let mut q_ball: Ball = self.balls[q_ball_idx];
        if q_ball.active {
            q_ball.linear_velocity.x = CUE_BALL_INITIAL_VELOCITY_MAGNITUDE;
            if q_ball.has_angular_momentum {
                q_ball.angular_velocity = 0;
            }
        }
        self.balls.set(q_ball_idx, q_ball);
        self.game_phase = GamePhase::Running;
        assert(self@.balls =~= world_shot(old(self)@).balls);
    }

    /// Whether every ball that is on the table has stopped.
    pub fn all_balls_stopped(&self) -> (still: bool)
        ensures
            still == all_stopped(self@),
    {
        let count: usize = self.balls.len();
        let mut i: usize = 0;
        while i < count
            invariant
                i <= count,
                self.balls@.len() == count,
                forall|j: int|
                    0 <= j < i && (#[trigger] self@.balls[j]).active ==> stopped(self@.balls[j]),
            decreases count - i,
        {
            if self.balls[i].active && !self.balls[i].is_stopped() {
                assert(self@.balls[i as int].active && !stopped(self@.balls[i as int]));
                return false;
            }
            i += 1;
        }
        true
    }

    /// Whether the state of every ball is small enough to start a tick with.
    pub fn is_within_limits(&self) -> (small: bool)
        ensures
            small == self.within_limits(),
    {
        let count: usize = self.balls.len();
        let mut i: usize = 0;
        while i < count
            invariant
                i <= count,
                self.balls@.len() == count,
                forall|j: int|
                    0 <= j < i ==> ball_bounded(#[trigger] self@.balls[j], MAX_MAGNITUDE as int),
            decreases count - i,
        {
            if !self.balls[i].is_within_limits() {
                assert(!ball_bounded(self@.balls[i as int], MAX_MAGNITUDE as int));
                return false;
            }
            i += 1;
        }
        true
    }
}

} // verus!
