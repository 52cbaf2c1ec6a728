//! A session of two tables side by side, one whose balls can spin and one
//! whose balls cannot, driven by one trigger and one clock.
//!
//! The two tables have the same geometry and never touch each other's state.
//! What they share is the session's phase: a trigger resets or shoots both,
//! and a running shot ends when the balls of both have stopped.

use vstd::prelude::*;
use crate::constants::{CUE_BALL_INITIAL_VELOCITY_MAGNITUDE, MAX_VIEW_WIDTH};
use crate::fixed::{trunc_div, MAX_MAGNITUDE};
use crate::phase::{GamePhase, TickAction};
use crate::world::{
    all_active, all_stopped, cue_index, lemma_world_reset, lemma_world_shot, lemma_world_step,
    new_world, same_table, view_fits, world_bounded, world_reset, world_shot, world_step,
    world_wf, SidePoolWorld, TableError, WorldModel,
};

verus! {

/// A session of two tables.
#[derive(Clone, PartialEq, Eq, Debug)]
pub struct SidePoolGame {
    world_with_am: SidePoolWorld,
    world_without_am: SidePoolWorld,
    game_phase_global: GamePhase,
}

/// A session as the contracts see it.
pub struct GameModel {
    pub with_spin: WorldModel,
    pub without_spin: WorldModel,
    pub phase: GamePhase,
}

/// Whether every ball of the table has the capability `has_angular_momentum`.
pub open spec fn uniform_capability(w: WorldModel, has_angular_momentum: bool) -> bool {
    forall|i: int|
        0 <= i < w.balls.len() ==> (#[trigger] w.balls[i]).has_angular_momentum
            == has_angular_momentum
}

/// The invariant of a session: two valid tables, the balls of the first all
/// able to spin and those of the second all unable; while the session waits
/// for the shot, both tables are set up with every ball on the table; while
/// the shot runs, both tables are running.
pub open spec fn game_wf(g: GameModel) -> bool {
    &&& world_wf(g.with_spin)
    &&& world_wf(g.without_spin)
    &&& uniform_capability(g.with_spin, true)
    &&& uniform_capability(g.without_spin, false)
    &&& g.phase == GamePhase::SetupShot ==> {
        &&& g.with_spin.phase == GamePhase::Initial
        &&& g.without_spin.phase == GamePhase::Initial
        &&& all_active(g.with_spin)
        &&& all_active(g.without_spin)
    }
    &&& g.phase == GamePhase::Running ==> {
        &&& g.with_spin.phase == GamePhase::Running
        &&& g.without_spin.phase == GamePhase::Running
    }
}

/// Whether the balls of both tables are small enough to start a tick with.
pub open spec fn game_within_limits(g: GameModel) -> bool {
    &&& world_bounded(g.with_spin, MAX_MAGNITUDE as int)
    &&& world_bounded(g.without_spin, MAX_MAGNITUDE as int)
}

/// The session that fills a screen of width `full_screen_width`: each table
/// takes half of it, the one with spin on the left.
pub open spec fn new_game(full_screen_width: int) -> GameModel {
    let half = trunc_div(full_screen_width, 2);
    GameModel {
        with_spin: new_world(0, true, half),
        without_spin: new_world(half, false, half),
        phase: GamePhase::Initial,
    }
}

/// One tick of the session. A trigger resets both tables, or shoots on both,
/// and takes the tick for itself. Without one, a running shot advances on
/// both tables and ends when the balls of both have stopped.
pub open spec fn game_step(g: GameModel, dt: int, trigger: bool) -> GameModel {
    match g.phase.action(trigger) {
        TickAction::Reset => GameModel {
            with_spin: world_reset(g.with_spin),
            without_spin: world_reset(g.without_spin),
            phase: GamePhase::SetupShot,
        },
        TickAction::Shoot => GameModel {
            with_spin: world_shot(g.with_spin),
            without_spin: world_shot(g.without_spin),
            phase: GamePhase::Running,
        },
        TickAction::Advance => {
            let with_spin = world_step(g.with_spin, dt);
            let without_spin = world_step(g.without_spin, dt);
            GameModel {
                with_spin: with_spin,
                without_spin: without_spin,
                phase: if all_stopped(with_spin) && all_stopped(without_spin) {
                    GamePhase::Initial
                } else {
                    GamePhase::Running
                },
            }
        },
        TickAction::Wait => g,
    }
}

/// Whether a tick that sees `trigger` can be taken from the state `g`: only
/// a tick that advances the physics asks anything, namely balls within the
/// limits.
pub open spec fn can_step(g: GameModel, trigger: bool) -> bool {
    g.phase.action(trigger) == TickAction::Advance ==> game_within_limits(g)
}

/// A tick keeps the invariant of a session, and the session's phase moves
/// as the phase machine says, the shot being over when the balls of both
/// tables have stopped.
pub proof fn lemma_game_step(g: GameModel, dt: int, trigger: bool)
    requires
        game_wf(g),
    ensures
        game_wf(game_step(g, dt, trigger)),
        same_table(g.with_spin, game_step(g, dt, trigger).with_spin),
        same_table(g.without_spin, game_step(g, dt, trigger).without_spin),
        game_step(g, dt, trigger).phase == g.phase.next(
            trigger,
            all_stopped(game_step(g, dt, trigger).with_spin) && all_stopped(
                game_step(g, dt, trigger).without_spin,
            ),
        ),
{
    match g.phase.action(trigger) {
        TickAction::Reset => {
            lemma_world_reset(g.with_spin);
            lemma_world_reset(g.without_spin);
        },
        TickAction::Shoot => {
            lemma_world_shot(g.with_spin);
            lemma_world_shot(g.without_spin);
        },
        TickAction::Advance => {
            lemma_world_step(g.with_spin, dt);
            lemma_world_step(g.without_spin, dt);
        },
        TickAction::Wait => {},
    }
}

/// The session after the ticks `ticks`, each given by its length and by
/// whether the trigger was pulled, in order.
pub open spec fn game_run(g: GameModel, ticks: Seq<(int, bool)>) -> GameModel
    decreases ticks.len(),
{
    if ticks.len() == 0 {
        g
    } else {
        game_step(game_run(g, ticks.drop_last()), ticks.last().0, ticks.last().1)
    }
}

/// Whether no tick of `ticks` pulls the trigger.
pub open spec fn no_trigger(ticks: Seq<(int, bool)>) -> bool {
    forall|k: int| 0 <= k < ticks.len() ==> !(#[trigger] ticks[k]).1
}

/// The invariant of a session holds in every state that ticks can reach,
/// and the tables stay the tables they were.
pub proof fn lemma_game_run(g: GameModel, ticks: Seq<(int, bool)>)
    requires
        game_wf(g),
    ensures
        game_wf(game_run(g, ticks)),
        same_table(g.with_spin, game_run(g, ticks).with_spin),
        same_table(g.without_spin, game_run(g, ticks).without_spin),
    decreases ticks.len(),
{
    if ticks.len() > 0 {
        lemma_game_run(g, ticks.drop_last());
        lemma_game_step(game_run(g, ticks.drop_last()), ticks.last().0, ticks.last().1);
    }
}

/// As long as the trigger is not pulled, a ball that is off either table
/// stays exactly as it is: no tick moves it or brings it back.
pub proof fn lemma_game_pocket_permanence(g: GameModel, ticks: Seq<(int, bool)>, i: int)
    requires
        game_wf(g),
        no_trigger(ticks),
        0 <= i < 2,
    ensures
        !g.with_spin.balls[i].active ==> game_run(g, ticks).with_spin.balls[i]
            == g.with_spin.balls[i],
        !g.without_spin.balls[i].active ==> game_run(g, ticks).without_spin.balls[i]
            == g.without_spin.balls[i],
    decreases ticks.len(),
{
    if ticks.len() > 0 {
        let before = game_run(g, ticks.drop_last());
        assert(no_trigger(ticks.drop_last())) by {
            assert forall|k: int| 0 <= k < ticks.drop_last().len() implies !(
            #[trigger] ticks.drop_last()[k]).1 by {
                assert(ticks.drop_last()[k] == ticks[k]);
            }
        }
        lemma_game_pocket_permanence(g, ticks.drop_last(), i);
        lemma_game_run(g, ticks.drop_last());
        assert(!ticks[ticks.len() - 1].1);
        lemma_world_step(before.with_spin, ticks.last().0);
        lemma_world_step(before.without_spin, ticks.last().0);
    }
}

/// The session's phase along the cycle: from `Initial` a trigger sets both
/// tables up and waits for the shot; a second trigger shoots on both and
/// runs; and a tick without a trigger that leaves the balls of both tables
/// stopped returns to `Initial`. While the session waits, in `Initial` or in
/// `SetupShot`, a tick without a trigger changes nothing at all.
pub proof fn lemma_game_cycle(g: GameModel, dt: int)
    requires
        game_wf(g),
    ensures
        g.phase == GamePhase::Initial ==> game_step(g, dt, true).phase == GamePhase::SetupShot,
        g.phase == GamePhase::SetupShot ==> game_step(g, dt, true).phase == GamePhase::Running,
        g.phase == GamePhase::Running ==> game_step(g, dt, true).phase == GamePhase::SetupShot,
        g.phase == GamePhase::Running ==> (game_step(g, dt, false).phase == GamePhase::Initial
            <==> all_stopped(world_step(g.with_spin, dt)) && all_stopped(
            world_step(g.without_spin, dt),
        )),
        g.phase == GamePhase::Running ==> game_step(g, dt, false).phase == GamePhase::Initial
            || game_step(g, dt, false).phase == GamePhase::Running,
        g.phase != GamePhase::Running ==> game_step(g, dt, false) == g,
{
}

/// A trigger acts on both tables in lockstep. Received while the session
/// waits for the shot, it sends the cue ball of each table off with exactly
/// the shot's velocity and leaves the object balls where they are; received
/// in any other phase, it puts every ball of both tables back on its spot,
/// on the table and at rest.
pub proof fn lemma_game_trigger(g: GameModel, dt: int)
    requires
        game_wf(g),
    ensures
        g.phase == GamePhase::SetupShot ==> {
            let after = game_step(g, dt, true);
            &&& after.with_spin.balls[cue_index(g.with_spin)].vx
                == CUE_BALL_INITIAL_VELOCITY_MAGNITUDE
            &&& after.without_spin.balls[cue_index(g.without_spin)].vx
                == CUE_BALL_INITIAL_VELOCITY_MAGNITUDE
            &&& after.with_spin.balls[1 - cue_index(g.with_spin)] == g.with_spin.balls[1
                - cue_index(g.with_spin)]
            &&& after.without_spin.balls[1 - cue_index(g.without_spin)] == g.without_spin.balls[1
                - cue_index(g.without_spin)]
        },
        g.phase != GamePhase::SetupShot ==> {
            let after = game_step(g, dt, true);
            &&& all_active(after.with_spin)
            &&& all_active(after.without_spin)
            &&& all_stopped(after.with_spin)
            &&& all_stopped(after.without_spin)
            &&& game_within_limits(after)
        },
{
    lemma_world_reset(g.with_spin);
    lemma_world_reset(g.without_spin);
    lemma_world_shot(g.with_spin);
    lemma_world_shot(g.without_spin);
}

impl View for SidePoolGame {
    type V = GameModel;

    closed spec fn view(&self) -> GameModel {
        GameModel {
            with_spin: self.world_with_am@,
            without_spin: self.world_without_am@,
            phase: self.game_phase_global,
        }
    }
}

impl SidePoolGame {
    /// The invariant of a session.
    pub open spec fn wf(&self) -> bool {
        game_wf(self@)
    }

    /// Whether the balls of both tables are small enough to start a tick with.
    pub open spec fn within_limits(&self) -> bool {
        game_within_limits(self@)
    }

    /// Sets up a session on a screen of width `full_screen_width`.
    pub fn new(full_screen_width: i64) -> (made: Result<SidePoolGame, TableError>)
        ensures
            made is Ok <==> view_fits(trunc_div(full_screen_width as int, 2)),
            made matches Ok(game) ==> {
                &&& game@ == new_game(full_screen_width as int)
                &&& game.wf()
                &&& game.within_limits()
            },
            made matches Err(e) ==> (e == TableError::ViewTooWide <==> trunc_div(
                full_screen_width as int,
                2,
            ) > MAX_VIEW_WIDTH),
    {
        let screen_width_for_each_world_view: i64 = full_screen_width / 2;
        let world_with_am: SidePoolWorld = match SidePoolWorld::new(
            0,
            true,
            screen_width_for_each_world_view,
        ) {
            Ok(world) => world,
            Err(e) => {
                return Err(e);
            },
        };
        let world_without_am: SidePoolWorld = match SidePoolWorld::new(
            screen_width_for_each_world_view,
            false,
            screen_width_for_each_world_view,
        ) {
            Ok(world) => world,
            Err(e) => {
                return Err(e);
            },
        };
        Ok(SidePoolGame { world_with_am, world_without_am, game_phase_global: GamePhase::Initial })
    }

    /// The table whose balls can spin.
    pub fn world_with_am(&self) -> (world: &SidePoolWorld)
        ensures
            world@ == self@.with_spin,
    {
        &self.world_with_am
    }

    /// The table whose balls cannot spin.
    pub fn world_without_am(&self) -> (world: &SidePoolWorld)
        ensures
            world@ == self@.without_spin,
    {
        &self.world_without_am
    }

    /// The phase of the session.
    pub fn phase(&self) -> (phase: GamePhase)
        ensures
            phase == self@.phase,
    {
        self.game_phase_global
    }

    /// Whether the balls of both tables are small enough to start a tick with.
    pub fn is_within_limits(&self) -> (small: bool)
        ensures
            small == self.within_limits(),
    {
        self.world_with_am.is_within_limits() && self.world_without_am.is_within_limits()
    }

    /// Takes one tick: `dt` millionths of a second have passed and `trigger`
    /// says whether the trigger was pulled.
    pub fn update(&mut self, dt: u32, trigger: bool)
        requires
            old(self).wf(),
            can_step(old(self)@, trigger),
        ensures
            final(self)@ == game_step(old(self)@, dt as int, trigger),
            final(self).wf(),
    {
        proof {
            lemma_game_step(self@, dt as int, trigger);
        }
        match self.game_phase_global.plan(trigger) {
            TickAction::Reset => {
                self.world_with_am.reset();
                self.world_without_am.reset();
                self.game_phase_global = GamePhase::SetupShot;
            },
            TickAction::Shoot => {
                self.world_with_am.shoot_q_ball();
                self.world_without_am.shoot_q_ball();
                self.game_phase_global = GamePhase::Running;
            },
            TickAction::Advance => {
                self.world_with_am.update(dt);
                self.world_without_am.update(dt);
                let all_stopped_am: bool = self.world_with_am.all_balls_stopped();
                let all_stopped_no_am: bool = self.world_without_am.all_balls_stopped();
                if all_stopped_am && all_stopped_no_am {
                    self.game_phase_global = GamePhase::Initial;
                }
            },
            TickAction::Wait => {},
        }
    }

    /// Takes one tick if it can be taken from the present state, and says
    /// whether it did. A tick that cannot be taken leaves the session as it
    /// is.
    pub fn try_update(&mut self, dt: u32, trigger: bool) -> (done: bool)
        requires
            old(self).wf(),
        ensures
            done == can_step(old(self)@, trigger),
            done ==> final(self)@ == game_step(old(self)@, dt as int, trigger),
            !done ==> final(self)@ == old(self)@,
            final(self).wf(),
    {
        let advances: bool = match self.game_phase_global.plan(trigger) {
            TickAction::Advance => true,
            _ => false,
        };
        if advances && !self.is_within_limits() {
            return false;
        }
        self.update(dt, trigger);
        true
    }
}

} // verus!
