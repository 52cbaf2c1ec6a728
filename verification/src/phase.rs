//! The phases of a shot and the transitions between them.
//!
//! A trigger takes the table from `Initial` or `Running` to `SetupShot`,
//! spotting the balls, and from `SetupShot` to `Running`, shooting the cue
//! ball. A tick without a trigger advances the physics while `Running` and
//! returns to `Initial` once every ball has stopped. There is no other
//! transition and no terminal phase.

use vstd::prelude::*;

verus! {

/// Where in the cycle of a shot the table is.
#[derive(Clone, Copy, PartialEq, Eq, Debug)]
pub enum GamePhase {
    /// Nothing moves; the table waits to be set up.
    Initial,
    /// The balls are spotted; the table waits for the shot.
    SetupShot,
    /// The shot is under way.
    Running,
}

/// What a tick does to the balls.
#[derive(Clone, Copy, PartialEq, Eq, Debug)]
pub enum TickAction {
    /// Put the balls back on their spots.
    Reset,
    /// Shoot the cue ball.
    Shoot,
    /// Advance the physics by the elapsed time.
    Advance,
    /// Leave the balls alone.
    Wait,
}

impl GamePhase {
    /// What a tick in this phase does: a trigger resets or shoots, and takes
    /// the tick for itself; without one, the physics advances while running.
    pub open spec fn action(self, trigger: bool) -> TickAction {
        if trigger {
            match self {
                GamePhase::Initial => TickAction::Reset,
                GamePhase::SetupShot => TickAction::Shoot,
                GamePhase::Running => TickAction::Reset,
            }
        } else {
            match self {
                GamePhase::Running => TickAction::Advance,
                _ => TickAction::Wait,
            }
        }
    }

    /// The phase after a tick that saw `trigger` and, where the physics ran,
    /// left the balls stopped or not.
    pub open spec fn next(self, trigger: bool, all_stopped: bool) -> GamePhase {
        match self.action(trigger) {
            TickAction::Reset => GamePhase::SetupShot,
            TickAction::Shoot => GamePhase::Running,
            TickAction::Advance => if all_stopped {
                GamePhase::Initial
            } else {
                GamePhase::Running
            },
            TickAction::Wait => self,
        }
    }

    /// Whether the table can go from `self` to `to` in one tick.
    pub open spec fn leads_to(self, to: GamePhase) -> bool {
        exists|trigger: bool, all_stopped: bool| self.next(trigger, all_stopped) == to
    }

    /// What a tick in this phase does.
    pub fn plan(self, trigger: bool) -> (action: TickAction)
        ensures
            action == self.action(trigger),
    {
        if trigger {
            match self {
                GamePhase::Initial => TickAction::Reset,
                GamePhase::SetupShot => TickAction::Shoot,
                GamePhase::Running => TickAction::Reset,
            }
        } else {
            match self {
                GamePhase::Running => TickAction::Advance,
                _ => TickAction::Wait,
            }
        }
    }

    /// The phase after a tick.
    pub fn advance(self, trigger: bool, all_stopped: bool) -> (phase: GamePhase)
        ensures
            phase == self.next(trigger, all_stopped),
    {
        match self.plan(trigger) {
            TickAction::Reset => GamePhase::SetupShot,
            TickAction::Shoot => GamePhase::Running,
            TickAction::Advance => if all_stopped {
                GamePhase::Initial
            } else {
                GamePhase::Running
            },
            TickAction::Wait => self,
        }
    }

    /// Whether this is the running phase.
    pub fn is_running(self) -> (running: bool)
        ensures
            running == (self == GamePhase::Running),
    {
        match self {
            GamePhase::Running => true,
            _ => false,
        }
    }
}

/// The cycle closes: from `Initial` a trigger leads to `SetupShot`, a second
/// trigger to `Running`, and a tick without a trigger that leaves every ball
/// stopped leads back to `Initial`.
pub proof fn lemma_phase_cycle()
    ensures
        GamePhase::Initial.next(true, false) == GamePhase::SetupShot,
        GamePhase::Initial.next(true, true) == GamePhase::SetupShot,
        GamePhase::SetupShot.next(true, false) == GamePhase::Running,
        GamePhase::SetupShot.next(true, true) == GamePhase::Running,
        GamePhase::Running.next(false, true) == GamePhase::Initial,
{
}

/// There is no other transition: a tick changes the phase only along the
/// three edges of the cycle or, when a shot is restarted in mid-roll, from
/// `Running` to `SetupShot`. Without a trigger nothing leaves `Initial` or
/// `SetupShot`, and `Running` is left only when every ball has stopped.
pub proof fn lemma_phase_edges(from: GamePhase, trigger: bool, all_stopped: bool)
    ensures
        ({
            let to = from.next(trigger, all_stopped);
            to != from ==> {
                ||| from == GamePhase::Initial && to == GamePhase::SetupShot && trigger
                ||| from == GamePhase::SetupShot && to == GamePhase::Running && trigger
                ||| from == GamePhase::Running && to == GamePhase::SetupShot && trigger
                ||| from == GamePhase::Running && to == GamePhase::Initial && !trigger
                    && all_stopped
            }
        }),
        !trigger && from != GamePhase::Running ==> from.next(trigger, all_stopped) == from,
        !trigger && !all_stopped ==> from.next(trigger, all_stopped) == from,
{
}

/// The reachable transitions, phase by phase: `Initial` leads to itself and
/// `SetupShot`, `SetupShot` to itself and `Running`, and `Running` to all
/// three.
pub proof fn lemma_phase_reachability()
    ensures
        GamePhase::Initial.leads_to(GamePhase::Initial),
        GamePhase::Initial.leads_to(GamePhase::SetupShot),
        !GamePhase::Initial.leads_to(GamePhase::Running),
        GamePhase::SetupShot.leads_to(GamePhase::SetupShot),
        GamePhase::SetupShot.leads_to(GamePhase::Running),
        !GamePhase::SetupShot.leads_to(GamePhase::Initial),
        GamePhase::Running.leads_to(GamePhase::Initial),
        GamePhase::Running.leads_to(GamePhase::SetupShot),
        GamePhase::Running.leads_to(GamePhase::Running),
{
    assert(GamePhase::Initial.next(false, false) == GamePhase::Initial);
    assert(GamePhase::Initial.next(true, false) == GamePhase::SetupShot);
    assert(GamePhase::SetupShot.next(false, false) == GamePhase::SetupShot);
    assert(GamePhase::SetupShot.next(true, false) == GamePhase::Running);
    assert(GamePhase::Running.next(false, true) == GamePhase::Initial);
    assert(GamePhase::Running.next(true, false) == GamePhase::SetupShot);
    assert(GamePhase::Running.next(false, false) == GamePhase::Running);
    assert forall|trigger: bool, all_stopped: bool|
        GamePhase::Initial.next(trigger, all_stopped) != GamePhase::Running by {}
    assert forall|trigger: bool, all_stopped: bool|
        GamePhase::SetupShot.next(trigger, all_stopped) != GamePhase::Initial by {}
}

} // verus!
