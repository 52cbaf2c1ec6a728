use side_pool::phase::{GamePhase, TickAction};

const PHASES: [GamePhase; 3] = [GamePhase::Initial, GamePhase::SetupShot, GamePhase::Running];

#[test]
fn a_trigger_resets_or_shoots() {
    assert_eq!(GamePhase::Initial.plan(true), TickAction::Reset);
    assert_eq!(GamePhase::SetupShot.plan(true), TickAction::Shoot);
    assert_eq!(GamePhase::Running.plan(true), TickAction::Reset);
}

#[test]
fn without_a_trigger_only_a_running_shot_advances() {
    assert_eq!(GamePhase::Initial.plan(false), TickAction::Wait);
    assert_eq!(GamePhase::SetupShot.plan(false), TickAction::Wait);
    assert_eq!(GamePhase::Running.plan(false), TickAction::Advance);
}

#[test]
fn the_cycle_closes() {
    let set_up = GamePhase::Initial.advance(true, false);
    assert_eq!(set_up, GamePhase::SetupShot);
    let running = set_up.advance(true, false);
    assert_eq!(running, GamePhase::Running);
    assert_eq!(running.advance(false, false), GamePhase::Running);
    assert_eq!(running.advance(false, true), GamePhase::Initial);
}

#[test]
fn a_running_shot_can_be_restarted() {
    assert_eq!(GamePhase::Running.advance(true, false), GamePhase::SetupShot);
    assert_eq!(GamePhase::Running.advance(true, true), GamePhase::SetupShot);
}

#[test]
fn a_trigger_decides_whatever_the_balls_do() {
    for phase in PHASES {
        assert_eq!(phase.advance(true, true), phase.advance(true, false));
    }
}

#[test]
fn waiting_phases_ignore_a_tick_without_a_trigger() {
    for stopped in [false, true] {
        assert_eq!(GamePhase::Initial.advance(false, stopped), GamePhase::Initial);
        assert_eq!(GamePhase::SetupShot.advance(false, stopped), GamePhase::SetupShot);
    }
}

#[test]
fn there_are_exactly_four_edges() {
    let mut edges = Vec::new();
    for from in PHASES {
        for trigger in [false, true] {
            for stopped in [false, true] {
                let to = from.advance(trigger, stopped);
                if to != from && !edges.contains(&(from, to)) {
                    edges.push((from, to));
                }
            }
        }
    }
    assert_eq!(
        edges,
        vec![
            (GamePhase::Initial, GamePhase::SetupShot),
            (GamePhase::SetupShot, GamePhase::Running),
            (GamePhase::Running, GamePhase::Initial),
            (GamePhase::Running, GamePhase::SetupShot),
        ]
    );
}

#[test]
fn only_the_running_phase_runs() {
    assert!(GamePhase::Running.is_running());
    assert!(!GamePhase::Initial.is_running());
    assert!(!GamePhase::SetupShot.is_running());
}
