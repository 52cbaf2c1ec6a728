use side_pool::ball::{Ball, BallColor, Vec2};
use side_pool::game::SidePoolGame;
use side_pool::phase::GamePhase;
use side_pool::world::TableError;

const TICK: u32 = 16_667;

fn session() -> SidePoolGame {
    SidePoolGame::new(1_200_000_000).unwrap()
}

fn running() -> SidePoolGame {
    let mut game = session();
    game.update(TICK, true);
    game.update(TICK, true);
    game
}

fn state(ball: &Ball) -> (i64, i64, i64, i64, i64, bool, bool) {
    (
        ball.position.x,
        ball.position.y,
        ball.linear_velocity.x,
        ball.angular_velocity,
        ball.angle,
        ball.active,
        ball.is_slipping,
    )
}

#[test]
fn a_new_session_splits_the_screen() {
    let game = session();
    assert_eq!(game.phase(), GamePhase::Initial);
    assert_eq!(game.world_with_am().screen_x_offset, 0);
    assert_eq!(game.world_without_am().screen_x_offset, 600_000_000);
    assert_eq!(game.world_with_am().screen_view_width, 600_000_000);
    assert_eq!(game.world_without_am().screen_view_width, 600_000_000);
    assert_eq!(game.world_with_am().playable_table_width, 540_000_000);
    assert_eq!(game.world_without_am().playable_table_width, 540_000_000);
    assert!(game.world_with_am().balls.iter().all(|ball| ball.has_angular_momentum));
    assert!(game.world_without_am().balls.iter().all(|ball| !ball.has_angular_momentum));
    assert!(game.is_within_limits());
}

#[test]
fn an_odd_screen_width_is_halved_toward_zero() {
    let game = SidePoolGame::new(1_200_000_001).unwrap();
    assert_eq!(game.world_with_am().screen_view_width, 600_000_000);
    assert_eq!(game.world_without_am().screen_x_offset, 600_000_000);
}

#[test]
fn a_screen_without_room_for_two_tables_is_rejected() {
    assert_eq!(SidePoolGame::new(3).err(), Some(TableError::ViewTooNarrow));
    assert_eq!(SidePoolGame::new(0).err(), Some(TableError::ViewTooNarrow));
    assert_eq!(SidePoolGame::new(-7).err(), Some(TableError::ViewTooNarrow));
    assert_eq!(SidePoolGame::new(2_000_000_000_002).err(), Some(TableError::ViewTooWide));
    assert_eq!(SidePoolGame::new(i64::MAX).err(), Some(TableError::ViewTooWide));
    assert!(SidePoolGame::new(2_000_000_000_001).is_ok());
    assert!(SidePoolGame::new(4).is_ok());
}

#[test]
fn nothing_happens_until_the_trigger_is_pulled() {
    let mut game = session();
    let fresh = game.clone();
    for _ in 0..10 {
        game.update(TICK, false);
    }
    assert_eq!(game, fresh);
}

#[test]
fn the_first_trigger_sets_up_and_the_second_shoots() {
    let mut game = session();
    game.update(TICK, true);
    assert_eq!(game.phase(), GamePhase::SetupShot);
    assert_eq!(game.world_with_am().game_phase, GamePhase::Initial);
    assert_eq!(game.world_without_am().game_phase, GamePhase::Initial);
    let set_up = game.clone();
    game.update(TICK, false);
    assert_eq!(game, set_up);
    game.update(TICK, true);
    assert_eq!(game.phase(), GamePhase::Running);
    assert_eq!(game.world_with_am().game_phase, GamePhase::Running);
    assert_eq!(game.world_without_am().game_phase, GamePhase::Running);
    for world in [game.world_with_am(), game.world_without_am()] {
        assert_eq!(world.balls[0].linear_velocity, Vec2 { x: 150_000_000, y: 0 });
        assert_eq!(world.balls[0].position, Vec2 { x: 54_000_000, y: 290_000_000 });
        assert_eq!(world.balls[1].linear_velocity, Vec2 { x: 0, y: 0 });
    }
}

#[test]
fn a_trigger_takes_the_tick_for_itself() {
    let mut game = running();
    let shot = game.clone();
    game.update(TICK, false);
    assert_ne!(game, shot);
    assert_eq!(game.world_with_am().balls[0].position.x, 56_494_599);
    game.update(TICK, true);
    assert_eq!(game.phase(), GamePhase::SetupShot);
    for world in [game.world_with_am(), game.world_without_am()] {
        assert_eq!(world.balls[0].position, Vec2 { x: 54_000_000, y: 290_000_000 });
        assert_eq!(world.balls[0].linear_velocity, Vec2 { x: 0, y: 0 });
        assert_eq!(world.balls[0].angular_velocity, 0);
        assert_eq!(world.balls[0].angle, 0);
        assert!(!world.balls[0].is_slipping);
    }
}

#[test]
fn the_two_tables_differ_only_by_the_spin() {
    let mut game = running();
    game.update(TICK, false);
    assert_eq!(
        state(&game.world_with_am().balls[0]),
        (56_494_599, 290_000_000, 149_672_994, 81_751, 1_362, true, true)
    );
    assert_eq!(
        state(&game.world_without_am().balls[0]),
        (56_494_599, 290_000_000, 149_672_994, 0, 0, true, true)
    );
    for _ in 0..99 {
        game.update(TICK, false);
    }
    assert_eq!(
        state(&game.world_with_am().balls[0]),
        (276_481_394, 290_000_000, 117_299_400, 8_175_100, 597_612, true, true)
    );
    assert_eq!(
        state(&game.world_without_am().balls[0]),
        (276_481_394, 290_000_000, 117_299_400, 0, 0, true, true)
    );
}

#[test]
fn a_shot_runs_until_every_ball_on_both_tables_has_stopped() {
    let mut game = running();
    let mut ticks = 0;
    let mut pocketed_at = Vec::new();
    while game.phase() == GamePhase::Running {
        let before = [
            game.world_with_am().balls[0].active,
            game.world_with_am().balls[1].active,
            game.world_without_am().balls[0].active,
            game.world_without_am().balls[1].active,
        ];
        game.update(TICK, false);
        ticks += 1;
        let after = [
            game.world_with_am().balls[0].active,
            game.world_with_am().balls[1].active,
            game.world_without_am().balls[0].active,
            game.world_without_am().balls[1].active,
        ];
        for ball in 0..4 {
            assert!(before[ball] || !after[ball]);
        }
        if before != after {
            pocketed_at.push((ticks, after));
        }
        assert!(ticks <= 465);
    }
    assert_eq!(ticks, 465);
    assert_eq!(game.phase(), GamePhase::Initial);
    assert_eq!(
        pocketed_at,
        vec![
            (234, [true, false, true, true]),
            (253, [true, false, true, false]),
            (465, [false, false, true, false]),
        ]
    );
    assert_eq!(
        state(&game.world_with_am().balls[0]),
        (525_597_827, 415_000_000, 0, 0, 6_085_410, false, false)
    );
    assert_eq!(
        state(&game.world_with_am().balls[1]),
        (526_551_184, 415_000_000, 0, 0, 1_680_813, false, true)
    );
    assert_eq!(
        state(&game.world_without_am().balls[0]),
        (467_671_054, 290_000_000, 0, 0, 0, true, false)
    );
    assert_eq!(
        state(&game.world_without_am().balls[1]),
        (526_357_683, 415_000_000, 0, 0, 0, false, true)
    );
    let ended = game.clone();
    game.update(TICK, false);
    assert_eq!(game, ended);
}

#[test]
fn the_cycle_starts_again_after_a_shot() {
    let mut game = running();
    while game.phase() == GamePhase::Running {
        game.update(TICK, false);
    }
    game.update(TICK, true);
    assert_eq!(game.phase(), GamePhase::SetupShot);
    let fresh = {
        let mut other = session();
        other.update(TICK, true);
        other
    };
    assert_eq!(game, fresh);
    game.update(TICK, true);
    assert_eq!(game.phase(), GamePhase::Running);
    assert_eq!(game.world_with_am().balls[0].linear_velocity.x, 150_000_000);
    assert_eq!(
        game.world_with_am().balls[1],
        Ball::new(Vec2::new(486_000_000, 290_000_000), BallColor::Purple, false, true)
    );
}

#[test]
fn the_same_inputs_give_the_same_run() {
    let inputs = [
        (TICK, true),
        (TICK, true),
        (16_000, false),
        (33_334, false),
        (TICK, false),
        (1_000_000, false),
        (TICK, true),
        (TICK, true),
        (250_000, false),
    ];
    let mut first = session();
    let mut second = session();
    for (dt, trigger) in inputs {
        first.update(dt, trigger);
    }
    for (dt, trigger) in inputs {
        assert!(second.try_update(dt, trigger));
    }
    assert_eq!(first, second);
}

#[test]
fn a_checked_tick_is_a_tick() {
    let mut plain = running();
    let mut checked = running();
    for _ in 0..600 {
        plain.update(TICK, false);
        assert!(checked.is_within_limits());
        assert!(checked.try_update(TICK, false));
        assert_eq!(checked, plain);
    }
    assert_eq!(checked.phase(), GamePhase::Initial);
    assert!(checked.try_update(TICK, true));
    assert_eq!(checked.phase(), GamePhase::SetupShot);
}

#[test]
fn even_the_longest_ticks_keep_the_session_going() {
    let mut game = running();
    for _ in 0..5 {
        assert!(game.try_update(u32::MAX, false));
    }
    assert!(game.is_within_limits());
    assert_eq!(game.phase(), GamePhase::Initial);
}
