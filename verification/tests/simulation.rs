use sneky_fox::entities::{Bone, Fox, LiveState, Mail, Mailbox, Pug, PugState};
use sneky_fox::geom::{resolve_input, Direction, Pos};
use sneky_fox::level::Level;
use sneky_fox::pug_ai::step_pug;
use sneky_fox::world::{GameState, GameWorld, Input, LoadRequest};

fn floor_level(width: u32, height: u32) -> Level {
    Level::new(
        width,
        height,
        vec![1; (width * height) as usize],
        "test".to_string(),
        None,
    )
}

/// A running world on an all-floor grid with the mail and mailbox parked in
/// the far corner, out of the way unless a test moves the fox there.
fn running_world(width: u32, height: u32) -> GameWorld {
    GameWorld {
        game_state: GameState::Running,
        fox: Fox::new(0, 0, Direction::South),
        mailbox: Mailbox::new(width - 1, height - 1),
        level: floor_level(width, height),
        mail: Mail::new(width - 2, height - 1),
        pugs: Vec::new(),
        bones: Vec::new(),
        time: 0,
    }
}

fn dir_input(dx: i32, dy: i32) -> Input {
    Input {
        left: dx == -1,
        right: dx == 1,
        up: dy == -1,
        down: dy == 1,
        confirm: false,
        lost_sound_playing: false,
    }
}

fn idle() -> Input {
    Input {
        left: false,
        right: false,
        up: false,
        down: false,
        confirm: false,
        lost_sound_playing: false,
    }
}

#[test]
fn input_resolution_cancels_combined_presses() {
    assert_eq!(resolve_input(true, false, false, false), (-1, 0));
    assert_eq!(resolve_input(false, true, false, false), (1, 0));
    assert_eq!(resolve_input(false, false, true, false), (0, -1));
    assert_eq!(resolve_input(false, false, false, true), (0, 1));
    assert_eq!(resolve_input(true, true, false, false), (0, 0));
    assert_eq!(resolve_input(true, false, true, false), (0, 0));
    assert_eq!(resolve_input(true, true, true, true), (0, 0));
    assert_eq!(resolve_input(false, false, false, false), (0, 0));
}

#[test]
fn fox_move_into_missing_tile_is_a_no_op() {
    // A 2x1 strip whose right cell has no tile: moving right changes
    // nothing, not even the facing.
    let mut w = running_world(3, 1);
    w.level = Level::new(3, 1, vec![1, 0, 1], "test".to_string(), None);
    w.fox.dir = Direction::North;
    let out = w.update(dir_input(1, 0), 16);
    assert_eq!(w.fox.pos, Pos { x: 0, y: 0 });
    assert_eq!(w.fox.dir, Direction::North);
    assert!(!out.sounds.fox_move);
    assert_eq!(w.game_state, GameState::Running);
}

#[test]
fn fox_move_off_grid_is_rejected() {
    let mut w = running_world(3, 4);
    let out = w.update(dir_input(-1, 0), 16);
    assert_eq!(w.fox.pos, Pos { x: 0, y: 0 });
    assert!(!out.sounds.fox_move);
    let out = w.update(dir_input(0, -1), 16);
    assert_eq!(w.fox.pos, Pos { x: 0, y: 0 });
    assert!(!out.sounds.fox_move);
}

#[test]
fn fox_walk_sequence_on_3x4_grid() {
    let mut w = running_world(3, 4);
    let steps = [
        ((1, 0), Pos { x: 1, y: 0 }),
        ((0, 1), Pos { x: 1, y: 1 }),
        ((0, 1), Pos { x: 1, y: 2 }),
        ((1, 0), Pos { x: 2, y: 2 }),
    ];
    for ((dx, dy), expected) in steps {
        let out = w.update(dir_input(dx, dy), 16);
        assert!(out.sounds.fox_move);
        assert_eq!(w.fox.pos, expected);
    }
    // One more step to the right would leave the grid: rejected, position
    // unchanged.
    let out = w.update(dir_input(1, 0), 16);
    assert!(!out.sounds.fox_move);
    assert_eq!(w.fox.pos, Pos { x: 2, y: 2 });
}

#[test]
fn fox_updates_facing_on_successful_move() {
    let mut w = running_world(3, 3);
    w.update(dir_input(0, 1), 16);
    assert_eq!(w.fox.dir, Direction::South);
    w.update(dir_input(1, 0), 16);
    assert_eq!(w.fox.dir, Direction::East);
    w.update(dir_input(0, -1), 16);
    assert_eq!(w.fox.dir, Direction::North);
    w.update(dir_input(-1, 0), 16);
    assert_eq!(w.fox.dir, Direction::West);
}

#[test]
fn bone_throw_surprises_adjacent_pugs_only() {
    // P4 at the signal itself: alive pugs within the eight neighbors of the
    // landing cell flip to Suprised; a far pug and a dead pug do not.
    let l = floor_level(5, 5);
    let mut pugs = vec![
        Pug::new(0, 0, Direction::South),
        Pug::new(2, 2, Direction::South),
        Pug::new(4, 4, Direction::South),
        Pug::new(1, 2, Direction::South),
    ];
    pugs[3].live_state = LiveState::Dead(0);
    let bone_pos = Pos { x: 1, y: 1 };
    l.apply_bone_to_pugs(&mut pugs, bone_pos);
    assert_eq!(pugs[0].state, PugState::Suprised(bone_pos));
    assert_eq!(pugs[1].state, PugState::Suprised(bone_pos));
    assert_eq!(pugs[2].state, PugState::Guarding);
    assert_eq!(pugs[3].state, PugState::Guarding);
}

#[test]
fn alerted_pug_at_bone_reverts_to_guarding() {
    // P5: Alerted(target, bone) with target == bone goes back to Guarding
    // on the next fox-move tick, stepping onto the bone cell.
    let l = floor_level(3, 3);
    let mut pug = Pug::new(1, 0, Direction::South);
    pug.state = PugState::Alerted(Pos { x: 1, y: 1 }, Pos { x: 1, y: 1 });
    let killed = step_pug(&mut pug, &l, Pos { x: 0, y: 0 }, true, 16);
    assert!(!killed);
    assert_eq!(pug.state, PugState::Guarding);
    assert_eq!(pug.pos, Pos { x: 1, y: 1 });
}

#[test]
fn alerted_pug_does_not_advance_without_fox_move() {
    let l = floor_level(3, 3);
    let mut pug = Pug::new(1, 0, Direction::South);
    pug.state = PugState::Alerted(Pos { x: 1, y: 1 }, Pos { x: 1, y: 1 });
    let before = pug;
    let killed = step_pug(&mut pug, &l, Pos { x: 0, y: 0 }, false, 16);
    assert!(!killed);
    assert_eq!(pug, before);
}

#[test]
fn surprised_pug_chases_bone_and_settles() {
    // A pug watching toward the bone becomes alerted, then walks to the
    // bone over the following fox-move ticks and guards it.
    let l = floor_level(5, 3);
    let fox = Pos { x: 4, y: 2 };
    let mut pug = Pug::new(3, 1, Direction::West);
    pug.state = PugState::Suprised(Pos { x: 1, y: 1 });
    step_pug(&mut pug, &l, fox, false, 16);
    assert_eq!(
        pug.state,
        PugState::Alerted(Pos { x: 2, y: 1 }, Pos { x: 1, y: 1 })
    );
    step_pug(&mut pug, &l, fox, true, 16);
    assert_eq!(pug.pos, Pos { x: 2, y: 1 });
    assert_eq!(
        pug.state,
        PugState::Alerted(Pos { x: 1, y: 1 }, Pos { x: 1, y: 1 })
    );
    step_pug(&mut pug, &l, fox, true, 16);
    assert_eq!(pug.pos, Pos { x: 1, y: 1 });
    assert_eq!(pug.state, PugState::Guarding);
}

#[test]
fn surprised_pug_refaces_toward_shared_neighbor() {
    // The pug does not watch the bone, but one of its own cardinal
    // neighbors touches the bone's cell: it turns there and is alerted.
    let l = floor_level(4, 4);
    let mut pug = Pug::new(2, 1, Direction::East);
    pug.state = PugState::Suprised(Pos { x: 2, y: 3 });
    step_pug(&mut pug, &l, Pos { x: 0, y: 0 }, false, 16);
    assert_eq!(
        pug.state,
        PugState::Alerted(Pos { x: 2, y: 2 }, Pos { x: 2, y: 3 })
    );
    assert_eq!(pug.dir, Direction::South);
}

#[test]
fn surprised_pug_without_nearby_bone_reverts() {
    let l = floor_level(7, 3);
    let mut pug = Pug::new(5, 2, Direction::North);
    pug.state = PugState::Suprised(Pos { x: 0, y: 0 });
    step_pug(&mut pug, &l, Pos { x: 6, y: 2 }, false, 16);
    assert_eq!(pug.state, PugState::Guarding);
}

#[test]
fn finished_dead_pug_is_removed_on_next_update() {
    // P6: a pug whose dead-timer has reached one second is gone after the
    // next running tick; a fresher corpse stays and keeps counting.
    let mut w = running_world(4, 4);
    let mut old_pug = Pug::new(3, 0, Direction::South);
    old_pug.live_state = LiveState::Dead(1000);
    let mut fresh_pug = Pug::new(3, 1, Direction::South);
    fresh_pug.live_state = LiveState::Dead(500);
    w.pugs = vec![old_pug, fresh_pug];
    w.update(idle(), 10);
    assert_eq!(w.pugs.len(), 1);
    assert_eq!(w.pugs[0].pos, Pos { x: 3, y: 1 });
    assert_eq!(w.pugs[0].live_state, LiveState::Dead(510));
}

#[test]
fn dead_timer_crossing_threshold_removes_pug() {
    let mut w = running_world(4, 4);
    let mut pug = Pug::new(3, 0, Direction::South);
    pug.live_state = LiveState::Dead(995);
    w.pugs = vec![pug];
    w.update(idle(), 5);
    assert!(w.pugs.is_empty());
}

#[test]
fn mail_pickup_sets_flag_and_keeps_it() {
    // P8: stepping onto the mail raises has_mail once; it stays raised
    // through later unrelated moves and the cue does not repeat.
    let mut w = running_world(4, 4);
    w.mail = Mail::new(1, 0);
    assert!(!w.fox.has_mail);
    let out = w.update(dir_input(1, 0), 16);
    assert!(w.fox.has_mail);
    assert!(out.sounds.got_mail);
    let out = w.update(dir_input(1, 0), 16);
    assert!(w.fox.has_mail);
    assert!(!out.sounds.got_mail);
    let out = w.update(dir_input(0, 1), 16);
    assert!(w.fox.has_mail);
    assert!(!out.sounds.got_mail);
}

#[test]
fn mailbox_without_mail_does_not_win() {
    // P9: reaching the mailbox empty-handed leaves the game running.
    let mut w = running_world(3, 1);
    w.mailbox = Mailbox::new(1, 0);
    w.mail = Mail::new(2, 0);
    let out = w.update(dir_input(1, 0), 16);
    assert_eq!(w.fox.pos, Pos { x: 1, y: 0 });
    assert!(!w.fox.has_mail);
    assert_eq!(w.game_state, GameState::Running);
    assert!(!out.sounds.won_level);
}

#[test]
fn delivering_mail_wins_the_level() {
    let mut w = running_world(3, 1);
    w.mail = Mail::new(1, 0);
    w.mailbox = Mailbox::new(2, 0);
    w.update(dir_input(1, 0), 16);
    assert!(w.fox.has_mail);
    let out = w.update(dir_input(1, 0), 16);
    assert_eq!(w.game_state, GameState::Won);
    assert!(out.sounds.won_level);
}

#[test]
fn guarding_pug_kills_fox_entering_watched_tile() {
    // P10: a guarding pug facing south watches the tile below it; the fox
    // stepping onto that tile dies with a zero dead-timer and the game is
    // over on the same tick.
    let mut w = running_world(3, 3);
    let pug = Pug::new(1, 0, Direction::South);
    w.pugs = vec![pug];
    w.fox.pos = Pos { x: 0, y: 1 };
    w.time = 5000;
    let out = w.update(dir_input(1, 0), 16);
    assert_eq!(w.fox.state, LiveState::Dead(0));
    assert_eq!(w.game_state, GameState::GameOver);
    assert!(out.sounds.bark);
    assert_eq!(w.pugs[0].pos, Pos { x: 1, y: 1 });
    assert_eq!(w.time, 0);
}

#[test]
fn guarding_pug_ignores_fox_beside_watched_tile() {
    let mut w = running_world(3, 3);
    w.pugs = vec![Pug::new(1, 0, Direction::South)];
    w.fox.pos = Pos { x: 0, y: 2 };
    let out = w.update(dir_input(1, 0), 16);
    assert_eq!(w.fox.pos, Pos { x: 1, y: 2 });
    assert_eq!(w.fox.state, LiveState::Alive);
    assert_eq!(w.game_state, GameState::Running);
    assert!(!out.sounds.bark);
}

#[test]
fn fox_kills_pug_by_moving_onto_it() {
    let mut w = running_world(3, 1);
    w.pugs = vec![Pug::new(1, 0, Direction::North)];
    let out = w.update(dir_input(1, 0), 16);
    assert_eq!(w.fox.pos, Pos { x: 1, y: 0 });
    assert_eq!(w.pugs[0].live_state, LiveState::Dead(16));
    assert!(out.sounds.lost_level);
}

#[test]
fn lost_cue_not_retriggered_while_playing() {
    let mut w = running_world(3, 1);
    w.pugs = vec![Pug::new(1, 0, Direction::North)];
    let mut input = dir_input(1, 0);
    input.lost_sound_playing = true;
    let out = w.update(input, 16);
    assert_eq!(w.pugs[0].live_state, LiveState::Dead(16));
    assert!(!out.sounds.lost_level);
}

#[test]
fn bone_pickup_selects_and_blocks_movement() {
    let mut w = running_world(4, 1);
    w.bones = vec![Bone::new(1, 0)];
    w.update(dir_input(1, 0), 16);
    assert_eq!(w.fox.pos, Pos { x: 1, y: 0 });
    // The fox now stands on the bone: the next tick selects it and eats
    // the movement.
    let out = w.update(dir_input(1, 0), 16);
    assert!(w.bones[0].is_selected());
    assert_eq!(w.fox.pos, Pos { x: 1, y: 0 });
    assert!(!out.sounds.fox_move);
}

#[test]
fn selected_bone_is_thrown_and_surprises_pug() {
    let mut w = running_world(4, 3);
    let mut bone = Bone::new(1, 1);
    bone.is_selected = true;
    w.bones = vec![bone];
    w.fox.pos = Pos { x: 1, y: 1 };
    w.pugs = vec![Pug::new(3, 1, Direction::West)];
    let out = w.update(dir_input(1, 0), 0);
    let b = &w.bones[0];
    assert_eq!(b.pos, Pos { x: 2, y: 1 });
    assert!(b.is_used());
    assert!(!b.is_selected());
    assert_eq!(b.disappearing_time, 500);
    // The throw consumed the tick: the fox stayed put.
    assert_eq!(w.fox.pos, Pos { x: 1, y: 1 });
    assert!(!out.sounds.fox_move);
    // The pug next to the landing cell was surprised, watched the landing
    // cell, and is already alerted to it on the same tick.
    assert_eq!(
        w.pugs[0].state,
        PugState::Alerted(Pos { x: 2, y: 1 }, Pos { x: 2, y: 1 })
    );
}

#[test]
fn bone_throw_into_missing_tile_keeps_selection() {
    let mut w = running_world(2, 1);
    let mut bone = Bone::new(0, 0);
    bone.is_selected = true;
    w.bones = vec![bone];
    // Left of the bone is off the grid: the throw is a no-op and the fox,
    // standing on the selected bone, stays put.
    let out = w.update(dir_input(-1, 0), 16);
    let b = &w.bones[0];
    assert_eq!(b.pos, Pos { x: 0, y: 0 });
    assert!(b.is_selected());
    assert!(!b.is_used());
    assert_eq!(w.fox.pos, Pos { x: 0, y: 0 });
    assert!(!out.sounds.fox_move);
}

#[test]
fn thrown_bone_blinks_and_disappears() {
    let mut w = running_world(5, 1);
    let mut bone = Bone::new(2, 0);
    bone.is_selected = true;
    w.bones = vec![bone];
    w.fox.pos = Pos { x: 2, y: 0 };
    // Throw with no elapsed time: the countdown stays at 500, and 50
    // rounded centiseconds is a visible phase.
    w.update(dir_input(1, 0), 0);
    assert_eq!(w.bones[0].disappearing_time, 500);
    assert!(w.bones[0].is_visible());
    // 450: 45 rounded centiseconds is an invisible phase.
    w.update(idle(), 50);
    assert_eq!(w.bones[0].disappearing_time, 450);
    assert!(!w.bones[0].is_visible());
    // 400: visible again.
    w.update(idle(), 50);
    assert_eq!(w.bones[0].disappearing_time, 400);
    assert!(w.bones[0].is_visible());
    // The countdown bottoms out: permanently invisible.
    w.update(idle(), 400);
    assert_eq!(w.bones[0].disappearing_time, 0);
    assert!(!w.bones[0].is_visible());
    w.update(idle(), 16);
    assert!(!w.bones[0].is_visible());
    assert!(w.bones[0].is_used());
}

#[test]
fn level_time_accumulates_while_running() {
    let mut w = running_world(3, 3);
    w.update(idle(), 16);
    w.update(idle(), 20);
    assert_eq!(w.time, 36);
}

#[test]
fn game_over_restart_requests_same_level() {
    let mut w = running_world(3, 3);
    w.game_state = GameState::GameOver;
    w.fox.state = LiveState::Dead(100);
    // Without a confirm press the dead-timer keeps counting.
    let out = w.update(idle(), 50);
    assert_eq!(w.fox.state, LiveState::Dead(150));
    assert!(out.load.is_none());
    // Confirm: back to running, and the caller is asked to reload the
    // same level.
    let mut input = idle();
    input.confirm = true;
    let out = w.update(input, 16);
    assert_eq!(w.game_state, GameState::Running);
    assert_eq!(out.load, Some(LoadRequest::Level("test".to_string())));
}

#[test]
fn fox_starting_on_mail_picks_it_up_without_moving() {
    let mut w = running_world(3, 3);
    w.mail = Mail::new(0, 0);
    let out = w.update(idle(), 16);
    assert!(w.fox.has_mail);
    assert!(out.sounds.got_mail);
}

#[test]
fn dead_timer_saturates_at_the_limit() {
    let mut w = running_world(3, 3);
    w.game_state = GameState::GameOver;
    w.fox.state = LiveState::Dead(u32::MAX - 5);
    w.update(idle(), 100);
    assert_eq!(w.fox.state, LiveState::Dead(u32::MAX));
}

#[test]
fn won_advances_to_next_level_or_credits() {
    let mut confirm = idle();
    confirm.confirm = true;

    let mut w = running_world(3, 3);
    w.level = Level::new(
        3,
        3,
        vec![1; 9],
        "test".to_string(),
        Some("stage_two".to_string()),
    );
    w.game_state = GameState::Won;
    let out = w.update(confirm, 16);
    assert_eq!(w.game_state, GameState::Running);
    assert_eq!(out.load, Some(LoadRequest::Level("stage_two".to_string())));

    let mut w = running_world(3, 3);
    w.game_state = GameState::Won;
    let out = w.update(confirm, 16);
    assert_eq!(w.game_state, GameState::Credits);
    assert_eq!(out.load, Some(LoadRequest::StartLevel));
}

#[test]
fn menu_lifecycle_transitions() {
    let mut confirm = idle();
    confirm.confirm = true;

    let mut w = running_world(3, 3);
    w.game_state = GameState::StartMenu;
    let out = w.update(idle(), 16);
    assert_eq!(w.game_state, GameState::StartMenu);
    assert!(out.load.is_none());
    w.update(confirm, 16);
    assert_eq!(w.game_state, GameState::Running);

    w.game_state = GameState::Credits;
    w.update(confirm, 16);
    assert_eq!(w.game_state, GameState::StartMenu);
}
