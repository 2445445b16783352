use pinball::deep_space::{may_capture, owner_color, BallIds};
use pinball::game_loop::BroadcastSchedule;
use pinball::player::Player;

#[test]
fn space_state_every_sixth_tick_at_default_rates() {
    let mut s = BroadcastSchedule::new(60, 10);
    assert_eq!(s.broadcast_every_n, 6);
    assert_eq!(s.players_every_n, 30);
    let mut space_ticks = Vec::new();
    let mut player_ticks = Vec::new();
    for t in 1..=60u64 {
        let b = s.on_tick();
        if b.space_state {
            space_ticks.push(t);
        }
        if b.players_state {
            player_ticks.push(t);
        }
    }
    assert_eq!(space_ticks, vec![6, 12, 18, 24, 30, 36, 42, 48, 54, 60]);
    assert_eq!(player_ticks, vec![30, 60]);
}

#[test]
fn dirty_players_go_out_next_tick() {
    let mut s = BroadcastSchedule::new(60, 10);
    s.on_tick();
    s.mark_players_dirty();
    let b = s.on_tick();
    assert!(b.players_state);
    assert!(!s.players_dirty);
    assert!(!s.on_tick().players_state);
}

#[test]
fn slow_tick_rates_broadcast_every_tick() {
    let mut s = BroadcastSchedule::new(1, 10);
    assert_eq!(s.broadcast_every_n, 1);
    assert_eq!(s.players_every_n, 1);
    assert!(s.on_tick().space_state);
}

fn player(id: u32, color: u32, paused: bool, is_bot: bool) -> Player {
    Player {
        id,
        cell_index: id,
        color,
        paused,
        balls_produced: 0,
        is_bot,
    }
}

#[test]
fn capture_eligibility() {
    assert!(may_capture(&player(1, 0, false, false), 1));
    assert!(may_capture(&player(1, 0, false, false), 2));
    assert!(!may_capture(&player(1, 0, true, false), 2));
    assert!(!may_capture(&player(1, 0, false, true), 1));
    assert!(may_capture(&player(1, 0, false, true), 2));
}

#[test]
fn captured_ball_color_comes_from_owner() {
    let players = vec![player(1, 0xff0000, false, false), player(2, 0x00ff00, false, false)];
    assert_eq!(owner_color(&players, 2), 0x00ff00);
    assert_eq!(owner_color(&players, 3), 0xffffff);
}

#[test]
fn ball_ids_count_up_and_wrap() {
    let mut ids = BallIds::new();
    assert_eq!(ids.allocate(), 1);
    assert_eq!(ids.allocate(), 2);
    let mut ids = BallIds { next_ball_id: u32::MAX };
    assert_eq!(ids.allocate(), u32::MAX);
    assert_eq!(ids.allocate(), 0);
}
