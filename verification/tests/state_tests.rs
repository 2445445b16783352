use pinball::config::ServerConfig;
use pinball::state::{CaptureRoute, GameState};

fn test_state() -> GameState {
    let server_config = ServerConfig {
        cell_count: 100,
        rng_seed: 12345,
        bot_count: 0,
        ..Default::default()
    };
    GameState::new(&server_config)
}

fn test_state_with_bots(bot_count: usize) -> GameState {
    let server_config = ServerConfig {
        cell_count: 100,
        rng_seed: 12345,
        bot_count,
        ..Default::default()
    };
    GameState::new(&server_config)
}

#[test]
fn balls_produced_starts_at_zero() {
    let mut state = test_state();
    let (_, player) = state.add_player().unwrap();
    assert_eq!(player.balls_produced, 0);
}

#[test]
fn balls_produced_increments_on_escape() {
    let mut state = test_state();
    let (id, _) = state.add_player().unwrap();

    assert_eq!(state.players.get(&id).unwrap().balls_produced, 0);

    state.register_escape(id, 0);
    assert_eq!(state.players.get(&id).unwrap().balls_produced, 1);

    state.register_escape(id, 1);
    assert_eq!(state.players.get(&id).unwrap().balls_produced, 2);

    state.register_escape(id, 2);
    assert_eq!(state.players.get(&id).unwrap().balls_produced, 3);
}

#[test]
fn balls_in_flight_calculated_correctly() {
    let mut state = test_state();
    let (id1, _) = state.add_player().unwrap();
    let (id2, _) = state.add_player().unwrap();

    let players_state = state.players_state(&vec![]);
    for p in &players_state {
        assert_eq!(p.balls_in_flight, 0);
    }

    let mut owners = Vec::new();
    for _ in 0..3 {
        state.register_escape(id1, owners.len());
        owners.push(id1);
    }
    state.register_escape(id2, owners.len());
    owners.push(id2);

    let players_state = state.players_state(&owners);
    let p1 = players_state.iter().find(|p| p.player.id == id1).unwrap();
    let p2 = players_state.iter().find(|p| p.player.id == id2).unwrap();

    assert_eq!(p1.balls_in_flight, 3);
    assert_eq!(p1.player.balls_produced, 3);
    assert_eq!(p2.balls_in_flight, 1);
    assert_eq!(p2.player.balls_produced, 1);
}

#[test]
fn bots_are_created_on_startup() {
    let state = test_state_with_bots(3);

    assert_eq!(state.bots.bot_count(), 3);
    assert_eq!(state.players.len(), 3);

    for player in state.players.values() {
        assert!(state.bots.is_bot(player.id));
    }
}

#[test]
fn global_ball_cap_refuses_escapes() {
    let mut state = GameState::new(&ServerConfig {
        cell_count: 10,
        bot_count: 0,
        max_balls_global: 2,
        ..Default::default()
    });
    let (id, player) = state.add_player().unwrap();
    assert_eq!(state.register_escape(id, 1), Some(player.cell_index));
    assert_eq!(state.register_escape(id, 2), None);
    assert_eq!(state.players.get(&id).unwrap().balls_produced, 1);
    assert_eq!(state.register_escape(999, 0), None);
}

#[test]
fn players_get_distinct_cells_and_ids() {
    let mut state = GameState::new(&ServerConfig {
        cell_count: 5,
        bot_count: 2,
        ..Default::default()
    });
    let (a, pa) = state.add_player().unwrap();
    let (b, pb) = state.add_player().unwrap();
    let (c, pc) = state.add_player().unwrap();
    assert_eq!((a, b, c), (3, 4, 5));
    assert_ne!(pa.cell_index, pb.cell_index);
    assert_ne!(pb.cell_index, pc.cell_index);
    assert_ne!(pa.cell_index, pc.cell_index);
    // the sphere is full now
    assert!(state.add_player().is_none());
    state.remove_player(b);
    let (d, pd) = state.add_player().unwrap();
    assert_eq!(d, 6);
    assert_eq!(pd.cell_index, pb.cell_index);
}

#[test]
fn set_paused_reports_changes() {
    let mut state = test_state();
    let (id, _) = state.add_player().unwrap();
    assert!(!state.set_player_paused(id, false));
    assert!(state.set_player_paused(id, true));
    assert!(state.players.get(&id).unwrap().paused);
    assert!(!state.set_player_paused(id, true));
    assert!(!state.set_player_paused(id + 1, true));
}

#[test]
fn bot_capture_routing_depends_on_activity() {
    let mut state = test_state_with_bots(1);
    let bot_id = state.bots.bot_ids()[0];
    let (real_id, _) = state.add_player().unwrap();
    assert_eq!(state.route_capture(bot_id, true), CaptureRoute::ToBot);
    assert_eq!(state.route_capture(bot_id, false), CaptureRoute::Discard);
    assert_eq!(state.route_capture(real_id, false), CaptureRoute::ToPlayer);
    assert_eq!(state.route_capture(real_id, true), CaptureRoute::ToPlayer);
}

#[test]
fn pending_flush_only_on_reactivation() {
    let mut state = test_state();
    assert!(!state.update_activity(false));
    assert!(state.update_activity(true));
    assert!(!state.update_activity(true));
    assert!(!state.update_activity(false));
    assert!(state.update_activity(true));
}

#[test]
fn removing_a_player_frees_its_cell() {
    let mut state = test_state();
    let before = state.placement.available_count();
    let (id, _) = state.add_player().unwrap();
    assert_eq!(state.placement.available_count(), before - 1);
    state.remove_player(id);
    assert_eq!(state.placement.available_count(), before);
    assert!(state.players.get(&id).is_none());
    // removing again is harmless
    state.remove_player(id);
    assert_eq!(state.placement.available_count(), before);
}

#[test]
fn new_player_gets_color_from_id() {
    let mut state = test_state();
    let (id, p) = state.add_player().unwrap();
    assert_eq!(p.color, pinball::player::color_from_id(id));
    assert!(!p.paused);
    assert!(!p.is_bot);
}

#[test]
fn every_cell_is_free_or_held() {
    let server_config = ServerConfig {
        cell_count: 10,
        rng_seed: 7,
        bot_count: 3,
        ..Default::default()
    };
    let mut state = GameState::new(&server_config);
    let (a, _) = state.add_player().unwrap();
    let (_b, _) = state.add_player().unwrap();
    state.remove_player(a);
    let held: std::collections::HashSet<u32> =
        state.players.values().map(|p| p.cell_index).collect();
    assert_eq!(held.len(), state.players.len());
    assert_eq!(state.placement.available_count() + state.players.len(), 10);
    while state.add_player().is_some() {}
    assert_eq!(state.players.len(), 10);
    assert_eq!(state.placement.available_count(), 0);
}

#[test]
fn startup_bots_are_fresh_and_seated_in_order() {
    let state = test_state_with_bots(3);
    assert_eq!(state.placement.available_count(), 97);
    assert_eq!(state.bots.bot_ids(), vec![1, 2, 3]);
    for p in state.players.values() {
        assert!(p.is_bot);
        assert!(!p.paused);
        assert_eq!(p.balls_produced, 0);
        assert_eq!(p.color, pinball::player::color_from_id(p.id));
    }
}

#[test]
fn startup_bots_draw_like_bots_seated_one_by_one() {
    let a = test_state_with_bots(3);
    let mut b = test_state_with_bots(0);
    for _ in 0..3 {
        b.add_bot();
    }
    assert_eq!(a.bots.bots, b.bots.bots);
    assert_eq!(a.players, b.players);
}

#[test]
fn captures_split_by_route_in_order() {
    let mut state = test_state_with_bots(2);
    let (real, _) = state.add_player().unwrap();
    let ids = vec![1, real, 2, 99, real];
    let (to_players, to_bots) = state.split_captures(&ids, true);
    assert_eq!(to_players, vec![1, 3, 4]);
    assert_eq!(to_bots, vec![0, 2]);
    let (to_players, to_bots) = state.split_captures(&ids, false);
    assert_eq!(to_players, vec![1, 3, 4]);
    assert!(to_bots.is_empty());
}
