use pinball::bot::{BotConfig, BotManager, BotPersonality};
use pinball::player::Player;
use pinball::rng::seeded_rng;
use rand_chacha::ChaCha8Rng;

fn test_rng() -> ChaCha8Rng {
    seeded_rng(42)
}

fn player(id: u32, cell_index: u32, color: u32) -> Player {
    Player {
        id,
        cell_index,
        color,
        paused: false,
        balls_produced: 0,
        is_bot: false,
    }
}

#[test]
fn remove_bot_works() {
    let mut rng = test_rng();
    let mut manager = BotManager::new();

    let player1 = player(1, 0, 0xff0000);
    let player2 = player(2, 1, 0x00ff00);

    manager.add_bot(&player1, &mut rng);
    manager.add_bot(&player2, &mut rng);

    assert_eq!(manager.bot_count(), 2);
    assert!(manager.is_bot(1));
    assert!(manager.is_bot(2));

    manager.remove_bot(1);

    assert_eq!(manager.bot_count(), 1);
    assert!(!manager.is_bot(1));
    assert!(manager.is_bot(2));

    manager.remove_bot(2);

    assert_eq!(manager.bot_count(), 0);
    assert!(!manager.is_bot(2));
}

#[test]
fn remove_nonexistent_bot_is_safe() {
    let mut manager = BotManager::new();
    manager.remove_bot(999);
    assert_eq!(manager.bot_count(), 0);
}

#[test]
fn bot_ids_returns_all_bot_ids() {
    let mut rng = test_rng();
    let mut manager = BotManager::new();

    for id in [5, 10, 15] {
        let p = player(id, 0, 0xff0000);
        manager.add_bot(&p, &mut rng);
    }

    let ids = manager.bot_ids();
    assert_eq!(ids.len(), 3);
    assert!(ids.contains(&5));
    assert!(ids.contains(&10));
    assert!(ids.contains(&15));
}

#[test]
fn index_of_finds_the_bot_seat() {
    let mut rng = test_rng();
    let mut manager = BotManager::new();
    manager.add_bot(&player(1, 0, 0), &mut rng);
    manager.add_bot(&player(7, 1, 0), &mut rng);
    assert_eq!(manager.index_of(7), Some(1));
    assert_eq!(manager.index_of(1), Some(0));
    assert_eq!(manager.index_of(2), None);
    assert!(manager.is_bot(1));
    assert!(!manager.is_bot(2));
}

#[test]
fn personality_follows_draw() {
    assert_eq!(BotPersonality::from_draw(0), BotPersonality::Eager);
    assert_eq!(BotPersonality::from_draw(1), BotPersonality::Relaxed);
    assert_eq!(BotPersonality::from_draw(2), BotPersonality::Chaotic);
}

#[test]
fn random_personalities_cover_all_kinds() {
    let mut rng = test_rng();
    let mut seen = [false; 3];
    for _ in 0..200 {
        match BotPersonality::random(&mut rng) {
            BotPersonality::Eager => seen[0] = true,
            BotPersonality::Relaxed => seen[1] = true,
            BotPersonality::Chaotic => seen[2] = true,
        }
    }
    assert!(seen.iter().all(|s| *s));
}

#[test]
fn bot_config_default() {
    let c = BotConfig::default();
    assert_eq!(c.count, 3);
    assert!(c.send_initial_balls);
}

#[test]
fn bots_freeze_while_no_real_player_is_active() {
    let mut rng = test_rng();
    let mut manager = BotManager::new();
    manager.add_bot(&player(4, 0, 0), &mut rng);
    manager.add_bot(&player(7, 1, 0), &mut rng);
    let running: Vec<u32> = manager.bots_to_tick(true).iter().map(|b| b.player_id).collect();
    assert_eq!(running, vec![4, 7]);
    assert!(manager.bots_to_tick(false).is_empty());
}
