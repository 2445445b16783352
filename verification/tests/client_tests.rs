use pinball::client::{
    hex_channels, next_bot_seed, next_reconnect_delay_ms, ws_url, Colors, RECONNECT_MIN_DELAY_MS,
};

fn reference_delay(current_ms: u32) -> u32 {
    ((current_ms as f32 * 1.5) as u32).min(30_000)
}

#[test]
fn reconnect_delay_grows_by_half_up_to_cap() {
    assert_eq!(next_reconnect_delay_ms(RECONNECT_MIN_DELAY_MS), 1500);
    assert_eq!(next_reconnect_delay_ms(1500), 2250);
    assert_eq!(next_reconnect_delay_ms(2250), 3375);
    assert_eq!(next_reconnect_delay_ms(3375), 5062);
    assert_eq!(next_reconnect_delay_ms(25_000), 30_000);
    assert_eq!(next_reconnect_delay_ms(u32::MAX), 30_000);
}

#[test]
fn reconnect_delay_matches_float_backoff() {
    for ms in 0u32..=40_000 {
        assert_eq!(next_reconnect_delay_ms(ms), reference_delay(ms), "{}", ms);
    }
    for ms in [1u32 << 24, (1 << 24) + 1, 1 << 31, u32::MAX - 1, u32::MAX] {
        assert_eq!(next_reconnect_delay_ms(ms), reference_delay(ms), "{}", ms);
    }
}

#[test]
fn bot_seed_matches_lcg() {
    let mut seed = 1u32;
    for _ in 0..1000 {
        let expected = seed.wrapping_mul(1664525).wrapping_add(1013904223) & 0x7fff_ffff;
        seed = next_bot_seed(seed);
        assert_eq!(seed, expected);
    }
    assert_eq!(next_bot_seed(1), (1664525u32 + 1013904223) & 0x7fff_ffff);
}

#[test]
fn palette_values() {
    assert_eq!(Colors::BALL, 0x4da6a6);
    assert_eq!(Colors::PIN_HIT, 0x44ff88);
    assert_eq!(Colors::DEEP_SPACE_BG, 0x050510);
}

#[test]
fn hex_channels_split_rgb() {
    assert_eq!(hex_channels(0xFF8040), (0xFF, 0x80, 0x40));
    assert_eq!(hex_channels(0x000000), (0, 0, 0));
    assert_eq!(hex_channels(0x12345678), (0x34, 0x56, 0x78));
}

#[test]
fn ws_url_follows_page_location() {
    assert_eq!(ws_url(Some("play.example.com"), Some("https:")), "wss://play.example.com/ws");
    assert_eq!(ws_url(Some("h:8080"), Some("http:")), "ws://h:8080/ws");
    assert_eq!(ws_url(Some(""), Some("https:")), "wss://127.0.0.1:9001/ws");
    assert_eq!(ws_url(None, None), "ws://127.0.0.1:9001/ws");
    assert_eq!(ws_url(Some("x"), Some("https")), "ws://x/ws");
}

#[test]
fn color_from_hex_parses_correctly() {
    let (r, g, b) = hex_channels(0xFF8040);
    let (red, green, blue) = (r as f32 / 255.0, g as f32 / 255.0, b as f32 / 255.0);
    assert!((red - 1.0).abs() < 1e-3);
    assert!((green - 0.502).abs() < 1e-2);
    assert!((blue - 0.251).abs() < 1e-2);
}
