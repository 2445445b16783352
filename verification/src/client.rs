use vstd::prelude::*;

verus! {

/// Delay before the first reconnection attempt, in milliseconds.
pub const RECONNECT_MIN_DELAY_MS: u32 = 1_000;

/// Longest delay between reconnection attempts, in milliseconds.
pub const RECONNECT_MAX_DELAY_MS: u32 = 30_000;

/// The delay after `current_ms`: half again as long, truncated to whole
/// milliseconds, and never above `RECONNECT_MAX_DELAY_MS`.
pub open spec fn spec_next_reconnect_delay(current_ms: u32) -> int {
    let grown = current_ms as int * 3 / 2;
    if grown < RECONNECT_MAX_DELAY_MS { grown } else { RECONNECT_MAX_DELAY_MS as int }
}

/// Backoff between reconnection attempts.
pub fn next_reconnect_delay_ms(current_ms: u32) -> (d: u32)
    ensures
        d == spec_next_reconnect_delay(current_ms),
{
    if current_ms >= 20_000 {
        RECONNECT_MAX_DELAY_MS
    } else {
        current_ms * 3 / 2
    }
}

/// The WebSocket address of the server that served the page: `wss` when
/// the page came over `https:`, else `ws`; the page's host, or the local
/// default when it has none; and the path `/ws`.
pub open spec fn spec_ws_url(host: Option<Seq<char>>, page_protocol: Option<Seq<char>>) -> Seq<char> {
    let scheme = if page_protocol == Some("https:"@) { "wss"@ } else { "ws"@ };
    let h = match host {
        Some(h) => if h.len() > 0 { h } else { "127.0.0.1:9001"@ },
        None => "127.0.0.1:9001"@,
    };
    scheme + "://"@ + h + "/ws"@
}

/// The server's WebSocket address for a page at `host` loaded over
/// `page_protocol` (both as the browser reports them, when it does).
pub fn ws_url(host: Option<&str>, page_protocol: Option<&str>) -> (url: String)
    ensures
        url@ == spec_ws_url(
            match host { Some(h) => Some(h@), None => None },
            match page_protocol { Some(p) => Some(p@), None => None },
        ),
{
    let secure = match page_protocol {
        Some(p) => p.to_owned() == String::from_str("https:"),
        None => false,
    };
    let mut url = if secure { String::from_str("wss") } else { String::from_str("ws") };
    url.append("://");
    match host {
        Some(h) => {
            if h.unicode_len() > 0 {
                url.append(h);
            } else {
                url.append("127.0.0.1:9001");
            }
        },
        None => url.append("127.0.0.1:9001"),
    }
    url.append("/ws");
    url
}

/// Which flipper.
#[derive(Clone, Copy, Debug, PartialEq, Eq, Structural)]
pub enum FlipperSide {
    Left,
    Right,
}

/// The board's palette, as `0xRRGGBB`.
#[derive(Clone, Copy)]
pub struct Colors;

impl Colors {
    pub const DEEP_SPACE_BG: u32 = 0x050510;
    pub const WALL: u32 = 0x4da6a6;
    pub const FLIPPER: u32 = 0x4da6a6;
    pub const PIN: u32 = 0x4da6a6;
    pub const PIN_HIT: u32 = 0x44ff88;
    pub const BALL: u32 = 0x4da6a6;
    pub const BALL_GLOW: u32 = 0x88ccff;
    pub const STAR: u32 = 0xffffff;
}

/// The red, green and blue channels of a `0xRRGGBB` colour, each 0..=255
/// (bits above the lowest 24 are ignored).
pub fn hex_channels(rgb: u32) -> (c: (u8, u8, u8))
    ensures
        c.0 == (rgb as int / 0x1_0000) % 0x100,
        c.1 == (rgb as int / 0x100) % 0x100,
        c.2 == rgb as int % 0x100,
{
    let r = (rgb >> 16) & 0xff;
    let g = (rgb >> 8) & 0xff;
    let b = rgb & 0xff;
    proof {
        assert(r == (rgb / 0x1_0000) % 0x100) by (bit_vector)
            requires
                r == (rgb >> 16) & 0xff,
        ;
        assert(g == (rgb / 0x100) % 0x100) by (bit_vector)
            requires
                g == (rgb >> 8) & 0xff,
        ;
        assert(b == rgb % 0x100) by (bit_vector)
            requires
                b == rgb & 0xff,
        ;
    }
    (r as u8, g as u8, b as u8)
}

/// The client bot's random state after one step of its linear
/// congruential generator, kept to 31 bits.
pub open spec fn spec_next_bot_seed(seed: u32) -> int {
    ((seed as int * 1664525 + 1013904223) % 0x1_0000_0000) % 0x8000_0000
}

/// Advances the client bot's random state.
pub fn next_bot_seed(seed: u32) -> (s: u32)
    ensures
        s == spec_next_bot_seed(seed),
        s <= 0x7fff_ffff,
{
    let t = seed.wrapping_mul(1664525).wrapping_add(1013904223);
    let r = t & 0x7fff_ffff;
    proof {
        assert(t & 0x7fff_ffff == t % 0x8000_0000) by (bit_vector);
        let m: int = 0x1_0000_0000;
        let a = seed as int * 1664525;
        assert(seed.wrapping_mul(1664525) == a % m);
        vstd::arithmetic::div_mod::lemma_add_mod_noop(a, 1013904223, m);
        vstd::arithmetic::div_mod::lemma_small_mod(1013904223, m as nat);
        vstd::arithmetic::div_mod::lemma_mod_twice(a, m);
        vstd::arithmetic::div_mod::lemma_add_mod_noop(a % m, 1013904223, m);
    }
    r
}

} // verus!
