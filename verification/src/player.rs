use vstd::prelude::*;

verus! {

/// Red/green/blue channel value of the brightest channel (value 0.95 in
/// the HSV colour model), scaled to 0..=255.
pub open spec fn channel_high() -> int {
    242
}

/// Channel value of the darkest channel (`v - c` with saturation 0.55).
pub open spec fn channel_low() -> int {
    109
}

/// Channel value of the middle channel for a hue whose distance from the
/// centre of its 120-degree band is `d` (0..=60), rounded half away from zero:
/// `255 * (0.4275 + 0.5225 * (60 - d) / 60)`.
pub open spec fn channel_mid(d: int) -> int {
    (17 * (22800 - 209 * d) + 800) / 1600
}

/// Distance of a hue from the centre of its 120-degree band.
pub open spec fn band_distance(hue: int) -> int {
    let t = hue % 120;
    if t >= 60 { t - 60 } else { 60 - t }
}

/// Packs three channels into `0xRRGGBB`.
pub open spec fn pack_rgb(r: int, g: int, b: int) -> int {
    r * 65536 + g * 256 + b
}

/// The colour of a hue in degrees (0..360) at saturation 0.55 and value 0.95.
pub open spec fn hue_color(hue: int) -> int {
    let hi = channel_high();
    let lo = channel_low();
    let mid = channel_mid(band_distance(hue));
    if hue < 60 {
        pack_rgb(hi, mid, lo)
    } else if hue < 120 {
        pack_rgb(mid, hi, lo)
    } else if hue < 180 {
        pack_rgb(lo, hi, mid)
    } else if hue < 240 {
        pack_rgb(lo, mid, hi)
    } else if hue < 300 {
        pack_rgb(mid, lo, hi)
    } else {
        pack_rgb(hi, lo, mid)
    }
}

/// The hue that a player id is given: the id times the golden-angle step 137
/// (wrapping in 32 bits), modulo 360.
pub open spec fn id_hue(id: u32) -> int {
    ((id as int * 137) % 0x1_0000_0000) % 360
}

/// The display colour of player `id`.
pub open spec fn spec_color_from_id(id: u32) -> int {
    hue_color(id_hue(id))
}

/// A player's seat on the sphere, as the registry tracks it.
#[derive(Clone, Copy, Debug, PartialEq, Eq, Structural)]
pub struct Player {
    pub id: u32,
    pub cell_index: u32,
    pub color: u32,
    /// Paused players (tab hidden) do not capture balls.
    pub paused: bool,
    /// Number of balls this player has sent to deep space.
    pub balls_produced: u32,
    pub is_bot: bool,
}

fn channel_mid_exec(d: u32) -> (v: u32)
    requires
        d <= 60,
    ensures
        v == channel_mid(d as int),
        0 <= v <= 255,
{
    (17 * (22800 - 209 * d) + 800) / 1600
}

fn hue_to_rgb(hue: u32) -> (c: u32)
    requires
        hue < 360,
    ensures
        c == hue_color(hue as int),
        c <= 0xFF_FFFF,
{
    let t = hue % 120;
    let d = if t >= 60 { t - 60 } else { 60 - t };
    let hi: u32 = 242;
    let lo: u32 = 109;
    let mid = channel_mid_exec(d);
    let (r, g, b) = if hue < 60 {
        (hi, mid, lo)
    } else if hue < 120 {
        (mid, hi, lo)
    } else if hue < 180 {
        (lo, hi, mid)
    } else if hue < 240 {
        (lo, mid, hi)
    } else if hue < 300 {
        (mid, lo, hi)
    } else {
        (hi, lo, mid)
    };
    r * 65536 + g * 256 + b
}

/// Colour of a player, spread over the hue circle by the golden angle so
/// that consecutive ids get clearly different colours.
pub fn color_from_id(id: u32) -> (color: u32)
    ensures
        color == spec_color_from_id(id),
        color <= 0xFF_FFFF,
{
    let hue = id.wrapping_mul(137) % 360;
    proof {
        assert(hue == id_hue(id));
    }
    hue_to_rgb(hue)
}

proof fn lemma_channel_mid_facts(d1: int, d2: int)
    requires
        0 <= d1 <= 60,
        0 <= d2 <= 60,
    ensures
        channel_mid(d1) == channel_mid(d2) ==> d1 == d2,
        channel_low() <= channel_mid(d1) <= channel_high(),
        channel_mid(d1) == channel_high() <==> d1 == 0,
        channel_mid(d1) == channel_low() <==> d1 == 60,
{
    let x1 = 17 * (22800 - 209 * d1) + 800;
    let x2 = 17 * (22800 - 209 * d2) + 800;
    assert(x1 == 388400 - 3553 * d1);
    assert(x2 == 388400 - 3553 * d2);
    if d1 < d2 {
        assert(x1 - x2 >= 3553);
        assert(x1 / 1600 > x2 / 1600);
    } else if d2 < d1 {
        assert(x2 - x1 >= 3553);
        assert(x2 / 1600 > x1 / 1600);
    }
    assert(channel_mid(0) == 242);
    assert(channel_mid(60) == 109);
    if 0 < d1 {
        assert(x1 <= 388400 - 3553);
        assert(x1 / 1600 < 242);
    }
    if d1 < 60 {
        assert(x1 >= 388400 - 3553 * 59);
        assert(x1 / 1600 > 109);
    }
}

proof fn lemma_pack_rgb_injective(r1: int, g1: int, b1: int, r2: int, g2: int, b2: int)
    requires
        0 <= r1 < 256,
        0 <= g1 < 256,
        0 <= b1 < 256,
        0 <= r2 < 256,
        0 <= g2 < 256,
        0 <= b2 < 256,
        pack_rgb(r1, g1, b1) == pack_rgb(r2, g2, b2),
    ensures
        r1 == r2 && g1 == g2 && b1 == b2,
{
}

/// No two hues of the circle share a colour.
proof fn lemma_hue_color_injective(h1: int, h2: int)
    requires
        0 <= h1 < 360,
        0 <= h2 < 360,
        hue_color(h1) == hue_color(h2),
    ensures
        h1 == h2,
{
    let d1 = band_distance(h1);
    let d2 = band_distance(h2);
    lemma_channel_mid_facts(d1, d2);
    lemma_channel_mid_facts(d2, d1);
    let m1 = channel_mid(d1);
    let m2 = channel_mid(d2);
    let hi = channel_high();
    let lo = channel_low();
    let (r1, g1, b1) = if h1 < 60 {
        (hi, m1, lo)
    } else if h1 < 120 {
        (m1, hi, lo)
    } else if h1 < 180 {
        (lo, hi, m1)
    } else if h1 < 240 {
        (lo, m1, hi)
    } else if h1 < 300 {
        (m1, lo, hi)
    } else {
        (hi, lo, m1)
    };
    let (r2, g2, b2) = if h2 < 60 {
        (hi, m2, lo)
    } else if h2 < 120 {
        (m2, hi, lo)
    } else if h2 < 180 {
        (lo, hi, m2)
    } else if h2 < 240 {
        (lo, m2, hi)
    } else if h2 < 300 {
        (m2, lo, hi)
    } else {
        (hi, lo, m2)
    };
    assert(hue_color(h1) == pack_rgb(r1, g1, b1));
    assert(hue_color(h2) == pack_rgb(r2, g2, b2));
    lemma_pack_rgb_injective(r1, g1, b1, r2, g2, b2);
}

/// Two players get the same colour exactly when their ids give the same
/// hue: the colour depends on the hue alone, and no two hues share one.
pub proof fn lemma_colors_differ_iff_hues_differ(a: u32, b: u32)
    ensures
        spec_color_from_id(a) == spec_color_from_id(b) <==> id_hue(a) == id_hue(b),
{
    if spec_color_from_id(a) == spec_color_from_id(b) {
        lemma_hue_color_injective(id_hue(a), id_hue(b));
    }
}

/// Ids fewer than 360 apart get different colours, as long as `id * 137`
/// does not wrap: 137 and 360 share no factor, so their hues differ.
pub proof fn lemma_nearby_ids_get_different_colors(a: u32, b: u32)
    requires
        a < b,
        b - a < 360,
        b as int * 137 < 0x1_0000_0000,
    ensures
        spec_color_from_id(a) != spec_color_from_id(b),
{
    let k = b - a;
    if (137 * k) % 360 == 0 {
        // 113 is the inverse of 137 modulo 360, so 360 would divide k.
        let q = (137 * k) / 360;
        assert(137 * k == 360 * q);
        assert(k == 360 * (113 * q - 43 * k));
    }
    assert(id_hue(a) == (a as int * 137) % 360);
    assert(id_hue(b) == (b as int * 137) % 360);
    lemma_colors_differ_iff_hues_differ(a, b);
    if id_hue(a) == id_hue(b) {
        assert(b as int * 137 == a as int * 137 + 137 * k);
        assert((137 * k) % 360 == 0);
    }
}

} // verus!
