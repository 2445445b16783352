use pinball::player::color_from_id;

#[test]
fn color_from_id_produces_valid_rgb() {
    for id in 1..=100 {
        let color = color_from_id(id);
        assert!(
            color <= 0xFFFFFF,
            "Color {:#x} out of range for id {}",
            color,
            id
        );
    }
}

#[test]
fn different_ids_give_different_colors() {
    let c1 = color_from_id(1);
    let c2 = color_from_id(2);
    let c3 = color_from_id(3);
    assert_ne!(c1, c2);
    assert_ne!(c2, c3);
}

/// The HSV conversion with real numbers, as the colour scheme defines it.
fn hsv_to_rgb_reference(h: f64, s: f64, v: f64) -> u32 {
    let c = v * s;
    let x = c * (1.0 - ((h / 60.0) % 2.0 - 1.0).abs());
    let m = v - c;
    let (r, g, b) = if h < 60.0 {
        (c, x, 0.0)
    } else if h < 120.0 {
        (x, c, 0.0)
    } else if h < 180.0 {
        (0.0, c, x)
    } else if h < 240.0 {
        (0.0, x, c)
    } else if h < 300.0 {
        (x, 0.0, c)
    } else {
        (c, 0.0, x)
    };
    let ri = ((r + m) * 255.0).round() as u32;
    let gi = ((g + m) * 255.0).round() as u32;
    let bi = ((b + m) * 255.0).round() as u32;
    (ri << 16) | (gi << 8) | bi
}

#[test]
fn color_from_id_matches_hsv_for_every_hue() {
    // 137 is coprime to 360, so ids 0..360 reach every hue once.
    for id in 0u32..360 {
        let hue = id.wrapping_mul(137) % 360;
        assert_eq!(
            color_from_id(id),
            hsv_to_rgb_reference(hue as f64, 0.55, 0.95),
            "id {} hue {}",
            id,
            hue
        );
    }
}

#[test]
fn color_from_id_exact_values() {
    // id 1 -> hue 137: green band, r = 109, g = 242, b = mid channel.
    assert_eq!(color_from_id(0), 0xF26D6D);
    assert_eq!(color_from_id(1), hsv_to_rgb_reference(137.0, 0.55, 0.95));
    assert_eq!(color_from_id(u32::MAX), hsv_to_rgb_reference((u32::MAX.wrapping_mul(137) % 360) as f64, 0.55, 0.95));
}

#[test]
fn colors_of_nearby_ids_are_distinct() {
    let colors: std::collections::HashSet<u32> = (1..=360).map(color_from_id).collect();
    assert_eq!(colors.len(), 360);
    // Ids 360 apart share a hue, and so a colour.
    assert_eq!(color_from_id(1), color_from_id(361));
}
