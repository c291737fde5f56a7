use led_matrix::color::Color;

#[test]
fn gamma_fixes_black_and_white() {
    let black = Color { r: 0, g: 0, b: 0 };
    let white = Color { r: 255, g: 255, b: 255 };
    let gb = black.gamma_correct();
    let gw = white.gamma_correct();
    assert_eq!((gb.r, gb.g, gb.b), (0, 0, 0));
    assert_eq!((gw.r, gw.g, gw.b), (255, 255, 255));
}

#[test]
fn gamma_exact_midpoint() {
    // (128 * 128 + 127) / 255 = 16511 / 255 = 64 (truncated).
    let c = Color { r: 128, g: 1, b: 16 };
    let g = c.gamma_correct();
    assert_eq!(g.r, 64);
    // (1 + 127) / 255 = 0.
    assert_eq!(g.g, 0);
    // (256 + 127) / 255 = 1.
    assert_eq!(g.b, 1);
}

#[test]
fn scale_is_min_255_of_truncated_product() {
    let c = Color { r: 100, g: 200, b: 50 };
    let s = c.scale(3, 2);
    assert_eq!(s.r, 150); // 100 * 3 / 2
    assert_eq!(s.g, 255); // 300 saturates
    assert_eq!(s.b, 75); // 50 * 3 / 2
}

#[test]
fn scale_by_small_ratio_is_black() {
    // Any ratio strictly below 1/255 sends every channel to zero.
    let c = Color { r: 255, g: 128, b: 1 };
    let s = c.scale(1, 256);
    assert_eq!((s.r, s.g, s.b), (0, 0, 0));
}

#[test]
fn scale_at_exactly_one_over_255() {
    // At the ratio 1/255 a full channel still truncates to 1, not 0.
    let c = Color { r: 255, g: 254, b: 0 };
    let s = c.scale(1, 255);
    assert_eq!((s.r, s.g, s.b), (1, 0, 0));
}

#[test]
fn div_is_inverse_of_scale_within_rounding() {
    for d in 1u32..20 {
        for v in [0u8, 1, 7, 100, 254, 255] {
            let c = Color { r: v, g: v, b: v };
            let q = c.div_by(d);
            let back = q.scale(d, 1);
            assert!(back.r as u32 <= v as u32);
            assert!((v as u32) < back.r as u32 + d);
        }
    }
}

#[test]
fn scale_by_one_is_identity() {
    let c = Color { r: 13, g: 200, b: 255 };
    let s = c.scale(1, 1);
    assert_eq!((s.r, s.g, s.b), (13, 200, 255));
}

#[test]
fn default_color_is_black() {
    let c = Color::default();
    assert_eq!((c.r, c.g, c.b), (0, 0, 0));
}
