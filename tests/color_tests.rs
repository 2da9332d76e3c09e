use soft_render::color::Color;

fn rgb(c: Color) -> (u8, u8, u8) {
    (c.r, c.g, c.b)
}

#[test]
fn new_clamps_each_channel() {
    assert_eq!(rgb(Color::new(-20, 128, 300)), (0, 128, 255));
    assert_eq!(rgb(Color::new(0, 255, 256)), (0, 255, 255));
}

#[test]
fn black_is_black() {
    assert!(Color::black().is_black());
    assert!(!Color::new(0, 0, 1).is_black());
}

#[test]
fn hex_packing() {
    assert_eq!(rgb(Color::from_hex(0xff5100)), (0xff, 0x51, 0x00));
    assert_eq!(rgb(Color::from_hex(0x12345678)), (0x34, 0x56, 0x78));
    assert_eq!(Color::new(0x12, 0x34, 0x56).to_hex(), 0x123456);
}

#[test]
fn hex_round_trip() {
    for &(r, g, b) in &[(0, 0, 0), (255, 255, 255), (1, 2, 3), (200, 17, 99), (0, 255, 0)] {
        let c = Color::new(r, g, b);
        assert_eq!(Color::from_hex(c.to_hex()), c);
    }
}

#[test]
fn blend_screen_values() {
    let c = Color::new(100, 0, 255).blend_screen(&Color::new(100, 255, 0));
    // 255 - 155 * 155 / 255 = 255 - 94
    assert_eq!(rgb(c), (161, 255, 255));
}

#[test]
fn blend_normal_black_is_transparent() {
    let base = Color::new(10, 20, 30);
    assert_eq!(base.blend_normal(&Color::black()), base);
    assert_eq!(base.blend_normal(&Color::new(1, 0, 0)), Color::new(1, 0, 0));
}

#[test]
fn blend_multiply_truncates() {
    let c = Color::new(200, 100, 255).blend_multiply(&Color::new(128, 3, 255));
    assert_eq!(rgb(c), (100, 1, 255));
}

#[test]
fn blend_multiply_white_is_identity() {
    let white = Color::new(255, 255, 255);
    for &(r, g, b) in &[(0, 0, 0), (17, 128, 254), (255, 1, 99)] {
        let c = Color::new(r, g, b);
        assert_eq!(c.blend_multiply(&white), c);
    }
}

#[test]
fn blend_add_saturates_and_commutes() {
    let a = Color::new(200, 10, 0);
    let b = Color::new(100, 20, 5);
    assert_eq!(rgb(a.blend_add(&b)), (255, 30, 5));
    assert_eq!(a.blend_add(&b), b.blend_add(&a));
    assert_eq!(a.add(b), a.blend_add(&b));
}

#[test]
fn blend_subtract_values() {
    let a = Color::new(200, 10, 50);
    assert_eq!(rgb(a.blend_subtract(&Color::new(100, 20, 0))), (100, 0, 50));
    assert_eq!(a.blend_subtract(&Color::black()), a);
}

#[test]
fn lerp_values() {
    let a = Color::new(0, 100, 255);
    let b = Color::new(255, 100, 0);
    assert_eq!(rgb(a.lerp(&b, 500)), (128, 100, 128));
    assert_eq!(a.lerp(&b, -3), a);
    assert_eq!(a.lerp(&b, 4000), b);
    assert_eq!(rgb(a.lerp(&b, 250)), (64, 100, 191));
}

#[test]
fn lerp_with_itself_is_identity() {
    let c = Color::new(13, 200, 77);
    for t in [0, 1, 333, 500, 999, 1000] {
        assert_eq!(c.lerp(&c, t), c);
    }
}

#[test]
fn scale_values() {
    let c = Color::new(100, 200, 255);
    assert_eq!(rgb(c.scale(500)), (50, 100, 127));
    assert_eq!(rgb(c.scale(2000)), (200, 255, 255));
    assert_eq!(rgb(c.scale(-700)), (0, 0, 0));
    assert_eq!(rgb(c.scale(1000)), (100, 200, 255));
}
