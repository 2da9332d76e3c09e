use soft_render::color::Color;
use soft_render::shading::{
    biome_color, cloud_shader, create_map, earth_shader, jupiter_shader, jupiter_spot, jupiter_stripes, light_stripes,
    mercury_colors, mercury_craters, mercury_shader, neptune_shader, neptune_texture, normalize_noise, other_stripes,
    saturn_lines, saturn_ring, saturn_shader, saturn_texture, sun_cellular_shader, sun_shader, venus_layer,
    venus_shader, venus_texture,
};

fn rgb(c: Color) -> (u8, u8, u8) {
    (c.r, c.g, c.b)
}

#[test]
fn noise_normalisation() {
    assert_eq!(normalize_noise(-1000), 0);
    assert_eq!(normalize_noise(0), 500);
    assert_eq!(normalize_noise(1000), 1000);
    assert_eq!(normalize_noise(5000), 1000);
    assert_eq!(normalize_noise(-5000), 0);
    assert_eq!(normalize_noise(-600), 200);
}

#[test]
fn sun_bands() {
    assert_eq!(rgb(sun_cellular_shader(50)), (140, 23, 0));
    assert_eq!(rgb(sun_cellular_shader(300)), (178, 56, 0));
    assert_eq!(rgb(sun_cellular_shader(800)), (255, 255, 255));
    assert_eq!(rgb(sun_shader(50)), (140, 20, 0));
}

#[test]
fn earth_layers() {
    assert_eq!(biome_color(100), Color::from_hex(0x7d6902));
    assert_eq!(rgb(biome_color(500)), (67, 103, 1));
    assert_eq!(biome_color(900), Color::from_hex(0x053300));
    assert_eq!(create_map(0, 0, 900), Color::from_hex(0x053300));
    assert_eq!(create_map(1000, 1000, 900), Color::from_hex(0x000d47));
    assert_eq!(rgb(cloud_shader(0, 0)), (153, 153, 153));
    assert!(cloud_shader(1000, 1000).is_black());
    // ocean plus no cloud, at full intensity
    assert_eq!(earth_shader(1000, 1000, 1000, 0, 1000, 1000), Color::from_hex(0x000d47));
    // intensity is clamped at 2
    assert_eq!(rgb(earth_shader(9000, 1000, 1000, 0, 1000, 1000)), (0, 26, 142));
}

#[test]
fn mercury_layers() {
    assert_eq!(rgb(mercury_craters(100)), (153, 153, 153));
    assert_eq!(rgb(mercury_craters(220)), (198, 198, 198));
    assert_eq!(rgb(mercury_craters(300)), (255, 255, 255));
    assert_eq!(rgb(mercury_colors(1000, 1000, 500, 0)), (229, 114, 0));
    assert_eq!(rgb(mercury_shader(1000, 100, 1000, 500, 0)), (137, 68, 0));
}

#[test]
fn venus_layers() {
    assert_eq!(rgb(venus_layer(0, 0)), (194, 133, 21));
    assert!(venus_layer(1000, 1000).is_black());
    assert_eq!(rgb(venus_texture(100, 200)), (204, 204, 204));
    assert_eq!(rgb(venus_texture(500, 0)), (255, 255, 255));
    // no dark or light layer, plain texture: the base color
    assert_eq!(venus_shader(1000, 1000, 1000, 1000, 1000, 1000), Color::from_hex(0xd9852b));
}

#[test]
fn jupiter_layers() {
    let a = Color::new(1, 2, 3);
    let b = Color::new(4, 5, 6);
    assert_eq!(jupiter_stripes(599, a, b), a);
    assert_eq!(jupiter_stripes(600, a, b), b);
    assert_eq!(rgb(jupiter_spot(500, 350, 1000, a)), (219, 111, 2));
    assert_eq!(jupiter_spot(519, 350, 0, a), Color::from_hex(0xdb6f02).scale(500));
    assert_eq!(jupiter_spot(520, 350, 1000, a), a);
    assert_eq!(light_stripes(800, 1000), Color::from_hex(0xffd896));
    assert_eq!(rgb(light_stripes(100, 1000)), (229, 180, 96));
    assert_eq!(other_stripes(800, 1000), Color::from_hex(0xd9f6ff));
    assert_eq!(jupiter_shader(0, 0, 1000, 0, 800, 1000, 0, 0, 0), Color::from_hex(0xffd896));
}

#[test]
fn saturn_layers() {
    let c = Color::new(10, 20, 30);
    assert_eq!(saturn_lines(0), Color::from_hex(0xffd885));
    assert_eq!(saturn_lines(900), Color::from_hex(0xff9238));
    assert_eq!(saturn_ring(300, c), Color::from_hex(0xff7e33));
    assert_eq!(saturn_ring(280, c), c);
    assert_eq!(saturn_ring(320, c), c);
    assert_eq!(saturn_texture(500, c), c);
    assert_eq!(rgb(saturn_texture(700, c)), (7, 14, 21));
    assert_eq!(saturn_shader(300, 1000, 0, 0), Color::from_hex(0xff7e33));
}

#[test]
fn neptune_layers() {
    assert_eq!(neptune_texture(100, 1000), Color::from_hex(0x1350ba));
    assert_eq!(rgb(neptune_texture(300, 0)), (5, 24, 55));
    assert_eq!(rgb(neptune_texture(0, 500)), (9, 40, 93));
    assert_eq!(rgb(neptune_shader(10, 300, 0)), (0, 1, 2));
}
