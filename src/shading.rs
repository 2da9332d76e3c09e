use vstd::prelude::*;
use crate::color::Color;
use crate::fixed::{clamp_i64, clamp_int, max_i64, max_int, min_i64, min_int};

verus! {

// A noise sample arrives as a raw value of the provider in thousandths
// (nominally in [-1000, 1000]); shaders read it normalised to [0, 1000].

/// A raw noise sample mapped from `[-1, 1]` to `[0, 1]`, clamped.
pub open spec fn unit_noise(raw: int) -> int {
    (clamp_int(raw, -1000, 1000) + 1000) / 2
}

/// A normalised noise value: thousandths in `[0, 1000]`.
pub open spec fn is_unit(n: int) -> bool {
    0 <= n <= 1000
}

/// Normalises a raw noise sample to `[0, 1000]`.
pub fn normalize_noise(raw: i64) -> (n: i64)
    ensures
        n == unit_noise(raw as int),
        is_unit(n as int),
{
    (clamp_i64(raw, -1000, 1000) + 1000) / 2
}

/// `a * wa + b * wb` for weights in thousandths, truncated.
pub open spec fn mix(a: int, wa: int, b: int, wb: int) -> int {
    (a * wa + b * wb) / 1000
}

fn mix_exec(a: i64, wa: i64, b: i64, wb: i64) -> (r: i64)
    requires
        is_unit(a as int),
        is_unit(b as int),
        0 <= wa <= 1000,
        0 <= wb <= 1000,
        wa + wb == 1000,
    ensures
        r == mix(a as int, wa as int, b as int, wb as int),
        is_unit(r as int),
{
    assert(0 <= a * wa <= 1000 * wa) by (nonlinear_arith)
        requires
            0 <= a <= 1000,
            0 <= wa,
    ;
    assert(0 <= b * wb <= 1000 * wb) by (nonlinear_arith)
        requires
            0 <= b <= 1000,
            0 <= wb,
    ;
    (a * wa + b * wb) / 1000
}

pub open spec fn hex(h: int) -> Color {
    Color::from_hex_spec(h)
}

pub open spec fn white() -> Color {
    Color { r: 255, g: 255, b: 255 }
}

pub open spec fn black() -> Color {
    Color { r: 0, g: 0, b: 0 }
}

// ---------------------------------------------------------------- Sun

pub open spec fn sun_cellular_spec(n: int) -> Color {
    if n < 100 {
        hex(0xff2a00).scale_spec(n + 500)
    } else if n < 550 {
        hex(0xff5100).scale_spec(n + 400)
    } else {
        white().scale_spec(n + 200)
    }
}

/// Hot-spot banding of the sun from its cellular noise value `n`.
pub fn sun_cellular_shader(n: i64) -> (c: Color)
    requires
        is_unit(n as int),
    ensures
        c == sun_cellular_spec(n as int),
{
    if n < 100 {
        Color::from_hex(0xff2a00).scale(n + 500)
    } else if n < 550 {
        Color::from_hex(0xff5100).scale(n + 400)
    } else {
        Color::new(255, 255, 255).scale(n + 200)
    }
}

pub open spec fn sun_spec(n: int) -> Color {
    sun_cellular_spec(n).multiply_spec(hex(0xffe0ad))
}

/// The sun: its hot-spot bands multiplied by a warm tint.
pub fn sun_shader(n: i64) -> (c: Color)
    requires
        is_unit(n as int),
    ensures
        c == sun_spec(n as int),
{
    sun_cellular_shader(n).blend_multiply(&Color::from_hex(0xffe0ad))
}

// ---------------------------------------------------------------- Earth

pub open spec fn biome_spec(n: int) -> Color {
    if n < 200 {
        hex(0x7d6902)
    } else if n < 800 {
        hex(0x053300).add_spec(hex(0x7d6902).scale_spec(n))
    } else {
        hex(0x053300)
    }
}

/// Land color from the biome noise value `n`: desert, a desert-tinted
/// transition, or vegetation.
pub fn biome_color(n: i64) -> (c: Color)
    requires
        is_unit(n as int),
    ensures
        c == biome_spec(n as int),
{
    let desert = Color::from_hex(0x7d6902);
    let greenary = Color::from_hex(0x053300);
    if n < 200 {
        desert
    } else if n < 800 {
        greenary.blend_add(&desert.scale(n))
    } else {
        greenary
    }
}

pub open spec fn map_spec(big: int, small: int, biome: int) -> Color {
    if 700 * big + 300 * small < 400000 {
        biome_spec(biome)
    } else {
        hex(0x000d47)
    }
}

/// Land or ocean: land where the 70/30 blend of the large and small scale
/// noise values lies below 0.4.
pub fn create_map(big: i64, small: i64, biome: i64) -> (c: Color)
    requires
        is_unit(big as int),
        is_unit(small as int),
        is_unit(biome as int),
    ensures
        c == map_spec(big as int, small as int, biome as int),
{
    if 700 * big + 300 * small < 400000 {
        biome_color(biome)
    } else {
        Color::from_hex(0x000d47)
    }
}

pub open spec fn cloud_spec(big: int, small: int) -> Color {
    let n = mix(small, 300, big, 700);
    if n < 400 {
        white().scale_spec(600 - n)
    } else {
        black()
    }
}

/// Cloud layer: white, fading with density, where the 30/70 blend of two
/// noise values lies below 0.4; black (transparent) elsewhere.
pub fn cloud_shader(big: i64, small: i64) -> (c: Color)
    requires
        is_unit(big as int),
        is_unit(small as int),
    ensures
        c == cloud_spec(big as int, small as int),
{
    let n = mix_exec(small, 300, big, 700);
    if n < 400 {
        Color::new(255, 255, 255).scale(600 - n)
    } else {
        Color::black()
    }
}

pub open spec fn earth_spec(intensity: int, big: int, small: int, biome: int, cloud_big: int, cloud_small: int) -> Color {
    map_spec(big, small, biome).add_spec(cloud_spec(cloud_big, cloud_small)).scale_spec(
        clamp_int(intensity, 50, 2000),
    )
}

/// The earth: the land/ocean map plus clouds, lit by the fragment intensity
/// clamped to `[0.05, 2]`.
pub fn earth_shader(intensity: i64, big: i64, small: i64, biome: i64, cloud_big: i64, cloud_small: i64) -> (c: Color)
    requires
        is_unit(big as int),
        is_unit(small as int),
        is_unit(biome as int),
        is_unit(cloud_big as int),
        is_unit(cloud_small as int),
    ensures
        c == earth_spec(intensity as int, big as int, small as int, biome as int, cloud_big as int, cloud_small as int),
{
    let map_color = create_map(big, small, biome);
    let cloud = cloud_shader(cloud_big, cloud_small);
    map_color.blend_add(&cloud).scale(clamp_i64(intensity, 50, 2000))
}

// ---------------------------------------------------------------- Mercury

pub open spec fn craters_spec(n: int) -> Color {
    if n < 200 {
        white().scale_spec(700 - n)
    } else if n < 250 {
        white().scale_spec(1000 - n)
    } else {
        white()
    }
}

/// Crater darkness mask from the noise value `n`.
pub fn mercury_craters(n: i64) -> (c: Color)
    requires
        is_unit(n as int),
    ensures
        c == craters_spec(n as int),
{
    let white = Color::new(255, 255, 255);
    if n < 200 {
        white.scale(700 - n)
    } else if n < 250 {
        white.scale(1000 - n)
    } else {
        white
    }
}

pub open spec fn mercury_colors_spec(intensity: int, nr: int, ng: int, nb: int) -> Color {
    Color { r: 255, g: 0, b: 0 }.scale_spec(nr).add_spec(Color { r: 0, g: 255, b: 0 }.scale_spec(ng)).add_spec(
        Color { r: 0, g: 0, b: 255 }.scale_spec(nb),
    ).scale_spec(min_int(intensity, 900))
}

/// Base tint of mercury: one noise value per channel, lit by the fragment
/// intensity capped at 0.9.
pub fn mercury_colors(intensity: i64, nr: i64, ng: i64, nb: i64) -> (c: Color)
    requires
        is_unit(nr as int),
        is_unit(ng as int),
        is_unit(nb as int),
    ensures
        c == mercury_colors_spec(intensity as int, nr as int, ng as int, nb as int),
{
    let red = Color::new(255, 0, 0).scale(nr);
    let green = Color::new(0, 255, 0).scale(ng);
    let blue = Color::new(0, 0, 255).scale(nb);
    red.blend_add(&green).blend_add(&blue).scale(min_i64(intensity, 900))
}

pub open spec fn mercury_spec(intensity: int, crater: int, nr: int, ng: int, nb: int) -> Color {
    mercury_colors_spec(intensity, nr, ng, nb).multiply_spec(craters_spec(crater))
}

/// Mercury: the tinted base multiplied by the crater mask.
pub fn mercury_shader(intensity: i64, crater: i64, nr: i64, ng: i64, nb: i64) -> (c: Color)
    requires
        is_unit(crater as int),
        is_unit(nr as int),
        is_unit(ng as int),
        is_unit(nb as int),
    ensures
        c == mercury_spec(intensity as int, crater as int, nr as int, ng as int, nb as int),
{
    let craters = mercury_craters(crater);
    let colors = mercury_colors(intensity, nr, ng, nb);
    colors.blend_multiply(&craters)
}

// ---------------------------------------------------------------- Venus

pub open spec fn venus_layer_spec(small: int, big: int) -> Color {
    let n = mix(big, 600, small, 400);
    if n < 500 {
        hex(0xc28515).scale_spec(1000 - n)
    } else {
        black()
    }
}

/// A cloud tint layer of venus from a small and a large scale noise value
/// blended 40/60: tinted where the blend lies below 0.5, black elsewhere.
/// The lighter and the darker layer differ only in where they are sampled.
pub fn venus_layer(small: i64, big: i64) -> (c: Color)
    requires
        is_unit(small as int),
        is_unit(big as int),
    ensures
        c == venus_layer_spec(small as int, big as int),
{
    let n = mix_exec(big, 600, small, 400);
    if n < 500 {
        Color::from_hex(0xc28515).scale(1000 - n)
    } else {
        Color::black()
    }
}

pub open spec fn venus_texture_spec(fine: int, area: int) -> Color {
    let n = max_int(area, fine);
    if n < 400 {
        white().scale_spec(1000 - n)
    } else {
        white()
    }
}

/// High-frequency texture mask of venus.
pub fn venus_texture(fine: i64, area: i64) -> (c: Color)
    requires
        is_unit(fine as int),
        is_unit(area as int),
    ensures
        c == venus_texture_spec(fine as int, area as int),
{
    let n = max_i64(area, fine);
    let white = Color::from_hex(0xffffff);
    if n < 400 {
        white.scale(1000 - n)
    } else {
        white
    }
}

pub open spec fn venus_spec(
    intensity: int,
    small: int,
    light_big: int,
    dark_big: int,
    fine: int,
    area: int,
) -> Color {
    hex(0xd9852b).subtract_spec(venus_layer_spec(small, dark_big)).add_spec(venus_layer_spec(small, light_big)).multiply_spec(
        venus_texture_spec(fine, area),
    ).scale_spec(clamp_int(intensity, 100, 1500))
}

/// Venus: the darker layer subtracted from a base color, the lighter layer
/// added, the texture multiplied in, lit by the intensity clamped to `[0.1, 1.5]`.
pub fn venus_shader(intensity: i64, small: i64, light_big: i64, dark_big: i64, fine: i64, area: i64) -> (c: Color)
    requires
        is_unit(small as int),
        is_unit(light_big as int),
        is_unit(dark_big as int),
        is_unit(fine as int),
        is_unit(area as int),
    ensures
        c == venus_spec(intensity as int, small as int, light_big as int, dark_big as int, fine as int, area as int),
{
    let base_color = Color::from_hex(0xd9852b);
    let light_color = venus_layer(small, light_big);
    let darker_color = venus_layer(small, dark_big);
    let texture = venus_texture(fine, area);
    base_color.blend_subtract(&darker_color).blend_add(&light_color).blend_multiply(&texture).scale(
        clamp_i64(intensity, 100, 1500),
    )
}

// ---------------------------------------------------------------- Jupiter

pub open spec fn stripe_spec(fine: int, area: int, light: int, dark: int) -> Color {
    let n = min_int(fine, 2 * area);
    if n < 200 {
        hex(dark).scale_spec(1000 - n)
    } else {
        hex(light).scale_spec(min_int(500 + n, 1000))
    }
}

fn stripe_color(fine: i64, area: i64, light: u32, dark: u32) -> (c: Color)
    requires
        is_unit(fine as int),
        is_unit(area as int),
    ensures
        c == stripe_spec(fine as int, area as int, light as int, dark as int),
{
    let n = min_i64(fine, 2 * area);
    if n < 200 {
        Color::from_hex(dark).scale(1000 - n)
    } else {
        Color::from_hex(light).scale(min_i64(500 + n, 1000))
    }
}

/// The pale stripe color of jupiter.
pub fn light_stripes(fine: i64, area: i64) -> (c: Color)
    requires
        is_unit(fine as int),
        is_unit(area as int),
    ensures
        c == stripe_spec(fine as int, area as int, 0xffd896, 0xffc86b),
{
    stripe_color(fine, area, 0xffd896, 0xffc86b)
}

/// The bluish stripe color of jupiter.
pub fn other_stripes(fine: i64, area: i64) -> (c: Color)
    requires
        is_unit(fine as int),
        is_unit(area as int),
    ensures
        c == stripe_spec(fine as int, area as int, 0xd9f6ff, 0xabebff),
{
    stripe_color(fine, area, 0xd9f6ff, 0xabebff)
}

/// The stripe selector `wave * 0.5 + 0.5` lies below 0.8, for `wave` the sine
/// of the row's phase in thousandths.
pub open spec fn first_band(wave: int) -> bool {
    wave < 600
}

/// Horizontal banding: `first` on rows whose stripe selector lies below 0.8,
/// `second` elsewhere.
pub fn jupiter_stripes(wave: i64, first: Color, second: Color) -> (c: Color)
    ensures
        c == (if first_band(wave as int) { first } else { second }),
{
    if wave < 600 {
        first
    } else {
        second
    }
}

/// The pixel `(x, y)` lies within 20 pixels of the storm center `(500, 350)`.
pub open spec fn in_spot(x: int, y: int) -> bool {
    (x - 500) * (x - 500) + (y - 350) * (y - 350) < 400
}

pub open spec fn spot_spec(x: int, y: int, n: int, color: Color) -> Color {
    if in_spot(x, y) {
        hex(0xdb6f02).scale_spec(n / 2 + 500)
    } else {
        color
    }
}

/// The storm spot of jupiter over `color`, shaded by the noise value `n`.
pub fn jupiter_spot(x: u32, y: u32, n: i64, color: Color) -> (c: Color)
    requires
        is_unit(n as int),
    ensures
        c == spot_spec(x as int, y as int, n as int, color),
{
    let dx = x as i64 - 500;
    let dy = y as i64 - 350;
    assert(0 <= dx * dx <= 0x1_0000_0000 * 0x1_0000_0000) by (nonlinear_arith)
        requires
            -500 <= dx <= 0x1_0000_0000,
    ;
    assert(0 <= dy * dy <= 0x1_0000_0000 * 0x1_0000_0000) by (nonlinear_arith)
        requires
            -350 <= dy <= 0x1_0000_0000,
    ;
    let d2 = (dx as i128) * (dx as i128) + (dy as i128) * (dy as i128);
    if d2 < 400 {
        Color::from_hex(0xdb6f02).scale(n / 2 + 500)
    } else {
        color
    }
}

pub open spec fn jupiter_spec(
    x: int,
    y: int,
    intensity: int,
    wave: int,
    light_fine: int,
    light_area: int,
    other_fine: int,
    other_area: int,
    spot: int,
) -> Color {
    let stripes = if first_band(wave) {
        stripe_spec(light_fine, light_area, 0xffd896, 0xffc86b)
    } else {
        stripe_spec(other_fine, other_area, 0xd9f6ff, 0xabebff)
    };
    spot_spec(x, y, spot, stripes).scale_spec(clamp_int(intensity, 50, 1200))
}

/// Jupiter: two stripe colors, the storm spot over them, lit by the intensity
/// clamped to `[0.05, 1.2]`.
pub fn jupiter_shader(
    x: u32,
    y: u32,
    intensity: i64,
    wave: i64,
    light_fine: i64,
    light_area: i64,
    other_fine: i64,
    other_area: i64,
    spot: i64,
) -> (c: Color)
    requires
        is_unit(light_fine as int),
        is_unit(light_area as int),
        is_unit(other_fine as int),
        is_unit(other_area as int),
        is_unit(spot as int),
    ensures
        c == jupiter_spec(
            x as int,
            y as int,
            intensity as int,
            wave as int,
            light_fine as int,
            light_area as int,
            other_fine as int,
            other_area as int,
            spot as int,
        ),
{
    let first = light_stripes(light_fine, light_area);
    let second = other_stripes(other_fine, other_area);
    let stripes = jupiter_stripes(wave, first, second);
    jupiter_spot(x, y, spot, stripes).scale(clamp_i64(intensity, 50, 1200))
}

// ---------------------------------------------------------------- Saturn

pub open spec fn lines_spec(wave: int) -> Color {
    if first_band(wave) {
        hex(0xffd885)
    } else {
        hex(0xff9238)
    }
}

/// The fine body stripes of saturn.
pub fn saturn_lines(wave: i64) -> (c: Color)
    ensures
        c == lines_spec(wave as int),
{
    jupiter_stripes(wave, Color::from_hex(0xffd885), Color::from_hex(0xff9238))
}

pub open spec fn ring_spec(y: int, color: Color) -> Color {
    if 280 < y < 320 {
        hex(0xff7e33)
    } else {
        color
    }
}

/// The ring band of saturn: rows strictly between 280 and 320 take the ring
/// color, the others keep `color`.
pub fn saturn_ring(y: u32, color: Color) -> (c: Color)
    ensures
        c == ring_spec(y as int, color),
{
    if y < 320 && y > 280 {
        Color::from_hex(0xff7e33)
    } else {
        color
    }
}

pub open spec fn saturn_texture_spec(n: int, color: Color) -> Color {
    if n < 600 {
        color
    } else {
        color.scale_spec(n)
    }
}

/// Texture of saturn: `color` dimmed by the noise value where it reaches 0.6.
pub fn saturn_texture(n: i64, color: Color) -> (c: Color)
    requires
        is_unit(n as int),
    ensures
        c == saturn_texture_spec(n as int, color),
{
    if n < 600 {
        color
    } else {
        color.scale(n)
    }
}

pub open spec fn saturn_spec(y: int, intensity: int, wave: int, n: int) -> Color {
    saturn_texture_spec(n, ring_spec(y, lines_spec(wave))).scale_spec(clamp_int(intensity, 100, 1500))
}

/// Saturn: stripes, the ring band, the texture, lit by the intensity clamped
/// to `[0.1, 1.5]`.
pub fn saturn_shader(y: u32, intensity: i64, wave: i64, n: i64) -> (c: Color)
    requires
        is_unit(n as int),
    ensures
        c == saturn_spec(y as int, intensity as int, wave as int, n as int),
{
    let lines = saturn_lines(wave);
    let ring = saturn_ring(y, lines);
    saturn_texture(n, ring).scale(clamp_i64(intensity, 100, 1500))
}

// ---------------------------------------------------------------- Neptune

pub open spec fn neptune_texture_spec(fine: int, area: int) -> Color {
    hex(0x1350ba).scale_spec(max_int(area, fine))
}

/// Texture of neptune: its blue scaled by the larger of the fine and the
/// large-area noise values.
pub fn neptune_texture(fine: i64, area: i64) -> (c: Color)
    requires
        is_unit(fine as int),
        is_unit(area as int),
    ensures
        c == neptune_texture_spec(fine as int, area as int),
{
    Color::from_hex(0x1350ba).scale(max_i64(area, fine))
}

pub open spec fn neptune_spec(intensity: int, fine: int, area: int) -> Color {
    neptune_texture_spec(fine, area).scale_spec(clamp_int(intensity, 50, 2000))
}

/// Neptune: its texture lit by the intensity clamped to `[0.05, 2]`.
pub fn neptune_shader(intensity: i64, fine: i64, area: i64) -> (c: Color)
    requires
        is_unit(fine as int),
        is_unit(area as int),
    ensures
        c == neptune_spec(intensity as int, fine as int, area as int),
{
    neptune_texture(fine, area).scale(clamp_i64(intensity, 50, 2000))
}

} // verus!
