use vstd::prelude::*;
use crate::color::Color;
use crate::raster::Fragment;
use crate::shading::{
    earth_shader, earth_spec, jupiter_shader, jupiter_spec, mercury_shader, mercury_spec, neptune_shader, neptune_spec,
    normalize_noise, saturn_shader, saturn_spec, sun_shader, sun_spec, unit_noise, venus_shader, venus_spec,
};

verus! {

/// The procedural materials, one per planet.
#[derive(Debug, Clone, Copy, PartialEq, Eq, Structural)]
pub enum Material {
    Sun,
    Mercury,
    Venus,
    Earth,
    Jupiter,
    Saturn,
    Neptune,
}

pub open spec fn material_spec(id: int) -> Material {
    if id == 2 {
        Material::Mercury
    } else if id == 3 {
        Material::Venus
    } else if id == 4 {
        Material::Earth
    } else if id == 5 {
        Material::Jupiter
    } else if id == 6 {
        Material::Saturn
    } else if id == 7 {
        Material::Neptune
    } else {
        Material::Sun
    }
}

/// The material of a selector: 1 sun, 2 mercury, 3 venus, 4 earth, 5 jupiter,
/// 6 saturn, 7 neptune; any other selector falls back to the sun.
pub fn material_from_id(id: u8) -> (m: Material)
    ensures
        m == material_spec(id as int),
{
    match id {
        2 => Material::Mercury,
        3 => Material::Venus,
        4 => Material::Earth,
        5 => Material::Jupiter,
        6 => Material::Saturn,
        7 => Material::Neptune,
        _ => Material::Sun,
    }
}

/// A position at which a material samples the noise field, in thousandths.
#[derive(Debug, Clone, Copy, PartialEq, Eq, Structural)]
pub struct NoisePoint {
    pub x: i64,
    pub y: i64,
}

pub open spec fn np(x: int, y: int) -> NoisePoint {
    NoisePoint { x: x as i64, y: y as i64 }
}

/// The positions that material `m` samples for pixel `(x, y)` at time `t`, in
/// the order in which `shade` reads the samples.
pub open spec fn points_spec(m: Material, x: int, y: int, t: int) -> Seq<NoisePoint> {
    match m {
        Material::Sun => seq![np(x * 5000 + 50000 + t * 1000, y * 5000 + 50000)],
        Material::Mercury => seq![
            np(x * 7000, y * 7000),
            np(x * 1500, y * 1500),
            np((x + 10) * 500, y * 500),
            np((x + 20) * 300, y * 300),
        ],
        Material::Venus => seq![
            np(x * 5000, y * 5000),
            np(x * 1000, y * 1000),
            np((x + 40) * 1000, y * 1000),
            np(x * 10000, y * 10000),
            np(x * 2000, y * 2000),
        ],
        Material::Earth => seq![
            np((x + 100) * 500, (y + 100) * 500),
            np((x + 100) * 8000, (y + 100) * 8000),
            np((x + 100) * 3000, (y + 100) * 3000),
            np(x * 1400 + t * 4000, y * 1400),
            np(x * 5000 + t * 7500, y * 5000),
        ],
        Material::Jupiter => seq![
            np(x * 3000 + t * 1500, y * 10000),
            np(x * 1000 + t * 500, y * 1000),
            np(x * 3000 - t * 1500 + 200000, y * 13000 + 200000),
            np(x * 1000 - t * 500, y * 1000),
            np((x + t) * 20000, y * 20000),
        ],
        Material::Saturn => seq![np(x * 3000, y * 10000)],
        Material::Neptune => seq![np(x * 10000, y * 10000), np(x * 2000, y * 2000)],
    }
}

/// How many noise samples material `m` reads per fragment.
pub open spec fn sample_count(m: Material) -> nat {
    points_spec(m, 0, 0, 0).len()
}

/// Where material `m` samples the noise field for pixel `(x, y)` at time `time`.
pub fn noise_points(m: Material, x: u32, y: u32, time: u32) -> (ps: Vec<NoisePoint>)
    ensures
        ps@ == points_spec(m, x as int, y as int, time as int),
        ps@.len() == sample_count(m),
{
    let x = x as i64;
    let y = y as i64;
    let t = time as i64;
    let mut ps: Vec<NoisePoint> = Vec::new();
    match m {
        Material::Sun => {
            ps.push(NoisePoint { x: x * 5000 + 50000 + t * 1000, y: y * 5000 + 50000 });
        },
        Material::Mercury => {
            ps.push(NoisePoint { x: x * 7000, y: y * 7000 });
            ps.push(NoisePoint { x: x * 1500, y: y * 1500 });
            ps.push(NoisePoint { x: (x + 10) * 500, y: y * 500 });
            ps.push(NoisePoint { x: (x + 20) * 300, y: y * 300 });
        },
        Material::Venus => {
            ps.push(NoisePoint { x: x * 5000, y: y * 5000 });
            ps.push(NoisePoint { x: x * 1000, y: y * 1000 });
            ps.push(NoisePoint { x: (x + 40) * 1000, y: y * 1000 });
            ps.push(NoisePoint { x: x * 10000, y: y * 10000 });
            ps.push(NoisePoint { x: x * 2000, y: y * 2000 });
        },
        Material::Earth => {
            ps.push(NoisePoint { x: (x + 100) * 500, y: (y + 100) * 500 });
            ps.push(NoisePoint { x: (x + 100) * 8000, y: (y + 100) * 8000 });
            ps.push(NoisePoint { x: (x + 100) * 3000, y: (y + 100) * 3000 });
            ps.push(NoisePoint { x: x * 1400 + t * 4000, y: y * 1400 });
            ps.push(NoisePoint { x: x * 5000 + t * 7500, y: y * 5000 });
        },
        Material::Jupiter => {
            ps.push(NoisePoint { x: x * 3000 + t * 1500, y: y * 10000 });
            ps.push(NoisePoint { x: x * 1000 + t * 500, y: y * 1000 });
            ps.push(NoisePoint { x: x * 3000 - t * 1500 + 200000, y: y * 13000 + 200000 });
            ps.push(NoisePoint { x: x * 1000 - t * 500, y: y * 1000 });
            ps.push(NoisePoint { x: (x + t) * 20000, y: y * 20000 });
        },
        Material::Saturn => {
            ps.push(NoisePoint { x: x * 3000, y: y * 10000 });
        },
        Material::Neptune => {
            ps.push(NoisePoint { x: x * 10000, y: y * 10000 });
            ps.push(NoisePoint { x: x * 2000, y: y * 2000 });
        },
    }
    proof {
        assert(ps@ =~= points_spec(m, x as int, y as int, t as int));
    }
    ps
}

/// Period in pixel rows of a material's horizontal stripes, or 0 for a
/// material without stripes. The stripe wave of row `y` is the sine of
/// `pi * y / period`, in thousandths.
pub open spec fn period_spec(m: Material) -> int {
    match m {
        Material::Jupiter => 50,
        Material::Saturn => 5,
        _ => 0,
    }
}

pub fn stripe_period(m: Material) -> (p: u32)
    ensures
        p == period_spec(m),
{
    match m {
        Material::Jupiter => 50,
        Material::Saturn => 5,
        _ => 0,
    }
}

/// The color of material `m` at fragment `f`, from the raw noise samples `s`
/// taken at `points_spec(m, ..)` and the row's stripe wave.
pub open spec fn shade_spec(m: Material, f: Fragment, s: Seq<i64>, wave: int) -> Color {
    let u = |i: int| unit_noise(s[i] as int);
    let i = f.intensity as int;
    match m {
        Material::Sun => sun_spec(u(0)),
        Material::Mercury => mercury_spec(i, u(0), u(1), u(2), u(3)),
        Material::Venus => venus_spec(i, u(0), u(1), u(2), u(3), u(4)),
        Material::Earth => earth_spec(i, u(0), u(1), u(2), u(3), u(4)),
        Material::Jupiter => jupiter_spec(f.x as int, f.y as int, i, wave, u(0), u(1), u(2), u(3), u(4)),
        Material::Saturn => saturn_spec(f.y as int, i, wave, u(0)),
        Material::Neptune => neptune_spec(i, u(0), u(1)),
    }
}

/// Shades fragment `f` with material `m`, given the raw noise samples at the
/// points that `noise_points` names and the row's stripe wave.
pub fn shade(m: Material, f: &Fragment, samples: &Vec<i64>, wave: i64) -> (c: Color)
    requires
        samples@.len() == sample_count(m),
    ensures
        c == shade_spec(m, *f, samples@, wave as int),
{
    let i = f.intensity;
    match m {
        Material::Sun => sun_shader(normalize_noise(samples[0])),
        Material::Mercury => mercury_shader(
            i,
            normalize_noise(samples[0]),
            normalize_noise(samples[1]),
            normalize_noise(samples[2]),
            normalize_noise(samples[3]),
        ),
        Material::Venus => venus_shader(
            i,
            normalize_noise(samples[0]),
            normalize_noise(samples[1]),
            normalize_noise(samples[2]),
            normalize_noise(samples[3]),
            normalize_noise(samples[4]),
        ),
        Material::Earth => earth_shader(
            i,
            normalize_noise(samples[0]),
            normalize_noise(samples[1]),
            normalize_noise(samples[2]),
            normalize_noise(samples[3]),
            normalize_noise(samples[4]),
        ),
        Material::Jupiter => jupiter_shader(
            f.x,
            f.y,
            i,
            wave,
            normalize_noise(samples[0]),
            normalize_noise(samples[1]),
            normalize_noise(samples[2]),
            normalize_noise(samples[3]),
            normalize_noise(samples[4]),
        ),
        Material::Saturn => saturn_shader(f.y, i, wave, normalize_noise(samples[0])),
        Material::Neptune => neptune_shader(i, normalize_noise(samples[0]), normalize_noise(samples[1])),
    }
}

} // verus!
