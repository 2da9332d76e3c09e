use vstd::prelude::*;
use crate::fixed::{clamp_int, UNIT};

verus! {

/// An opaque RGB color with one 8-bit channel each.
#[derive(Debug, Clone, Copy, PartialEq, Eq, Structural)]
pub struct Color {
    pub r: u8,
    pub g: u8,
    pub b: u8,
}

/// A channel value clamped to `[0, 255]`.
pub open spec fn clamp_channel(v: int) -> int {
    clamp_int(v, 0, 255)
}

/// Multiply blend of one channel: `a * b / 255`, truncated.
pub open spec fn multiply_channel(a: int, b: int) -> int {
    a * b / 255
}

/// Screen blend of one channel: `255 - (255 - a) * (255 - b) / 255`.
pub open spec fn screen_channel(a: int, b: int) -> int {
    255 - (255 - a) * (255 - b) / 255
}

/// Saturating addition of one channel.
pub open spec fn add_channel(a: int, b: int) -> int {
    if a + b > 255 {
        255
    } else {
        a + b
    }
}

/// Saturating subtraction of one channel.
pub open spec fn sub_channel(a: int, b: int) -> int {
    if a - b < 0 {
        0
    } else {
        a - b
    }
}

/// A channel scaled by the fixed-point factor `f` (thousandths), truncated and clamped.
pub open spec fn scale_channel(a: int, f: int) -> int {
    clamp_channel(a * f / 1000)
}

/// Interpolation of one channel from `a` towards `b` by the fixed-point weight
/// `t` in `[0, 1000]`, rounded to nearest with halves rounded up.
pub open spec fn lerp_channel(a: int, b: int, t: int) -> int {
    (2 * (a * 1000 + (b - a) * t) + 1000) / 2000
}

/// Packed `0xRRGGBB` value of the channels.
pub open spec fn hex_of(r: int, g: int, b: int) -> int {
    r * 65536 + g * 256 + b
}

impl Color {
    /// The color whose channels are the given ones.
    pub open spec fn rgb(self, r: int, g: int, b: int) -> bool {
        self.r == r && self.g == g && self.b == b
    }

    pub open spec fn black_spec(self) -> bool {
        self.r == 0 && self.g == 0 && self.b == 0
    }

    /// Per-channel saturating addition.
    pub open spec fn add_spec(self, o: Color) -> Color {
        Color {
            r: add_channel(self.r as int, o.r as int) as u8,
            g: add_channel(self.g as int, o.g as int) as u8,
            b: add_channel(self.b as int, o.b as int) as u8,
        }
    }

    /// Per-channel multiply blend.
    pub open spec fn multiply_spec(self, o: Color) -> Color {
        Color {
            r: multiply_channel(self.r as int, o.r as int) as u8,
            g: multiply_channel(self.g as int, o.g as int) as u8,
            b: multiply_channel(self.b as int, o.b as int) as u8,
        }
    }

    /// Subtractive blend: black on top leaves the base as it is.
    pub open spec fn subtract_spec(self, o: Color) -> Color {
        if o.black_spec() {
            self
        } else {
            Color {
                r: sub_channel(self.r as int, o.r as int) as u8,
                g: sub_channel(self.g as int, o.g as int) as u8,
                b: sub_channel(self.b as int, o.b as int) as u8,
            }
        }
    }

    /// Interpolation by a weight `t` already clamped to `[0, 1000]`.
    pub open spec fn lerp_spec(self, o: Color, t: int) -> Color {
        Color {
            r: lerp_channel(self.r as int, o.r as int, t) as u8,
            g: lerp_channel(self.g as int, o.g as int, t) as u8,
            b: lerp_channel(self.b as int, o.b as int, t) as u8,
        }
    }

    /// Every channel scaled by the fixed-point factor `f`, truncated and clamped.
    pub open spec fn scale_spec(self, f: int) -> Color {
        Color {
            r: scale_channel(self.r as int, f) as u8,
            g: scale_channel(self.g as int, f) as u8,
            b: scale_channel(self.b as int, f) as u8,
        }
    }

    /// The color that a packed `0xRRGGBB` value stands for.
    pub open spec fn from_hex_spec(h: int) -> Color {
        Color { r: ((h / 65536) % 256) as u8, g: ((h / 256) % 256) as u8, b: (h % 256) as u8 }
    }

    pub open spec fn hex_spec(self) -> int {
        hex_of(self.r as int, self.g as int, self.b as int)
    }

    /// A color from integer channels, each clamped to `[0, 255]`.
    pub fn new(r: i32, g: i32, b: i32) -> (c: Color)
        ensures
            c.rgb(clamp_channel(r as int), clamp_channel(g as int), clamp_channel(b as int)),
    {
        Color { r: clamp_to_channel(r as i64), g: clamp_to_channel(g as i64), b: clamp_to_channel(b as i64) }
    }

    pub fn black() -> (c: Color)
        ensures
            c.rgb(0, 0, 0),
    {
        Color { r: 0x00, g: 0x00, b: 0x00 }
    }

    /// The color packed as `0xRRGGBB` in the low 24 bits of `hex`; higher bits are ignored.
    pub fn from_hex(hex: u32) -> (c: Color)
        ensures
            c == Color::from_hex_spec(hex as int),
    {
        let r = (hex / 65536 % 256) as u8;
        let g = (hex / 256 % 256) as u8;
        let b = (hex % 256) as u8;
        Color { r, g, b }
    }

    /// The color packed as `0xRRGGBB`.
    pub fn to_hex(&self) -> (h: u32)
        ensures
            h == self.hex_spec(),
    {
        (self.r as u32) * 65536 + (self.g as u32) * 256 + (self.b as u32)
    }

    /// Interpolates from `self` (at `t == 0`) towards `other` (at `t == 1000`);
    /// `t` is a fixed-point weight, clamped to `[0, 1000]`.
    pub fn lerp(&self, other: &Color, t: i64) -> (c: Color)
        ensures
            c == self.lerp_spec(*other, clamp_int(t as int, 0, 1000)),
    {
        let tc = if t < 0 {
            0
        } else if t > UNIT {
            UNIT
        } else {
            t
        };
        Color {
            r: lerp_u8(self.r, other.r, tc),
            g: lerp_u8(self.g, other.g, tc),
            b: lerp_u8(self.b, other.b, tc),
        }
    }

    pub fn is_black(&self) -> (r: bool)
        ensures
            r == self.black_spec(),
    {
        self.r == 0 && self.g == 0 && self.b == 0
    }

    /// Screen blend: per channel `255 - (255 - self) * (255 - top) / 255`.
    pub fn blend_screen(&self, top: &Color) -> (c: Color)
        ensures
            c.rgb(
                screen_channel(self.r as int, top.r as int),
                screen_channel(self.g as int, top.g as int),
                screen_channel(self.b as int, top.b as int),
            ),
    {
        Color { r: screen_u8(self.r, top.r), g: screen_u8(self.g, top.g), b: screen_u8(self.b, top.b) }
    }

    /// Normal blend: `top`, unless it is black, which stands for transparent.
    pub fn blend_normal(&self, top: &Color) -> (c: Color)
        ensures
            c == (if top.black_spec() { *self } else { *top }),
    {
        if top.is_black() {
            *self
        } else {
            *top
        }
    }

    /// Multiply blend: per channel `self * top / 255`, truncated.
    pub fn blend_multiply(&self, top: &Color) -> (c: Color)
        ensures
            c == self.multiply_spec(*top),
    {
        Color {
            r: multiply_u8(self.r, top.r),
            g: multiply_u8(self.g, top.g),
            b: multiply_u8(self.b, top.b),
        }
    }

    /// Additive blend: per channel saturating addition.
    pub fn blend_add(&self, top: &Color) -> (c: Color)
        ensures
            c == self.add_spec(*top),
    {
        Color { r: add_u8(self.r, top.r), g: add_u8(self.g, top.g), b: add_u8(self.b, top.b) }
    }

    /// Subtractive blend: `self` when `top` is black, else per channel saturating subtraction.
    pub fn blend_subtract(&self, top: &Color) -> (c: Color)
        ensures
            c == self.subtract_spec(*top),
    {
        if top.is_black() {
            *self
        } else {
            Color {
                r: sub_u8(self.r, top.r),
                g: sub_u8(self.g, top.g),
                b: sub_u8(self.b, top.b),
            }
        }
    }

    /// Plain additive combination: per channel saturating addition.
    pub fn add(self, other: Color) -> (c: Color)
        ensures
            c == self.add_spec(other),
    {
        Color { r: add_u8(self.r, other.r), g: add_u8(self.g, other.g), b: add_u8(self.b, other.b) }
    }

    /// Every channel multiplied by the fixed-point factor `factor` (thousandths),
    /// truncated and clamped to `[0, 255]`.
    pub fn scale(self, factor: i64) -> (c: Color)
        ensures
            c == self.scale_spec(factor as int),
    {
        Color { r: scale_u8(self.r, factor), g: scale_u8(self.g, factor), b: scale_u8(self.b, factor) }
    }
}

fn clamp_to_channel(v: i64) -> (r: u8)
    ensures
        r == clamp_channel(v as int),
{
    if v < 0 {
        0
    } else if v > 255 {
        255
    } else {
        v as u8
    }
}

fn lerp_u8(a: u8, b: u8, t: i64) -> (r: u8)
    requires
        0 <= t <= 1000,
    ensures
        r == lerp_channel(a as int, b as int, t as int),
{
    let ai = a as i64;
    let bi = b as i64;
    proof {
        lemma_lerp_bounds(ai as int, bi as int, t as int);
    }
    let num = ai * 1000 + (bi - ai) * t;
    ((2 * num + 1000) / 2000) as u8
}

proof fn lemma_lerp_bounds(a: int, b: int, t: int)
    requires
        0 <= a <= 255,
        0 <= b <= 255,
        0 <= t <= 1000,
    ensures
        -255000 <= (b - a) * t <= 255000,
        0 <= a * 1000 + (b - a) * t <= 255000,
        0 <= (2 * (a * 1000 + (b - a) * t) + 1000) / 2000 <= 255,
{
    assert(-255000 <= (b - a) * t <= 255000) by (nonlinear_arith)
        requires
            -255 <= b - a <= 255,
            0 <= t <= 1000,
    ;
    assert(0 <= a * 1000 + (b - a) * t <= 255000) by (nonlinear_arith)
        requires
            0 <= a <= 255,
            0 <= b <= 255,
            0 <= t <= 1000,
    ;
}

fn screen_u8(a: u8, b: u8) -> (r: u8)
    ensures
        r == screen_channel(a as int, b as int),
{
    let x = 255 - a as u32;
    let y = 255 - b as u32;
    assert(x * y <= 255 * 255) by (nonlinear_arith)
        requires
            x <= 255,
            y <= 255,
    ;
    assert(x * y / 255 <= 255) by (nonlinear_arith)
        requires
            x * y <= 255 * 255,
    ;
    (255 - x * y / 255) as u8
}

fn multiply_u8(a: u8, b: u8) -> (r: u8)
    ensures
        r == multiply_channel(a as int, b as int),
{
    let x = a as u32;
    let y = b as u32;
    assert(x * y <= 255 * 255) by (nonlinear_arith)
        requires
            x <= 255,
            y <= 255,
    ;
    assert(x * y / 255 <= 255) by (nonlinear_arith)
        requires
            x * y <= 255 * 255,
    ;
    (x * y / 255) as u8
}

fn add_u8(a: u8, b: u8) -> (r: u8)
    ensures
        r == add_channel(a as int, b as int),
{
    let s = a as u16 + b as u16;
    if s > 255 {
        255
    } else {
        s as u8
    }
}

fn sub_u8(a: u8, b: u8) -> (r: u8)
    ensures
        r == sub_channel(a as int, b as int),
{
    if a < b {
        0
    } else {
        a - b
    }
}

fn scale_u8(a: u8, f: i64) -> (r: u8)
    ensures
        r == scale_channel(a as int, f as int),
{
    let ai = a as i64;
    if f <= 0 || ai == 0 {
        assert(ai * f <= 0) by (nonlinear_arith)
            requires
                f <= 0 || ai == 0,
                ai >= 0,
        ;
        assert((ai * f) / 1000 <= 0);
        0
    } else if f >= 255000 {
        assert(ai * f >= f) by (nonlinear_arith)
            requires
                ai >= 1,
                f > 0,
        ;
        255
    } else {
        assert(0 < ai * f < 255 * 255000) by (nonlinear_arith)
            requires
                1 <= ai <= 255,
                0 < f < 255000,
        ;
        let q = ai * f / 1000;
        if q > 255 {
            255
        } else {
            q as u8
        }
    }
}

/// Additive blending does not depend on the order of its operands.
pub proof fn lemma_blend_add_commutative(a: Color, b: Color)
    ensures
        a.add_spec(b) == b.add_spec(a),
{
}

/// Multiplying by white leaves a color unchanged.
pub proof fn lemma_blend_multiply_white(c: Color)
    ensures
        c.multiply_spec(Color { r: 255, g: 255, b: 255 }) == c,
{
}

/// Subtracting black leaves a color unchanged.
pub proof fn lemma_blend_subtract_black(c: Color)
    ensures
        c.subtract_spec(Color { r: 0, g: 0, b: 0 }) == c,
{
}

/// Interpolating a color with itself gives that color, whatever the weight.
pub proof fn lemma_lerp_same(c: Color, t: int)
    requires
        0 <= t <= 1000,
    ensures
        c.lerp_spec(c, t) == c,
{
    lemma_lerp_channel_same(c.r as int, t);
    lemma_lerp_channel_same(c.g as int, t);
    lemma_lerp_channel_same(c.b as int, t);
}

proof fn lemma_lerp_channel_same(a: int, t: int)
    requires
        0 <= t <= 1000,
    ensures
        lerp_channel(a, a, t) == a,
{
    assert((a - a) * t == 0);
    assert((2 * (a * 1000) + 1000) / 2000 == a) by (nonlinear_arith);
}

/// Unpacking the packed form of a color gives the same color back.
pub proof fn lemma_hex_round_trip(c: Color)
    ensures
        Color::from_hex_spec(c.hex_spec()) == c,
{
    let r = c.r as int;
    let g = c.g as int;
    let b = c.b as int;
    assert((r * 65536 + g * 256 + b) / 65536 == r) by (nonlinear_arith)
        requires
            0 <= r < 256,
            0 <= g < 256,
            0 <= b < 256,
    ;
    assert((r * 65536 + g * 256 + b) / 256 == r * 256 + g) by (nonlinear_arith)
        requires
            0 <= g < 256,
            0 <= b < 256,
    ;
    assert((r * 256 + g) % 256 == g) by (nonlinear_arith)
        requires
            0 <= r,
            0 <= g < 256,
    ;
    assert((r * 65536 + g * 256 + b) % 256 == b) by (nonlinear_arith)
        requires
            0 <= r,
            0 <= g,
            0 <= b < 256,
    ;
}

} // verus!
