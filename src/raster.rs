use vstd::prelude::*;
use crate::color::Color;
use crate::fixed::{clamp_int, max_int, min_int};

verus! {

/// Largest magnitude of a screen-space coordinate, in thousandths of a pixel.
pub const COORD_LIMIT: i64 = 1000000000000;

/// A screen-space position: `x`, `y` in thousandths of a pixel, `z` the depth
/// in thousandths.
#[derive(Debug, Clone, Copy, PartialEq, Eq, Structural)]
pub struct ScreenPoint {
    pub x: i64,
    pub y: i64,
    pub z: i64,
}

impl ScreenPoint {
    pub open spec fn in_range(self) -> bool {
        -COORD_LIMIT <= self.x <= COORD_LIMIT && -COORD_LIMIT <= self.y <= COORD_LIMIT
            && -COORD_LIMIT <= self.z <= COORD_LIMIT
    }
}

/// Twice the signed area of the triangle `(a, b, c)` over `(x, y)`; its sign is
/// the winding order.
pub open spec fn edge(ax: int, ay: int, bx: int, by: int, cx: int, cy: int) -> int {
    (bx - ax) * (cy - ay) - (by - ay) * (cx - ax)
}

pub open spec fn edge_of(a: ScreenPoint, b: ScreenPoint, c: ScreenPoint) -> int {
    edge(a.x as int, a.y as int, b.x as int, b.y as int, c.x as int, c.y as int)
}

/// The three unnormalised barycentric weights of `(px, py)`: the edge values of
/// `(b, c, p)`, `(c, a, p)` and `(a, b, p)`. Divided by `edge_of(a, b, c)` they
/// are the weights of `a`, `b` and `c`.
pub open spec fn weights(a: ScreenPoint, b: ScreenPoint, c: ScreenPoint, px: int, py: int) -> (int, int, int) {
    (
        edge(b.x as int, b.y as int, c.x as int, c.y as int, px, py),
        edge(c.x as int, c.y as int, a.x as int, a.y as int, px, py),
        edge(a.x as int, a.y as int, b.x as int, b.y as int, px, py),
    )
}

/// The weight `e / area` lies in the closed interval `[0, 1]`.
pub open spec fn unit_weight(e: int, area: int) -> bool {
    if area > 0 {
        0 <= e <= area
    } else {
        area <= e <= 0
    }
}

/// The point `(px, py)` (thousandths of a pixel) is accepted by the inclusive
/// containment test of a triangle of non-zero area.
pub open spec fn covers(a: ScreenPoint, b: ScreenPoint, c: ScreenPoint, px: int, py: int) -> bool {
    let area = edge_of(a, b, c);
    let w = weights(a, b, c, px, py);
    area != 0 && unit_weight(w.0, area) && unit_weight(w.1, area) && unit_weight(w.2, area)
}

/// `n / d` for `d > 0`, rounded towards zero.
pub open spec fn div_toward_zero(n: int, d: int) -> int {
    if n >= 0 {
        n / d
    } else {
        -((-n) / d)
    }
}

/// Depth at `(px, py)`: the barycentric-weighted sum of the corners' depths,
/// rounded towards zero.
pub open spec fn depth_at(a: ScreenPoint, b: ScreenPoint, c: ScreenPoint, px: int, py: int) -> int {
    let area = edge_of(a, b, c);
    let w = weights(a, b, c, px, py);
    let num = a.z * w.0 + b.z * w.1 + c.z * w.2;
    if area > 0 {
        div_toward_zero(num, area)
    } else {
        div_toward_zero(-num, -area)
    }
}

/// The floor of `v / 1000`.
pub open spec fn floor_unit(v: int) -> int {
    v / 1000
}

/// The ceiling of `v / 1000`.
pub open spec fn ceil_unit(v: int) -> int {
    (v + 999) / 1000
}

/// The pixel box `[x0, x1) x [y0, y1)` of a triangle: floors of the smallest
/// coordinates, ceilings of the largest.
pub open spec fn box_of(a: ScreenPoint, b: ScreenPoint, c: ScreenPoint) -> (int, int, int, int) {
    (
        floor_unit(min_int(a.x as int, min_int(b.x as int, c.x as int))),
        floor_unit(min_int(a.y as int, min_int(b.y as int, c.y as int))),
        ceil_unit(max_int(a.x as int, max_int(b.x as int, c.x as int))),
        ceil_unit(max_int(a.y as int, max_int(b.y as int, c.y as int))),
    )
}

/// Light intensity of a face whose normal has fixed-point dot product
/// `light_dot` with the light direction: never below 0.3.
pub open spec fn intensity_of(light_dot: int) -> int {
    max_int(light_dot, 300)
}

/// Grey base color of flat shading, scaled by the intensity.
pub open spec fn flat_color(intensity: int) -> Color {
    Color { r: 100, g: 100, b: 100 }.scale_spec(intensity)
}

/// A pixel candidate produced by rasterizing one triangle.
#[derive(Debug, Clone, Copy, PartialEq, Eq, Structural)]
pub struct Fragment {
    pub x: u32,
    pub y: u32,
    pub color: Color,
    pub depth: i128,
    pub intensity: i64,
}

impl Fragment {
    pub fn new(x: u32, y: u32, color: Color, depth: i128, intensity: i64) -> (f: Fragment)
        ensures
            f == (Fragment { x, y, color, depth, intensity }),
    {
        Fragment { x, y, color, depth, intensity }
    }

    /// `self` comes strictly before `o` in row-major order.
    pub open spec fn before(self, o: Fragment) -> bool {
        self.y < o.y || (self.y == o.y && self.x < o.x)
    }
}

/// Twice the signed area of the triangle `(a, b, c)`.
pub fn edge_function(a: &ScreenPoint, b: &ScreenPoint, c: &ScreenPoint) -> (r: i128)
    requires
        a.in_range(),
        b.in_range(),
        c.in_range(),
    ensures
        r == edge_of(*a, *b, *c),
{
    edge_i128(a.x as i128, a.y as i128, b.x as i128, b.y as i128, c.x as i128, c.y as i128)
}

/// Bound on the coordinates that `edge_i128` accepts.
pub open spec fn small(v: int) -> bool {
    -2 * COORD_LIMIT <= v <= 2 * COORD_LIMIT
}

fn edge_i128(ax: i128, ay: i128, bx: i128, by: i128, cx: i128, cy: i128) -> (r: i128)
    requires
        small(ax as int),
        small(ay as int),
        small(bx as int),
        small(by as int),
        small(cx as int),
        small(cy as int),
    ensures
        r == edge(ax as int, ay as int, bx as int, by as int, cx as int, cy as int),
        -edge_limit() <= r <= edge_limit(),
{
    let dx1 = bx - ax;
    let dy1 = cy - ay;
    let dy2 = by - ay;
    let dx2 = cx - ax;
    proof {
        lemma_product_bound(dx1 as int, dy1 as int);
        lemma_product_bound(dy2 as int, dx2 as int);
    }
    dx1 * dy1 - dy2 * dx2
}

proof fn lemma_product_bound(u: int, v: int)
    requires
        -4 * COORD_LIMIT <= u <= 4 * COORD_LIMIT,
        -4 * COORD_LIMIT <= v <= 4 * COORD_LIMIT,
    ensures
        -16000000000000000000000000 <= u * v <= 16000000000000000000000000,
{
    let l = 4 * COORD_LIMIT;
    assert(l * l == 16000000000000000000000000) by (nonlinear_arith)
        requires
            l == 4000000000000,
    ;
    assert(-l * l <= u * v <= l * l) by (nonlinear_arith)
        requires
            -l <= u <= l,
            -l <= v <= l,
    ;
}

/// The unnormalised barycentric weights of `p` in the triangle `(a, b, c)`;
/// each divided by `edge_function(a, b, c)` gives the weight of `a`, `b` and `c`.
pub fn barycentric(p: &ScreenPoint, a: &ScreenPoint, b: &ScreenPoint, c: &ScreenPoint) -> (w: (i128, i128, i128))
    requires
        p.in_range(),
        a.in_range(),
        b.in_range(),
        c.in_range(),
    ensures
        w.0 == weights(*a, *b, *c, p.x as int, p.y as int).0,
        w.1 == weights(*a, *b, *c, p.x as int, p.y as int).1,
        w.2 == weights(*a, *b, *c, p.x as int, p.y as int).2,
{
    let px = p.x as i128;
    let py = p.y as i128;
    (
        edge_i128(b.x as i128, b.y as i128, c.x as i128, c.y as i128, px, py),
        edge_i128(c.x as i128, c.y as i128, a.x as i128, a.y as i128, px, py),
        edge_i128(a.x as i128, a.y as i128, b.x as i128, b.y as i128, px, py),
    )
}

fn floor_div_unit(v: i64) -> (r: i64)
    requires
        -COORD_LIMIT <= v <= COORD_LIMIT + 999,
    ensures
        r == floor_unit(v as int),
{
    if v >= 0 {
        v / 1000
    } else {
        let q = (-v + 999) / 1000;
        proof {
            assert(-(((-v) + 999) / 1000) == v / 1000) by (nonlinear_arith)
                requires
                    v < 0,
            ;
        }
        -q
    }
}

fn ceil_div_unit(v: i64) -> (r: i64)
    requires
        -COORD_LIMIT <= v <= COORD_LIMIT,
    ensures
        r == ceil_unit(v as int),
{
    floor_div_unit(v + 999)
}

/// The pixel box `(min_x, min_y, max_x, max_y)` of a triangle, maxima exclusive.
pub fn bounding_box(a: &ScreenPoint, b: &ScreenPoint, c: &ScreenPoint) -> (r: (i64, i64, i64, i64))
    requires
        a.in_range(),
        b.in_range(),
        c.in_range(),
    ensures
        r.0 == box_of(*a, *b, *c).0,
        r.1 == box_of(*a, *b, *c).1,
        r.2 == box_of(*a, *b, *c).2,
        r.3 == box_of(*a, *b, *c).3,
{
    let min_x = if a.x <= b.x && a.x <= c.x { a.x } else if b.x <= c.x { b.x } else { c.x };
    let min_y = if a.y <= b.y && a.y <= c.y { a.y } else if b.y <= c.y { b.y } else { c.y };
    let max_x = if a.x >= b.x && a.x >= c.x { a.x } else if b.x >= c.x { b.x } else { c.x };
    let max_y = if a.y >= b.y && a.y >= c.y { a.y } else if b.y >= c.y { b.y } else { c.y };
    (floor_div_unit(min_x), floor_div_unit(min_y), ceil_div_unit(max_x), ceil_div_unit(max_y))
}

/// Light intensity of a face from the fixed-point dot product of its unit
/// normal with the light direction, floored at 0.3.
pub fn face_intensity(light_dot: i64) -> (r: i64)
    ensures
        r == intensity_of(light_dot as int),
{
    if light_dot >= 300 {
        light_dot
    } else {
        300
    }
}

/// Flat shading: a grey base color scaled by the face intensity.
pub fn flat_shading(intensity: i64) -> (c: Color)
    ensures
        c == flat_color(intensity as int),
{
    Color::new(100, 100, 100).scale(intensity)
}

/// The pixel box of a triangle clamped to a `width` x `height` target.
pub open spec fn clipped_box(a: ScreenPoint, b: ScreenPoint, c: ScreenPoint, width: int, height: int) -> (int, int, int, int) {
    let bx = box_of(a, b, c);
    (clamp_int(bx.0, 0, width), clamp_int(bx.1, 0, height), clamp_int(bx.2, 0, width), clamp_int(bx.3, 0, height))
}

/// The pixel `(px, py)` lies in the clipped box.
pub open spec fn in_clipped_box(a: ScreenPoint, b: ScreenPoint, c: ScreenPoint, width: int, height: int, px: int, py: int) -> bool {
    let bx = clipped_box(a, b, c, width, height);
    bx.0 <= px < bx.2 && bx.1 <= py < bx.3
}

/// The pixel center of `(px, py)` is accepted by the triangle.
pub open spec fn covers_pixel(a: ScreenPoint, b: ScreenPoint, c: ScreenPoint, px: int, py: int) -> bool {
    covers(a, b, c, px * 1000, py * 1000)
}

/// `f` is the fragment that the triangle yields at its pixel, lit by `light_dot`.
pub open spec fn fragment_of(a: ScreenPoint, b: ScreenPoint, c: ScreenPoint, light_dot: int, f: Fragment) -> bool {
    &&& covers_pixel(a, b, c, f.x as int, f.y as int)
    &&& f.depth == depth_at(a, b, c, f.x * 1000, f.y * 1000)
    &&& f.intensity == intensity_of(light_dot)
    &&& f.color == flat_color(intensity_of(light_dot))
}

/// Some fragment of `fs` stands at pixel `(px, py)`.
pub open spec fn has_pixel(fs: Seq<Fragment>, px: int, py: int) -> bool {
    exists|i: int| 0 <= i < fs.len() && fs[i].x == px && fs[i].y == py
}

/// `fs` is the scan conversion of the triangle `(a, b, c)` lit by `light_dot`
/// into a `width` x `height` target: nothing for a triangle of zero area;
/// otherwise, in strictly increasing row-major order, exactly one fragment for
/// each pixel of the clipped box whose center the triangle accepts. These
/// conditions fix `fs` completely.
pub open spec fn fill_result(a: ScreenPoint, b: ScreenPoint, c: ScreenPoint, light_dot: int, width: int, height: int, fs: Seq<Fragment>) -> bool {
    &&& edge_of(a, b, c) == 0 ==> fs.len() == 0
    &&& forall|i: int| 0 <= i < fs.len() ==> fragment_of(a, b, c, light_dot, #[trigger] fs[i])
    &&& forall|i: int| 0 <= i < fs.len() ==> in_clipped_box(a, b, c, width, height, #[trigger] fs[i].x as int, fs[i].y as int)
    &&& forall|i: int, j: int| 0 <= i < j < fs.len() ==> (#[trigger] fs[i]).before(#[trigger] fs[j])
    &&& forall|px: int, py: int|
        in_clipped_box(a, b, c, width, height, px, py) && #[trigger] covers_pixel(a, b, c, px, py) ==> has_pixel(fs, px, py)
}

/// Scan-converts the triangle `(a, b, c)` into the pixels of a `width` x
/// `height` target: one fragment, in row-major order, for each pixel of the
/// clipped box whose center has all three barycentric weights in `[0, 1]`,
/// with the interpolated depth and the face's intensity. A triangle of zero
/// area yields nothing.
pub fn triangle_fill(a: &ScreenPoint, b: &ScreenPoint, c: &ScreenPoint, light_dot: i64, width: u32, height: u32) -> (fs: Vec<Fragment>)
    requires
        a.in_range(),
        b.in_range(),
        c.in_range(),
    ensures
        edge_of(*a, *b, *c) == 0 ==> fs@.len() == 0,
        forall|i: int| 0 <= i < fs@.len() ==> fragment_of(*a, *b, *c, light_dot as int, #[trigger] fs@[i]),
        forall|i: int|
            0 <= i < fs@.len() ==> in_clipped_box(*a, *b, *c, width as int, height as int, #[trigger] fs@[i].x as int, fs@[i].y as int),
        forall|i: int, j: int| 0 <= i < j < fs@.len() ==> (#[trigger] fs@[i]).before(#[trigger] fs@[j]),
        forall|px: int, py: int|
            in_clipped_box(*a, *b, *c, width as int, height as int, px, py) && #[trigger] covers_pixel(*a, *b, *c, px, py)
                ==> has_pixel(fs@, px, py),
{
    let mut fs: Vec<Fragment> = Vec::new();
    let area = edge_function(a, b, c);
    if area == 0 {
        return fs;
    }
    let bx = bounding_box(a, b, c);
    proof {
        lemma_box_bounds(*a, *b, *c);
    }
    let x0 = clamp_box(bx.0, width as i64);
    let y0 = clamp_box(bx.1, height as i64);
    let x1 = clamp_box(bx.2, width as i64);
    let y1 = clamp_box(bx.3, height as i64);
    let intensity = face_intensity(light_dot);
    let color = flat_shading(intensity);
    let mut y: i64 = y0;
    while y < y1
        invariant
            a.in_range(),
            b.in_range(),
            c.in_range(),
            area == edge_of(*a, *b, *c),
            area != 0,
            intensity == intensity_of(light_dot as int),
            color == flat_color(intensity as int),
            x0 == clipped_box(*a, *b, *c, width as int, height as int).0,
            y0 == clipped_box(*a, *b, *c, width as int, height as int).1,
            x1 == clipped_box(*a, *b, *c, width as int, height as int).2,
            y1 == clipped_box(*a, *b, *c, width as int, height as int).3,
            0 <= x0,
            0 <= y0,
            x1 <= width,
            y1 <= height,
            x1 <= 1000000000,
            y1 <= 1000000000,
            y0 <= y <= y1 || y1 <= y0 == y,
            forall|i: int| 0 <= i < fs@.len() ==> fragment_of(*a, *b, *c, light_dot as int, #[trigger] fs@[i]),
            forall|i: int|
                0 <= i < fs@.len() ==> in_clipped_box(*a, *b, *c, width as int, height as int, #[trigger] fs@[i].x as int, fs@[i].y as int),
            forall|i: int| 0 <= i < fs@.len() ==> (#[trigger] fs@[i]).y < y,
            forall|i: int, j: int| 0 <= i < j < fs@.len() ==> (#[trigger] fs@[i]).before(#[trigger] fs@[j]),
            forall|px: int, py: int|
                in_clipped_box(*a, *b, *c, width as int, height as int, px, py) && py < y && #[trigger] covers_pixel(*a, *b, *c, px, py)
                    ==> has_pixel(fs@, px, py),
        decreases y1 - y,
    {
        let mut x: i64 = x0;
        while x < x1
            invariant
                a.in_range(),
                b.in_range(),
                c.in_range(),
                area == edge_of(*a, *b, *c),
                area != 0,
                intensity == intensity_of(light_dot as int),
                color == flat_color(intensity as int),
                x0 == clipped_box(*a, *b, *c, width as int, height as int).0,
                y0 == clipped_box(*a, *b, *c, width as int, height as int).1,
                x1 == clipped_box(*a, *b, *c, width as int, height as int).2,
                y1 == clipped_box(*a, *b, *c, width as int, height as int).3,
                0 <= x0,
                0 <= y0,
                x1 <= width,
                y1 <= height,
                x1 <= 1000000000,
                y1 <= 1000000000,
                y0 <= y < y1,
                x0 <= x <= x1 || x1 <= x0 == x,
                forall|i: int| 0 <= i < fs@.len() ==> fragment_of(*a, *b, *c, light_dot as int, #[trigger] fs@[i]),
                forall|i: int|
                    0 <= i < fs@.len() ==> in_clipped_box(*a, *b, *c, width as int, height as int, #[trigger] fs@[i].x as int, fs@[i].y as int),
                forall|i: int| 0 <= i < fs@.len() ==> (#[trigger] fs@[i]).y < y || (fs@[i].y == y && fs@[i].x < x),
                forall|i: int, j: int| 0 <= i < j < fs@.len() ==> (#[trigger] fs@[i]).before(#[trigger] fs@[j]),
                forall|px: int, py: int|
                    in_clipped_box(*a, *b, *c, width as int, height as int, px, py) && (py < y || (py == y && px < x))
                        && #[trigger] covers_pixel(*a, *b, *c, px, py) ==> has_pixel(fs@, px, py),
            decreases x1 - x,
        {
            let p = ScreenPoint { x: x * 1000, y: y * 1000, z: 0 };
            let w = barycentric(&p, a, b, c);
            if unit_weight_exec(w.0, area) && unit_weight_exec(w.1, area) && unit_weight_exec(w.2, area) {
                let depth = interpolate_depth(a, b, c, w, area);
                let f = Fragment::new(x as u32, y as u32, color, depth, intensity);
                let ghost old_fs = fs@;
                fs.push(f);
                proof {
                    assert forall|px: int, py: int|
                        in_clipped_box(*a, *b, *c, width as int, height as int, px, py) && (py < y || (py == y && px < x + 1))
                            && #[trigger] covers_pixel(*a, *b, *c, px, py) implies has_pixel(fs@, px, py) by {
                        if py == y && px == x {
                            assert(fs@[fs@.len() - 1] == f);
                        } else {
                            let i = choose|i: int| 0 <= i < old_fs.len() && old_fs[i].x == px && old_fs[i].y == py;
                            assert(fs@[i] == old_fs[i]);
                        }
                    }
                }
            } else {
                proof {
                    assert(!covers_pixel(*a, *b, *c, x as int, y as int));
                }
            }
            x = x + 1;
        }
        y = y + 1;
    }
    fs
}

fn unit_weight_exec(e: i128, area: i128) -> (r: bool)
    ensures
        r == unit_weight(e as int, area as int),
{
    if area > 0 {
        0 <= e && e <= area
    } else {
        area <= e && e <= 0
    }
}

fn clamp_box(v: i64, hi: i64) -> (r: i64)
    requires
        0 <= hi,
    ensures
        r == clamp_int(v as int, 0, hi as int),
{
    if v < 0 {
        0
    } else if v > hi {
        hi
    } else {
        v
    }
}

proof fn lemma_box_bounds(a: ScreenPoint, b: ScreenPoint, c: ScreenPoint)
    requires
        a.in_range(),
        b.in_range(),
        c.in_range(),
    ensures
        box_of(a, b, c).2 <= 1000000000,
        box_of(a, b, c).3 <= 1000000000,
{
    let mx = max_int(a.x as int, max_int(b.x as int, c.x as int));
    let my = max_int(a.y as int, max_int(b.y as int, c.y as int));
    assert((mx + 999) / 1000 <= 1000000000) by (nonlinear_arith)
        requires
            mx <= 1000000000000,
    ;
    assert((my + 999) / 1000 <= 1000000000) by (nonlinear_arith)
        requires
            my <= 1000000000000,
    ;
}

/// Interpolated depth at a point whose unnormalised weights are `w`.
fn interpolate_depth(a: &ScreenPoint, b: &ScreenPoint, c: &ScreenPoint, w: (i128, i128, i128), area: i128) -> (d: i128)
    requires
        a.in_range(),
        b.in_range(),
        c.in_range(),
        area == edge_of(*a, *b, *c),
        area != 0,
        unit_weight(w.0 as int, area as int),
        unit_weight(w.1 as int, area as int),
        unit_weight(w.2 as int, area as int),
    ensures
        ({
            let num = a.z * w.0 + b.z * w.1 + c.z * w.2;
            d == (if area > 0 { div_toward_zero(num, area as int) } else { div_toward_zero(-num, -area) })
        }),
{
    proof {
        lemma_edge_bound(*a, *b, *c);
        lemma_depth_term(a.z as int, w.0 as int, area as int);
        lemma_depth_term(b.z as int, w.1 as int, area as int);
        lemma_depth_term(c.z as int, w.2 as int, area as int);
    }
    let num = (a.z as i128) * w.0 + (b.z as i128) * w.1 + (c.z as i128) * w.2;
    let (n, d) = if area > 0 { (num, area) } else { (-num, -area) };
    if n >= 0 {
        n / d
    } else {
        -((-n) / d)
    }
}

/// Bound on edge values of in-range points.
pub open spec fn edge_limit() -> int {
    32000000000000000000000000
}

proof fn lemma_edge_bound(a: ScreenPoint, b: ScreenPoint, c: ScreenPoint)
    requires
        a.in_range(),
        b.in_range(),
        c.in_range(),
    ensures
        -edge_limit() <= edge_of(a, b, c) <= edge_limit(),
{
    let (u1, v1, u2, v2) = (b.x - a.x, c.y - a.y, b.y - a.y, c.x - a.x);
    lemma_product_bound(u1, v1);
    lemma_product_bound(u2, v2);
    assert(edge_of(a, b, c) == u1 * v1 - u2 * v2);
}

proof fn lemma_depth_term(z: int, e: int, area: int)
    requires
        -COORD_LIMIT <= z <= COORD_LIMIT,
        -edge_limit() <= area <= edge_limit(),
        unit_weight(e, area),
    ensures
        -COORD_LIMIT * edge_limit() <= z * e <= COORD_LIMIT * edge_limit(),
{
    let l = edge_limit();
    let k = COORD_LIMIT as int;
    assert(-l <= e <= l);
    assert(-k * l <= z * e <= k * l) by (nonlinear_arith)
        requires
            -k <= z <= k,
            -l <= e <= l,
    ;
}

/// Swapping two corners of a triangle flips the sign of its edge function.
pub proof fn lemma_edge_winding(a: ScreenPoint, b: ScreenPoint, c: ScreenPoint)
    ensures
        edge_of(a, b, c) == -edge_of(a, c, b),
{
    let (ax, ay, bx, by, cx, cy) = (a.x as int, a.y as int, b.x as int, b.y as int, c.x as int, c.y as int);
    assert((bx - ax) * (cy - ay) - (by - ay) * (cx - ax) == -((cx - ax) * (by - ay) - (cy - ay) * (bx - ax)))
        by (nonlinear_arith);
}

proof fn lemma_edge_swap(ux: int, uy: int, vx: int, vy: int, px: int, py: int)
    ensures
        edge(ux, uy, vx, vy, px, py) == -edge(vx, vy, ux, uy, px, py),
{
    lemma_cross_at(ux, uy, vx, vy, px, py);
    lemma_cross_at(vx, vy, ux, uy, px, py);
    assert((ux - px) * (vy - py) == (vy - py) * (ux - px)) by (nonlinear_arith);
    assert((uy - py) * (vx - px) == (vx - px) * (uy - py)) by (nonlinear_arith);
}

/// Swapping two corners changes neither which points a triangle accepts nor
/// the depth it gives them.
pub proof fn lemma_winding_pointwise(a: ScreenPoint, b: ScreenPoint, c: ScreenPoint, px: int, py: int)
    ensures
        covers(a, b, c, px, py) == covers(a, c, b, px, py),
        covers(a, b, c, px, py) ==> depth_at(a, b, c, px, py) == depth_at(a, c, b, px, py),
{
    lemma_edge_winding(a, b, c);
    let (ax, ay, bx, by, cx, cy) = (a.x as int, a.y as int, b.x as int, b.y as int, c.x as int, c.y as int);
    lemma_edge_swap(cx, cy, bx, by, px, py);
    lemma_edge_swap(bx, by, ax, ay, px, py);
    lemma_edge_swap(ax, ay, cx, cy, px, py);
    let w = weights(a, b, c, px, py);
    let w2 = weights(a, c, b, px, py);
    assert(w2.0 == -w.0 && w2.1 == -w.2 && w2.2 == -w.1);
    let (az, bz, cz) = (a.z as int, b.z as int, c.z as int);
    assert(az * w2.0 + cz * w2.1 + bz * w2.2 == -(az * w.0 + bz * w.1 + cz * w.2)) by (nonlinear_arith)
        requires
            w2.0 == -w.0,
            w2.1 == -w.2,
            w2.2 == -w.1,
    ;
}

/// Both windings of a triangle rasterize alike: whatever fragment sequence is
/// the scan conversion of `(a, b, c)` is also that of `(a, c, b)`.
pub proof fn lemma_fill_winding(
    a: ScreenPoint,
    b: ScreenPoint,
    c: ScreenPoint,
    light_dot: int,
    width: int,
    height: int,
    fs: Seq<Fragment>,
)
    requires
        fill_result(a, b, c, light_dot, width, height, fs),
    ensures
        fill_result(a, c, b, light_dot, width, height, fs),
{
    lemma_edge_winding(a, b, c);
    assert(box_of(a, b, c) == box_of(a, c, b));
    assert forall|i: int| 0 <= i < fs.len() implies fragment_of(a, c, b, light_dot, #[trigger] fs[i]) by {
        lemma_winding_pointwise(a, b, c, fs[i].x * 1000, fs[i].y * 1000);
        assert(fragment_of(a, b, c, light_dot, fs[i]));
    }
    assert forall|i: int| 0 <= i < fs.len() implies in_clipped_box(a, c, b, width, height, #[trigger] fs[i].x as int, fs[i].y as int) by {
        assert(in_clipped_box(a, b, c, width, height, fs[i].x as int, fs[i].y as int));
    }
    assert forall|px: int, py: int|
        in_clipped_box(a, c, b, width, height, px, py) && #[trigger] covers_pixel(a, c, b, px, py) implies has_pixel(fs, px, py) by {
        lemma_winding_pointwise(a, b, c, px * 1000, py * 1000);
        assert(covers_pixel(a, b, c, px, py));
    }
}

proof fn lemma_weighted_sum_bounds(z0: int, z1: int, z2: int, w0: int, w1: int, w2: int, lo: int, hi: int)
    requires
        0 <= w0,
        0 <= w1,
        0 <= w2,
        lo <= z0 <= hi,
        lo <= z1 <= hi,
        lo <= z2 <= hi,
    ensures
        (w0 + w1 + w2) * lo <= z0 * w0 + z1 * w1 + z2 * w2 <= (w0 + w1 + w2) * hi,
{
    assert(lo * w0 <= z0 * w0 <= hi * w0) by (nonlinear_arith)
        requires
            0 <= w0,
            lo <= z0 <= hi,
    ;
    assert(lo * w1 <= z1 * w1 <= hi * w1) by (nonlinear_arith)
        requires
            0 <= w1,
            lo <= z1 <= hi,
    ;
    assert(lo * w2 <= z2 * w2 <= hi * w2) by (nonlinear_arith)
        requires
            0 <= w2,
            lo <= z2 <= hi,
    ;
    assert((w0 + w1 + w2) * lo == lo * w0 + lo * w1 + lo * w2) by (nonlinear_arith);
    assert((w0 + w1 + w2) * hi == hi * w0 + hi * w1 + hi * w2) by (nonlinear_arith);
}

proof fn lemma_quotient_bounds(num: int, d: int, lo: int, hi: int)
    requires
        0 < d,
        d * lo <= num <= d * hi,
    ensures
        lo <= div_toward_zero(num, d) <= hi,
{
    vstd::arithmetic::div_mod::lemma_div_multiples_vanish(lo, d);
    vstd::arithmetic::div_mod::lemma_div_multiples_vanish(hi, d);
    vstd::arithmetic::div_mod::lemma_div_multiples_vanish(-lo, d);
    vstd::arithmetic::div_mod::lemma_div_multiples_vanish(-hi, d);
    if num >= 0 {
        vstd::arithmetic::div_mod::lemma_div_is_ordered(d * lo, num, d);
        vstd::arithmetic::div_mod::lemma_div_is_ordered(num, d * hi, d);
    } else {
        assert(d * (-hi) <= -num <= d * (-lo)) by (nonlinear_arith)
            requires
                d * lo <= num <= d * hi,
        ;
        vstd::arithmetic::div_mod::lemma_div_is_ordered(d * (-hi), -num, d);
        vstd::arithmetic::div_mod::lemma_div_is_ordered(-num, d * (-lo), d);
    }
}

/// The depth that a triangle gives an accepted point lies between the least
/// and the greatest depth of its corners; a triangle of constant depth gives
/// that depth everywhere.
pub proof fn lemma_depth_between_corners(a: ScreenPoint, b: ScreenPoint, c: ScreenPoint, px: int, py: int)
    requires
        covers(a, b, c, px, py),
    ensures
        min_int(a.z as int, min_int(b.z as int, c.z as int)) <= depth_at(a, b, c, px, py) <= max_int(
            a.z as int,
            max_int(b.z as int, c.z as int),
        ),
        a.z == b.z == c.z ==> depth_at(a, b, c, px, py) == a.z,
{
    lemma_barycentric_partition(a, b, c, px, py);
    let area = edge_of(a, b, c);
    let w = weights(a, b, c, px, py);
    let lo = min_int(a.z as int, min_int(b.z as int, c.z as int));
    let hi = max_int(a.z as int, max_int(b.z as int, c.z as int));
    let (az, bz, cz) = (a.z as int, b.z as int, c.z as int);
    let num = az * w.0 + bz * w.1 + cz * w.2;
    if area > 0 {
        lemma_weighted_sum_bounds(az, bz, cz, w.0, w.1, w.2, lo, hi);
        assert(area * lo <= num <= area * hi);
        lemma_quotient_bounds(num, area, lo, hi);
    } else {
        lemma_weighted_sum_bounds(az, bz, cz, -w.0, -w.1, -w.2, lo, hi);
        assert(az * (-w.0) + bz * (-w.1) + cz * (-w.2) == -num) by (nonlinear_arith)
            requires
                num == az * w.0 + bz * w.1 + cz * w.2,
        ;
        assert((-area) * lo <= -num <= (-area) * hi);
        lemma_quotient_bounds(-num, -area, lo, hi);
    }
}

/// The point `(px, py)` lies strictly inside the triangle: on the inner side of
/// all three edges, none of them touching it.
pub open spec fn strictly_inside(a: ScreenPoint, b: ScreenPoint, c: ScreenPoint, px: int, py: int) -> bool {
    let area = edge_of(a, b, c);
    let w = weights(a, b, c, px, py);
    (area > 0 && w.0 > 0 && w.1 > 0 && w.2 > 0) || (area < 0 && w.0 < 0 && w.1 < 0 && w.2 < 0)
}

/// The weight `e / area` lies in the open interval `(0, 1)`.
pub open spec fn open_unit_weight(e: int, area: int) -> bool {
    if area > 0 {
        0 < e < area
    } else {
        area < e < 0
    }
}

/// The unnormalised weights of any point add up to the triangle's edge
/// function, so the weights add up to one; for a point strictly inside, each
/// weight lies in `(0, 1)`.
pub proof fn lemma_barycentric_partition(a: ScreenPoint, b: ScreenPoint, c: ScreenPoint, px: int, py: int)
    ensures
        weights(a, b, c, px, py).0 + weights(a, b, c, px, py).1 + weights(a, b, c, px, py).2 == edge_of(a, b, c),
        strictly_inside(a, b, c, px, py) ==> {
            let area = edge_of(a, b, c);
            let w = weights(a, b, c, px, py);
            open_unit_weight(w.0, area) && open_unit_weight(w.1, area) && open_unit_weight(w.2, area)
        },
{
    let (ax, ay, bx, by, cx, cy) = (a.x - px, a.y - py, b.x - px, b.y - py, c.x - px, c.y - py);
    lemma_cross_at(b.x as int, b.y as int, c.x as int, c.y as int, px, py);
    lemma_cross_at(c.x as int, c.y as int, a.x as int, a.y as int, px, py);
    lemma_cross_at(a.x as int, a.y as int, b.x as int, b.y as int, px, py);
    assert((bx - ax) * (cy - ay) - (by - ay) * (cx - ax) == (bx * cy - by * cx) + (cx * ay - cy * ax) + (ax * by - ay * bx))
        by (nonlinear_arith);
}

proof fn lemma_cross_at(ux: int, uy: int, vx: int, vy: int, px: int, py: int)
    ensures
        edge(ux, uy, vx, vy, px, py) == (ux - px) * (vy - py) - (uy - py) * (vx - px),
{
    let (bx, by, cx, cy) = (ux - px, uy - py, vx - px, vy - py);
    assert((cx - bx) * (-by) - (cy - by) * (-bx) == bx * cy - by * cx) by (nonlinear_arith);
}

/// A pixel of the target whose center lies strictly inside the triangle gets
/// exactly one fragment, and its depth lies between the corners' depths.
pub proof fn lemma_fill_inner_pixel(
    a: ScreenPoint,
    b: ScreenPoint,
    c: ScreenPoint,
    light_dot: int,
    width: int,
    height: int,
    fs: Seq<Fragment>,
    px: int,
    py: int,
)
    requires
        fill_result(a, b, c, light_dot, width, height, fs),
        in_clipped_box(a, b, c, width, height, px, py),
        strictly_inside(a, b, c, px * 1000, py * 1000),
    ensures
        exists|i: int|
            0 <= i < fs.len() && fs[i].x == px && fs[i].y == py && (forall|j: int|
                0 <= j < fs.len() && (#[trigger] fs[j]).x == px && fs[j].y == py ==> j == i)
                && min_int(a.z as int, min_int(b.z as int, c.z as int)) <= fs[i].depth <= max_int(
                a.z as int,
                max_int(b.z as int, c.z as int),
            ),
{
    lemma_barycentric_partition(a, b, c, px * 1000, py * 1000);
    assert(covers_pixel(a, b, c, px, py));
    let i = choose|i: int| 0 <= i < fs.len() && fs[i].x == px && fs[i].y == py;
    assert forall|j: int| 0 <= j < fs.len() && (#[trigger] fs[j]).x == px && fs[j].y == py implies j == i by {
        if j < i {
            assert(fs[j].before(fs[i]));
        } else if i < j {
            assert(fs[i].before(fs[j]));
        }
    }
    assert(fragment_of(a, b, c, light_dot, fs[i]));
    lemma_depth_between_corners(a, b, c, px * 1000, py * 1000);
}

} // verus!
