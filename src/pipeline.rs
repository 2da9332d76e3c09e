use vstd::prelude::*;
use crate::color::Color;
use crate::framebuffer::{nearer, Framebuffer};
use crate::raster::{covers_pixel, fill_result, fragment_of, has_pixel, in_clipped_box, triangle_fill, Fragment, ScreenPoint};

verus! {

/// A vertex after the vertex stage: its screen-space position and the
/// fixed-point dot product of its unit normal with the light direction.
#[derive(Debug, Clone, Copy, PartialEq, Eq, Structural)]
pub struct ScreenVertex {
    pub position: ScreenPoint,
    pub light_dot: i64,
}

/// Triangle `k` of a vertex stream: vertices `3k`, `3k + 1` and `3k + 2`.
pub open spec fn triangle_at(vs: Seq<ScreenVertex>, k: int) -> (ScreenVertex, ScreenVertex, ScreenVertex) {
    (vs[3 * k], vs[3 * k + 1], vs[3 * k + 2])
}

/// Groups a vertex stream into consecutive triples; one or two trailing
/// vertices are dropped.
pub fn assemble_triangles(vs: &Vec<ScreenVertex>) -> (ts: Vec<(ScreenVertex, ScreenVertex, ScreenVertex)>)
    ensures
        ts@.len() == vs@.len() / 3,
        forall|k: int| 0 <= k < ts@.len() ==> #[trigger] ts@[k] == triangle_at(vs@, k),
{
    let mut ts: Vec<(ScreenVertex, ScreenVertex, ScreenVertex)> = Vec::new();
    let n = vs.len();
    let mut i: usize = 0;
    while n - i >= 3
        invariant
            n == vs@.len(),
            i % 3 == 0,
            i <= n,
            ts@.len() == i / 3,
            forall|k: int| 0 <= k < ts@.len() ==> #[trigger] ts@[k] == triangle_at(vs@, k),
        decreases n - i,
    {
        ts.push((vs[i], vs[i + 1], vs[i + 2]));
        i = i + 3;
    }
    ts
}

/// Every vertex position of the stream is within the coordinate limits.
pub open spec fn stream_in_range(vs: Seq<ScreenVertex>) -> bool {
    forall|i: int| 0 <= i < vs.len() ==> (#[trigger] vs[i]).position.in_range()
}

/// `f` is a fragment that triangle `k` of the stream yields.
pub open spec fn from_triangle(vs: Seq<ScreenVertex>, k: int, width: int, height: int, f: Fragment) -> bool {
    let t = triangle_at(vs, k);
    &&& fragment_of(t.0.position, t.1.position, t.2.position, t.0.light_dot as int, f)
    &&& in_clipped_box(t.0.position, t.1.position, t.2.position, width, height, f.x as int, f.y as int)
}

/// `f` is a fragment that one of the first `n` triangles of the stream yields.
pub open spec fn from_some_triangle(vs: Seq<ScreenVertex>, n: int, width: int, height: int, f: Fragment) -> bool {
    exists|k: int| 0 <= k < n && #[trigger] from_triangle(vs, k, width, height, f)
}

/// Pixel `(px, py)` lies in the clipped box of triangle `k` and its center is
/// accepted by it.
pub open spec fn triangle_covers(vs: Seq<ScreenVertex>, k: int, width: int, height: int, px: int, py: int) -> bool {
    let t = triangle_at(vs, k);
    &&& in_clipped_box(t.0.position, t.1.position, t.2.position, width, height, px, py)
    &&& covers_pixel(t.0.position, t.1.position, t.2.position, px, py)
}

/// Some fragment of `fs` at pixel `(px, py)` comes from triangle `k`.
pub open spec fn has_pixel_from(vs: Seq<ScreenVertex>, k: int, width: int, height: int, fs: Seq<Fragment>, px: int, py: int) -> bool {
    exists|i: int| 0 <= i < fs.len() && fs[i].x == px && fs[i].y == py && #[trigger] from_triangle(vs, k, width, height, fs[i])
}

/// `fs` is the concatenation, in stream order, of the scan conversions of the
/// triangles of `vs`: triangle `k` yields exactly `fs[starts[k] .. starts[k + 1]]`.
pub open spec fn mesh_parts(vs: Seq<ScreenVertex>, width: int, height: int, fs: Seq<Fragment>, starts: Seq<int>) -> bool {
    let n = vs.len() as int / 3;
    &&& starts.len() == n + 1
    &&& starts[0] == 0
    &&& starts[n] == fs.len()
    &&& forall|k: int| 0 <= k < n ==> #[trigger] starts[k] <= starts[k + 1]
    &&& forall|k: int|
        0 <= k < n ==> #[trigger] fill_result(
            triangle_at(vs, k).0.position,
            triangle_at(vs, k).1.position,
            triangle_at(vs, k).2.position,
            triangle_at(vs, k).0.light_dot as int,
            width,
            height,
            fs.subrange(starts[k], starts[k + 1]),
        )
}

/// Rasterizes every complete triangle of the stream into a `width` x `height`
/// target: the fragments of each triangle, as `triangle_fill` gives them, one
/// triangle after the other. Each fragment comes from some triangle, lit by
/// that triangle's first vertex; each pixel that a triangle covers has a
/// fragment from that triangle.
pub fn rasterize_mesh(vs: &Vec<ScreenVertex>, width: u32, height: u32) -> (fs: Vec<Fragment>)
    requires
        stream_in_range(vs@),
    ensures
        forall|i: int|
            0 <= i < fs@.len() ==> from_some_triangle(vs@, vs@.len() as int / 3, width as int, height as int, #[trigger] fs@[i]),
        forall|k: int, px: int, py: int|
            0 <= k < vs@.len() / 3 && #[trigger] triangle_covers(vs@, k, width as int, height as int, px, py)
                ==> has_pixel_from(vs@, k, width as int, height as int, fs@, px, py),
        exists|starts: Seq<int>| mesh_parts(vs@, width as int, height as int, fs@, starts),
        vs@.len() < 3 ==> fs@.len() == 0,
{
    let ts = assemble_triangles(vs);
    let mut fs: Vec<Fragment> = Vec::new();
    let mut k: usize = 0;
    let ghost mut starts: Seq<int> = seq![0];
    while k < ts.len()
        invariant
            starts.len() == k + 1,
            starts[0] == 0,
            starts[k as int] == fs@.len(),
            forall|j: int| 0 <= j < k ==> #[trigger] starts[j] <= starts[j + 1],
            forall|j: int|
                0 <= j < k ==> #[trigger] fill_result(
                    triangle_at(vs@, j).0.position,
                    triangle_at(vs@, j).1.position,
                    triangle_at(vs@, j).2.position,
                    triangle_at(vs@, j).0.light_dot as int,
                    width as int,
                    height as int,
                    fs@.subrange(starts[j], starts[j + 1]),
                ),
            stream_in_range(vs@),
            ts@.len() == vs@.len() / 3,
            forall|j: int| 0 <= j < ts@.len() ==> #[trigger] ts@[j] == triangle_at(vs@, j),
            k <= ts@.len(),
            k == 0 ==> fs@.len() == 0,
            forall|i: int|
                0 <= i < fs@.len() ==> from_some_triangle(vs@, k as int, width as int, height as int, #[trigger] fs@[i]),
            forall|j: int, px: int, py: int|
                0 <= j < k && #[trigger] triangle_covers(vs@, j, width as int, height as int, px, py)
                    ==> has_pixel_from(vs@, j, width as int, height as int, fs@, px, py),
        decreases ts@.len() - k,
    {
        let t = ts[k];
        proof {
            assert(t == triangle_at(vs@, k as int));
            assert(vs@[3 * k as int].position.in_range());
            assert(vs@[3 * k as int + 1].position.in_range());
            assert(vs@[3 * k as int + 2].position.in_range());
        }
        let mut part = triangle_fill(&t.0.position, &t.1.position, &t.2.position, t.0.light_dot, width, height);
        let ghost old_fs = fs@;
        let ghost new_part = part@;
        fs.append(&mut part);
        proof {
            assert(fs@ == old_fs + new_part);
            assert forall|i: int| 0 <= i < fs@.len() implies from_some_triangle(
                vs@,
                k + 1,
                width as int,
                height as int,
                #[trigger] fs@[i],
            ) by {
                if i < old_fs.len() {
                    assert(fs@[i] == old_fs[i]);
                    assert(from_some_triangle(vs@, k as int, width as int, height as int, old_fs[i]));
                    let j = choose|j: int| 0 <= j < k && #[trigger] from_triangle(vs@, j, width as int, height as int, old_fs[i]);
                    assert(from_triangle(vs@, j, width as int, height as int, fs@[i]));
                } else {
                    assert(fs@[i] == new_part[i - old_fs.len()]);
                    assert(from_triangle(vs@, k as int, width as int, height as int, fs@[i]));
                }
            }
            assert forall|j: int, px: int, py: int|
                0 <= j < k + 1 && #[trigger] triangle_covers(vs@, j, width as int, height as int, px, py)
                    implies has_pixel_from(vs@, j, width as int, height as int, fs@, px, py) by {
                if j < k {
                    let i = choose|i: int|
                        0 <= i < old_fs.len() && old_fs[i].x == px && old_fs[i].y == py
                            && #[trigger] from_triangle(vs@, j, width as int, height as int, old_fs[i]);
                    assert(fs@[i] == old_fs[i]);
                    assert(from_triangle(vs@, j, width as int, height as int, fs@[i]));
                } else {
                    let tj = triangle_at(vs@, j);
                    assert(covers_pixel(tj.0.position, tj.1.position, tj.2.position, px, py));
                    assert(has_pixel(new_part, px, py));
                    let i = choose|i: int| 0 <= i < new_part.len() && new_part[i].x == px && new_part[i].y == py;
                    assert(fs@[old_fs.len() + i] == new_part[i]);
                    assert(from_triangle(vs@, j, width as int, height as int, fs@[old_fs.len() + i]));
                }
            }
            lemma_extend_parts(vs@, width as int, height as int, old_fs, new_part, starts, k as int);
            starts = starts.push(fs@.len() as int);
        }
        k = k + 1;
    }
    proof {
        assert(mesh_parts(vs@, width as int, height as int, fs@, starts));
    }
    fs
}

/// Appending the fragments of triangle `k` to the parts of the first `k`
/// triangles gives the parts of the first `k + 1`.
proof fn lemma_extend_parts(
    vs: Seq<ScreenVertex>,
    width: int,
    height: int,
    old_fs: Seq<Fragment>,
    new_part: Seq<Fragment>,
    starts: Seq<int>,
    k: int,
)
    requires
        0 <= k,
        starts.len() == k + 1,
        starts[0] == 0,
        starts[k] == old_fs.len(),
        forall|j: int| 0 <= j < k ==> #[trigger] starts[j] <= starts[j + 1],
        forall|j: int|
            0 <= j < k ==> #[trigger] fill_result(
                triangle_at(vs, j).0.position,
                triangle_at(vs, j).1.position,
                triangle_at(vs, j).2.position,
                triangle_at(vs, j).0.light_dot as int,
                width,
                height,
                old_fs.subrange(starts[j], starts[j + 1]),
            ),
        fill_result(
            triangle_at(vs, k).0.position,
            triangle_at(vs, k).1.position,
            triangle_at(vs, k).2.position,
            triangle_at(vs, k).0.light_dot as int,
            width,
            height,
            new_part,
        ),
    ensures
        ({
            let fs = old_fs + new_part;
            let ns = starts.push(fs.len() as int);
            &&& ns.len() == k + 2
            &&& ns[0] == 0
            &&& ns[k + 1] == fs.len()
            &&& forall|j: int| 0 <= j < k + 1 ==> #[trigger] ns[j] <= ns[j + 1]
            &&& forall|j: int|
                0 <= j < k + 1 ==> #[trigger] fill_result(
                    triangle_at(vs, j).0.position,
                    triangle_at(vs, j).1.position,
                    triangle_at(vs, j).2.position,
                    triangle_at(vs, j).0.light_dot as int,
                    width,
                    height,
                    fs.subrange(ns[j], ns[j + 1]),
                )
        }),
{
    let fs = old_fs + new_part;
    let ns = starts.push(fs.len() as int);
    assert forall|j: int| 0 <= j < k + 1 implies #[trigger] ns[j] <= ns[j + 1] by {
        if j < k {
            assert(starts[j] <= starts[j + 1]);
        }
    }
    assert forall|j: int| 0 <= j < k + 1 implies #[trigger] fill_result(
        triangle_at(vs, j).0.position,
        triangle_at(vs, j).1.position,
        triangle_at(vs, j).2.position,
        triangle_at(vs, j).0.light_dot as int,
        width,
        height,
        fs.subrange(ns[j], ns[j + 1]),
    ) by {
        if j < k {
            lemma_starts_bounded(starts, j, 0);
            lemma_starts_bounded(starts, k, j + 1);
            assert(starts[j] <= starts[j + 1]);
            assert(fs.subrange(ns[j], ns[j + 1]) =~= old_fs.subrange(starts[j], starts[j + 1]));
        } else {
            assert(fs.subrange(ns[j], ns[j + 1]) =~= new_part);
        }
    }
}

proof fn lemma_starts_bounded(starts: Seq<int>, k: int, j: int)
    requires
        0 <= j <= k < starts.len(),
        forall|i: int| 0 <= i < k ==> #[trigger] starts[i] <= starts[i + 1],
    ensures
        starts[j] <= starts[k],
    decreases k - j,
{
    if j < k {
        lemma_starts_bounded(starts, k, j + 1);
        assert(starts[j] <= starts[j + 1]);
    }
}

/// Pixel and depth buffers after one depth-tested write of `color` at
/// `(x, y)` into a buffer of the given width.
pub open spec fn point_spec(
    state: (Seq<u32>, Seq<Option<i128>>),
    width: int,
    x: int,
    y: int,
    depth: i128,
    color: u32,
) -> (Seq<u32>, Seq<Option<i128>>) {
    let i = y * width + x;
    if nearer(depth as int, state.1[i]) {
        (state.0.update(i, color), state.1.update(i, Some(depth)))
    } else {
        state
    }
}

/// Pixel and depth buffers after the depth-tested writes of the fragments
/// `fs`, in order, each with the packed color at the same position of `cs`.
pub open spec fn drawn(
    state: (Seq<u32>, Seq<Option<i128>>),
    width: int,
    fs: Seq<Fragment>,
    cs: Seq<Color>,
) -> (Seq<u32>, Seq<Option<i128>>)
    decreases fs.len(),
{
    if fs.len() == 0 {
        state
    } else {
        let n = (fs.len() - 1) as int;
        let before = drawn(state, width, fs.take(n), cs.take(n));
        point_spec(before, width, fs[n].x as int, fs[n].y as int, fs[n].depth, cs[n].hex_spec() as u32)
    }
}

/// Writes each fragment with its color through the depth test: a pixel keeps
/// the color of the nearest fragment drawn at it.
pub fn draw_fragments(fb: &mut Framebuffer, fs: &Vec<Fragment>, cs: &Vec<Color>)
    requires
        old(fb).wf(),
        fs@.len() == cs@.len(),
        forall|i: int| 0 <= i < fs@.len() ==> (#[trigger] fs@[i]).x < old(fb).width && fs@[i].y < old(fb).height,
    ensures
        final(fb).wf(),
        final(fb).width == old(fb).width,
        final(fb).height == old(fb).height,
        final(fb).background_color == old(fb).background_color,
        (final(fb).buffer@, final(fb).zbuffer@) == drawn((old(fb).buffer@, old(fb).zbuffer@), old(fb).width as int, fs@, cs@),
{
    let mut i: usize = 0;
    while i < fs.len()
        invariant
            fb.wf(),
            fb.width == old(fb).width,
            fb.height == old(fb).height,
            fb.background_color == old(fb).background_color,
            fs@.len() == cs@.len(),
            i <= fs@.len(),
            forall|j: int| 0 <= j < fs@.len() ==> (#[trigger] fs@[j]).x < old(fb).width && fs@[j].y < old(fb).height,
            (fb.buffer@, fb.zbuffer@) == drawn(
                (old(fb).buffer@, old(fb).zbuffer@),
                old(fb).width as int,
                fs@.take(i as int),
                cs@.take(i as int),
            ),
        decreases fs@.len() - i,
    {
        let f = fs[i];
        let c = cs[i];
        fb.set_current_color(c.to_hex());
        fb.point(f.x as usize, f.y as usize, f.depth);
        proof {
            let fi = fs@.take(i + 1);
            let ci = cs@.take(i + 1);
            assert(fi.take(i as int) =~= fs@.take(i as int));
            assert(ci.take(i as int) =~= cs@.take(i as int));
            assert(fi[i as int] == f);
            assert(ci[i as int] == c);
        }
        i = i + 1;
    }
    proof {
        assert(fs@.take(fs@.len() as int) =~= fs@);
        assert(cs@.take(cs@.len() as int) =~= cs@);
    }
}

/// Fragment `f` lands on buffer index `p` of a buffer of the given width.
pub open spec fn lands_on(f: Fragment, width: int, p: int) -> bool {
    f.y * width + f.x == p
}

/// After the depth-tested writes of `fs` onto a pixel that held no depth,
/// the pixel is unchanged when no fragment lands on it; otherwise it holds
/// the depth and the color of a fragment of least depth among those that land
/// on it. So, whatever the order of submission, a fragment strictly nearer
/// than all others at its pixel leaves its color there.
pub proof fn lemma_drawn_keeps_nearest(
    state: (Seq<u32>, Seq<Option<i128>>),
    width: int,
    fs: Seq<Fragment>,
    cs: Seq<Color>,
    p: int,
)
    requires
        fs.len() == cs.len(),
        state.0.len() == state.1.len(),
        0 <= p < state.1.len(),
        state.1[p] is None,
        forall|j: int| 0 <= j < fs.len() ==> 0 <= (#[trigger] fs[j]).y * width + fs[j].x < state.1.len(),
    ensures
        ({
            let d = drawn(state, width, fs, cs);
            &&& d.0.len() == state.0.len()
            &&& d.1.len() == state.1.len()
            &&& (forall|j: int| 0 <= j < fs.len() ==> !lands_on(#[trigger] fs[j], width, p)) ==> d.0[p] == state.0[p] && d.1[p]
                is None
            &&& (exists|j: int| 0 <= j < fs.len() && lands_on(#[trigger] fs[j], width, p)) ==> exists|k: int|
                0 <= k < fs.len() && lands_on(#[trigger] fs[k], width, p) && d.1[p] == Some(fs[k].depth) && d.0[p]
                    == cs[k].hex_spec() as u32 && (forall|j: int|
                    0 <= j < fs.len() && lands_on(#[trigger] fs[j], width, p) ==> fs[k].depth <= fs[j].depth)
        }),
    decreases fs.len(),
{
    if fs.len() > 0 {
        let n = (fs.len() - 1) as int;
        let ft = fs.take(n);
        let ct = cs.take(n);
        assert forall|j: int| 0 <= j < ft.len() implies 0 <= (#[trigger] ft[j]).y * width + ft[j].x < state.1.len() by {
            assert(ft[j] == fs[j]);
        }
        lemma_drawn_keeps_nearest(state, width, ft, ct, p);
        let prev = drawn(state, width, ft, ct);
        let d = drawn(state, width, fs, cs);
        let f = fs[n];
        assert(d == point_spec(prev, width, f.x as int, f.y as int, f.depth, cs[n].hex_spec() as u32));
        let i = f.y * width + f.x;
        if i != p {
            assert(d.0[p] == prev.0[p] && d.1[p] == prev.1[p]);
            if exists|j: int| 0 <= j < fs.len() && lands_on(#[trigger] fs[j], width, p) {
                let j0 = choose|j: int| 0 <= j < fs.len() && lands_on(#[trigger] fs[j], width, p);
                assert(j0 < n);
                assert(ft[j0] == fs[j0]);
                assert(lands_on(ft[j0], width, p));
                let k = choose|k: int|
                    0 <= k < ft.len() && lands_on(#[trigger] ft[k], width, p) && prev.1[p] == Some(ft[k].depth) && prev.0[p]
                        == ct[k].hex_spec() as u32 && (forall|j: int|
                        0 <= j < ft.len() && lands_on(#[trigger] ft[j], width, p) ==> ft[k].depth <= ft[j].depth);
                assert(ft[k] == fs[k] && ct[k] == cs[k]);
                assert forall|j: int| 0 <= j < fs.len() && lands_on(#[trigger] fs[j], width, p) implies fs[k].depth
                    <= fs[j].depth by {
                    assert(j < n);
                    assert(ft[j] == fs[j]);
                    assert(lands_on(ft[j], width, p));
                }
            } else {
                assert forall|j: int| 0 <= j < ft.len() implies !lands_on(#[trigger] ft[j], width, p) by {
                    assert(ft[j] == fs[j]);
                    assert(!lands_on(fs[j], width, p));
                }
            }
        } else {
            assert(lands_on(fs[n], width, p));
            if exists|j: int| 0 <= j < ft.len() && lands_on(#[trigger] ft[j], width, p) {
                let k = choose|k: int|
                    0 <= k < ft.len() && lands_on(#[trigger] ft[k], width, p) && prev.1[p] == Some(ft[k].depth) && prev.0[p]
                        == ct[k].hex_spec() as u32 && (forall|j: int|
                        0 <= j < ft.len() && lands_on(#[trigger] ft[j], width, p) ==> ft[k].depth <= ft[j].depth);
                assert(ft[k] == fs[k] && ct[k] == cs[k]);
                if f.depth < fs[k].depth {
                    assert forall|j: int| 0 <= j < fs.len() && lands_on(#[trigger] fs[j], width, p) implies fs[n].depth
                        <= fs[j].depth by {
                        if j < n {
                            assert(ft[j] == fs[j]);
                            assert(lands_on(ft[j], width, p));
                        }
                    }
                    assert(lands_on(fs[n], width, p));
                } else {
                    assert forall|j: int| 0 <= j < fs.len() && lands_on(#[trigger] fs[j], width, p) implies fs[k].depth
                        <= fs[j].depth by {
                        if j < n {
                            assert(ft[j] == fs[j]);
                            assert(lands_on(ft[j], width, p));
                        }
                    }
                    assert(lands_on(fs[k], width, p));
                }
            } else {
                assert(prev.1[p] is None);
                assert forall|j: int| 0 <= j < fs.len() && lands_on(#[trigger] fs[j], width, p) implies fs[n].depth
                    <= fs[j].depth by {
                    if j < n {
                        assert(ft[j] == fs[j]);
                        assert(lands_on(ft[j], width, p));
                    }
                }
                assert(lands_on(fs[n], width, p));
            }
        }
    }
}

} // verus!
