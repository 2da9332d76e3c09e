use vstd::prelude::*;

verus! {

/// Pixel storage with a parallel depth buffer. Pixel `(x, y)` lives at index
/// `y * width + x`; a depth of `None` marks a pixel not written since the last
/// clear.
pub struct Framebuffer {
    pub width: usize,
    pub height: usize,
    pub buffer: Vec<u32>,
    pub zbuffer: Vec<Option<i128>>,
    pub background_color: u32,
    pub current_color: u32,
}

/// A write at `depth` passes the depth test against the stored entry `stored`.
pub open spec fn nearer(depth: int, stored: Option<i128>) -> bool {
    match stored {
        None => true,
        Some(z) => depth < z,
    }
}

impl Framebuffer {
    pub open spec fn wf(&self) -> bool {
        &&& self.buffer@.len() == self.width * self.height
        &&& self.zbuffer@.len() == self.width * self.height
    }

    pub open spec fn index(&self, x: int, y: int) -> int {
        y * self.width + x
    }

    /// A `width` x `height` framebuffer, cleared to black.
    pub fn new(width: usize, height: usize) -> (fb: Framebuffer)
        requires
            width * height <= usize::MAX,
        ensures
            fb.wf(),
            fb.width == width,
            fb.height == height,
            fb.background_color == 0,
            fb.current_color == 0,
            forall|i: int| 0 <= i < fb.buffer@.len() ==> fb.buffer@[i] == 0,
            forall|i: int| 0 <= i < fb.zbuffer@.len() ==> fb.zbuffer@[i] is None,
    {
        let n = width * height;
        let mut buffer: Vec<u32> = Vec::new();
        let mut zbuffer: Vec<Option<i128>> = Vec::new();
        let mut i: usize = 0;
        while i < n
            invariant
                i <= n,
                buffer@.len() == i,
                zbuffer@.len() == i,
                forall|k: int| 0 <= k < i ==> buffer@[k] == 0,
                forall|k: int| 0 <= k < i ==> zbuffer@[k] is None,
            decreases n - i,
        {
            buffer.push(0);
            zbuffer.push(None);
            i = i + 1;
        }
        Framebuffer { width, height, buffer, zbuffer, background_color: 0, current_color: 0 }
    }

    /// Fills every pixel with the background color and forgets every depth.
    pub fn clear(&mut self)
        requires
            old(self).wf(),
        ensures
            final(self).wf(),
            final(self).width == old(self).width,
            final(self).height == old(self).height,
            final(self).background_color == old(self).background_color,
            final(self).current_color == old(self).current_color,
            forall|i: int| 0 <= i < final(self).buffer@.len() ==> final(self).buffer@[i] == old(self).background_color,
            forall|i: int| 0 <= i < final(self).zbuffer@.len() ==> final(self).zbuffer@[i] is None,
    {
        let n = self.buffer.len();
        let bg = self.background_color;
        let mut i: usize = 0;
        while i < n
            invariant
                i <= n,
                n == self.width * self.height,
                self.buffer@.len() == n,
                self.zbuffer@.len() == n,
                self.background_color == bg,
                self.width == old(self).width,
                self.height == old(self).height,
                self.background_color == old(self).background_color,
                self.current_color == old(self).current_color,
                forall|k: int| 0 <= k < i ==> self.buffer@[k] == bg,
                forall|k: int| 0 <= k < i ==> self.zbuffer@[k] is None,
            decreases n - i,
        {
            self.buffer.set(i, bg);
            self.zbuffer.set(i, None);
            i = i + 1;
        }
    }

    pub fn set_background_color(&mut self, color: u32)
        ensures
            *final(self) == (Framebuffer { background_color: color, ..*old(self) }),
    {
        self.background_color = color;
    }

    pub fn set_current_color(&mut self, color: u32)
        ensures
            *final(self) == (Framebuffer { current_color: color, ..*old(self) }),
    {
        self.current_color = color;
    }

    /// Writes the current color at `(x, y)` if `depth` is nearer than what the
    /// pixel holds, or the pixel is unwritten; otherwise changes nothing.
    pub fn point(&mut self, x: usize, y: usize, depth: i128)
        requires
            old(self).wf(),
            x < old(self).width,
            y < old(self).height,
        ensures
            final(self).wf(),
            final(self).width == old(self).width,
            final(self).height == old(self).height,
            final(self).background_color == old(self).background_color,
            final(self).current_color == old(self).current_color,
            ({
                let i = old(self).index(x as int, y as int);
                if nearer(depth as int, old(self).zbuffer@[i]) {
                    &&& final(self).buffer@ == old(self).buffer@.update(i, old(self).current_color)
                    &&& final(self).zbuffer@ == old(self).zbuffer@.update(i, Some(depth))
                } else {
                    &&& final(self).buffer@ == old(self).buffer@
                    &&& final(self).zbuffer@ == old(self).zbuffer@
                }
            }),
    {
        let n = self.buffer.len();
        proof {
            lemma_index_in_bounds(x as int, y as int, self.width as int, self.height as int);
            assert(n == self.width * self.height);
        }
        let i = y * self.width + x;
        let write = match self.zbuffer[i] {
            None => true,
            Some(z) => depth < z,
        };
        if write {
            let c = self.current_color;
            self.buffer.set(i, c);
            self.zbuffer.set(i, Some(depth));
        }
    }

    /// The color stored at `(x, y)`.
    pub fn get_color(&self, x: usize, y: usize) -> (c: u32)
        requires
            self.wf(),
            x < self.width,
            y < self.height,
        ensures
            c == self.buffer@[self.index(x as int, y as int)],
    {
        let n = self.buffer.len();
        proof {
            lemma_index_in_bounds(x as int, y as int, self.width as int, self.height as int);
            assert(n == self.width * self.height);
        }
        self.buffer[y * self.width + x]
    }

    /// The pixels as packed `0xRRGGBB` values, row after row.
    pub fn color_array_to_u32(&self) -> (v: Vec<u32>)
        ensures
            v@ == self.buffer@,
    {
        self.buffer.clone()
    }
}

proof fn lemma_index_in_bounds(x: int, y: int, w: int, h: int)
    requires
        0 <= x < w,
        0 <= y < h,
    ensures
        0 <= y * w <= y * w + x < w * h,
{
    assert(0 <= y * w <= y * w + x < w * h) by (nonlinear_arith)
        requires
            0 <= x < w,
            0 <= y < h,
    ;
}

} // verus!
