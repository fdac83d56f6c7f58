use vstd::prelude::*;
use crate::colour::Rgba;

verus! {

/// A grid of 8-bit RGBA pixels, row by row, four bytes per pixel.
#[derive(Clone, Debug)]
pub struct Frame {
    pub width: u32,
    pub height: u32,
    pub data: Vec<u8>,
}

/// The byte offset of pixel `(x, y)` in a frame `w` pixels wide.
pub open spec fn pixel_offset(w: int, x: int, y: int) -> int {
    4 * (y * w + x)
}

impl View for Frame {
    type V = (u32, u32, Seq<u8>);

    open spec fn view(&self) -> (u32, u32, Seq<u8>) {
        (self.width, self.height, self.data@)
    }
}

/// The byte length of a `w` by `h` frame.
pub open spec fn frame_len(w: int, h: int) -> int {
    4 * (w * h)
}

/// A frame model whose byte length matches its dimensions.
pub open spec fn well_formed(v: (u32, u32, Seq<u8>)) -> bool {
    v.2.len() == frame_len(v.0 as int, v.1 as int)
}

/// The colour of pixel `(x, y)` of a frame model.
pub open spec fn pixel_of(v: (u32, u32, Seq<u8>), x: int, y: int) -> Rgba {
    let o = pixel_offset(v.0 as int, x, y);
    Rgba { r: v.2[o], g: v.2[o + 1], b: v.2[o + 2], a: v.2[o + 3] }
}

/// The bytes of the `cw` by `ch` window of a frame model whose top-left corner is `(x0, y0)`.
pub open spec fn crop_bytes(v: (u32, u32, Seq<u8>), x0: int, y0: int, cw: int, ch: int) -> Seq<u8> {
    Seq::new(
        frame_len(cw, ch) as nat,
        |i: int| v.2[pixel_offset(v.0 as int, x0 + (i / 4) % cw, y0 + (i / 4) / cw) + i % 4],
    )
}

proof fn lemma_window_index(w: int, h: int, x0: int, y0: int, cw: int, ch: int, i: int)
    requires
        0 <= x0,
        0 <= y0,
        1 <= cw,
        1 <= ch,
        x0 + cw <= w,
        y0 + ch <= h,
        0 <= i < frame_len(cw, ch),
    ensures
        0 <= (i / 4) % cw < cw,
        0 <= (i / 4) / cw < ch,
        0 <= (y0 + (i / 4) / cw) * w + x0 + (i / 4) % cw < w * h,
        0 <= pixel_offset(w, x0 + (i / 4) % cw, y0 + (i / 4) / cw) + i % 4 < frame_len(w, h),
{
    let p = i / 4;
    let x = p % cw;
    let y = p / cw;
    assert(0 <= p < cw * ch) by (nonlinear_arith)
        requires
            p == i / 4,
            0 <= i < 4 * (cw * ch),
    ;
    assert(0 <= x < cw && 0 <= y < ch) by (nonlinear_arith)
        requires
            x == p % cw,
            y == p / cw,
            0 <= p < cw * ch,
            cw >= 1,
    ;
    assert(0 <= (y0 + y) * w + x0 + x < w * h) by (nonlinear_arith)
        requires
            0 <= x < cw,
            0 <= y < ch,
            0 <= x0,
            0 <= y0,
            x0 + cw <= w,
            y0 + ch <= h,
    ;
}

proof fn lemma_window_len(w: int, h: int, cw: int, ch: int)
    requires
        1 <= cw <= w,
        1 <= ch <= h,
    ensures
        1 <= cw * ch <= w * h,
{
    assert(1 <= cw * ch <= w * h) by (nonlinear_arith)
        requires
            1 <= cw <= w,
            1 <= ch <= h,
    ;
}

impl Frame {
    pub open spec fn wf(&self) -> bool {
        well_formed(self@)
    }

    /// A frame of the given size filled with one colour.
    pub fn filled(width: u32, height: u32, c: Rgba) -> (f: Frame)
        requires
            frame_len(width as int, height as int) <= usize::MAX,
        ensures
            f.wf(),
            f.width == width,
            f.height == height,
            forall|i: int| 0 <= i < f.data@.len() ==> #[trigger] f.data@[i] == c.channels()[i % 4],
    {
        let n: usize = 4 * (width as usize * height as usize);
        let mut data: Vec<u8> = Vec::with_capacity(n);
        let mut i: usize = 0;
        while i < n
            invariant
                i <= n,
                data@.len() == i,
                forall|j: int| 0 <= j < i ==> #[trigger] data@[j] == c.channels()[j % 4],
            decreases n - i,
        {
            let v = if i % 4 == 0 {
                c.r
            } else if i % 4 == 1 {
                c.g
            } else if i % 4 == 2 {
                c.b
            } else {
                c.a
            };
            data.push(v);
            i = i + 1;
        }
        Frame { width, height, data }
    }

    /// The colour of pixel `(x, y)`.
    pub fn get_pixel(&self, x: u32, y: u32) -> (c: Rgba)
        requires
            self.wf(),
            x < self.width,
            y < self.height,
        ensures
            c == pixel_of(self@, x as int, y as int),
    {
        let total = self.data.len();
        proof {
            lemma_window_len(self.width as int, self.height as int, 1, 1);
            lemma_window_index(self.width as int, self.height as int, x as int, y as int, 1, 1, 3);
            assert(pixel_offset(self.width as int, x as int, y as int) + 3 < self.data@.len());
        }
        let o: usize = 4 * (y as usize * self.width as usize + x as usize);
        Rgba { r: self.data[o], g: self.data[o + 1], b: self.data[o + 2], a: self.data[o + 3] }
    }

    /// The `cw` by `ch` window of the frame whose top-left corner is `(x0, y0)`.
    pub fn crop(&self, x0: u32, y0: u32, cw: u32, ch: u32) -> (r: Frame)
        requires
            self.wf(),
            1 <= cw,
            1 <= ch,
            x0 + cw <= self.width,
            y0 + ch <= self.height,
        ensures
            r.wf(),
            r.width == cw,
            r.height == ch,
            r.data@ == crop_bytes(self@, x0 as int, y0 as int, cw as int, ch as int),
    {
        proof {
            lemma_window_len(self.width as int, self.height as int, cw as int, ch as int);
        }
        let total = self.data.len();
        assert(4 * (cw as int * ch as int) <= total);
        let n: usize = 4 * (cw as usize * ch as usize);
        let w: usize = self.width as usize;
        let mut data: Vec<u8> = Vec::with_capacity(n);
        let mut i: usize = 0;
        while i < n
            invariant
                self.wf(),
                1 <= cw,
                1 <= ch,
                x0 + cw <= self.width,
                y0 + ch <= self.height,
                w == self.width,
                n == frame_len(cw as int, ch as int),
                n <= self.data@.len(),
                total == self.data@.len(),
                i <= n,
                data@ == crop_bytes(self@, x0 as int, y0 as int, cw as int, ch as int).take(i as int),
            decreases n - i,
        {
            proof {
                lemma_window_index(self.width as int, self.height as int, x0 as int, y0 as int, cw as int, ch as int, i as int);
            }
            let p: usize = i / 4;
            let x: usize = x0 as usize + p % (cw as usize);
            let y: usize = y0 as usize + p / (cw as usize);
            assert(y * w + x < self.width * self.height);
            assert(4 * (y * w + x) + 3 < self.data@.len());
            let o: usize = 4 * (y * w + x) + i % 4;
            data.push(self.data[o]);
            proof {
                assert(data@ =~= crop_bytes(self@, x0 as int, y0 as int, cw as int, ch as int).take(i + 1));
            }
            i = i + 1;
        }
        proof {
            assert(data@ =~= crop_bytes(self@, x0 as int, y0 as int, cw as int, ch as int));
        }
        Frame { width: cw, height: ch, data }
    }
}

} // verus!
