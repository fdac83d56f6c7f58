use vstd::prelude::*;
use crate::colour::{blend, blend_of, Rgba};
use crate::frame::{frame_len, Frame};
use vstd::arithmetic::div_mod::lemma_fundamental_div_mod_converse;

verus! {

/// A single-channel coverage mask, row by row, one byte per pixel; non-zero is lit.
#[derive(Clone, Debug)]
pub struct GlyphMask {
    pub width: u32,
    pub height: u32,
    pub data: Vec<u8>,
}

impl View for GlyphMask {
    type V = (u32, u32, Seq<u8>);

    open spec fn view(&self) -> (u32, u32, Seq<u8>) {
        (self.width, self.height, self.data@)
    }
}

impl GlyphMask {
    pub open spec fn wf(&self) -> bool {
        self.data@.len() == self.width * self.height
    }
}

pub open spec fn abs_diff(a: int, b: int) -> int {
    if a >= b {
        a - b
    } else {
        b - a
    }
}

/// Some lit pixel of the mask lies within Chebyshev distance `k` of `(x, y)`.
pub open spec fn lit_within(m: (u32, u32, Seq<u8>), x: int, y: int, k: int) -> bool {
    exists|qx: int, qy: int|
        0 <= qx < m.0 && 0 <= qy < m.1 && #[trigger] m.2[qy * m.0 + qx] != 0
            && abs_diff(qx, x) <= k && abs_diff(qy, y) <= k
}

/// The mask dilated under the Chebyshev distance by `k` pixels: 255 where a lit pixel lies
/// within distance `k`, else 0. Distances are measured with a cap of the smaller of 255 and
/// the width plus the height, which a radius at least that large reaches everywhere.
pub open spec fn dilated_of(m: (u32, u32, Seq<u8>), k: int) -> Seq<u8> {
    Seq::new(
        (m.0 * m.1) as nat,
        |i: int|
            if lit_within(m, i % (m.0 as int), i / (m.0 as int), k) || (if m.0 + m.1 < 255 {
                m.0 + m.1
            } else {
                255
            }) <= k {
                255u8
            } else {
                0u8
            },
    )
}

/// Relies on `imageproc::morphology::dilate_mut` with `Norm::LInf`: every pixel within
/// distance `k` of a lit pixel becomes 255 and every other pixel 0, distances being capped
/// as `dilated_of` states.
#[verifier::external_body]
fn dilate_chebyshev(m: &GlyphMask, k: u8) -> (r: Vec<u8>)
    requires
        m.wf(),
    ensures
        r@ == dilated_of(m@, k as int),
{
    let mut img = image::GrayImage::from_raw(m.width, m.height, m.data.clone()).unwrap();
    imageproc::morphology::dilate_mut(&mut img, imageproc::distance_transform::Norm::LInf, k);
    img.into_raw()
}

/// The colour of the `p`-th pixel of a frame's bytes.
pub open spec fn pixel_at(data: Seq<u8>, p: int) -> Rgba {
    Rgba { r: data[4 * p], g: data[4 * p + 1], b: data[4 * p + 2], a: data[4 * p + 3] }
}

/// `Rgba` of four channel bytes.
pub open spec fn rgba_of(s: Seq<u8>) -> Rgba {
    Rgba { r: s[0], g: s[1], b: s[2], a: s[3] }
}

/// The canvas after `c` is blended over every pixel where `mask` is non-zero.
pub open spec fn painted_where(old_data: Seq<u8>, mask: Seq<u8>, c: Rgba, new_data: Seq<u8>) -> bool {
    &&& new_data.len() == old_data.len()
    &&& forall|p: int|
        0 <= p < mask.len() ==> #[trigger] pixel_at(new_data, p) == if mask[p] != 0 {
            rgba_of(blend_of(pixel_at(old_data, p).channels(), c.channels()))
        } else {
            pixel_at(old_data, p)
        }
}

proof fn lemma_rgba_of_channels(c: Rgba)
    ensures
        rgba_of(c.channels()) == c,
{
}

/// Blends `c` over every pixel of the canvas where the mask is non-zero.
pub fn paint_mask(canvas: &mut Frame, mask: &Vec<u8>, c: Rgba)
    requires
        old(canvas).wf(),
        mask@.len() == old(canvas).width * old(canvas).height,
    ensures
        final(canvas).wf(),
        final(canvas).width == old(canvas).width,
        final(canvas).height == old(canvas).height,
        painted_where(old(canvas).data@, mask@, c, final(canvas).data@),
        c.a == 0 ==> final(canvas).data@ == old(canvas).data@,
        forall|p: int|
            0 <= p < mask@.len() ==> (c.a == 255 && mask@[p] != 0 ==> #[trigger] pixel_at(final(canvas).data@, p) == c),
{
    let n = mask.len();
    let total = canvas.data.len();
    let ghost before = canvas.data@;
    let mut p: usize = 0;
    while p < n
        invariant
            n == mask@.len(),
            total == before.len(),
            before.len() == frame_len(canvas.width as int, canvas.height as int),
            n == canvas.width * canvas.height,
            canvas.width == old(canvas).width,
            canvas.height == old(canvas).height,
            before == old(canvas).data@,
            canvas.data@.len() == before.len(),
            p <= n,
            forall|q: int|
                0 <= q < p ==> #[trigger] pixel_at(canvas.data@, q) == if mask@[q] != 0 {
                    rgba_of(blend_of(pixel_at(before, q).channels(), c.channels()))
                } else {
                    pixel_at(before, q)
                },
            forall|q: int|
                0 <= q < p ==> (c.a == 255 && mask@[q] != 0 ==> #[trigger] pixel_at(canvas.data@, q) == c),
            c.a == 0 ==> canvas.data@ == before,
            forall|i: int| 4 * p <= i < before.len() ==> #[trigger] canvas.data@[i] == before[i],
        decreases n - p,
    {
        let ghost prev = canvas.data@;
        if mask[p] != 0 {
            let o: usize = 4 * p;
            let old_px = Rgba {
                r: canvas.data[o],
                g: canvas.data[o + 1],
                b: canvas.data[o + 2],
                a: canvas.data[o + 3],
            };
            let px = blend(old_px, c);
            proof {
                if c.a == 0 {
                    assert(canvas.data@.update(o as int, px.r).update(o + 1, px.g).update(o + 2, px.b).update(
                        o + 3,
                        px.a,
                    ) =~= canvas.data@);
                }
            }
            canvas.data.set(o, px.r);
            canvas.data.set(o + 1, px.g);
            canvas.data.set(o + 2, px.b);
            canvas.data.set(o + 3, px.a);
            proof {
                lemma_rgba_of_channels(px);
                assert(old_px == pixel_at(before, p as int));
                assert(pixel_at(canvas.data@, p as int) == px);
            }
        } else {
            assert(pixel_at(canvas.data@, p as int) == pixel_at(before, p as int));
        }
        assert forall|q: int| 0 <= q < p implies #[trigger] pixel_at(canvas.data@, q) == pixel_at(prev, q) by {
            assert(4 * q + 3 < 4 * p);
        }
        p = p + 1;
    }
}

/// The outline region of a mask: 255 at every pixel within Chebyshev distance `k` of a lit
/// pixel, else 0.
pub open spec fn outline_region(m: (u32, u32, Seq<u8>), k: int) -> Seq<u8> {
    Seq::new(
        (m.0 * m.1) as nat,
        |i: int| if lit_within(m, i % (m.0 as int), i / (m.0 as int), k) { 255u8 } else { 0u8 },
    )
}

proof fn lemma_pixel_coords(w: int, h: int, i: int)
    requires
        0 <= i < w * h,
        w > 0,
    ensures
        0 <= i % w < w,
        0 <= i / w < h,
        (i / w) * w + i % w == i,
{
    assert(0 <= i % w < w && 0 <= i / w < h && (i / w) * w + i % w == i) by (nonlinear_arith)
        requires
            0 <= i < w * h,
            w > 0,
    ;
}

/// With a lit pixel somewhere and a radius below 255, the capped dilation of imageproc is the
/// outline region: where the cap is reached, every pixel is within the radius anyway.
proof fn lemma_capped_dilation_exact(m: (u32, u32, Seq<u8>), k: int, lit: int)
    requires
        m.2.len() == m.0 * m.1,
        0 <= lit < m.2.len(),
        m.2[lit] != 0,
        0 <= k < 255,
    ensures
        dilated_of(m, k) == outline_region(m, k),
{
    let w = m.0 as int;
    let h = m.1 as int;
    assert(w > 0) by (nonlinear_arith)
        requires
            0 <= lit < w * h,
            h >= 0,
    ;
    lemma_pixel_coords(w, h, lit);
    let lx = lit % w;
    let ly = lit / w;
    assert(m.2[ly * m.0 + lx] != 0);
    assert forall|i: int| 0 <= i < dilated_of(m, k).len() implies dilated_of(m, k)[i] == outline_region(m, k)[i] by {
        lemma_pixel_coords(w, h, i);
        if w + h <= k {
            assert(abs_diff(lx, i % w) <= k && abs_diff(ly, i / w) <= k);
            assert(lit_within(m, i % w, i / w, k));
        }
    }
    assert(dilated_of(m, k) =~= outline_region(m, k));
}

/// Dilations compose: growing the outline region of radius `a` by `b` gives the outline
/// region of radius `a + b`.
proof fn lemma_outline_region_composes(m: (u32, u32, Seq<u8>), a: int, b: int)
    requires
        m.2.len() == m.0 * m.1,
        m.0 > 0,
        0 <= a,
        0 <= b,
    ensures
        outline_region((m.0, m.1, outline_region(m, a)), b) == outline_region(m, a + b),
{
    let w = m.0 as int;
    let h = m.1 as int;
    let m1 = (m.0, m.1, outline_region(m, a));
    assert forall|i: int| 0 <= i < w * h implies outline_region(m1, b)[i] == outline_region(m, a + b)[i] by {
        lemma_pixel_coords(w, h, i);
        let x = i % w;
        let y = i / w;
        if lit_within(m1, x, y, b) {
            let (rx, ry) = choose|rx: int, ry: int|
                0 <= rx < m1.0 && 0 <= ry < m1.1 && #[trigger] m1.2[ry * m1.0 + rx] != 0 && abs_diff(rx, x) <= b
                    && abs_diff(ry, y) <= b;
            lemma_pixel_index(w, h, rx, ry);
            assert(lit_within(m, rx, ry, a));
            let (qx, qy) = choose|qx: int, qy: int|
                0 <= qx < m.0 && 0 <= qy < m.1 && #[trigger] m.2[qy * m.0 + qx] != 0 && abs_diff(qx, rx) <= a
                    && abs_diff(qy, ry) <= a;
            assert(lit_within(m, x, y, a + b));
        }
        if lit_within(m, x, y, a + b) {
            let (qx, qy) = choose|qx: int, qy: int|
                0 <= qx < m.0 && 0 <= qy < m.1 && #[trigger] m.2[qy * m.0 + qx] != 0 && abs_diff(qx, x) <= a + b
                    && abs_diff(qy, y) <= a + b;
            let rx = if qx > x + b { x + b } else if qx < x - b { x - b } else { qx };
            let ry = if qy > y + b { y + b } else if qy < y - b { y - b } else { qy };
            assert(lit_within(m, rx, ry, a));
            lemma_pixel_index(w, h, rx, ry);
            assert(m1.2[ry * m1.0 + rx] != 0);
            assert(lit_within(m1, x, y, b));
        }
    }
    assert(outline_region(m1, b) =~= outline_region(m, a + b));
}

/// The index of some lit pixel of the mask, if there is one.
fn find_lit(mask: &GlyphMask) -> (r: Option<usize>)
    requires
        mask.wf(),
    ensures
        r matches Some(i) ==> i < mask.data@.len() && mask.data@[i as int] != 0,
        r is None ==> forall|i: int| 0 <= i < mask.data@.len() ==> mask.data@[i] == 0,
{
    let n = mask.data.len();
    let mut i: usize = 0;
    while i < n
        invariant
            n == mask.data@.len(),
            i <= n,
            forall|j: int| 0 <= j < i ==> mask.data@[j] == 0,
        decreases n - i,
    {
        if mask.data[i] != 0 {
            return Some(i);
        }
        i = i + 1;
    }
    None
}

/// Draws the outline of a rendered glyph mask onto the canvas: `outline_colour` is blended
/// over every pixel within Chebyshev distance `outline_width` of a lit pixel of the mask, and
/// every other pixel is left as it was. A mask with no lit pixel leaves the canvas unchanged.
pub fn draw_outline(canvas: &mut Frame, mask: &GlyphMask, outline_colour: Rgba, outline_width: u8)
    requires
        old(canvas).wf(),
        mask.wf(),
        mask.width == old(canvas).width,
        mask.height == old(canvas).height,
    ensures
        final(canvas).wf(),
        final(canvas).width == old(canvas).width,
        final(canvas).height == old(canvas).height,
        painted_where(
            old(canvas).data@,
            outline_region(mask@, outline_width as int),
            outline_colour,
            final(canvas).data@,
        ),
        (forall|i: int| 0 <= i < mask.data@.len() ==> mask.data@[i] == 0) ==> final(canvas).data@ == old(
            canvas,
        ).data@,
{
    let lit = match find_lit(mask) {
        Some(i) => i,
        None => {
            proof {
                let region = outline_region(mask@, outline_width as int);
                assert forall|p: int| 0 <= p < region.len() implies region[p] == 0 by {
                    if lit_within(mask@, p % (mask.width as int), p / (mask.width as int), outline_width as int) {
                        let (qx, qy) = choose|qx: int, qy: int|
                            0 <= qx < mask.width && 0 <= qy < mask.height && #[trigger] mask.data@[qy
                                * mask.width + qx] != 0 && abs_diff(qx, p % (mask.width as int)) <= outline_width
                                && abs_diff(qy, p / (mask.width as int)) <= outline_width;
                        lemma_pixel_index(mask.width as int, mask.height as int, qx, qy);
                    }
                }
            }
            return;
        },
    };
    proof {
        assert(mask.width > 0) by (nonlinear_arith)
            requires
                0 <= lit < mask.width * mask.height,
        ;
    }
    if outline_width < 255 {
        let dilated = dilate_chebyshev(mask, outline_width);
        proof {
            lemma_capped_dilation_exact(mask@, outline_width as int, lit as int);
        }
        paint_mask(canvas, &dilated, outline_colour);
    } else {
        let first = GlyphMask { width: mask.width, height: mask.height, data: dilate_chebyshev(mask, 254) };
        proof {
            lemma_capped_dilation_exact(mask@, 254, lit as int);
            lemma_pixel_coords(mask.width as int, mask.height as int, lit as int);
            let lx = lit as int % (mask.width as int);
            let ly = lit as int / (mask.width as int);
            let m = mask@;
            assert(m.2[ly * m.0 + lx] != 0);
            assert(abs_diff(lx, lx) <= 254 && abs_diff(ly, ly) <= 254);
            assert(lit_within(m, lx, ly, 254));
            assert(first.data@[lit as int] != 0);
        }
        let dilated = dilate_chebyshev(&first, 1);
        proof {
            lemma_capped_dilation_exact(first@, 1, lit as int);
            lemma_outline_region_composes(mask@, 254, 1);
            assert(first@ == (mask.width, mask.height, outline_region(mask@, 254)));
        }
        paint_mask(canvas, &dilated, outline_colour);
    }
}

/// How far `v` lies outside the interval `lo..lo + n`.
pub open spec fn gap(v: int, lo: int, n: int) -> int {
    if v < lo {
        lo - v
    } else if v >= lo + n {
        v - (lo + n - 1)
    } else {
        0
    }
}

/// The point of `lo..lo + n` nearest to `v`.
pub open spec fn clamp_into(v: int, lo: int, n: int) -> int {
    if v < lo {
        lo
    } else if v >= lo + n {
        lo + n - 1
    } else {
        v
    }
}

/// The Chebyshev distance from `(x, y)` to the rectangle of size `rw` by `rh` at `(x0, y0)`.
pub open spec fn rect_distance(x: int, y: int, x0: int, y0: int, rw: int, rh: int) -> int {
    let dx = gap(x, x0, rw);
    let dy = gap(y, y0, rh);
    if dx >= dy {
        dx
    } else {
        dy
    }
}

/// The mask lights exactly the rectangle of size `rw` by `rh` at `(x0, y0)`.
pub open spec fn is_rect_mask(m: (u32, u32, Seq<u8>), x0: int, y0: int, rw: int, rh: int) -> bool {
    &&& m.2.len() == m.0 * m.1
    &&& forall|x: int, y: int|
        0 <= x < m.0 && 0 <= y < m.1 ==> (#[trigger] m.2[y * m.0 + x] != 0 <==> (x0 <= x < x0 + rw && y0
            <= y < y0 + rh))
}

proof fn lemma_pixel_index(w: int, h: int, x: int, y: int)
    requires
        0 <= x < w,
        0 <= y < h,
    ensures
        0 <= y * w + x < w * h,
        (y * w + x) % w == x,
        (y * w + x) / w == y,
{
    lemma_fundamental_div_mod_converse(y * w + x, w, y, x);
    assert(0 <= y * w + x < w * h) by (nonlinear_arith)
        requires
            0 <= x < w,
            0 <= y < h,
    ;
}

/// The outline region of a rectangular glyph for width `k` holds exactly the pixels within Chebyshev distance
/// `k` of it: the outline drawn round it is a band `k` pixels wide, the glyph included.
pub proof fn lemma_rectangle_outline_band(
    m: (u32, u32, Seq<u8>),
    x0: int,
    y0: int,
    rw: int,
    rh: int,
    k: int,
)
    requires
        is_rect_mask(m, x0, y0, rw, rh),
        1 <= rw,
        1 <= rh,
        0 <= x0,
        0 <= y0,
        x0 + rw <= m.0,
        y0 + rh <= m.1,
        0 <= k,
    ensures
        forall|x: int, y: int|
            0 <= x < m.0 && 0 <= y < m.1 ==> (#[trigger] outline_region(m, k)[y * m.0 + x] == 255 <==> rect_distance(
                x,
                y,
                x0,
                y0,
                rw,
                rh,
            ) <= k),
{
    let w = m.0 as int;
    let h = m.1 as int;
    assert forall|x: int, y: int| 0 <= x < m.0 && 0 <= y < m.1 implies (#[trigger] outline_region(m, k)[y * m.0
        + x] == 255 <==> rect_distance(x, y, x0, y0, rw, rh) <= k) by {
        lemma_pixel_index(w, h, x, y);
        if rect_distance(x, y, x0, y0, rw, rh) <= k {
            let qx = clamp_into(x, x0, rw);
            let qy = clamp_into(y, y0, rh);
            assert(m.2[qy * m.0 + qx] != 0);
            assert(abs_diff(qx, x) <= k && abs_diff(qy, y) <= k);
            assert(lit_within(m, x, y, k));
        } else if lit_within(m, x, y, k) {
            let (qx, qy) = choose|qx: int, qy: int|
                0 <= qx < m.0 && 0 <= qy < m.1 && #[trigger] m.2[qy * m.0 + qx] != 0 && abs_diff(qx, x) <= k
                    && abs_diff(qy, y) <= k;
            assert(x0 <= qx < x0 + rw && y0 <= qy < y0 + rh);
            assert(false);
        }
    }
}

} // verus!
