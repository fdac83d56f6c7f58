use vstd::prelude::*;
use crate::colour::{blend, blend_of, Rgba};
use crate::fit::{SCREEN_HEIGHT_PX, SCREEN_WIDTH_PX};
use crate::frame::{frame_len, Frame};
use crate::outline::{pixel_at, rgba_of};

verus! {

/// Horizontal room for the caption: the screen width less a margin on each side.
pub const CAPTION_MAX_WIDTH: i32 = 1896;

/// Vertical room for the caption: the screen height less the header bar, the task bar and
/// a margin on each side.
pub const CAPTION_MAX_HEIGHT: i32 = 996;

/// The sum of the red, green and blue channels over the first `p` pixels.
pub open spec fn rgb_sum(data: Seq<u8>, p: nat) -> int
    decreases p,
{
    if p == 0 {
        0
    } else {
        let q = p - 1;
        rgb_sum(data, q as nat) + data[4 * q] + data[4 * q + 1] + data[4 * q + 2]
    }
}

/// The mean brightness of a frame: its red, green and blue channels averaged over all
/// pixels, rounded down, in 0..=255.
pub open spec fn brightness_of(v: (u32, u32, Seq<u8>)) -> int {
    rgb_sum(v.2, (v.0 * v.1) as nat) / (3 * (v.0 * v.1))
}

/// The opacity of the wash: from 48 at the extremes of brightness up to 127 at the middle.
pub open spec fn wash_alpha(mean: int) -> int {
    if mean <= 127 {
        48 + mean * 79 / 127
    } else {
        48 + (255 - mean) * 79 / 127
    }
}

/// The wash colour: white over a dark frame, black over a bright one.
pub open spec fn wash_of(mean: int) -> Rgba {
    if mean <= 127 {
        Rgba { r: 255, g: 255, b: 255, a: wash_alpha(mean) as u8 }
    } else {
        Rgba { r: 0, g: 0, b: 0, a: wash_alpha(mean) as u8 }
    }
}

/// The mean brightness of a non-empty frame.
pub fn mean_brightness(f: &Frame) -> (m: u8)
    requires
        f.wf(),
        f.width * f.height > 0,
    ensures
        m == brightness_of(f@),
{
    let total = f.data.len();
    let n: usize = f.width as usize * f.height as usize;
    let mut sum: u128 = 0;
    let mut p: usize = 0;
    while p < n
        invariant
            total == f.data@.len(),
            total == frame_len(f.width as int, f.height as int),
            n == f.width * f.height,
            p <= n,
            sum == rgb_sum(f.data@, p as nat),
            sum <= 765 * p,
        decreases n - p,
    {
        let o: usize = 4 * p;
        sum = sum + f.data[o] as u128 + f.data[o + 1] as u128 + f.data[o + 2] as u128;
        p = p + 1;
    }
    let d: u128 = 3 * n as u128;
    assert(sum as int / d as int <= 255) by (nonlinear_arith)
        requires
            sum <= 765 * n,
            d == 3 * n,
            n > 0,
    ;
    (sum / d) as u8
}

/// The wash colour for a frame of mean brightness `mean`: translucent white when the frame is
/// dark (`mean` at most 127), translucent black when it is bright, more opaque towards the
/// middle of the range.
pub fn overlay_colour(mean: u8) -> (c: Rgba)
    ensures
        c == wash_of(mean as int),
        48 <= c.a <= 127,
{
    if mean <= 127 {
        assert(mean as int * 79 / 127 <= 79) by (nonlinear_arith)
            requires
                mean <= 127,
        ;
        Rgba { r: 255, g: 255, b: 255, a: 48 + ((mean as u32 * 79) / 127) as u8 }
    } else {
        let d: u32 = 255 - mean as u32;
        assert(d as int * 79 / 127 <= 79) by (nonlinear_arith)
            requires
                d <= 127,
        ;
        Rgba { r: 0, g: 0, b: 0, a: 48 + ((d * 79) / 127) as u8 }
    }
}

/// A new caption scale: the screen height times `numerator` over `denominator`.
#[derive(Clone, Copy, Debug, PartialEq, Eq, Structural)]
pub struct ScalePlan {
    pub numerator: i32,
    pub denominator: i32,
}

#[derive(Clone, Copy, Debug, PartialEq, Eq, Structural)]
pub enum CaptionError {
    /// The caption measured neither width nor height: there is nothing to fit.
    EmptyCaption,
    /// The caption fits the width but not the height at the first measurement.
    UnexpectedSize,
}

pub open spec fn scale_plan_of(w: int, h: int) -> Result<ScalePlan, CaptionError> {
    if w <= 0 && h <= 0 {
        Err(CaptionError::EmptyCaption)
    } else if w > CAPTION_MAX_WIDTH {
        Ok(ScalePlan { numerator: CAPTION_MAX_WIDTH, denominator: w as i32 })
    } else if h > CAPTION_MAX_HEIGHT {
        Err(CaptionError::UnexpectedSize)
    } else if w * CAPTION_MAX_HEIGHT <= CAPTION_MAX_WIDTH * h {
        Ok(ScalePlan { numerator: CAPTION_MAX_HEIGHT, denominator: h as i32 })
    } else {
        Ok(ScalePlan { numerator: CAPTION_MAX_WIDTH, denominator: w as i32 })
    }
}

/// Given the caption's size measured at a scale of the screen height, how to rescale it so
/// that it fills the caption box: shrink to the box's width when it is too wide; otherwise
/// grow to the box's height when it is relatively taller than the box, else to its width.
pub fn calculate_overlay_text_scale(text_width: i32, text_height: i32) -> (r: Result<ScalePlan, CaptionError>)
    ensures
        r == scale_plan_of(text_width as int, text_height as int),
        r matches Ok(p) ==> p.denominator > 0,
{
    if text_width <= 0 && text_height <= 0 {
        Err(CaptionError::EmptyCaption)
    } else if text_width > CAPTION_MAX_WIDTH {
        Ok(ScalePlan { numerator: CAPTION_MAX_WIDTH, denominator: text_width })
    } else if text_height > CAPTION_MAX_HEIGHT {
        Err(CaptionError::UnexpectedSize)
    } else if text_width as i64 * 996 <= 1896 * text_height as i64 {
        Ok(ScalePlan { numerator: CAPTION_MAX_HEIGHT, denominator: text_height })
    } else {
        Ok(ScalePlan { numerator: CAPTION_MAX_WIDTH, denominator: text_width })
    }
}

/// Every pixel of the new canvas is the layer's pixel composited over the old canvas's.
pub open spec fn composited(old_data: Seq<u8>, layer: Seq<u8>, new_data: Seq<u8>) -> bool {
    &&& new_data.len() == old_data.len()
    &&& forall|p: int|
        0 <= p < old_data.len() / 4 ==> #[trigger] pixel_at(new_data, p) == rgba_of(
            blend_of(pixel_at(old_data, p).channels(), pixel_at(layer, p).channels()),
        )
}

/// Composites `layer` over the whole canvas, pixel by pixel.
pub fn blend_layer(canvas: &mut Frame, layer: &Frame)
    requires
        old(canvas).wf(),
        layer.wf(),
        layer.width == old(canvas).width,
        layer.height == old(canvas).height,
    ensures
        final(canvas).wf(),
        final(canvas).width == old(canvas).width,
        final(canvas).height == old(canvas).height,
        composited(old(canvas).data@, layer.data@, final(canvas).data@),
        forall|p: int|
            0 <= p < old(canvas).data@.len() / 4 ==> {
                &&& pixel_at(layer.data@, p).a == 0 ==> #[trigger] pixel_at(final(canvas).data@, p)
                    == pixel_at(old(canvas).data@, p)
                &&& pixel_at(layer.data@, p).a == 255 ==> pixel_at(final(canvas).data@, p)
                    == pixel_at(layer.data@, p)
            },
{
    let total = canvas.data.len();
    let n: usize = canvas.width as usize * canvas.height as usize;
    let ghost before = canvas.data@;
    let mut p: usize = 0;
    while p < n
        invariant
            total == before.len(),
            before.len() == frame_len(canvas.width as int, canvas.height as int),
            layer.data@.len() == before.len(),
            n == canvas.width * canvas.height,
            canvas.width == old(canvas).width,
            canvas.height == old(canvas).height,
            before == old(canvas).data@,
            canvas.data@.len() == before.len(),
            p <= n,
            forall|q: int|
                0 <= q < p ==> #[trigger] pixel_at(canvas.data@, q) == rgba_of(
                    blend_of(pixel_at(before, q).channels(), pixel_at(layer.data@, q).channels()),
                ),
            forall|q: int|
                0 <= q < p ==> {
                    &&& pixel_at(layer.data@, q).a == 0 ==> #[trigger] pixel_at(canvas.data@, q)
                        == pixel_at(before, q)
                    &&& pixel_at(layer.data@, q).a == 255 ==> pixel_at(canvas.data@, q)
                        == pixel_at(layer.data@, q)
                },
            forall|i: int| 4 * p <= i < before.len() ==> #[trigger] canvas.data@[i] == before[i],
        decreases n - p,
    {
        let ghost prev = canvas.data@;
        let o: usize = 4 * p;
        let old_px = Rgba {
            r: canvas.data[o],
            g: canvas.data[o + 1],
            b: canvas.data[o + 2],
            a: canvas.data[o + 3],
        };
        let top = Rgba { r: layer.data[o], g: layer.data[o + 1], b: layer.data[o + 2], a: layer.data[o + 3] };
        let px = blend(old_px, top);
        canvas.data.set(o, px.r);
        canvas.data.set(o + 1, px.g);
        canvas.data.set(o + 2, px.b);
        canvas.data.set(o + 3, px.a);
        proof {
            assert(rgba_of(px.channels()) == px);
            assert(old_px == pixel_at(before, p as int));
            assert(top == pixel_at(layer.data@, p as int));
            assert(pixel_at(canvas.data@, p as int) == px);
            assert forall|q: int| 0 <= q < p implies #[trigger] pixel_at(canvas.data@, q) == pixel_at(prev, q) by {
                assert(4 * q + 3 < 4 * p);
            }
        }
        p = p + 1;
    }
}

/// The wash layer for a non-empty frame: a frame of its size filled with the wash colour that
/// its mean brightness calls for.
pub fn overlay_wash_layer(f: &Frame) -> (layer: Frame)
    requires
        f.wf(),
        f.width * f.height > 0,
    ensures
        layer.wf(),
        layer.width == f.width,
        layer.height == f.height,
        forall|i: int|
            0 <= i < layer.data@.len() ==> #[trigger] layer.data@[i] == wash_of(brightness_of(f@)).channels()[i % 4],
{
    let mean = mean_brightness(f);
    let c = overlay_colour(mean);
    let total = f.data.len();
    assert(frame_len(f.width as int, f.height as int) == total);
    Frame::filled(f.width, f.height, c)
}

} // verus!
