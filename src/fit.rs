use vstd::prelude::*;
use crate::countdown::ceil_div;
use crate::frame::{crop_bytes, frame_len, well_formed, Frame};

verus! {

/// Width of the target screen in pixels.
pub const SCREEN_WIDTH_PX: u32 = 1920;

/// Height of the target screen in pixels.
pub const SCREEN_HEIGHT_PX: u32 = 1080;

/// How a scaled picture meets the screen.
#[derive(Clone, Copy, Debug, PartialEq, Eq, Structural)]
pub enum FitOutcome {
    /// Both dimensions match the screen.
    FitsExactly,
    /// The width matches and the picture is taller than the screen.
    FitsWidth,
    /// The height matches and the picture is wider than the screen.
    FitsHeight,
    /// Neither case: the picture does not cover the screen in exactly one dimension.
    Unreachable,
}

/// The picture reached the cropper in a shape that cover-scaling never produces.
#[derive(Clone, Copy, Debug, PartialEq, Eq, Structural)]
pub enum FitError {
    Unreachable,
}

/// The size that covers the screen while keeping the aspect ratio: a picture relatively
/// narrower than the screen is scaled to the screen's width, any other to its height, the
/// other dimension rounded up.
pub open spec fn cover_dims(w: int, h: int) -> (int, int) {
    if w * SCREEN_HEIGHT_PX <= SCREEN_WIDTH_PX * h {
        (SCREEN_WIDTH_PX as int, ceil_div(h * SCREEN_WIDTH_PX, w))
    } else {
        (ceil_div(w * SCREEN_HEIGHT_PX, h), SCREEN_HEIGHT_PX as int)
    }
}

/// The cover size of a `w` by `h` picture can be held in memory.
pub open spec fn cover_fits(w: int, h: int) -> bool {
    let d = cover_dims(w, h);
    d.0 <= u32::MAX && d.1 <= u32::MAX && frame_len(d.0, d.1) <= usize::MAX
}

pub open spec fn outcome_of(w: int, h: int) -> FitOutcome {
    if w == SCREEN_WIDTH_PX && h == SCREEN_HEIGHT_PX {
        FitOutcome::FitsExactly
    } else if h == SCREEN_HEIGHT_PX && w > SCREEN_WIDTH_PX {
        FitOutcome::FitsHeight
    } else if w == SCREEN_WIDTH_PX && h > SCREEN_HEIGHT_PX {
        FitOutcome::FitsWidth
    } else {
        FitOutcome::Unreachable
    }
}

/// What the image crate's Catmull-Rom resampling makes of a `w` by `h` RGBA picture at
/// `nw` by `nh`.
pub uninterp spec fn resized_pixels(data: Seq<u8>, w: nat, h: nat, nw: nat, nh: nat) -> Seq<u8>;

/// The picture scaled to cover the screen; unchanged where it already has the cover size.
pub open spec fn scaled_of(v: (u32, u32, Seq<u8>)) -> (u32, u32, Seq<u8>) {
    let d = cover_dims(v.0 as int, v.1 as int);
    if d.0 == v.0 && d.1 == v.1 {
        v
    } else {
        (d.0 as u32, d.1 as u32, resized_pixels(v.2, v.0 as nat, v.1 as nat, d.0 as nat, d.1 as nat))
    }
}

/// The picture centre-cropped to the screen along the dimension that overhangs.
pub open spec fn cropped_of(v: (u32, u32, Seq<u8>)) -> Result<(u32, u32, Seq<u8>), FitError> {
    match outcome_of(v.0 as int, v.1 as int) {
        FitOutcome::FitsExactly => Ok(v),
        FitOutcome::FitsHeight => Ok((SCREEN_WIDTH_PX, SCREEN_HEIGHT_PX, crop_bytes(
            v,
            v.0 as int / 2 - SCREEN_WIDTH_PX as int / 2,
            0,
            SCREEN_WIDTH_PX as int,
            SCREEN_HEIGHT_PX as int,
        ))),
        FitOutcome::FitsWidth => Ok((SCREEN_WIDTH_PX, SCREEN_HEIGHT_PX, crop_bytes(
            v,
            0,
            v.1 as int / 2 - SCREEN_HEIGHT_PX as int / 2,
            SCREEN_WIDTH_PX as int,
            SCREEN_HEIGHT_PX as int,
        ))),
        FitOutcome::Unreachable => Err(FitError::Unreachable),
    }
}

/// The picture scaled to cover the screen, then centre-cropped to it.
pub open spec fn fitted_of(v: (u32, u32, Seq<u8>)) -> Result<(u32, u32, Seq<u8>), FitError> {
    cropped_of(scaled_of(v))
}

/// Relies on `image::imageops::resize` with `FilterType::CatmullRom`: the result has exactly
/// the requested size, and is a copy where that is the picture's own size.
#[verifier::external_body]
fn resize_catmull_rom(f: &Frame, nw: u32, nh: u32) -> (r: Vec<u8>)
    requires
        f.wf(),
        f.width > 0,
        f.height > 0,
        nw > 0,
        nh > 0,
        frame_len(nw as int, nh as int) <= usize::MAX,
    ensures
        r@ == resized_pixels(f.data@, f.width as nat, f.height as nat, nw as nat, nh as nat),
        r@.len() == frame_len(nw as int, nh as int),
        nw == f.width && nh == f.height ==> r@ == f.data@,
{
    let img = image::RgbaImage::from_raw(f.width, f.height, f.data.clone()).unwrap();
    image::imageops::resize(&img, nw, nh, image::imageops::FilterType::CatmullRom).into_raw()
}

/// The size that covers the screen, as `cover_dims` states it.
pub fn cover_dimensions(width: u32, height: u32) -> (r: (u64, u64))
    requires
        width > 0,
        height > 0,
    ensures
        r.0 == cover_dims(width as int, height as int).0,
        r.1 == cover_dims(width as int, height as int).1,
{
    let w = width as u64;
    let h = height as u64;
    if w * 1080 <= 1920 * h {
        (1920, (h * 1920 + w - 1) / w)
    } else {
        ((w * 1080 + h - 1) / h, 1080)
    }
}

/// How a picture of the given size meets the screen.
pub fn fit_outcome(width: u32, height: u32) -> (r: FitOutcome)
    ensures
        r == outcome_of(width as int, height as int),
{
    if width == SCREEN_WIDTH_PX && height == SCREEN_HEIGHT_PX {
        FitOutcome::FitsExactly
    } else if height == SCREEN_HEIGHT_PX && width > SCREEN_WIDTH_PX {
        FitOutcome::FitsHeight
    } else if width == SCREEN_WIDTH_PX && height > SCREEN_HEIGHT_PX {
        FitOutcome::FitsWidth
    } else {
        FitOutcome::Unreachable
    }
}

/// Scales the picture so that it covers the screen without distortion; a picture that
/// already has its cover size is returned as it is, without resampling.
pub fn resize_to_contain_screen(img: Frame) -> (r: Frame)
    requires
        img.wf(),
        img.width > 0,
        img.height > 0,
        cover_fits(img.width as int, img.height as int),
    ensures
        r.wf(),
        r@ == scaled_of(img@),
{
    let (nw, nh) = cover_dimensions(img.width, img.height);
    if nw == img.width as u64 && nh == img.height as u64 {
        return img;
    }
    proof {
        let d = cover_dims(img.width as int, img.height as int);
        assert(d.0 >= 1 && d.1 >= 1) by (nonlinear_arith)
            requires
                d == cover_dims(img.width as int, img.height as int),
                img.width > 0,
                img.height > 0,
        ;
    }
    let data = resize_catmull_rom(&img, nw as u32, nh as u32);
    Frame { width: nw as u32, height: nh as u32, data }
}

/// Centre-crops a cover-scaled picture to exactly the screen's size. A picture that does not
/// overhang the screen in exactly one dimension (nor match it) is refused as `Unreachable`.
pub fn crop_to_fit_screen_exactly(img: Frame) -> (r: Result<Frame, FitError>)
    requires
        img.wf(),
    ensures
        match r {
            Ok(f) => f.wf() && cropped_of(img@) == Ok::<(u32, u32, Seq<u8>), FitError>(f@),
            Err(e) => cropped_of(img@) == Err::<(u32, u32, Seq<u8>), FitError>(e),
        },
{
    match fit_outcome(img.width, img.height) {
        FitOutcome::FitsExactly => Ok(img),
        FitOutcome::FitsHeight => Ok(img.crop(img.width / 2 - SCREEN_WIDTH_PX / 2, 0, SCREEN_WIDTH_PX, SCREEN_HEIGHT_PX)),
        FitOutcome::FitsWidth => Ok(img.crop(0, img.height / 2 - SCREEN_HEIGHT_PX / 2, SCREEN_WIDTH_PX, SCREEN_HEIGHT_PX)),
        FitOutcome::Unreachable => Err(FitError::Unreachable),
    }
}

/// Scales the picture to cover the screen and centre-crops it to the screen's exact size.
pub fn fit_to_screen(img: Frame) -> (r: Result<Frame, FitError>)
    requires
        img.wf(),
        img.width > 0,
        img.height > 0,
        cover_fits(img.width as int, img.height as int),
    ensures
        match r {
            Ok(f) => f.wf() && fitted_of(img@) == Ok::<(u32, u32, Seq<u8>), FitError>(f@),
            Err(e) => fitted_of(img@) == Err::<(u32, u32, Seq<u8>), FitError>(e),
        },
{
    crop_to_fit_screen_exactly(resize_to_contain_screen(img))
}

proof fn lemma_cover_reaches_screen(w: int, h: int)
    requires
        w > 0,
        h > 0,
    ensures
        w * SCREEN_HEIGHT_PX <= SCREEN_WIDTH_PX * h ==> cover_dims(w, h).1 >= SCREEN_HEIGHT_PX,
        w * SCREEN_HEIGHT_PX > SCREEN_WIDTH_PX * h ==> cover_dims(w, h).0 > SCREEN_WIDTH_PX,
{
    if w * 1080 <= 1920 * h {
        assert((h * 1920 + w - 1) / w >= 1080) by (nonlinear_arith)
            requires
                w > 0,
                w * 1080 <= 1920 * h,
        ;
    } else {
        assert((w * 1080 + h - 1) / h > 1920) by (nonlinear_arith)
            requires
                h > 0,
                w * 1080 > 1920 * h,
        ;
    }
}

/// Cover-scaling always leaves exactly one dimension overhanging, or none: fitting any
/// non-empty picture whose cover size can be held succeeds, with the screen's size.
pub proof fn lemma_fit_never_unreachable(v: (u32, u32, Seq<u8>))
    requires
        well_formed(v),
        v.0 > 0,
        v.1 > 0,
        cover_fits(v.0 as int, v.1 as int),
    ensures
        fitted_of(v) matches Ok(r) && r.0 == SCREEN_WIDTH_PX && r.1 == SCREEN_HEIGHT_PX,
{
    lemma_cover_reaches_screen(v.0 as int, v.1 as int);
}

/// A picture that already has the screen's size comes out of fitting unchanged.
pub proof fn lemma_fit_keeps_screen_sized(v: (u32, u32, Seq<u8>))
    requires
        v.0 == SCREEN_WIDTH_PX,
        v.1 == SCREEN_HEIGHT_PX,
    ensures
        fitted_of(v) == Ok::<(u32, u32, Seq<u8>), FitError>(v),
{
    assert((1080int * 1920 + 1920 - 1) / 1920 == 1080);
}

/// Fitting is idempotent: fitting a fitted picture again gives it back unchanged.
pub proof fn lemma_fit_idempotent(v: (u32, u32, Seq<u8>))
    requires
        well_formed(v),
        v.0 > 0,
        v.1 > 0,
        cover_fits(v.0 as int, v.1 as int),
    ensures
        fitted_of(v) matches Ok(r) && fitted_of(r) == Ok::<(u32, u32, Seq<u8>), FitError>(r),
{
    lemma_fit_never_unreachable(v);
    let r = fitted_of(v)->Ok_0;
    lemma_fit_keeps_screen_sized(r);
}

} // verus!
