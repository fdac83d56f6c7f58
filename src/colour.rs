use vstd::prelude::*;

verus! {

/// An 8-bit colour with straight (not premultiplied) alpha.
#[derive(Clone, Copy, Debug, PartialEq, Eq, Structural)]
pub struct Rgba {
    pub r: u8,
    pub g: u8,
    pub b: u8,
    pub a: u8,
}

impl Rgba {
    /// The four channels in memory order: red, green, blue, alpha.
    pub open spec fn channels(self) -> Seq<u8> {
        seq![self.r, self.g, self.b, self.a]
    }

    pub fn new(r: u8, g: u8, b: u8, a: u8) -> (c: Rgba)
        ensures
            c == (Rgba { r, g, b, a }),
    {
        Rgba { r, g, b, a }
    }
}

/// What `Rgba::blend` of the image crate makes of `dst` with `src` composited over it.
pub uninterp spec fn blend_of(dst: Seq<u8>, src: Seq<u8>) -> Seq<u8>;

/// Relies on `image::Rgba::<u8>::blend` ("over" compositing): a fully transparent source
/// leaves the destination as it was, a fully opaque one replaces it.
#[verifier::external_body]
pub(crate) fn blend(dst: Rgba, src: Rgba) -> (r: Rgba)
    ensures
        r.channels() == blend_of(dst.channels(), src.channels()),
        src.a == 0 ==> r == dst,
        src.a == 255 ==> r == src,
{
    let mut p = image::Rgba([dst.r, dst.g, dst.b, dst.a]);
    image::Pixel::blend(&mut p, &image::Rgba([src.r, src.g, src.b, src.a]));
    Rgba { r: p.0[0], g: p.0[1], b: p.0[2], a: p.0[3] }
}

} // verus!
