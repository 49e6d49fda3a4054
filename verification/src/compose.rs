//! The compositor: alpha-blends an ordered stack of same-sized raster
//! layers into one output image with the standard "over" operator.
//!
//! All arithmetic is exact integer arithmetic over 8-bit channels: for
//! overlay alpha `ao` and base alpha `ab` (as fractions of 255), the output
//! alpha is `ao + ab*(1 - ao)` and each colour channel is the
//! alpha-weighted average re-quantized to 8 bits with rounding.

use vstd::prelude::*;
use vstd::arithmetic::div_mod::{lemma_div_is_ordered, lemma_fundamental_div_mod_converse};

verus! {

/// One 8-bit RGBA pixel.
#[derive(Clone, Copy, PartialEq, Eq, Structural, Debug)]
pub struct Rgba {
    pub r: u8,
    pub g: u8,
    pub b: u8,
    pub a: u8,
}

/// A fixed-size raster image with an alpha channel; pixels are stored
/// row-major, one entry per pixel.
#[derive(Debug)]
pub struct RgbaImage {
    pub width: u32,
    pub height: u32,
    pub pixels: Vec<Rgba>,
}

/// The mathematical value of an image: its dimensions and pixel sequence.
#[verifier::ext_equal]
pub struct ImageView {
    pub width: nat,
    pub height: nat,
    pub pixels: Seq<Rgba>,
}

impl ImageView {
    /// Well-formed: the pixel sequence covers the full raster.
    pub open spec fn wf(self) -> bool {
        self.pixels.len() == self.width * self.height
    }
}

impl View for RgbaImage {
    type V = ImageView;

    open spec fn view(&self) -> ImageView {
        ImageView { width: self.width as nat, height: self.height as nat, pixels: self.pixels@ }
    }
}

/// Division of `num` by `den` rounded to the nearest integer
/// (halves rounded up); meaningful for `den >= 1`.
pub open spec fn round_div(num: int, den: int) -> int {
    (2 * num + den) / (2 * den)
}

/// Numerator of the output alpha, at scale 255^2: `ao + ab*(1 - ao)`
/// with both alphas as fractions of 255.
pub open spec fn alpha_num(ba: int, oa: int) -> int {
    255 * oa + ba * (255 - oa)
}

/// Numerator of one output colour channel, at scale 255^3:
/// `co*ao + cb*ab*(1 - ao)` with channels and alphas as fractions of 255.
pub open spec fn chan_num(bc: int, ba: int, oc: int, oa: int) -> int {
    255 * oc * oa + bc * ba * (255 - oa)
}

/// One blended colour channel, re-quantized to 8 bits with rounding.
pub open spec fn spec_blend_chan(bc: int, ba: int, oc: int, oa: int) -> int {
    round_div(chan_num(bc, ba, oc, oa), alpha_num(ba, oa))
}

/// The "over" operator on a single pixel: `o` composited over `b`.
/// A fully transparent overlay pixel is skipped and preserves `b` exactly.
pub open spec fn spec_blend(b: Rgba, o: Rgba) -> Rgba {
    if o.a == 0 {
        b
    } else {
        Rgba {
            r: spec_blend_chan(b.r as int, b.a as int, o.r as int, o.a as int) as u8,
            g: spec_blend_chan(b.g as int, b.a as int, o.g as int, o.a as int) as u8,
            b: spec_blend_chan(b.b as int, b.a as int, o.b as int, o.a as int) as u8,
            a: round_div(alpha_num(b.a as int, o.a as int), 255) as u8,
        }
    }
}

/// `round_div` of an exact multiple of the denominator is exact.
proof fn lemma_round_div_exact(c: int, den: int)
    requires
        1 <= den,
        0 <= c,
    ensures
        round_div(c * den, den) == c,
{
    assert(2 * (c * den) + den == c * (2 * den) + den) by (nonlinear_arith);
    lemma_fundamental_div_mod_converse(2 * (c * den) + den, 2 * den, c, den);
}

/// `round_div` stays within `[0, c]` whenever the numerator is at most
/// `c` times the denominator.
proof fn lemma_round_div_bounds(num: int, den: int, c: int)
    requires
        1 <= den,
        0 <= num,
        num <= c * den,
        0 <= c,
    ensures
        0 <= round_div(num, den) <= c,
{
    assert(2 * num + den <= c * (2 * den) + den) by (nonlinear_arith)
        requires num <= c * den;
    lemma_div_is_ordered(2 * num + den, c * (2 * den) + den, 2 * den);
    lemma_fundamental_div_mod_converse(c * (2 * den) + den, 2 * den, c, den);
    lemma_div_is_ordered(0, 2 * num + den, 2 * den);
    assert(0int / (2 * den) == 0);
}

/// The blended channel and alpha numerators stay in ranges that fit the
/// 8-bit result: each channel is at most 255 times the alpha numerator.
proof fn lemma_blend_ranges(bc: int, ba: int, oc: int, oa: int)
    requires
        0 <= bc <= 255,
        0 <= ba <= 255,
        0 <= oc <= 255,
        1 <= oa <= 255,
    ensures
        255 <= alpha_num(ba, oa) <= 65025,
        0 <= chan_num(bc, ba, oc, oa) <= 255 * alpha_num(ba, oa),
        0 <= spec_blend_chan(bc, ba, oc, oa) <= 255,
        0 <= round_div(alpha_num(ba, oa), 255) <= 255,
{
    assert(255 <= alpha_num(ba, oa) <= 65025) by (nonlinear_arith)
        requires 0 <= ba <= 255, 1 <= oa <= 255;
    assert(0 <= chan_num(bc, ba, oc, oa) <= 255 * alpha_num(ba, oa)) by (nonlinear_arith)
        requires 0 <= bc <= 255, 0 <= ba <= 255, 0 <= oc <= 255, 1 <= oa <= 255;
    lemma_round_div_bounds(chan_num(bc, ba, oc, oa), alpha_num(ba, oa), 255);
    assert(alpha_num(ba, oa) <= 255 * 255) by (nonlinear_arith)
        requires 0 <= ba <= 255, 1 <= oa <= 255;
    lemma_round_div_bounds(alpha_num(ba, oa), 255, 255);
}

/// One blended colour channel, computed exactly in 32-bit arithmetic.
fn blend_chan(bc: u8, ba: u8, oc: u8, oa: u8) -> (r: u8)
    requires
        1 <= oa,
    ensures
        r as int == spec_blend_chan(bc as int, ba as int, oc as int, oa as int),
{
    proof {
        lemma_blend_ranges(bc as int, ba as int, oc as int, oa as int);
    }
    let bc32: u32 = bc as u32;
    let ba32: u32 = ba as u32;
    let oc32: u32 = oc as u32;
    let oa32: u32 = oa as u32;
    assert(255 * oc32 * oa32 <= 16581375) by (nonlinear_arith)
        requires oc32 <= 255, oa32 <= 255;
    assert(bc32 * ba32 <= 65025 && bc32 * ba32 * (255 - oa32) <= 16581375) by (nonlinear_arith)
        requires bc32 <= 255, ba32 <= 255, oa32 <= 255;
    assert(ba32 * (255 - oa32) <= 65025) by (nonlinear_arith)
        requires ba32 <= 255, oa32 <= 255;
    let num: u32 = 255 * oc32 * oa32 + bc32 * ba32 * (255 - oa32);
    let den: u32 = 255 * oa32 + ba32 * (255 - oa32);
    assert(den == alpha_num(ba as int, oa as int));
    let q: u32 = (2 * num + den) / (2 * den);
    assert(q == round_div(num as int, den as int));
    q as u8
}

/// The "over" operator on one pixel, exactly as `spec_blend` states it.
pub fn blend_pixel(b: Rgba, o: Rgba) -> (r: Rgba)
    ensures
        r == spec_blend(b, o),
{
    if o.a == 0 {
        return b;
    }
    proof {
        lemma_blend_ranges(b.r as int, b.a as int, o.r as int, o.a as int);
    }
    let ba32: u32 = b.a as u32;
    let oa32: u32 = o.a as u32;
    assert(ba32 * (255 - oa32) <= 65025) by (nonlinear_arith)
        requires ba32 <= 255, oa32 <= 255;
    let den: u32 = 255 * oa32 + ba32 * (255 - oa32);
    let out_a: u32 = (2 * den + 255) / 510;
    assert(out_a == round_div(alpha_num(b.a as int, o.a as int), 255));
    Rgba {
        r: blend_chan(b.r, b.a, o.r, o.a),
        g: blend_chan(b.g, b.a, o.g, o.a),
        b: blend_chan(b.b, b.a, o.b, o.a),
        a: out_a as u8,
    }
}

/// Why a layer stack could not be composited.
#[derive(Clone, Copy, PartialEq, Eq, Structural, Debug)]
pub enum ImageError {
    /// The layer list was empty.
    NoLayers,
    /// The layer at this index does not have the base layer's dimensions.
    DimensionMismatch(usize),
}

/// The overlay image composited over the base image, pixel by pixel.
pub open spec fn spec_overlay(base: ImageView, ov: ImageView) -> ImageView {
    ImageView {
        width: base.width,
        height: base.height,
        pixels: Seq::new(base.pixels.len(), |i: int| spec_blend(base.pixels[i], ov.pixels[i])),
    }
}

/// A non-empty layer stack folded with `spec_overlay`, bottom layer first.
pub open spec fn spec_compose(layers: Seq<ImageView>) -> ImageView
    decreases layers.len(),
{
    if layers.len() <= 1 {
        layers[0]
    } else {
        spec_overlay(spec_compose(layers.drop_last()), layers.last())
    }
}

/// The views of a stack of images.
pub open spec fn views_of(layers: Seq<RgbaImage>) -> Seq<ImageView> {
    layers.map(|i: int, l: RgbaImage| l@)
}

/// Composite `overlay` over `base` in place.
pub fn overlay_rgba(base: &mut RgbaImage, overlay: &RgbaImage)
    requires
        old(base)@.wf(),
        overlay@.wf(),
        old(base)@.width == overlay@.width,
        old(base)@.height == overlay@.height,
    ensures
        final(base)@ == spec_overlay(old(base)@, overlay@),
        final(base)@.wf(),
{
    let n: usize = base.pixels.len();
    let mut i: usize = 0;
    while i < n
        invariant
            n == base.pixels@.len(),
            n == old(base)@.pixels.len(),
            n == overlay.pixels@.len(),
            0 <= i <= n,
            base.width == old(base).width,
            base.height == old(base).height,
            forall|j: int| 0 <= j < i ==>
                base.pixels@[j] == spec_blend(old(base)@.pixels[j], overlay@.pixels[j]),
            forall|j: int| i <= j < n ==> base.pixels@[j] == old(base)@.pixels[j],
        decreases n - i,
    {
        let blended = blend_pixel(base.pixels[i], overlay.pixels[i]);
        base.pixels.set(i, blended);
        i = i + 1;
    }
    proof {
        assert(final(base)@.pixels =~= spec_overlay(old(base)@, overlay@).pixels);
        assert(final(base)@ =~= spec_overlay(old(base)@, overlay@));
    }
}

/// An exact copy of an image.
fn clone_image(img: &RgbaImage) -> (r: RgbaImage)
    ensures
        r@ == img@,
{
    let mut pixels: Vec<Rgba> = Vec::new();
    let n: usize = img.pixels.len();
    let mut i: usize = 0;
    while i < n
        invariant
            n == img.pixels@.len(),
            0 <= i <= n,
            pixels@ == img.pixels@.take(i as int),
        decreases n - i,
    {
        pixels.push(img.pixels[i]);
        proof {
            assert(pixels@ =~= img.pixels@.take(i + 1));
        }
        i = i + 1;
    }
    proof {
        assert(img.pixels@.take(n as int) =~= img.pixels@);
    }
    let r = RgbaImage { width: img.width, height: img.height, pixels };
    proof {
        assert(r@ =~= img@);
    }
    r
}

/// Alpha-blend an ordered stack of same-sized layers into one image.
///
/// Fails iff the stack is empty, or some layer's dimensions differ from
/// the first (base) layer's: `DimensionMismatch` names the first such
/// layer. On success the result is exactly the `spec_overlay` fold of the
/// stack in the given order.
pub fn compose_layers(layers: &Vec<RgbaImage>) -> (r: Result<RgbaImage, ImageError>)
    requires
        forall|i: int| 0 <= i < layers@.len() ==> (#[trigger] layers@[i]@).wf(),
    ensures
        match r {
            Ok(img) => {
                &&& layers@.len() > 0
                &&& forall|i: int| 0 <= i < layers@.len() ==>
                    (#[trigger] layers@[i]@).width == layers@[0]@.width
                    && layers@[i]@.height == layers@[0]@.height
                &&& img@ == spec_compose(views_of(layers@))
                &&& img@.wf()
                &&& img@.width == layers@[0]@.width
                &&& img@.height == layers@[0]@.height
            },
            Err(ImageError::NoLayers) => layers@.len() == 0,
            Err(ImageError::DimensionMismatch(i)) => {
                &&& 0 < i < layers@.len()
                &&& !(layers@[i as int]@.width == layers@[0]@.width
                    && layers@[i as int]@.height == layers@[0]@.height)
                &&& forall|j: int| 0 <= j < i ==>
                    (#[trigger] layers@[j]@).width == layers@[0]@.width
                    && layers@[j]@.height == layers@[0]@.height
            },
        },
{
    if layers.len() == 0 {
        return Err(ImageError::NoLayers);
    }
    let mut base = clone_image(&layers[0]);
    proof {
        assert(views_of(layers@).take(1).len() == 1);
        assert(base@ == spec_compose(views_of(layers@).take(1)));
    }
    let n: usize = layers.len();
    let mut i: usize = 1;
    while i < n
        invariant
            n == layers@.len(),
            1 <= i <= n,
            forall|k: int| 0 <= k < n ==> (#[trigger] layers@[k]@).wf(),
            forall|j: int| 0 <= j < i ==>
                (#[trigger] layers@[j]@).width == layers@[0]@.width
                && layers@[j]@.height == layers@[0]@.height,
            base@ == spec_compose(views_of(layers@).take(i as int)),
            base@.wf(),
            base@.width == layers@[0]@.width,
            base@.height == layers@[0]@.height,
        decreases n - i,
    {
        let layer = &layers[i];
        if layer.width != base.width || layer.height != base.height {
            return Err(ImageError::DimensionMismatch(i));
        }
        overlay_rgba(&mut base, layer);
        proof {
            let views = views_of(layers@);
            assert(views.take(i + 1).drop_last() =~= views.take(i as int));
            assert(views.take(i + 1).last() == layers@[i as int]@);
        }
        i = i + 1;
    }
    proof {
        assert(views_of(layers@).take(n as int) =~= views_of(layers@));
    }
    Ok(base)
}

/// Law: a fully transparent overlay pixel preserves the base pixel exactly.
pub proof fn lemma_blend_transparent_overlay(b: Rgba, o: Rgba)
    requires
        o.a == 0,
    ensures
        spec_blend(b, o) == b,
{
}

/// A fully opaque overlay pixel replaces the base pixel exactly.
pub proof fn lemma_blend_opaque_overlay(b: Rgba, o: Rgba)
    requires
        o.a == 255,
    ensures
        spec_blend(b, o) == o,
{
    assert(alpha_num(b.a as int, 255) == 65025);
    assert(chan_num(b.r as int, b.a as int, o.r as int, 255) == (o.r as int) * 65025);
    assert(chan_num(b.g as int, b.a as int, o.g as int, 255) == (o.g as int) * 65025);
    assert(chan_num(b.b as int, b.a as int, o.b as int, 255) == (o.b as int) * 65025);
    lemma_round_div_exact(o.r as int, 65025);
    lemma_round_div_exact(o.g as int, 65025);
    lemma_round_div_exact(o.b as int, 65025);
    assert(alpha_num(b.a as int, 255) == 255 * 255);
    lemma_round_div_exact(255, 255);
}

/// Over a fully transparent base pixel, a visible overlay pixel comes
/// through exactly.
proof fn lemma_blend_clear_base(b: Rgba, o: Rgba)
    requires
        b.a == 0,
        o.a >= 1,
    ensures
        spec_blend(b, o) == o,
{
    let oa = o.a as int;
    assert(alpha_num(0, oa) == 255 * oa);
    assert(chan_num(b.r as int, 0, o.r as int, oa) == (o.r as int) * (255 * oa))
        by (nonlinear_arith);
    assert(chan_num(b.g as int, 0, o.g as int, oa) == (o.g as int) * (255 * oa))
        by (nonlinear_arith);
    assert(chan_num(b.b as int, 0, o.b as int, oa) == (o.b as int) * (255 * oa))
        by (nonlinear_arith);
    lemma_round_div_exact(o.r as int, 255 * oa);
    lemma_round_div_exact(o.g as int, 255 * oa);
    lemma_round_div_exact(o.b as int, 255 * oa);
    assert(alpha_num(0, oa) == oa * 255);
    lemma_round_div_exact(oa, 255);
}

/// Compositing anything over a fully opaque base keeps it fully opaque.
proof fn lemma_blend_keeps_opaque(b: Rgba, o: Rgba)
    requires
        b.a == 255,
    ensures
        spec_blend(b, o).a == 255,
{
    if o.a != 0 {
        assert(alpha_num(255, o.a as int) == 255 * 255);
        lemma_round_div_exact(255, 255);
    }
}

/// Law: compositing is associative in layer order in the degenerate case,
/// when of the two overlay pixels at least one is fully transparent or
/// fully opaque; in general it is not.
pub proof fn lemma_blend_degenerate_assoc(p: Rgba, q: Rgba, r: Rgba)
    requires
        q.a == 0 || q.a == 255 || r.a == 0 || r.a == 255,
    ensures
        spec_blend(spec_blend(p, q), r) == spec_blend(p, spec_blend(q, r)),
{
    if r.a == 0 {
        lemma_blend_transparent_overlay(q, r);
        lemma_blend_transparent_overlay(spec_blend(p, q), r);
    } else if r.a == 255 {
        lemma_blend_opaque_overlay(spec_blend(p, q), r);
        lemma_blend_opaque_overlay(q, r);
        lemma_blend_opaque_overlay(p, r);
    } else if q.a == 0 {
        lemma_blend_transparent_overlay(p, q);
        lemma_blend_clear_base(q, r);
    } else {
        lemma_blend_opaque_overlay(p, q);
        lemma_blend_keeps_opaque(q, r);
        lemma_blend_opaque_overlay(p, spec_blend(q, r));
    }
}

/// Law: compositing whole layers is associative in layer order in the
/// degenerate case, when at each pixel at least one of the two overlay
/// layers is fully transparent or fully opaque; in general the order of
/// application matters.
pub proof fn lemma_overlay_degenerate_assoc(a: ImageView, b: ImageView, c: ImageView)
    requires
        a.wf(),
        b.wf(),
        c.wf(),
        b.width == a.width && b.height == a.height,
        c.width == a.width && c.height == a.height,
        forall|i: int| 0 <= i < a.pixels.len() ==> {
            ||| (#[trigger] b.pixels[i]).a == 0
            ||| b.pixels[i].a == 255
            ||| (#[trigger] c.pixels[i]).a == 0
            ||| c.pixels[i].a == 255
        },
    ensures
        spec_overlay(spec_overlay(a, b), c) == spec_overlay(a, spec_overlay(b, c)),
{
    let lhs = spec_overlay(spec_overlay(a, b), c);
    let rhs = spec_overlay(a, spec_overlay(b, c));
    assert forall|i: int| 0 <= i < a.pixels.len()
        implies lhs.pixels[i] == rhs.pixels[i] by {
        lemma_blend_degenerate_assoc(a.pixels[i], b.pixels[i], c.pixels[i]);
    }
    assert(lhs.pixels =~= rhs.pixels);
    assert(lhs =~= rhs);
}

/// Law: an overlay image whose pixels are all fully transparent leaves
/// the base image unchanged.
pub proof fn lemma_overlay_transparent_identity(base: ImageView, ov: ImageView)
    requires
        base.wf(),
        ov.wf(),
        ov.width == base.width,
        ov.height == base.height,
        forall|i: int| 0 <= i < ov.pixels.len() ==> (#[trigger] ov.pixels[i]).a == 0,
    ensures
        spec_overlay(base, ov) == base,
{
    assert(spec_overlay(base, ov).pixels =~= base.pixels);
    assert(spec_overlay(base, ov) =~= base);
}

} // verus!
