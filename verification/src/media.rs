//! Image candidates: decoding, the aspect-fit rule, and re-encoding.
//!
//! A candidate body is decoded by the image library; the decision whether
//! its shape fits the target display is taken here, exactly, in integer
//! arithmetic: the width-to-height ratio must lie within a tolerance of
//! one hundredth of the display's ratio.

use vstd::prelude::*;

verus! {

/// |a - b| over the integers.
pub open spec fn abs_diff(a: int, b: int) -> int {
    if a >= b {
        a - b
    } else {
        b - a
    }
}

/// The aspect-fit rule: both heights are positive and
/// `|iw/ih - sw/sh| <= 1/100`, stated without division as
/// `100 * |iw*sh - sw*ih| <= ih*sh`.
pub open spec fn spec_ratio_ok(iw: u32, ih: u32, sw: u32, sh: u32) -> bool {
    &&& ih > 0
    &&& sh > 0
    &&& 100 * abs_diff(iw * sh, sw * ih) <= (ih as int) * (sh as int)
}

/// Decide the aspect-fit rule for decoded dimensions `iw`×`ih` against a
/// display of `sw`×`sh`.
pub fn ratio_ok(iw: u32, ih: u32, sw: u32, sh: u32) -> (r: bool)
    ensures
        r == spec_ratio_ok(iw, ih, sw, sh),
{
    if ih == 0 || sh == 0 {
        return false;
    }
    proof {
        assert((iw as int) * (sh as int) <= 0xffff_ffff * 0xffff_ffff) by (nonlinear_arith)
            requires
                iw <= 0xffff_ffffu32,
                sh <= 0xffff_ffffu32,
        ;
        assert((sw as int) * (ih as int) <= 0xffff_ffff * 0xffff_ffff) by (nonlinear_arith)
            requires
                sw <= 0xffff_ffffu32,
                ih <= 0xffff_ffffu32,
        ;
    }
    let a = (iw as u64) * (sh as u64);
    let b = (sw as u64) * (ih as u64);
    let d = if a >= b {
        a - b
    } else {
        b - a
    };
    proof {
        assert((ih as int) * (sh as int) <= 0xffff_ffff * 0xffff_ffff) by (nonlinear_arith)
            requires
                ih <= 0xffff_ffffu32,
                sh <= 0xffff_ffffu32,
        ;
    }
    let lhs = (d as u128) * 100;
    let rhs = (ih as u128) * (sh as u128);
    lhs <= rhs
}

/// The dimensions the image library decodes from a body, if the body is a
/// recognizable, decodable image: a function of the bytes alone.
pub uninterp spec fn image_dims_of(b: Seq<u8>) -> Option<(u32, u32)>;

/// Relies on `image::load_from_memory`: sniffs the format from the bytes
/// and decodes; the decoded dimensions depend on the bytes alone.
#[verifier::external_body]
pub fn decode_dims(b: &Vec<u8>) -> (r: Option<(u32, u32)>)
    ensures
        r == image_dims_of(b@),
{
    match image::load_from_memory(b) {
        Ok(img) => Some((img.width(), img.height())),
        Err(_) => None,
    }
}

/// The PNG re-encoding of a body's image scaled to fit `w`×`h`, if the
/// body decodes: a function of the arguments alone.
pub uninterp spec fn resized_png_of(b: Seq<u8>, w: u32, h: u32) -> Option<Seq<u8>>;

/// Relies on `image::load_from_memory`, `DynamicImage::resize` (Lanczos3,
/// preserving aspect ratio) and `write_to` with the PNG format: a
/// deterministic re-encode of the decoded image.
#[verifier::external_body]
pub fn resize_to_png(b: &Vec<u8>, w: u32, h: u32) -> (r: Option<Vec<u8>>)
    requires
        w > 0,
        h > 0,
    ensures
        match r {
            Some(v) => resized_png_of(b@, w, h) == Some(v@),
            None => resized_png_of(b@, w, h) is None,
        },
{
    let img = match image::load_from_memory(b) {
        Ok(i) => i,
        Err(_) => return None,
    };
    let mut out = std::io::Cursor::new(Vec::new());
    match img.resize(w, h, image::imageops::FilterType::Lanczos3).write_to(
        &mut out,
        image::ImageFormat::Png,
    ) {
        Ok(()) => Some(out.into_inner()),
        Err(_) => None,
    }
}

} // verus!
