//! RGBA pixel buffers and the turns and mirror images of them that the
//! image crate computes. An image `w` pixels wide and `h` high is `w * h * 4`
//! bytes, row by row, four channels to a pixel.

use vstd::prelude::*;

verus! {

/// The byte count of a `w` by `h` RGBA image.
pub open spec fn rgba_len(w: nat, h: nat) -> nat {
    w * h * 4
}

/// `src` (a `w` by `h` RGBA image) turned 90 degrees clockwise: the result is
/// `h` wide and `w` high, and its pixel `(h - 1 - y, x)` is `src`'s `(x, y)`.
pub open spec fn rotated_90(src: Seq<u8>, w: nat, h: nat) -> Seq<u8> {
    Seq::new(rgba_len(w, h), |i: int| {
        let d = i / 4;
        let (dx, dy) = (d % (h as int), d / (h as int));
        src[((h - 1 - dx) * w + dy) * 4 + i % 4]
    })
}

/// `src` turned 180 degrees: pixel `(w - 1 - x, h - 1 - y)` is `src`'s `(x, y)`.
pub open spec fn rotated_180(src: Seq<u8>, w: nat, h: nat) -> Seq<u8> {
    Seq::new(rgba_len(w, h), |i: int| {
        let d = i / 4;
        let (dx, dy) = (d % (w as int), d / (w as int));
        src[((h - 1 - dy) * w + (w - 1 - dx)) * 4 + i % 4]
    })
}

/// `src` turned 270 degrees clockwise: the result is `h` wide and `w` high,
/// and its pixel `(y, w - 1 - x)` is `src`'s `(x, y)`.
pub open spec fn rotated_270(src: Seq<u8>, w: nat, h: nat) -> Seq<u8> {
    Seq::new(rgba_len(w, h), |i: int| {
        let d = i / 4;
        let (dx, dy) = (d % (h as int), d / (h as int));
        src[(dx * w + (w - 1 - dy)) * 4 + i % 4]
    })
}

/// The byte `i` of a `w` by `h` RGBA image sits in pixel `(i / 4) % w`,
/// row `(i / 4) / w`, channel `i % 4`, and these rebuild `i`.
pub(crate) proof fn lemma_byte_position(i: int, w: int, h: int)
    requires
        w > 0,
        h > 0,
        0 <= i < w * h * 4,
    ensures
        i == ((i / 4) / w * w + (i / 4) % w) * 4 + i % 4,
        0 <= (i / 4) % w < w,
        0 <= (i / 4) / w < h,
        0 <= i % 4 < 4,
{
    let d = i / 4;
    vstd::arithmetic::div_mod::lemma_fundamental_div_mod(i, 4);
    vstd::arithmetic::div_mod::lemma_fundamental_div_mod(d, w);
    assert(0 <= d % w < w) by {
        vstd::arithmetic::div_mod::lemma_mod_pos_bound(d, w);
    }
    assert(d < w * h) by (nonlinear_arith)
        requires
            i == 4 * d + i % 4,
            0 <= i % 4 < 4,
            i < w * h * 4,
    ;
    assert(0 <= d / w < h) by (nonlinear_arith)
        requires
            d == w * (d / w) + d % w,
            0 <= d % w < w,
            0 <= d < w * h,
            w > 0,
    ;
    assert(d == d / w * w + d % w) by (nonlinear_arith)
        requires
            d == w * (d / w) + d % w,
    ;
}

/// The pixel `(x, y)` of a `w` by `h` image starts at byte `(y * w + x) * 4`,
/// and its channel `c` is the byte `i` with `i / 4 == y * w + x`, `i % 4 == c`.
pub(crate) proof fn lemma_byte_index(x: int, y: int, c: int, w: int, h: int)
    requires
        0 <= x < w,
        0 <= y < h,
        0 <= c < 4,
    ensures
        0 <= (y * w + x) * 4 + c < w * h * 4,
        ((y * w + x) * 4 + c) / 4 == y * w + x,
        ((y * w + x) * 4 + c) % 4 == c,
        (y * w + x) % w == x,
        (y * w + x) / w == y,
{
    assert(0 <= y * w + x < w * h) by (nonlinear_arith)
        requires
            0 <= x < w,
            0 <= y < h,
    ;
    assert((y * w + x) * 4 + c < w * h * 4) by (nonlinear_arith)
        requires
            y * w + x < w * h,
            0 <= c < 4,
    ;
    vstd::arithmetic::div_mod::lemma_fundamental_div_mod_converse((y * w + x) * 4 + c, 4, y * w + x, c);
    vstd::arithmetic::div_mod::lemma_fundamental_div_mod_converse(y * w + x, w, y, x);
}

/// A quarter turn clockwise followed by three quarters gives back the image
/// byte for byte, and so do the opposite order and two half turns.
pub proof fn lemma_turns_cancel(src: Seq<u8>, w: nat, h: nat)
    requires
        src.len() == rgba_len(w, h),
    ensures
        rotated_270(rotated_90(src, w, h), h, w) == src,
        rotated_90(rotated_270(src, w, h), h, w) == src,
        rotated_180(rotated_180(src, w, h), w, h) == src,
{
    let (wi, hi) = (w as int, h as int);
    assert(rgba_len(h, w) == rgba_len(w, h)) by (nonlinear_arith);
    let q = rotated_90(src, w, h);
    let t = rotated_270(src, w, h);
    let half = rotated_180(src, w, h);
    assert forall|i: int| 0 <= i < src.len() implies #[trigger] rotated_270(q, h, w)[i] == src[i] by {
        lemma_byte_position(i, wi, hi);
        let (x, y, c) = ((i / 4) % wi, (i / 4) / wi, i % 4);
        // rotated_270 of the turned image reads its pixel (h - 1 - y, x).
        lemma_byte_index(hi - 1 - y, x, c, hi, wi);
        // which rotated_90 took from the source pixel (x, y).
        lemma_byte_index(x, y, c, wi, hi);
    }
    assert forall|i: int| 0 <= i < src.len() implies #[trigger] rotated_90(t, h, w)[i] == src[i] by {
        lemma_byte_position(i, wi, hi);
        let (x, y, c) = ((i / 4) % wi, (i / 4) / wi, i % 4);
        lemma_byte_index(y, wi - 1 - x, c, hi, wi);
        lemma_byte_index(x, y, c, wi, hi);
    }
    assert forall|i: int| 0 <= i < src.len() implies #[trigger] rotated_180(half, w, h)[i] == src[i] by {
        lemma_byte_position(i, wi, hi);
        let (x, y, c) = ((i / 4) % wi, (i / 4) / wi, i % 4);
        lemma_byte_index(wi - 1 - x, hi - 1 - y, c, wi, hi);
        lemma_byte_index(x, y, c, wi, hi);
    }
    assert(rotated_270(q, h, w) =~= src);
    assert(rotated_90(t, h, w) =~= src);
    assert(rotated_180(half, w, h) =~= src);
}

/// Calls `ImageBuffer::<Rgba<u8>, Vec<u8>>::from_raw` on a copy of the pixels
/// and `image::imageops::rotate90` on the buffer. `from_raw` accepts any
/// buffer at least `w * h * 4` long; `rotate90` writes the pixel `(x, y)` of
/// the source to `(h - 1 - y, x)` of a new `h` by `w` buffer.
#[verifier::external_body]
pub(crate) fn rotate90_rgba(rgba: &Vec<u8>, w: u32, h: u32) -> (r: Vec<u8>)
    requires
        rgba_len(w as nat, h as nat) <= rgba@.len(),
        rgba_len(w as nat, h as nat) <= usize::MAX,
    ensures
        r@ == rotated_90(rgba@, w as nat, h as nat),
{
    let buffer = image::ImageBuffer::<image::Rgba<u8>, Vec<u8>>::from_raw(w, h, rgba.clone()).unwrap();
    image::imageops::rotate90(&buffer).into_raw()
}

/// Calls `ImageBuffer::from_raw` as above and `image::imageops::rotate180`,
/// which writes the pixel `(x, y)` to `(w - 1 - x, h - 1 - y)` of a new
/// `w` by `h` buffer.
#[verifier::external_body]
pub(crate) fn rotate180_rgba(rgba: &Vec<u8>, w: u32, h: u32) -> (r: Vec<u8>)
    requires
        rgba_len(w as nat, h as nat) <= rgba@.len(),
        rgba_len(w as nat, h as nat) <= usize::MAX,
    ensures
        r@ == rotated_180(rgba@, w as nat, h as nat),
{
    let buffer = image::ImageBuffer::<image::Rgba<u8>, Vec<u8>>::from_raw(w, h, rgba.clone()).unwrap();
    image::imageops::rotate180(&buffer).into_raw()
}

/// Calls `ImageBuffer::from_raw` as above and `image::imageops::rotate270`,
/// which writes the pixel `(x, y)` to `(y, w - 1 - x)` of a new `h` by `w`
/// buffer.
#[verifier::external_body]
pub(crate) fn rotate270_rgba(rgba: &Vec<u8>, w: u32, h: u32) -> (r: Vec<u8>)
    requires
        rgba_len(w as nat, h as nat) <= rgba@.len(),
        rgba_len(w as nat, h as nat) <= usize::MAX,
    ensures
        r@ == rotated_270(rgba@, w as nat, h as nat),
{
    let buffer = image::ImageBuffer::<image::Rgba<u8>, Vec<u8>>::from_raw(w, h, rgba.clone()).unwrap();
    image::imageops::rotate270(&buffer).into_raw()
}

/// `src` mirrored left to right: pixel `(w - 1 - x, y)` is `src`'s `(x, y)`.
pub open spec fn flipped_h(src: Seq<u8>, w: nat, h: nat) -> Seq<u8> {
    Seq::new(rgba_len(w, h), |i: int| {
        let d = i / 4;
        let (dx, dy) = (d % (w as int), d / (w as int));
        src[(dy * w + (w - 1 - dx)) * 4 + i % 4]
    })
}

/// `src` mirrored top to bottom: pixel `(x, h - 1 - y)` is `src`'s `(x, y)`.
pub open spec fn flipped_v(src: Seq<u8>, w: nat, h: nat) -> Seq<u8> {
    Seq::new(rgba_len(w, h), |i: int| {
        let d = i / 4;
        let (dx, dy) = (d % (w as int), d / (w as int));
        src[((h - 1 - dy) * w + dx) * 4 + i % 4]
    })
}

/// Calls `ImageBuffer::from_raw` as above and `image::imageops::flip_horizontal`,
/// which writes the pixel `(x, y)` to `(w - 1 - x, y)` of a new `w` by `h`
/// buffer.
#[verifier::external_body]
pub(crate) fn flip_horizontal_rgba(rgba: &Vec<u8>, w: u32, h: u32) -> (r: Vec<u8>)
    requires
        rgba_len(w as nat, h as nat) <= rgba@.len(),
        rgba_len(w as nat, h as nat) <= usize::MAX,
    ensures
        r@ == flipped_h(rgba@, w as nat, h as nat),
{
    let buffer = image::ImageBuffer::<image::Rgba<u8>, Vec<u8>>::from_raw(w, h, rgba.clone()).unwrap();
    image::imageops::flip_horizontal(&buffer).into_raw()
}

/// Calls `ImageBuffer::from_raw` as above and `image::imageops::flip_vertical`,
/// which writes the pixel `(x, y)` to `(x, h - 1 - y)` of a new `w` by `h`
/// buffer.
#[verifier::external_body]
pub(crate) fn flip_vertical_rgba(rgba: &Vec<u8>, w: u32, h: u32) -> (r: Vec<u8>)
    requires
        rgba_len(w as nat, h as nat) <= rgba@.len(),
        rgba_len(w as nat, h as nat) <= usize::MAX,
    ensures
        r@ == flipped_v(rgba@, w as nat, h as nat),
{
    let buffer = image::ImageBuffer::<image::Rgba<u8>, Vec<u8>>::from_raw(w, h, rgba.clone()).unwrap();
    image::imageops::flip_vertical(&buffer).into_raw()
}

/// Mirroring an image twice, left to right or top to bottom, gives it back
/// byte for byte.
pub proof fn lemma_mirrors_cancel(src: Seq<u8>, w: nat, h: nat)
    requires
        src.len() == rgba_len(w, h),
    ensures
        flipped_h(flipped_h(src, w, h), w, h) == src,
        flipped_v(flipped_v(src, w, h), w, h) == src,
{
    let (wi, hi) = (w as int, h as int);
    let fh = flipped_h(src, w, h);
    let fv = flipped_v(src, w, h);
    assert forall|i: int| 0 <= i < src.len() implies #[trigger] flipped_h(fh, w, h)[i] == src[i] by {
        assert(wi > 0 && hi > 0) by (nonlinear_arith)
            requires
                0 <= i < wi * hi * 4,
                wi >= 0,
                hi >= 0,
        ;
        lemma_byte_position(i, wi, hi);
        let (x, y, c) = ((i / 4) % wi, (i / 4) / wi, i % 4);
        lemma_byte_index(wi - 1 - x, y, c, wi, hi);
        lemma_byte_index(x, y, c, wi, hi);
    }
    assert forall|i: int| 0 <= i < src.len() implies #[trigger] flipped_v(fv, w, h)[i] == src[i] by {
        assert(wi > 0 && hi > 0) by (nonlinear_arith)
            requires
                0 <= i < wi * hi * 4,
                wi >= 0,
                hi >= 0,
        ;
        lemma_byte_position(i, wi, hi);
        let (x, y, c) = ((i / 4) % wi, (i / 4) / wi, i % 4);
        lemma_byte_index(x, hi - 1 - y, c, wi, hi);
        lemma_byte_index(x, y, c, wi, hi);
    }
    assert(flipped_h(fh, w, h) =~= src);
    assert(flipped_v(fv, w, h) =~= src);
}

/// Byte `c` of pixel `(x, y)` of `src` mirrored left to right is byte `c`
/// of `src`'s pixel `(w - 1 - x, y)`.
pub(crate) proof fn lemma_flipped_h_pixel(src: Seq<u8>, w: nat, h: nat, x: int, y: int, c: int)
    requires
        0 <= x < w,
        0 <= y < h,
        0 <= c < 4,
    ensures
        0 <= (y * w + x) * 4 + c < rgba_len(w, h),
        flipped_h(src, w, h)[(y * w + x) * 4 + c] == src[(y * w + (w - 1 - x)) * 4 + c],
{
    lemma_byte_index(x, y, c, w as int, h as int);
}

/// Byte `c` of pixel `(x, y)` of `src` mirrored top to bottom is byte `c`
/// of `src`'s pixel `(x, h - 1 - y)`.
pub(crate) proof fn lemma_flipped_v_pixel(src: Seq<u8>, w: nat, h: nat, x: int, y: int, c: int)
    requires
        0 <= x < w,
        0 <= y < h,
        0 <= c < 4,
    ensures
        0 <= (y * w + x) * 4 + c < rgba_len(w, h),
        flipped_v(src, w, h)[(y * w + x) * 4 + c] == src[((h - 1 - y) * w + x) * 4 + c],
{
    lemma_byte_index(x, y, c, w as int, h as int);
}

/// Byte `c` of pixel `(x, y)` of `src` turned half way is byte `c` of
/// `src`'s pixel `(w - 1 - x, h - 1 - y)`.
pub(crate) proof fn lemma_rotated_180_pixel(src: Seq<u8>, w: nat, h: nat, x: int, y: int, c: int)
    requires
        0 <= x < w,
        0 <= y < h,
        0 <= c < 4,
    ensures
        0 <= (y * w + x) * 4 + c < rgba_len(w, h),
        rotated_180(src, w, h)[(y * w + x) * 4 + c] == src[((h - 1 - y) * w + (w - 1 - x)) * 4 + c],
{
    lemma_byte_index(x, y, c, w as int, h as int);
}

/// Byte `c` of pixel `(x, y)` of `src` (a `w` by `h` image) turned a
/// quarter clockwise, which is `h` wide, is byte `c` of `src`'s pixel
/// `(y, h - 1 - x)`.
pub(crate) proof fn lemma_rotated_90_pixel(src: Seq<u8>, w: nat, h: nat, x: int, y: int, c: int)
    requires
        0 <= x < h,
        0 <= y < w,
        0 <= c < 4,
    ensures
        0 <= (y * h + x) * 4 + c < rgba_len(w, h),
        rotated_90(src, w, h)[(y * h + x) * 4 + c] == src[((h - 1 - x) * w + y) * 4 + c],
{
    lemma_byte_index(x, y, c, h as int, w as int);
    assert(rgba_len(w, h) == h * w * 4) by (nonlinear_arith);
}

/// Byte `c` of pixel `(x, y)` of `src` (a `w` by `h` image) turned three
/// quarters clockwise, which is `h` wide, is byte `c` of `src`'s pixel
/// `(w - 1 - y, x)`.
pub(crate) proof fn lemma_rotated_270_pixel(src: Seq<u8>, w: nat, h: nat, x: int, y: int, c: int)
    requires
        0 <= x < h,
        0 <= y < w,
        0 <= c < 4,
    ensures
        0 <= (y * h + x) * 4 + c < rgba_len(w, h),
        rotated_270(src, w, h)[(y * h + x) * 4 + c] == src[(x * w + (w - 1 - y)) * 4 + c],
{
    lemma_byte_index(x, y, c, h as int, w as int);
    assert(rgba_len(w, h) == h * w * 4) by (nonlinear_arith);
}

} // verus!
