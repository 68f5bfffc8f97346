//! Loading a photo from its bytes: the EXIF orientation tag is read, the
//! image is decoded to RGB8, and the orientation fix (a flip and/or a
//! quarter turn) is applied to the pixels so that the face is upright.
//!
//! Reading the tag and decoding the image are done by `kamadak-exif` and
//! `image`; the choice of fix and the pixel permutation are verified here.

use vstd::prelude::*;

use crate::error::FaceError;
use crate::pipeline::{fix_for_tag, orientation_fix, OrientationFix};

verus! {

/// An RGB8 image: rows of `width` pixels, top to bottom, three bytes (red,
/// green, blue) per pixel, starting at the front of `data`.
pub struct RgbPixels {
    pub width: u32,
    pub height: u32,
    pub data: Vec<u8>,
}

/// Byte `c` of pixel `(x, y)` of a row-major RGB8 buffer `width` pixels wide.
pub open spec fn byte_at(data: Seq<u8>, width: int, x: int, y: int, c: int) -> u8 {
    data[3 * (y * width + x) + c]
}

/// The size of a `w` x `h` image after `fix`: quarter turns swap the sides.
pub open spec fn oriented_size(fix: OrientationFix, w: int, h: int) -> (int, int) {
    if fix.swaps_dimensions() {
        (h, w)
    } else {
        (w, h)
    }
}

/// Which pixel of the `w` x `h` source lands at `(x, y)` of the fixed image:
/// flips mirror a coordinate, a quarter turn clockwise takes column `x` from
/// source row `h - 1 - x`, a quarter turn counter-clockwise takes row `y`
/// from source column `w - 1 - y`.
pub open spec fn source_pixel(fix: OrientationFix, w: int, h: int, x: int, y: int) -> (int, int) {
    match fix {
        OrientationFix::Keep => (x, y),
        OrientationFix::FlipHorizontal => (w - 1 - x, y),
        OrientationFix::Rotate180 => (w - 1 - x, h - 1 - y),
        OrientationFix::FlipVertical => (x, h - 1 - y),
        OrientationFix::Rotate90ThenFlipHorizontal => (y, x),
        OrientationFix::Rotate90 => (y, h - 1 - x),
        OrientationFix::Rotate270ThenFlipHorizontal => (w - 1 - y, h - 1 - x),
        OrientationFix::Rotate270 => (w - 1 - y, x),
    }
}

/// `out` (`out_w` x `out_h`) is the `w` x `h` image `data` with `fix`
/// applied: the fixed size, exactly three bytes per pixel, and every pixel
/// taken from its source pixel.
pub open spec fn is_oriented(
    fix: OrientationFix,
    w: u32,
    h: u32,
    data: Seq<u8>,
    out_w: u32,
    out_h: u32,
    out: Seq<u8>,
) -> bool {
    &&& (out_w as int, out_h as int) == oriented_size(fix, w as int, h as int)
    &&& out.len() == 3 * out_w * out_h
    &&& forall|x: int, y: int, c: int|
        0 <= x < out_w && 0 <= y < out_h && 0 <= c < 3 ==> #[trigger] byte_at(out, out_w as int, x, y, c)
            == byte_at(
            data,
            w as int,
            source_pixel(fix, w as int, h as int, x, y).0,
            source_pixel(fix, w as int, h as int, x, y).1,
            c,
        )
}

/// The source byte for byte `i` of the fixed image (`out_w` pixels wide).
spec fn source_index(fix: OrientationFix, w: int, h: int, out_w: int, i: int) -> int {
    let k = i / 3;
    let s = source_pixel(fix, w, h, k % out_w, k / out_w);
    3 * (s.1 * w + s.0) + i % 3
}

proof fn lemma_split_index(i: int, ow: int, oh: int)
    requires
        ow > 0,
        oh > 0,
        0 <= i < 3 * ow * oh,
    ensures
        0 <= i / 3 < ow * oh,
        0 <= i % 3 < 3,
        0 <= (i / 3) % ow < ow,
        0 <= (i / 3) / ow < oh,
{
    assert(0 <= i / 3 < ow * oh) by (nonlinear_arith)
        requires
            0 <= i < 3 * ow * oh,
    ;
    let k = i / 3;
    assert(0 <= k / ow < oh) by (nonlinear_arith)
        requires
            0 <= k < ow * oh,
            ow > 0,
    ;
    assert(0 <= k % ow < ow) by (nonlinear_arith)
        requires
            ow > 0,
            k >= 0,
    ;
}

proof fn lemma_pixel_in_bounds(x: int, y: int, c: int, w: int, h: int)
    requires
        0 <= x < w,
        0 <= y < h,
        0 <= c < 3,
    ensures
        0 <= y * w + x < w * h,
        0 <= 3 * (y * w + x) + c < 3 * w * h,
{
    assert(0 <= y * w + x < w * h) by (nonlinear_arith)
        requires
            0 <= x < w,
            0 <= y < h,
    ;
    assert(3 * (y * w + x) + c < 3 * w * h) by (nonlinear_arith)
        requires
            y * w + x < w * h,
            0 <= c < 3,
    ;
}

proof fn lemma_join_index(x: int, y: int, c: int, ow: int)
    requires
        0 <= x < ow,
        0 <= y,
        0 <= c < 3,
    ensures
        (3 * (y * ow + x) + c) / 3 == y * ow + x,
        (3 * (y * ow + x) + c) % 3 == c,
        (y * ow + x) % ow == x,
        (y * ow + x) / ow == y,
{
    let k = y * ow + x;
    vstd::arithmetic::div_mod::lemma_fundamental_div_mod_converse(3 * k + c, 3, k, c);
    assert(k == y * ow + x);
    vstd::arithmetic::div_mod::lemma_fundamental_div_mod_converse(k, ow, y, x);
}

/// Applies an orientation fix to a `p.width` x `p.height` RGB8 image whose
/// buffer holds (at least) all its pixels.
pub fn orient(p: &RgbPixels, fix: OrientationFix) -> (r: RgbPixels)
    requires
        3 * p.width * p.height <= p.data@.len(),
    ensures
        is_oriented(fix, p.width, p.height, p.data@, r.width, r.height, r.data@),
{
    let w = p.width;
    let h = p.height;
    let swaps = match fix {
        OrientationFix::Rotate90ThenFlipHorizontal | OrientationFix::Rotate90
        | OrientationFix::Rotate270ThenFlipHorizontal | OrientationFix::Rotate270 => true,
        _ => false,
    };
    let (ow, oh) = if swaps { (h, w) } else { (w, h) };
    if w == 0 || h == 0 {
        let out: Vec<u8> = Vec::new();
        proof {
            assert(3 * ow * oh == 0) by (nonlinear_arith)
                requires
                    ow == 0 || oh == 0,
            ;
        }
        return RgbPixels { width: ow, height: oh, data: out };
    }
    proof {
        assert(3 * w <= 3 * w * h) by (nonlinear_arith)
            requires
                h >= 1,
        ;
        assert(3 * ow * oh == 3 * w * h) by (nonlinear_arith)
            requires
                (ow == w && oh == h) || (ow == h && oh == w),
        ;
    }
    let len = p.data.len();
    assert(3 * w * h <= len);
    let n: usize = 3 * (w as usize) * (h as usize);
    let wu = w as usize;
    let hu = h as usize;
    let owu = ow as usize;
    let ghost data = p.data@;
    let mut out: Vec<u8> = Vec::new();
    let mut i: usize = 0;
    while i < n
        invariant
            n == 3 * w * h,
            n == 3 * ow * oh,
            n <= data.len(),
            data == p.data@,
            w == p.width,
            h == p.height,
            wu == w,
            hu == h,
            owu == ow,
            w > 0,
            h > 0,
            (ow as int, oh as int) == oriented_size(fix, w as int, h as int),
            swaps == fix.swaps_dimensions(),
            i <= n,
            out@.len() == i,
            forall|j: int| 0 <= j < i ==> #[trigger] out@[j] == data[source_index(fix, w as int, h as int, ow as int, j)],
            forall|j: int| 0 <= j < i ==> 0 <= #[trigger] source_index(fix, w as int, h as int, ow as int, j) < n,
        decreases n - i,
    {
        proof {
            lemma_split_index(i as int, ow as int, oh as int);
        }
        let k = i / 3;
        let c = i % 3;
        let x = k % owu;
        let y = k / owu;
        let (sx, sy): (usize, usize) = match fix {
            OrientationFix::Keep => (x, y),
            OrientationFix::FlipHorizontal => (wu - 1 - x, y),
            OrientationFix::Rotate180 => (wu - 1 - x, hu - 1 - y),
            OrientationFix::FlipVertical => (x, hu - 1 - y),
            OrientationFix::Rotate90ThenFlipHorizontal => (y, x),
            OrientationFix::Rotate90 => (y, hu - 1 - x),
            OrientationFix::Rotate270ThenFlipHorizontal => (wu - 1 - y, hu - 1 - x),
            OrientationFix::Rotate270 => (wu - 1 - y, x),
        };
        proof {
            assert((sx as int, sy as int) == source_pixel(fix, w as int, h as int, x as int, y as int));
            lemma_pixel_in_bounds(sx as int, sy as int, c as int, w as int, h as int);
            assert(source_index(fix, w as int, h as int, ow as int, i as int) == 3 * (sy * w + sx) + c);
        }
        let idx = 3 * (sy * wu + sx) + c;
        out.push(p.data[idx]);
        i = i + 1;
    }
    proof {
        assert forall|x: int, y: int, c: int|
            0 <= x < ow && 0 <= y < oh && 0 <= c < 3 implies #[trigger] byte_at(out@, ow as int, x, y, c)
                == byte_at(
                data,
                w as int,
                source_pixel(fix, w as int, h as int, x, y).0,
                source_pixel(fix, w as int, h as int, x, y).1,
                c,
            ) by {
            lemma_join_index(x, y, c, ow as int);
            lemma_pixel_in_bounds(x, y, c, ow as int, oh as int);
            let j = 3 * (y * ow + x) + c;
            assert(out@[j] == data[source_index(fix, w as int, h as int, ow as int, j)]);
        }
    }
    RgbPixels { width: ow, height: oh, data: out }
}

/// The orientation tag (0x0112) of the primary image's EXIF data, as
/// `kamadak-exif` reads it from a container's bytes (`None` when there is no
/// readable EXIF data, no such tag, or no unsigned value in it).
pub uninterp spec fn exif_orientation_tag(bytes: Seq<u8>) -> Option<u32>;

/// Calls `exif::Reader::read_from_container` on the bytes, then
/// `Exif::get_field(Tag::Orientation, In::PRIMARY)` and `Value::get_uint(0)`.
/// The result is a function of the bytes alone, named
/// [`exif_orientation_tag`]; the EXIF format itself is not stated here.
#[verifier::external_body]
fn read_exif_orientation(bytes: &[u8]) -> (r: Option<u32>)
    ensures
        r == exif_orientation_tag(bytes@),
{
    let data = match exif::Reader::new().read_from_container(&mut std::io::Cursor::new(bytes)) {
        Ok(d) => d,
        Err(_) => return None,
    };
    match data.get_field(exif::Tag::Orientation, exif::In::PRIMARY) {
        Some(field) => field.value.get_uint(0),
        None => None,
    }
}

/// The fix for a photo's EXIF orientation tag; a photo without one is
/// taken as upright (tag 1).
pub open spec fn photo_fix(bytes: Seq<u8>) -> OrientationFix {
    match exif_orientation_tag(bytes) {
        Some(o) => fix_for_tag(o),
        None => fix_for_tag(1),
    }
}

/// The orientation fix a photo's EXIF data asks for.
pub fn exif_orientation_fix(bytes: &[u8]) -> (r: OrientationFix)
    ensures
        r == photo_fix(bytes@),
        exif_orientation_tag(bytes@) is None ==> r == OrientationFix::Keep,
        exif_orientation_tag(bytes@) matches Some(o) ==> (r.swaps_dimensions() <==> 5 <= o <= 8),
{
    let tag = match read_exif_orientation(bytes) {
        Some(o) => o,
        None => 1,
    };
    orientation_fix(tag)
}

/// The RGB8 image `image` decodes from the bytes (format guessed from the
/// content): width, height and pixel buffer, or `None` when the bytes do not
/// decode.
pub uninterp spec fn decoded_rgb8(bytes: Seq<u8>) -> Option<(u32, u32, Seq<u8>)>;

/// Calls `image::load_from_memory`, then `DynamicImage::into_rgb8`, and
/// takes the buffer's size and raw bytes (`width`, `height`, `into_raw`).
/// The decoded image is a function of the bytes alone, named
/// [`decoded_rgb8`]; a decode error is handed back as its message. An
/// `ImageBuffer` only exists with a buffer holding all its pixels
/// (`ImageBuffer::from_raw` checks it), so the buffer holds at least
/// `3 * width * height` bytes.
#[verifier::external_body]
fn decode_rgb8(bytes: &[u8]) -> (r: Result<RgbPixels, String>)
    ensures
        match r {
            Ok(p) => decoded_rgb8(bytes@) == Some((p.width, p.height, p.data@)) && 3 * p.width * p.height
                <= p.data@.len(),
            Err(_) => decoded_rgb8(bytes@) is None,
        },
{
    match image::load_from_memory(bytes) {
        Ok(img) => {
            let rgb = img.into_rgb8();
            Ok(RgbPixels { width: rgb.width(), height: rgb.height(), data: rgb.into_raw() })
        },
        Err(e) => Err(e.to_string()),
    }
}

/// Decodes a photo (e.g. a multipart upload) as RGB8 and turns it upright
/// according to its EXIF orientation. Bytes that do not decode are an
/// `Image` error.
pub fn load_image_from_bytes(bytes: &[u8]) -> (r: Result<RgbPixels, FaceError>)
    ensures
        decoded_rgb8(bytes@) is None ==> (r matches Err(FaceError::Image(_))),
        decoded_rgb8(bytes@) matches Some((w, h, data)) ==> (r matches Ok(p) && is_oriented(
            photo_fix(bytes@),
            w,
            h,
            data,
            p.width,
            p.height,
            p.data@,
        )),
{
    let fix = exif_orientation_fix(bytes);
    match decode_rgb8(bytes) {
        Ok(pixels) => Ok(orient(&pixels, fix)),
        Err(message) => Err(FaceError::Image(message)),
    }
}

/// Every fix is a permutation of the pixels: each pixel of the fixed
/// image comes from a pixel inside the source, and no two pixels of the
/// fixed image come from the same one.
pub proof fn law_fix_permutes_the_pixels(fix: OrientationFix, w: int, h: int, x1: int, y1: int, x2: int, y2: int)
    requires
        0 <= x1 < oriented_size(fix, w, h).0,
        0 <= y1 < oriented_size(fix, w, h).1,
        0 <= x2 < oriented_size(fix, w, h).0,
        0 <= y2 < oriented_size(fix, w, h).1,
    ensures
        0 <= source_pixel(fix, w, h, x1, y1).0 < w,
        0 <= source_pixel(fix, w, h, x1, y1).1 < h,
        source_pixel(fix, w, h, x1, y1) == source_pixel(fix, w, h, x2, y2) ==> x1 == x2 && y1 == y2,
{
}

/// How the fixes fit together, for a `w` x `h` source and a pixel `(x, y)`
/// of the result: a horizontal flip undoes itself; a quarter turn
/// counter-clockwise undoes a quarter turn clockwise and the other way
/// round; two clockwise quarter turns are a half turn; the mirrored quarter
/// turns are the quarter turns followed by a horizontal flip; and a
/// vertical flip is a half turn followed by a horizontal flip.
pub proof fn law_fixes_compose(w: int, h: int, x: int, y: int)
    ensures
        ({
            let (a, b) = source_pixel(OrientationFix::FlipHorizontal, w, h, x, y);
            source_pixel(OrientationFix::FlipHorizontal, w, h, a, b) == (x, y)
        }),
        ({
            let (a, b) = source_pixel(OrientationFix::Rotate270, h, w, x, y);
            source_pixel(OrientationFix::Rotate90, w, h, a, b) == (x, y)
        }),
        ({
            let (a, b) = source_pixel(OrientationFix::Rotate90, h, w, x, y);
            source_pixel(OrientationFix::Rotate270, w, h, a, b) == (x, y)
        }),
        ({
            let (a, b) = source_pixel(OrientationFix::Rotate180, w, h, x, y);
            source_pixel(OrientationFix::Rotate180, w, h, a, b) == (x, y)
        }),
        ({
            let (a, b) = source_pixel(OrientationFix::Rotate90, h, w, x, y);
            source_pixel(OrientationFix::Rotate90, w, h, a, b) == source_pixel(OrientationFix::Rotate180, w, h, x, y)
        }),
        ({
            let (a, b) = source_pixel(OrientationFix::FlipHorizontal, h, w, x, y);
            source_pixel(OrientationFix::Rotate90, w, h, a, b) == source_pixel(
                OrientationFix::Rotate90ThenFlipHorizontal,
                w,
                h,
                x,
                y,
            )
        }),
        ({
            let (a, b) = source_pixel(OrientationFix::FlipHorizontal, h, w, x, y);
            source_pixel(OrientationFix::Rotate270, w, h, a, b) == source_pixel(
                OrientationFix::Rotate270ThenFlipHorizontal,
                w,
                h,
                x,
                y,
            )
        }),
        ({
            let (a, b) = source_pixel(OrientationFix::FlipHorizontal, w, h, x, y);
            source_pixel(OrientationFix::Rotate180, w, h, a, b) == source_pixel(OrientationFix::FlipVertical, w, h, x, y)
        }),
        source_pixel(OrientationFix::Keep, w, h, x, y) == (x, y),
{
}

} // verus!
