//! Editing operations on whole images: blending one image onto another,
//! cropping, filling and resizing.

use vstd::prelude::*;
use crate::blend::{blend_mode_of, composite, composite_bytes, placed_overlaps, BlendMode};
use crate::buffer::{
    byte_index, channel, channel_of, column_of, lemma_byte_index, lemma_decoded_byte_index,
    lemma_next_byte, row_of, Color, Image, RasterError,
};
use crate::clip::max0;
use crate::position::{anchor_of, resolved_x, resolved_y, Anchor, Position};
use crate::text::str_equals;

verus! {

/// The smaller of two integers.
pub open spec fn lesser(a: int, b: int) -> int {
    if a < b {
        a
    } else {
        b
    }
}

/// Top-left corner of the kept rectangle when a `width` by `height` image is
/// cropped to `crop_w` by `crop_h` at `position`: the resolved corner, with
/// negative coordinates pulled back to 0.
pub open spec fn crop_origin(width: int, height: int, crop_w: int, crop_h: int, position: Position) -> (
    int,
    int,
) {
    (
        max0(resolved_x(position.anchor, position.offset_x as int, width, crop_w)),
        max0(resolved_y(position.anchor, position.offset_y as int, height, crop_h)),
    )
}

/// Size of the kept rectangle: the crop rectangle cut at the image's right and
/// bottom edges.
pub open spec fn crop_size(width: int, height: int, crop_w: int, crop_h: int, position: Position) -> (
    int,
    int,
) {
    let (ox, oy) = crop_origin(width, height, crop_w, crop_h, position);
    (max0(lesser(ox + crop_w, width) - ox), max0(lesser(oy + crop_h, height) - oy))
}

/// Bytes of the cropped image: each pixel copied, all four channels, from the
/// source pixel at the same place relative to the kept rectangle's corner.
pub open spec fn cropped_bytes(
    width: int,
    height: int,
    bytes: Seq<u8>,
    crop_w: int,
    crop_h: int,
    position: Position,
) -> Seq<u8> {
    let (ox, oy) = crop_origin(width, height, crop_w, crop_h, position);
    let (nw, nh) = crop_size(width, height, crop_w, crop_h, position);
    Seq::new(
        (nw * nh * 4) as nat,
        |k: int|
            bytes[byte_index(width, ox + column_of(nw, k), oy + row_of(nw, k), channel_of(k))],
    )
}

/// Crops `src` in place to `crop_width` by `crop_height` at `position`. A
/// corner before the image's origin is pulled back to it, and a rectangle that
/// runs past the image is cut at its edges; crop never fails.
pub fn crop_at(src: &mut Image, crop_width: i32, crop_height: i32, position: Position)
    requires
        old(src).wf(),
    ensures
        final(src).wf(),
        (final(src).width as int, final(src).height as int) == crop_size(
            old(src).width as int,
            old(src).height as int,
            crop_width as int,
            crop_height as int,
            position,
        ),
        final(src).bytes@ == cropped_bytes(
            old(src).width as int,
            old(src).height as int,
            old(src).bytes@,
            crop_width as int,
            crop_height as int,
            position,
        ),
{
    let ghost g_old = *src;
    let (x, y) = position.get_x_y(src.width, src.height, crop_width, crop_height);
    let ox: i64 = if x < 0 {
        0
    } else {
        x
    };
    let oy: i64 = if y < 0 {
        0
    } else {
        y
    };
    let mut x2: i64 = ox + crop_width as i64;
    if x2 > src.width as i64 {
        x2 = src.width as i64;
    }
    let mut y2: i64 = oy + crop_height as i64;
    if y2 > src.height as i64 {
        y2 = src.height as i64;
    }
    let nw: usize = if x2 > ox {
        (x2 - ox) as usize
    } else {
        0
    };
    let nh: usize = if y2 > oy {
        (y2 - oy) as usize
    } else {
        0
    };
    let w = src.width as usize;
    let src_len = src.bytes.len();
    proof {
        assert(nw * nh * 4 <= (w as int) * (src.height as int) * 4) by (nonlinear_arith)
            requires
                nw <= w,
                nh <= src.height,
        ;
        assert(nw * nh * 4 > 0 ==> nw > 0) by (nonlinear_arith);
    }
    let len: usize = nw * nh * 4;
    let mut out: Vec<u8> = Vec::with_capacity(len);
    let mut k: usize = 0;
    let mut cx: usize = 0;
    let mut cy: usize = 0;
    let mut c: usize = 0;
    while k < len
        invariant
            src.wf(),
            *src == g_old,
            src_len == src.bytes@.len(),
            w == src.width,
            len == nw * nh * 4,
            nw > 0 ==> ox + nw <= w,
            nh > 0 ==> oy + nh <= src.height,
            (ox as int, oy as int) == crop_origin(
                src.width as int,
                src.height as int,
                crop_width as int,
                crop_height as int,
                position,
            ),
            (nw as int, nh as int) == crop_size(
                src.width as int,
                src.height as int,
                crop_width as int,
                crop_height as int,
                position,
            ),
            k <= len,
            out@.len() == k,
            c < 4,
            k < len ==> cx < nw,
            k as int == byte_index(nw as int, cx as int, cy as int, c as int),
            forall|j: int|
                0 <= j < k ==> out@[j] == src.bytes@[byte_index(
                    w as int,
                    ox + column_of(nw as int, j),
                    oy + row_of(nw as int, j),
                    channel_of(j),
                )],
        decreases len - k,
    {
        proof {
            lemma_next_byte(nw as int, nh as int, cx as int, cy as int, c as int, k as int);
            lemma_byte_index(
                w as int,
                src.height as int,
                ox + cx as int,
                oy + cy as int,
                c as int,
            );
            assert(0 <= (oy + cy as int) * (w as int) <= (oy + cy as int) * (w as int) + ox
                + cx);
        }
        let sx = ox as usize + cx;
        let sy = oy as usize + cy;
        let i = (sy * w + sx) * 4 + c;
        out.push(src.bytes[i]);
        if c < 3 {
            c = c + 1;
        } else if cx + 1 < nw {
            c = 0;
            cx = cx + 1;
        } else {
            c = 0;
            cx = 0;
            cy = cy + 1;
        }
        k = k + 1;
    }
    assert(out@ =~= cropped_bytes(
        g_old.width as int,
        g_old.height as int,
        g_old.bytes@,
        crop_width as int,
        crop_height as int,
        position,
    ));
    src.width = nw as i32;
    src.height = nh as i32;
    src.bytes = out;
}

/// What `str::to_lowercase` makes of a string.
pub uninterp spec fn lower_of(s: Seq<char>) -> Seq<char>;

/// Relies on `str::to_lowercase`: its result depends on the characters alone.
#[verifier::external_body]
fn lowercase(s: &str) -> (r: String)
    ensures
        r@ == lower_of(s@),
{
    s.to_lowercase()
}

/// Blends `image2` onto a copy of `image1`. The blend mode is named
/// case-insensitively (normal, difference, multiply, overlay, screen), the
/// placement by an anchor name and offsets, and `opacity` is in thousandths,
/// saturated into `0..=1000`.
pub fn blend(
    image1: &Image,
    image2: &Image,
    blend_mode: &str,
    opacity: i32,
    position: &str,
    offset_x: i32,
    offset_y: i32,
) -> (r: Result<Image, RasterError>)
    requires
        image1.wf(),
        image2.wf(),
    ensures
        anchor_of(position@) is None ==> r is Err && r->Err_0 is InvalidPosition
            && r->Err_0->InvalidPosition_0@ == position@,
        anchor_of(position@) is Some && blend_mode_of(lower_of(blend_mode@)) is None ==> r is Err
            && r->Err_0 is InvalidBlendMode && r->Err_0->InvalidBlendMode_0@ == lower_of(
            blend_mode@,
        ),
        anchor_of(position@) is Some && blend_mode_of(lower_of(blend_mode@)) is Some ==> {
            let pos = Position { anchor: anchor_of(position@)->0, offset_x, offset_y };
            let m = blend_mode_of(lower_of(blend_mode@))->0;
            &&& !placed_overlaps(pos, *image1, *image2) ==> r == Err::<Image, RasterError>(
                RasterError::OutsideCanvas,
            )
            &&& placed_overlaps(pos, *image1, *image2) ==> {
                &&& r is Ok
                &&& r->Ok_0.wf()
                &&& r->Ok_0.width == image1.width
                &&& r->Ok_0.height == image1.height
                &&& r->Ok_0.bytes@ == composite_bytes(*image1, *image2, m, opacity as int, pos)
            }
        },
{
    let pos = match Position::new(position, offset_x, offset_y) {
        Ok(pos) => pos,
        Err(e) => {
            return Err(e);
        },
    };
    let name = lowercase(blend_mode);
    match BlendMode::from_name(name.as_str()) {
        Some(m) => composite(image1, image2, m, opacity, pos),
        None => Err(RasterError::InvalidBlendMode(name)),
    }
}

/// Crops `src` in place to `crop_width` by `crop_height`, placed by an anchor
/// name and offsets (see `crop_at`). Fails only on an unknown anchor name, and
/// then leaves `src` as it was.
pub fn crop(
    src: &mut Image,
    crop_width: i32,
    crop_height: i32,
    position: &str,
    offset_x: i32,
    offset_y: i32,
) -> (r: Result<(), RasterError>)
    requires
        old(src).wf(),
    ensures
        final(src).wf(),
        anchor_of(position@) is None ==> {
            &&& r is Err
            &&& r->Err_0 is InvalidPosition
            &&& r->Err_0->InvalidPosition_0@ == position@
            &&& *final(src) == *old(src)
        },
        anchor_of(position@) is Some ==> {
            let pos = Position { anchor: anchor_of(position@)->0, offset_x, offset_y };
            &&& r == Ok::<(), RasterError>(())
            &&& (final(src).width as int, final(src).height as int) == crop_size(
                old(src).width as int,
                old(src).height as int,
                crop_width as int,
                crop_height as int,
                pos,
            )
            &&& final(src).bytes@ == cropped_bytes(
                old(src).width as int,
                old(src).height as int,
                old(src).bytes@,
                crop_width as int,
                crop_height as int,
                pos,
            )
        },
{
    let pos = match Position::new(position, offset_x, offset_y) {
        Ok(pos) => pos,
        Err(e) => {
            return Err(e);
        },
    };
    crop_at(src, crop_width, crop_height, pos);
    Ok(())
}

/// Bytes of a buffer of `len` bytes in which every pixel is `color`.
pub open spec fn filled_bytes(len: nat, color: Color) -> Seq<u8> {
    Seq::new(len, |k: int| channel(color, channel_of(k)))
}

/// Sets every pixel of `src` to `color`, all four channels; the size is kept.
pub fn fill(src: &mut Image, color: Color) -> (r: Result<(), RasterError>)
    requires
        old(src).wf(),
    ensures
        r == Ok::<(), RasterError>(()),
        final(src).wf(),
        final(src).width == old(src).width,
        final(src).height == old(src).height,
        final(src).bytes@ == filled_bytes(old(src).bytes@.len(), color),
{
    let ghost g_old = *src;
    let len = src.bytes.len();
    let mut k: usize = 0;
    let mut c: usize = 0;
    while k < len
        invariant
            len == src.bytes@.len(),
            len == g_old.bytes@.len(),
            src.width == g_old.width,
            src.height == g_old.height,
            k <= len,
            c == channel_of(k as int),
            forall|j: int| 0 <= j < k ==> src.bytes@[j] == channel(color, channel_of(j)),
        decreases len - k,
    {
        let v = if c == 0 {
            color.r
        } else if c == 1 {
            color.g
        } else if c == 2 {
            color.b
        } else {
            color.a
        };
        src.bytes.set(k, v);
        c = if c < 3 {
            c + 1
        } else {
            0
        };
        k = k + 1;
    }
    assert(src.bytes@ =~= filled_bytes(len as nat, color));
    Ok(())
}

/// After a fill, reading any pixel gives the fill color exactly.
pub proof fn lemma_filled_pixels(img: Image, color: Color)
    requires
        img.wf(),
        img.bytes@ == filled_bytes(img.bytes@.len(), color),
    ensures
        forall|x: int, y: int| img.in_bounds(x, y) ==> #[trigger] img.pixel_at(x, y) == color,
{
    assert forall|x: int, y: int| img.in_bounds(x, y) implies #[trigger] img.pixel_at(x, y)
        == color by {
        lemma_byte_index(img.width as int, img.height as int, x, y, 0);
        lemma_byte_index(img.width as int, img.height as int, x, y, 1);
        lemma_byte_index(img.width as int, img.height as int, x, y, 2);
        lemma_byte_index(img.width as int, img.height as int, x, y, 3);
    }
}

/// Cropping again, to the same rectangle at the same anchor, an image that a
/// crop has produced changes nothing, provided the offsets do not push the
/// rectangle right or down.
pub proof fn lemma_recrop_is_identity(
    width: int,
    height: int,
    bytes: Seq<u8>,
    crop_w: int,
    crop_h: int,
    position: Position,
)
    requires
        width >= 0,
        height >= 0,
        bytes.len() == width * height * 4,
        position.offset_x <= 0,
        position.offset_y <= 0,
    ensures
        ({
            let (nw, nh) = crop_size(width, height, crop_w, crop_h, position);
            let once = cropped_bytes(width, height, bytes, crop_w, crop_h, position);
            &&& crop_size(nw, nh, crop_w, crop_h, position) == (nw, nh)
            &&& cropped_bytes(nw, nh, once, crop_w, crop_h, position) == once
        }),
{
    let (nw, nh) = crop_size(width, height, crop_w, crop_h, position);
    let once = cropped_bytes(width, height, bytes, crop_w, crop_h, position);
    let twice = cropped_bytes(nw, nh, once, crop_w, crop_h, position);
    if nw > 0 && nh > 0 {
        let (ox2, oy2) = crop_origin(nw, nh, crop_w, crop_h, position);
        assert(ox2 == 0 && oy2 == 0);
        assert forall|k: int| 0 <= k < twice.len() implies twice[k] == once[k] by {
            lemma_decoded_byte_index(nw, k);
        }
    }
    assert(twice =~= once);
}

/// How `resize` chooses the new size.
#[derive(Clone, Copy, Debug, PartialEq, Eq, Structural)]
pub enum ResizeMode {
    /// Both axes to the target, aspect ratio ignored.
    Exact,
    /// Width to the target, height to keep the aspect ratio.
    ExactWidth,
    /// Height to the target, width to keep the aspect ratio.
    ExactHeight,
    /// The largest size with the same aspect ratio that fits in the target box.
    Fit,
    /// The smallest size with the same aspect ratio that covers the target box,
    /// then cropped at the center to the box.
    Fill,
}

/// The resize mode a name stands for, if any; names are case-sensitive.
pub open spec fn resize_mode_of(name: Seq<char>) -> Option<ResizeMode> {
    if name == "exact"@ {
        Some(ResizeMode::Exact)
    } else if name == "exact_width"@ {
        Some(ResizeMode::ExactWidth)
    } else if name == "exact_height"@ {
        Some(ResizeMode::ExactHeight)
    } else if name == "fit"@ {
        Some(ResizeMode::Fit)
    } else if name == "fill"@ {
        Some(ResizeMode::Fill)
    } else {
        None
    }
}

impl ResizeMode {
    pub fn from_name(name: &str) -> (r: Option<ResizeMode>)
        ensures
            r == resize_mode_of(name@),
    {
        if str_equals(name, "exact") {
            Some(ResizeMode::Exact)
        } else if str_equals(name, "exact_width") {
            Some(ResizeMode::ExactWidth)
        } else if str_equals(name, "exact_height") {
            Some(ResizeMode::ExactHeight)
        } else if str_equals(name, "fit") {
            Some(ResizeMode::Fit)
        } else if str_equals(name, "fill") {
            Some(ResizeMode::Fill)
        } else {
            None
        }
    }
}

/// `a * num / den` rounded to the nearest integer, halves up; 0 where `den` is 0.
pub open spec fn scale(a: int, num: int, den: int) -> int {
    if den == 0 {
        0
    } else {
        (2 * a * num + den) / (2 * den)
    }
}

/// Size that a `width` by `height` image is resampled to for target `w` by `h`.
pub open spec fn resample_size(mode: ResizeMode, width: int, height: int, w: int, h: int) -> (
    int,
    int,
) {
    let by_width = scale(w, height, width);
    let by_height = scale(h, width, height);
    match mode {
        ResizeMode::Exact => (w, h),
        ResizeMode::ExactWidth => (w, by_width),
        ResizeMode::ExactHeight => (by_height, h),
        ResizeMode::Fit => if by_width <= h {
            (w, by_width)
        } else {
            (by_height, h)
        },
        ResizeMode::Fill => if by_width >= h {
            (w, by_width)
        } else {
            (by_height, h)
        },
    }
}

/// Whether the target sides that `mode` uses are not negative: `exact_width`
/// uses only the width, `exact_height` only the height, the others both.
pub open spec fn used_sides_valid(mode: ResizeMode, w: int, h: int) -> bool {
    match mode {
        ResizeMode::ExactWidth => w >= 0,
        ResizeMode::ExactHeight => h >= 0,
        _ => w >= 0 && h >= 0,
    }
}

/// Whether `fill` is asked to cover a non-empty box from an empty image, which
/// no uniform scale can do.
pub open spec fn fill_uncoverable(mode: ResizeMode, width: int, height: int, w: int, h: int) -> bool {
    mode == ResizeMode::Fill && (width == 0 || height == 0) && w > 0 && h > 0
}

/// For a non-empty image and a non-empty box, the size that `fill` resamples to
/// covers the box.
pub proof fn lemma_fill_covers(width: int, height: int, w: int, h: int)
    requires
        width > 0,
        height > 0,
        w > 0,
        h > 0,
    ensures
        resample_size(ResizeMode::Fill, width, height, w, h).0 >= w,
        resample_size(ResizeMode::Fill, width, height, w, h).1 >= h,
{
    let by_width = scale(w, height, width);
    let by_height = scale(h, width, height);
    if by_width < h {
        let a1 = 2 * w * height + width;
        let d1 = 2 * width;
        vstd::arithmetic::div_mod::lemma_fundamental_div_mod(a1, d1);
        vstd::arithmetic::div_mod::lemma_mod_bound(a1, d1);
        assert(a1 < d1 * h) by (nonlinear_arith)
            requires
                a1 == d1 * by_width + a1 % d1,
                a1 % d1 < d1,
                by_width <= h - 1,
                d1 > 0,
        ;
        let a2 = 2 * h * width + height;
        let d2 = 2 * height;
        vstd::arithmetic::div_mod::lemma_fundamental_div_mod(a2, d2);
        vstd::arithmetic::div_mod::lemma_mod_bound(a2, d2);
        assert(by_height >= w) by (nonlinear_arith)
            requires
                a1 == 2 * w * height + width,
                a1 < 2 * width * h,
                a2 == 2 * h * width + height,
                a2 == d2 * by_height + a2 % d2,
                0 <= a2 % d2 < d2,
                d2 == 2 * height,
                width > 0,
                height > 0,
        ;
    }
}

/// Whether a `w` by `h` image can be held: its sides fit in `i32` and its
/// bytes in memory.
pub open spec fn holdable(w: int, h: int) -> bool {
    0 <= w <= i32::MAX && 0 <= h <= i32::MAX && w * h * 4 <= usize::MAX
}

/// What `image::imageops::resize` with the Catmull-Rom filter makes of a
/// `width` by `height` RGBA buffer for a `new_width` by `new_height` result.
pub uninterp spec fn resampled(
    width: nat,
    height: nat,
    bytes: Seq<u8>,
    new_width: nat,
    new_height: nat,
) -> Seq<u8>;

/// Relies on `image::imageops::resize` with `FilterType::CatmullRom`, on the
/// buffer that `ImageBuffer::from_raw` takes as is: the result depends on the
/// arguments alone and holds four bytes for each pixel of the new size.
#[verifier::external_body]
fn resample(width: u32, height: u32, bytes: &Vec<u8>, new_width: u32, new_height: u32) -> (r: Vec<
    u8,
>)
    requires
        bytes@.len() == width * height * 4,
        new_width * new_height * 4 <= usize::MAX,
    ensures
        r@ == resampled(
            width as nat,
            height as nat,
            bytes@,
            new_width as nat,
            new_height as nat,
        ),
        r@.len() == new_width * new_height * 4,
{
    match image::RgbaImage::from_raw(width, height, bytes.clone()) {
        Some(buffer) => image::imageops::resize(
            &buffer,
            new_width,
            new_height,
            image::imageops::FilterType::CatmullRom,
        ).into_raw(),
        None => Vec::new(),
    }
}

fn scale_exec(a: u64, num: u64, den: u64) -> (r: u64)
    requires
        a <= i32::MAX,
        num <= i32::MAX,
        den <= i32::MAX,
    ensures
        r as int == scale(a as int, num as int, den as int),
{
    if den == 0 {
        0
    } else {
        assert(2 * a * num + den <= 2 * 0x7fff_ffffu64 * 0x7fff_ffffu64 + 0x7fff_ffffu64)
            by (nonlinear_arith)
            requires
                a <= i32::MAX,
                num <= i32::MAX,
                den <= i32::MAX,
        ;
        (2 * a * num + den) / (2 * den)
    }
}

/// Resizes `src` in place to target `w` by `h` as `mode` names (exact,
/// exact_width, exact_height, fit, fill); the pixels are resampled by the
/// `image` crate. `exact_width` ignores `h` and `exact_height` ignores `w`.
/// Fails, leaving `src` as it was, on an unknown mode name, a negative target
/// side that the mode uses, `fill` of a non-empty box from an empty image, or a
/// new size that cannot be held.
pub fn resize(src: &mut Image, w: i32, h: i32, mode: &str) -> (r: Result<(), RasterError>)
    requires
        old(src).wf(),
    ensures
        final(src).wf(),
        r is Err ==> *final(src) == *old(src),
        resize_mode_of(mode@) is None ==> r is Err && r->Err_0 is InvalidResizeMode
            && r->Err_0->InvalidResizeMode_0@ == mode@,
        resize_mode_of(mode@) is Some && !used_sides_valid(resize_mode_of(mode@)->0, w as int, h as int)
            ==> r == Err::<(), RasterError>(RasterError::InvalidDimensions),
        resize_mode_of(mode@) is Some && used_sides_valid(resize_mode_of(mode@)->0, w as int, h as int)
            && fill_uncoverable(
            resize_mode_of(mode@)->0,
            old(src).width as int,
            old(src).height as int,
            w as int,
            h as int,
        ) ==> r == Err::<(), RasterError>(RasterError::InvalidDimensions),
        resize_mode_of(mode@) == Some(ResizeMode::Fill) && w > 0 && h > 0 && r is Ok ==> final(src).width
            == w && final(src).height == h,
        resize_mode_of(mode@) is Some && used_sides_valid(resize_mode_of(mode@)->0, w as int, h as int)
            && !fill_uncoverable(
            resize_mode_of(mode@)->0,
            old(src).width as int,
            old(src).height as int,
            w as int,
            h as int,
        ) ==> {
            let m = resize_mode_of(mode@)->0;
            let (tw, th) = resample_size(
                m,
                old(src).width as int,
                old(src).height as int,
                w as int,
                h as int,
            );
            let pixels = resampled(
                old(src).width as nat,
                old(src).height as nat,
                old(src).bytes@,
                tw as nat,
                th as nat,
            );
            let center = Position { anchor: Anchor::Center, offset_x: 0, offset_y: 0 };
            &&& !holdable(tw, th) ==> r == Err::<(), RasterError>(RasterError::InvalidDimensions)
            &&& holdable(tw, th) && m != ResizeMode::Fill ==> {
                &&& r == Ok::<(), RasterError>(())
                &&& final(src).width == tw
                &&& final(src).height == th
                &&& final(src).bytes@ == pixels
            }
            &&& holdable(tw, th) && m == ResizeMode::Fill ==> {
                &&& r == Ok::<(), RasterError>(())
                &&& (final(src).width as int, final(src).height as int) == crop_size(
                    tw,
                    th,
                    w as int,
                    h as int,
                    center,
                )
                &&& final(src).bytes@ == cropped_bytes(tw, th, pixels, w as int, h as int, center)
            }
        },
{
    let m = match ResizeMode::from_name(mode) {
        Some(m) => m,
        None => {
            return Err(RasterError::InvalidResizeMode(mode.to_string()));
        },
    };
    let w_used = match m {
        ResizeMode::ExactHeight => false,
        _ => true,
    };
    let h_used = match m {
        ResizeMode::ExactWidth => false,
        _ => true,
    };
    if (w_used && w < 0) || (h_used && h < 0) {
        return Err(RasterError::InvalidDimensions);
    }
    let fill_mode = match m {
        ResizeMode::Fill => true,
        _ => false,
    };
    if fill_mode && (src.width == 0 || src.height == 0) && w > 0 && h > 0 {
        return Err(RasterError::InvalidDimensions);
    }
    let width = src.width as u64;
    let height = src.height as u64;
    let (tw, th): (u64, u64) = match m {
        ResizeMode::Exact => (w as u64, h as u64),
        ResizeMode::ExactWidth => (w as u64, scale_exec(w as u64, height, width)),
        ResizeMode::ExactHeight => (scale_exec(h as u64, width, height), h as u64),
        ResizeMode::Fit => {
            let by_width = scale_exec(w as u64, height, width);
            if by_width <= h as u64 {
                (w as u64, by_width)
            } else {
                (scale_exec(h as u64, width, height), h as u64)
            }
        },
        ResizeMode::Fill => {
            let by_width = scale_exec(w as u64, height, width);
            if by_width >= h as u64 {
                (w as u64, by_width)
            } else {
                (scale_exec(h as u64, width, height), h as u64)
            }
        },
    };
    if tw > i32::MAX as u64 || th > i32::MAX as u64 {
        return Err(RasterError::InvalidDimensions);
    }
    assert(tw * th * 4 <= 4 * 0x7fff_ffffu64 * 0x7fff_ffffu64) by (nonlinear_arith)
        requires
            tw <= i32::MAX,
            th <= i32::MAX,
    ;
    if tw * th * 4 > usize::MAX as u64 {
        return Err(RasterError::InvalidDimensions);
    }
    let bytes = resample(src.width as u32, src.height as u32, &src.bytes, tw as u32, th as u32);
    src.width = tw as i32;
    src.height = th as i32;
    src.bytes = bytes;
    if let ResizeMode::Fill = m {
        proof {
            if w > 0 && h > 0 {
                lemma_fill_covers(width as int, height as int, w as int, h as int);
            }
        }
        crop_at(src, w, h, Position { anchor: Anchor::Center, offset_x: 0, offset_y: 0 });
    }
    Ok(())
}

} // verus!
