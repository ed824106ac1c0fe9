//! Blending one image onto another: blend modes, their per-channel formulas,
//! and the compositing pass over the visible part of the top image.

use vstd::prelude::*;
use crate::buffer::{
    byte_index, channel_of, column_of, lemma_byte_index, lemma_next_byte, row_of, Image,
    RasterError,
};
use crate::clip::{clip, clip_region, covers, overlaps, ClipRegion};
use crate::position::{resolved_x, resolved_y, Position};
use crate::text::str_equals;

verus! {

/// How a top channel value is combined with the one below it.
#[derive(Clone, Copy, Debug, PartialEq, Eq, Structural)]
pub enum BlendMode {
    Normal,
    Difference,
    Multiply,
    Overlay,
    Screen,
}

/// The blend mode a lowercase name stands for, if any.
pub open spec fn blend_mode_of(name: Seq<char>) -> Option<BlendMode> {
    if name == "normal"@ {
        Some(BlendMode::Normal)
    } else if name == "difference"@ {
        Some(BlendMode::Difference)
    } else if name == "multiply"@ {
        Some(BlendMode::Multiply)
    } else if name == "overlay"@ {
        Some(BlendMode::Overlay)
    } else if name == "screen"@ {
        Some(BlendMode::Screen)
    } else {
        None
    }
}

impl BlendMode {
    /// Reads a lowercase mode name.
    pub fn from_name(name: &str) -> (r: Option<BlendMode>)
        ensures
            r == blend_mode_of(name@),
    {
        if str_equals(name, "normal") {
            Some(BlendMode::Normal)
        } else if str_equals(name, "difference") {
            Some(BlendMode::Difference)
        } else if str_equals(name, "multiply") {
            Some(BlendMode::Multiply)
        } else if str_equals(name, "overlay") {
            Some(BlendMode::Overlay)
        } else if str_equals(name, "screen") {
            Some(BlendMode::Screen)
        } else {
            None
        }
    }
}

/// The value mode `m` gives for bottom channel `c` and top channel `o`, at full opacity.
pub open spec fn mode_value(m: BlendMode, c: int, o: int) -> int {
    match m {
        BlendMode::Normal => o,
        BlendMode::Difference => if c >= o {
            c - o
        } else {
            o - c
        },
        BlendMode::Multiply => c * o / 255,
        BlendMode::Overlay => if c < 128 {
            2 * c * o / 255
        } else {
            255 - 2 * (255 - c) * (255 - o) / 255
        },
        BlendMode::Screen => 255 - (255 - c) * (255 - o) / 255,
    }
}

/// An opacity in thousandths, saturated into `0..=1000`.
pub open spec fn clamp_permille(p: int) -> int {
    if p < 0 {
        0
    } else if p > 1000 {
        1000
    } else {
        p
    }
}

/// Bottom channel `c` and the mode's value mixed by `p` thousandths.
pub open spec fn mix(m: BlendMode, c: int, o: int, p: int) -> int {
    (c * (1000 - p) + mode_value(m, c, o) * p) / 1000
}

proof fn lemma_mode_value_range(m: BlendMode, c: int, o: int)
    requires
        0 <= c <= 255,
        0 <= o <= 255,
    ensures
        0 <= mode_value(m, c, o) <= 255,
{
    assert(0 <= c * o <= 255 * 255) by (nonlinear_arith)
        requires
            0 <= c <= 255,
            0 <= o <= 255,
    ;
    assert(0 <= (255 - c) * (255 - o) <= 255 * 255) by (nonlinear_arith)
        requires
            0 <= c <= 255,
            0 <= o <= 255,
    ;
    if c < 128 {
        assert(0 <= 2 * c * o <= 254 * 255) by (nonlinear_arith)
            requires
                0 <= c < 128,
                0 <= o <= 255,
        ;
    } else {
        assert(0 <= 2 * (255 - c) * (255 - o) <= 254 * 255) by (nonlinear_arith)
            requires
                128 <= c <= 255,
                0 <= o <= 255,
        ;
    }
}

fn mode_value_exec(m: BlendMode, c: u8, o: u8) -> (r: u32)
    ensures
        r as int == mode_value(m, c as int, o as int),
        r <= 255,
{
    proof {
        lemma_mode_value_range(m, c as int, o as int);
    }
    let c = c as u32;
    let o = o as u32;
    match m {
        BlendMode::Normal => o,
        BlendMode::Difference => if c >= o {
            c - o
        } else {
            o - c
        },
        BlendMode::Multiply => c * o / 255,
        BlendMode::Overlay => if c < 128 {
            2 * c * o / 255
        } else {
            255 - 2 * (255 - c) * (255 - o) / 255
        },
        BlendMode::Screen => 255 - (255 - c) * (255 - o) / 255,
    }
}

fn mix_exec(m: BlendMode, c: u8, o: u8, p: u32) -> (r: u8)
    requires
        p <= 1000,
    ensures
        r as int == mix(m, c as int, o as int, p as int),
{
    let v = mode_value_exec(m, c, o);
    let c = c as u32;
    assert(c * (1000 - p) + v * p <= 255 * 1000) by (nonlinear_arith)
        requires
            c <= 255,
            v <= 255,
            p <= 1000,
    ;
    ((c * (1000 - p) + v * p) / 1000) as u8
}

/// Byte `k` of the canvas once the top image, placed at `(x, y)` and visible
/// over `region`, has been blended onto it with mode `m` at `p` thousandths.
pub open spec fn blended_byte(
    canvas: Image,
    top: Image,
    m: BlendMode,
    p: int,
    x: int,
    y: int,
    region: ClipRegion,
    k: int,
) -> u8 {
    let cx = column_of(canvas.width as int, k);
    let cy = row_of(canvas.width as int, k);
    if covers(region, x, y, cx, cy) {
        mix(
            m,
            canvas.bytes@[k] as int,
            top.bytes@[byte_index(top.width as int, cx - x, cy - y, channel_of(k))] as int,
            p,
        ) as u8
    } else {
        canvas.bytes@[k]
    }
}

/// Where `position` places `top` on `canvas`.
pub open spec fn placement(position: Position, canvas: Image, top: Image) -> (int, int) {
    (
        resolved_x(position.anchor, position.offset_x as int, canvas.width as int, top.width as int),
        resolved_y(position.anchor, position.offset_y as int, canvas.height as int, top.height as int),
    )
}

/// Whether `top`, placed by `position`, shares a pixel with `canvas`.
pub open spec fn placed_overlaps(position: Position, canvas: Image, top: Image) -> bool {
    let (x, y) = placement(position, canvas, top);
    overlaps(canvas.width as int, canvas.height as int, top.width as int, top.height as int, x, y)
}

/// Bytes of the canvas once `top`, placed by `position`, has been blended onto it.
pub open spec fn composite_bytes(
    canvas: Image,
    top: Image,
    m: BlendMode,
    opacity: int,
    position: Position,
) -> Seq<u8> {
    let (x, y) = placement(position, canvas, top);
    let region = clip_region(
        canvas.width as int,
        canvas.height as int,
        top.width as int,
        top.height as int,
        x,
        y,
    );
    Seq::new(
        canvas.bytes@.len(),
        |k: int| blended_byte(canvas, top, m, clamp_permille(opacity), x, y, region, k),
    )
}

/// Blends `top` onto a copy of `canvas` with mode `m`, at `opacity` thousandths
/// (saturated into `0..=1000`), with `top` placed by `position`. Only the part
/// of `top` that lies on the canvas is blended; every other canvas pixel is
/// kept. Fails with `OutsideCanvas` where `top` does not touch the canvas.
pub fn composite(canvas: &Image, top: &Image, m: BlendMode, opacity: i32, position: Position) -> (r:
    Result<Image, RasterError>)
    requires
        canvas.wf(),
        top.wf(),
    ensures
        !placed_overlaps(position, *canvas, *top) ==> r == Err::<Image, RasterError>(
            RasterError::OutsideCanvas,
        ),
        placed_overlaps(position, *canvas, *top) ==> {
            &&& r is Ok
            &&& r->Ok_0.wf()
            &&& r->Ok_0.width == canvas.width
            &&& r->Ok_0.height == canvas.height
            &&& r->Ok_0.bytes@ == composite_bytes(*canvas, *top, m, opacity as int, position)
        },
{
    let (x, y) = position.get_x_y(canvas.width, canvas.height, top.width, top.height);
    let region = match clip(canvas.width, canvas.height, top.width, top.height, x, y) {
        Ok(region) => region,
        Err(e) => {
            return Err(e);
        },
    };
    let p: u32 = if opacity < 0 {
        0
    } else if opacity > 1000 {
        1000
    } else {
        opacity as u32
    };
    let ghost g_region = clip_region(
        canvas.width as int,
        canvas.height as int,
        top.width as int,
        top.height as int,
        x as int,
        y as int,
    );
    let w = canvas.width as usize;
    let len = canvas.bytes.len();
    let top_len = top.bytes.len();
    proof {
        assert(len > 0 ==> w > 0) by (nonlinear_arith)
            requires
                len == (w as int) * (canvas.height as int) * 4,
                canvas.height >= 0,
        ;
    }
    let mut out: Vec<u8> = Vec::with_capacity(len);
    let mut k: usize = 0;
    let mut cx: usize = 0;
    let mut cy: usize = 0;
    let mut c: usize = 0;
    while k < len
        invariant
            canvas.wf(),
            top.wf(),
            len == canvas.bytes@.len(),
            top_len == top.bytes@.len(),
            w == canvas.width,
            region == g_region,
            region.within(top.width as int, top.height as int),
            p as int == clamp_permille(opacity as int),
            x as int == placement(position, *canvas, *top).0,
            y as int == placement(position, *canvas, *top).1,
            k <= len,
            out@.len() == k,
            c < 4,
            k < len ==> cx < w,
            k as int == byte_index(w as int, cx as int, cy as int, c as int),
            forall|j: int|
                0 <= j < k ==> out@[j] == blended_byte(
                    *canvas,
                    *top,
                    m,
                    p as int,
                    x as int,
                    y as int,
                    region,
                    j,
                ),
        decreases len - k,
    {
        proof {
            lemma_next_byte(w as int, canvas.height as int, cx as int, cy as int, c as int, k as int);
        }
        let lx = cx as i64 - x;
        let ly = cy as i64 - y;
        let b = canvas.bytes[k];
        let v = if region.start_x as i64 <= lx && lx < region.end_x as i64 && region.start_y as i64
            <= ly && ly < region.end_y as i64 {
            proof {
                lemma_byte_index(
                    top.width as int,
                    top.height as int,
                    lx as int,
                    ly as int,
                    c as int,
                );
                assert(0 <= (ly as int) * (top.width as int) <= (ly as int) * (top.width as int)
                    + lx);
            }
            let ti = ((ly as usize) * (top.width as usize) + (lx as usize)) * 4 + c;
            mix_exec(m, b, top.bytes[ti], p)
        } else {
            b
        };
        out.push(v);
        if c < 3 {
            c = c + 1;
        } else if cx + 1 < w {
            c = 0;
            cx = cx + 1;
        } else {
            c = 0;
            cx = 0;
            cy = cy + 1;
        }
        k = k + 1;
    }
    let result = Image { width: canvas.width, height: canvas.height, bytes: out };
    assert(result.bytes@ =~= composite_bytes(*canvas, *top, m, opacity as int, position));
    Ok(result)
}

/// At zero opacity, blending in any mode leaves the canvas as it was.
pub proof fn lemma_zero_opacity_keeps_canvas(
    canvas: Image,
    top: Image,
    m: BlendMode,
    position: Position,
)
    requires
        canvas.wf(),
        top.wf(),
    ensures
        composite_bytes(canvas, top, m, 0, position) == canvas.bytes@,
{
    assert(composite_bytes(canvas, top, m, 0, position) =~= canvas.bytes@);
}

/// At full opacity in normal mode, every canvas pixel under the visible part
/// of the top image takes the top image's pixel, all four channels.
pub proof fn lemma_full_normal_replaces(canvas: Image, top: Image, position: Position)
    requires
        canvas.wf(),
        top.wf(),
        placed_overlaps(position, canvas, top),
    ensures
        ({
            let (x, y) = placement(position, canvas, top);
            let region = clip_region(
                canvas.width as int,
                canvas.height as int,
                top.width as int,
                top.height as int,
                x,
                y,
            );
            forall|cx: int, cy: int, c: int|
                canvas.in_bounds(cx, cy) && 0 <= c < 4 && covers(region, x, y, cx, cy)
                    ==> #[trigger] composite_bytes(canvas, top, BlendMode::Normal, 1000, position)[
                byte_index(canvas.width as int, cx, cy, c)] == top.bytes@[byte_index(
                    top.width as int,
                    cx - x,
                    cy - y,
                    c,
                )]
        }),
{
    let (x, y) = placement(position, canvas, top);
    let region = clip_region(
        canvas.width as int,
        canvas.height as int,
        top.width as int,
        top.height as int,
        x,
        y,
    );
    assert forall|cx: int, cy: int, c: int|
        canvas.in_bounds(cx, cy) && 0 <= c < 4 && covers(region, x, y, cx, cy)
            implies #[trigger] composite_bytes(canvas, top, BlendMode::Normal, 1000, position)[
        byte_index(canvas.width as int, cx, cy, c)] == top.bytes@[byte_index(
            top.width as int,
            cx - x,
            cy - y,
            c,
        )] by {
        lemma_byte_index(canvas.width as int, canvas.height as int, cx, cy, c);
    }
}

} // verus!
