//! Clipping a placed rectangle against the canvas it is placed on.

use vstd::prelude::*;
use crate::buffer::RasterError;

verus! {

/// The part of a placed rectangle that lies on the canvas, in the placed
/// rectangle's own coordinates: columns `start_x..end_x`, rows `start_y..end_y`.
#[derive(Clone, Copy, Debug, PartialEq, Eq, Structural)]
pub struct ClipRegion {
    pub start_x: i32,
    pub end_x: i32,
    pub start_y: i32,
    pub end_y: i32,
}

/// Whether a `w` by `h` rectangle with its top-left corner at `(x, y)` shares
/// at least one pixel with a `canvas_w` by `canvas_h` canvas.
pub open spec fn overlaps(canvas_w: int, canvas_h: int, w: int, h: int, x: int, y: int) -> bool {
    x < canvas_w && x + w > 0 && y < canvas_h && y + h > 0
}

/// `n`, or 0 where `n` is negative.
pub open spec fn max0(n: int) -> int {
    if n > 0 {
        n
    } else {
        0
    }
}

/// The clip region of an overlapping placement.
pub open spec fn clip_region(canvas_w: int, canvas_h: int, w: int, h: int, x: int, y: int) -> ClipRegion {
    ClipRegion {
        start_x: max0(-x) as i32,
        end_x: (w - max0(x + w - canvas_w)) as i32,
        start_y: max0(-y) as i32,
        end_y: (h - max0(y + h - canvas_h)) as i32,
    }
}

/// Whether canvas pixel `(cx, cy)` is covered by the visible part of a rectangle
/// placed at `(x, y)`.
pub open spec fn covers(region: ClipRegion, x: int, y: int, cx: int, cy: int) -> bool {
    region.start_x <= cx - x < region.end_x && region.start_y <= cy - y < region.end_y
}

impl ClipRegion {
    /// Bounds are ordered and lie within a `w` by `h` rectangle.
    pub open spec fn within(&self, w: int, h: int) -> bool {
        &&& 0 <= self.start_x <= self.end_x <= w
        &&& 0 <= self.start_y <= self.end_y <= h
    }
}

/// Visible part of a `w` by `h` rectangle placed at `(x, y)` on a `canvas_w`
/// by `canvas_h` canvas, or `OutsideCanvas` where they share no pixel.
pub fn clip(canvas_w: i32, canvas_h: i32, w: i32, h: i32, x: i64, y: i64) -> (r: Result<
    ClipRegion,
    RasterError,
>)
    requires
        canvas_w >= 0,
        canvas_h >= 0,
        w >= 0,
        h >= 0,
    ensures
        overlaps(canvas_w as int, canvas_h as int, w as int, h as int, x as int, y as int) ==> r
            == Ok::<ClipRegion, RasterError>(
            clip_region(canvas_w as int, canvas_h as int, w as int, h as int, x as int, y as int),
        ),
        !overlaps(canvas_w as int, canvas_h as int, w as int, h as int, x as int, y as int) ==> r
            == Err::<ClipRegion, RasterError>(RasterError::OutsideCanvas),
        r is Ok ==> r->Ok_0.within(w as int, h as int),
        r is Ok ==> forall|cx: int, cy: int|
            covers(r->Ok_0, x as int, y as int, cx, cy) <==> (0 <= cx < canvas_w && 0 <= cy
                < canvas_h && x <= cx < x + w && y <= cy < y + h),
{
    if x >= canvas_w as i64 || x + (w as i64) <= 0 || y >= canvas_h as i64 || y + (h as i64) <= 0 {
        return Err(RasterError::OutsideCanvas);
    }
    let mut start_x: i64 = 0;
    if x < 0 {
        start_x = -x;
    }
    let mut end_x: i64 = w as i64;
    if x + w as i64 > canvas_w as i64 {
        end_x = end_x - (x + w as i64 - canvas_w as i64);
    }
    let mut start_y: i64 = 0;
    if y < 0 {
        start_y = -y;
    }
    let mut end_y: i64 = h as i64;
    if y + h as i64 > canvas_h as i64 {
        end_y = end_y - (y + h as i64 - canvas_h as i64);
    }
    Ok(
        ClipRegion {
            start_x: start_x as i32,
            end_x: end_x as i32,
            start_y: start_y as i32,
            end_y: end_y as i32,
        },
    )
}

/// A rectangle of positive size placed entirely on the canvas is visible whole.
pub proof fn lemma_inside_is_whole(canvas_w: int, canvas_h: int, w: int, h: int, x: int, y: int)
    requires
        0 < w,
        0 < h,
        0 <= x,
        x + w <= canvas_w,
        0 <= y,
        y + h <= canvas_h,
        canvas_w <= i32::MAX,
        canvas_h <= i32::MAX,
    ensures
        overlaps(canvas_w, canvas_h, w, h, x, y),
        clip_region(canvas_w, canvas_h, w, h, x, y) == (ClipRegion {
            start_x: 0,
            end_x: w as i32,
            start_y: 0,
            end_y: h as i32,
        }),
{
}

/// A rectangle placed wholly beyond one of the canvas's edges is outside it.
pub proof fn lemma_beyond_edge_is_outside(
    canvas_w: int,
    canvas_h: int,
    w: int,
    h: int,
    x: int,
    y: int,
)
    requires
        x >= canvas_w || x + w <= 0 || y >= canvas_h || y + h <= 0,
    ensures
        !overlaps(canvas_w, canvas_h, w, h, x, y),
{
}

} // verus!
