//! Resolving a named anchor plus pixel offsets into the top-left corner of a
//! rectangle placed inside another one.

use vstd::prelude::*;
use crate::buffer::RasterError;
use crate::text::str_equals;

verus! {

/// One of nine named places of an inner rectangle within an outer one.
#[derive(Clone, Copy, Debug, PartialEq, Eq, Structural)]
pub enum Anchor {
    TopLeft,
    TopCenter,
    TopRight,
    CenterLeft,
    Center,
    CenterRight,
    BottomLeft,
    BottomCenter,
    BottomRight,
}

/// The anchor a name stands for, if any.
pub open spec fn anchor_of(name: Seq<char>) -> Option<Anchor> {
    if name == "top-left"@ {
        Some(Anchor::TopLeft)
    } else if name == "top-center"@ {
        Some(Anchor::TopCenter)
    } else if name == "top-right"@ {
        Some(Anchor::TopRight)
    } else if name == "center-left"@ {
        Some(Anchor::CenterLeft)
    } else if name == "center"@ {
        Some(Anchor::Center)
    } else if name == "center-right"@ {
        Some(Anchor::CenterRight)
    } else if name == "bottom-left"@ {
        Some(Anchor::BottomLeft)
    } else if name == "bottom-center"@ {
        Some(Anchor::BottomCenter)
    } else if name == "bottom-right"@ {
        Some(Anchor::BottomRight)
    } else {
        None
    }
}

/// Where an anchor sits along one axis: 0 for the start, 1 for the middle,
/// 2 for the end.
pub open spec fn column_class(a: Anchor) -> int {
    match a {
        Anchor::TopLeft | Anchor::CenterLeft | Anchor::BottomLeft => 0,
        Anchor::TopCenter | Anchor::Center | Anchor::BottomCenter => 1,
        _ => 2,
    }
}

pub open spec fn row_class(a: Anchor) -> int {
    match a {
        Anchor::TopLeft | Anchor::TopCenter | Anchor::TopRight => 0,
        Anchor::CenterLeft | Anchor::Center | Anchor::CenterRight => 1,
        _ => 2,
    }
}

/// Integer halving that rounds toward zero.
pub open spec fn half_toward_zero(n: int) -> int {
    if n >= 0 {
        n / 2
    } else {
        -((-n) / 2)
    }
}

/// Start of an inner span of length `inner` placed at `class` of an outer span of
/// length `outer`, before any offset.
pub open spec fn base_offset(class: int, outer: int, inner: int) -> int {
    if class == 0 {
        0
    } else if class == 1 {
        half_toward_zero(outer - inner)
    } else {
        outer - inner
    }
}

pub open spec fn resolved_x(a: Anchor, dx: int, outer_w: int, inner_w: int) -> int {
    base_offset(column_class(a), outer_w, inner_w) + dx
}

pub open spec fn resolved_y(a: Anchor, dy: int, outer_h: int, inner_h: int) -> int {
    base_offset(row_class(a), outer_h, inner_h) + dy
}

fn base_offset_exec(class: u8, outer: i32, inner: i32) -> (r: i64)
    requires
        class <= 2,
    ensures
        r as int == base_offset(class as int, outer as int, inner as int),
{
    let n: i64 = outer as i64 - inner as i64;
    if class == 0 {
        0
    } else if class == 1 {
        if n >= 0 {
            n / 2
        } else {
            -((-n) / 2)
        }
    } else {
        n
    }
}

/// A named anchor together with the offsets added after it is resolved.
#[derive(Clone, Copy, Debug, PartialEq, Eq, Structural)]
pub struct Position {
    pub anchor: Anchor,
    pub offset_x: i32,
    pub offset_y: i32,
}

impl Position {
    /// Reads an anchor name; fails on any name but the nine known ones.
    pub fn new(name: &str, offset_x: i32, offset_y: i32) -> (r: Result<Position, RasterError>)
        ensures
            anchor_of(name@) is Some ==> r == Ok::<Position, RasterError>(
                Position { anchor: anchor_of(name@)->0, offset_x, offset_y },
            ),
            anchor_of(name@) is None ==> r is Err && r->Err_0 is InvalidPosition
                && r->Err_0->InvalidPosition_0@ == name@,
    {
        let anchor = if str_equals(name, "top-left") {
            Anchor::TopLeft
        } else if str_equals(name, "top-center") {
            Anchor::TopCenter
        } else if str_equals(name, "top-right") {
            Anchor::TopRight
        } else if str_equals(name, "center-left") {
            Anchor::CenterLeft
        } else if str_equals(name, "center") {
            Anchor::Center
        } else if str_equals(name, "center-right") {
            Anchor::CenterRight
        } else if str_equals(name, "bottom-left") {
            Anchor::BottomLeft
        } else if str_equals(name, "bottom-center") {
            Anchor::BottomCenter
        } else if str_equals(name, "bottom-right") {
            Anchor::BottomRight
        } else {
            return Err(RasterError::InvalidPosition(name.to_string()));
        };
        Ok(Position { anchor, offset_x, offset_y })
    }

    /// Top-left corner of an `inner_w` by `inner_h` rectangle placed inside an
    /// `outer_w` by `outer_h` one. Nothing is clamped: the corner may lie
    /// anywhere, also outside the outer rectangle.
    pub fn get_x_y(&self, outer_w: i32, outer_h: i32, inner_w: i32, inner_h: i32) -> (r: (
        i64,
        i64,
    ))
        ensures
            r.0 as int == resolved_x(self.anchor, self.offset_x as int, outer_w as int, inner_w as int),
            r.1 as int == resolved_y(self.anchor, self.offset_y as int, outer_h as int, inner_h as int),
    {
        let cx: u8 = match self.anchor {
            Anchor::TopLeft | Anchor::CenterLeft | Anchor::BottomLeft => 0,
            Anchor::TopCenter | Anchor::Center | Anchor::BottomCenter => 1,
            _ => 2,
        };
        let cy: u8 = match self.anchor {
            Anchor::TopLeft | Anchor::TopCenter | Anchor::TopRight => 0,
            Anchor::CenterLeft | Anchor::Center | Anchor::CenterRight => 1,
            _ => 2,
        };
        let x = base_offset_exec(cx, outer_w, inner_w) + self.offset_x as i64;
        let y = base_offset_exec(cy, outer_h, inner_h) + self.offset_y as i64;
        (x, y)
    }
}

/// With no offset, every anchor keeps an inner rectangle that is no larger
/// than the outer one entirely inside it.
pub proof fn lemma_anchor_stays_inside(
    a: Anchor,
    outer_w: int,
    outer_h: int,
    inner_w: int,
    inner_h: int,
)
    requires
        0 <= inner_w <= outer_w,
        0 <= inner_h <= outer_h,
    ensures
        0 <= resolved_x(a, 0, outer_w, inner_w),
        resolved_x(a, 0, outer_w, inner_w) + inner_w <= outer_w,
        0 <= resolved_y(a, 0, outer_h, inner_h),
        resolved_y(a, 0, outer_h, inner_h) + inner_h <= outer_h,
{
}

} // verus!
