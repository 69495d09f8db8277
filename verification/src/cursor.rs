//! The cursor, which on Windows is not part of the picture: its place goes to the
//! viewers by itself, and they draw it.

use crate::engine::Rect;
use vstd::prelude::*;

verus! {

/// The pause between two looks at the cursor, in milliseconds.
pub const CURSOR_POLL_MS: u64 = 8;

/// Where the cursor is on the captured screen: `x` of `width` from the left, `y`
/// of `height` from the top.
#[derive(Clone, Copy, Debug, PartialEq, Eq, Structural)]
pub struct CursorPlace {
    pub x: i32,
    pub y: i32,
    pub width: i32,
    pub height: i32,
    pub visible: bool,
}

/// A distance held between zero and a side.
pub open spec fn clamped(d: int, side: int) -> int {
    if d < 0 {
        0
    } else if d > side {
        side
    } else {
        d
    }
}

/// A distance held between zero and a side.
fn clamp(d: i32, side: i32) -> (r: i32)
    requires
        side >= 0,
    ensures
        r == clamped(d as int, side as int),
{
    if d < 0 {
        0
    } else if d > side {
        side
    } else {
        d
    }
}

/// Where the cursor is on the captured screen. On another screen it is hidden,
/// and its place is held at the edge; the right and the bottom side of the rectangle
/// belong to the next screen.
pub fn locate(rect: Rect, x: i32, y: i32, showing: bool) -> (r: CursorPlace)
    requires
        rect.measurable(),
        i32::MIN <= x - rect.left <= i32::MAX,
        i32::MIN <= y - rect.top <= i32::MAX,
    ensures
        r.width == rect.width_of(),
        r.height == rect.height_of(),
        r.x == clamped(x - rect.left, rect.width_of()),
        r.y == clamped(y - rect.top, rect.height_of()),
        r.visible == (showing && 0 <= x - rect.left < rect.width_of() && 0 <= y - rect.top
            < rect.height_of()),
        rect.left < rect.right && rect.top < rect.bottom ==> r.visible == (showing && rect.left
            <= x < rect.right && rect.top <= y < rect.bottom),
        rect.left <= x <= rect.right ==> r.x == x - rect.left,
        rect.top <= y <= rect.bottom ==> r.y == y - rect.top,
        x < rect.left ==> r.x == 0,
        y < rect.top ==> r.y == 0,
        rect.left < rect.right < x ==> r.x == r.width && r.width == rect.right - rect.left,
        rect.top < rect.bottom < y ==> r.y == r.height && r.height == rect.bottom - rect.top,
{
    let width = rect.width();
    let height = rect.height();
    let dx: i32 = x - rect.left;
    let dy: i32 = y - rect.top;
    let inside = 0 <= dx && dx < width && 0 <= dy && dy < height;
    CursorPlace {
        x: clamp(dx, width),
        y: clamp(dy, height),
        width,
        height,
        visible: inside && showing,
    }
}

/// Whether a place is news to the viewers.
pub fn is_news(last: Option<CursorPlace>, now: CursorPlace) -> (r: bool)
    ensures
        r == (last != Some(now)),
{
    match last {
        Some(place) => place != now,
        None => true,
    }
}

/// What the viewers draw stays on the screen.
pub proof fn law_cursor_on_screen(d: int, side: int)
    requires
        0 <= side,
    ensures
        0 <= clamped(d, side) <= side,
        0 <= d <= side ==> clamped(d, side) == d,
        d < 0 ==> clamped(d, side) == 0,
        d > side ==> clamped(d, side) == side,
{
}

/// The rectangle that the cursor is measured in: that of the captured output,
/// where it is known, else one of the size of the picture.
pub fn cursor_rect(known: Option<Rect>, width: u32, height: u32) -> (r: Rect)
    ensures
        r == (match known {
            Some(rect) => rect,
            None => Rect { left: 0, top: 0, right: width as i32, bottom: height as i32 },
        }),
{
    match known {
        Some(rect) => rect,
        None => Rect { left: 0, top: 0, right: width as i32, bottom: height as i32 },
    }
}

} // verus!
