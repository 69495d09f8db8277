//! The cursor follows the focus, on Windows: when a window on another monitor
//! comes to the front, the cursor goes to its middle.

use crate::engine::Rect;
use vstd::prelude::*;

verus! {

/// The system's number for an event that is about a window itself.
pub const OBJECT_WINDOW: i32 = 0;

/// The style bits of a window with a title bar.
pub const CAPTION: u32 = 0x00c00000;

/// A window that has come to the front.
pub struct Foreground {
    /// What of the window the event is about.
    pub object: i32,
    pub valid: bool,
    pub visible: bool,
    pub style: u32,
    /// Where the window is, where that is known.
    pub rect: Option<Rect>,
    /// The cursor is on the monitor of the window; absent where its place is not
    /// known.
    pub same_monitor: Option<bool>,
}

/// Half of a sum, towards zero.
pub open spec fn half(n: int) -> int {
    if n >= 0 {
        n / 2
    } else {
        -((-n) / 2)
    }
}

/// Half of a sum, towards zero.
fn middle(a: i32, b: i32) -> (r: i32)
    requires
        i32::MIN <= a + b <= i32::MAX,
    ensures
        r == half(a + b),
{
    let n: i64 = a as i64 + b as i64;
    let h: i64 = if n >= 0 {
        n / 2
    } else {
        -((-n) / 2)
    };
    h as i32
}

/// A window that the cursor follows: a visible one of a program, with a title bar.
/// The switcher between windows, and tool windows, have none.
pub open spec fn followed(w: Foreground) -> bool {
    &&& w.object == OBJECT_WINDOW
    &&& w.valid
    &&& w.visible
    &&& w.style & CAPTION == CAPTION
}

/// Where the cursor goes, if anywhere.
pub fn destination(w: &Foreground) -> (r: Option<(i32, i32)>)
    requires
        w.rect matches Some(rect) ==> {
            &&& i32::MIN <= rect.left + rect.right <= i32::MAX
            &&& i32::MIN <= rect.top + rect.bottom <= i32::MAX
        },
    ensures
        r is Some <==> followed(*w) && w.rect is Some && w.same_monitor == Some(false),
        r matches Some((x, y)) ==> {
            let rect = w.rect->0;
            &&& x == half(rect.left + rect.right)
            &&& y == half(rect.top + rect.bottom)
        },
{
    if w.object != OBJECT_WINDOW || !w.valid || !w.visible {
        return None;
    }
    if w.style & CAPTION != CAPTION {
        return None;
    }
    match w.rect {
        None => None,
        Some(rect) => match w.same_monitor {
            Some(false) => Some((middle(rect.left, rect.right), middle(rect.top, rect.bottom))),
            _ => None,
        },
    }
}

/// The cursor ends up inside the window.
pub proof fn law_destination_inside(left: int, right: int)
    requires
        left <= right,
    ensures
        left <= half(left + right) <= right,
{
}

/// The cursor goes to the middle: the two ways from there to the sides differ by one
/// at most, which is left on the side away from the origin, and the middle of the
/// opposite window is the opposite place.
pub proof fn law_destination_in_the_middle(left: int, right: int)
    ensures
        left + right >= 0 ==> 0 <= (right - half(left + right)) - (half(left + right) - left) <= 1,
        left + right <= 0 ==> -1 <= (right - half(left + right)) - (half(left + right) - left) <= 0,
        half(-(left + right)) == -half(left + right),
{
}

/// Only a window that is about itself, valid and visible, and that has both bits of a
/// title bar, is followed.
pub proof fn law_followed_windows(w: Foreground)
    ensures
        followed(w) <==> w.object == 0 && w.valid && w.visible && w.style & 0x00c0_0000
            == 0x00c0_0000,
{
}

} // verus!
