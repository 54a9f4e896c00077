//! The display that the compositor drives.

use vstd::prelude::*;
use crate::geometry::{Size, Transform, swaps_axes};

verus! {

/// A display: its mode (size in pixels), its integer scale and its
/// orientation.
#[derive(Clone, Copy, Debug, PartialEq, Eq, Structural)]
pub struct Output {
    pub mode: Size,
    pub scale: u16,
    pub transform: Transform,
}

/// `a / s`, rounded up, for `a >= 0` and `s >= 1`.
pub open spec fn ceil_div(a: int, s: int) -> int {
    (a + s - 1) / s
}

/// The output's size in logical coordinates: the mode size, with width and
/// height traded for a quarter turn, divided by the scale and rounded up.
pub open spec fn logical_size(o: Output) -> Size {
    let (w, h) = if swaps_axes(o.transform) {
        (o.mode.h as int, o.mode.w as int)
    } else {
        (o.mode.w as int, o.mode.h as int)
    };
    Size { w: ceil_div(w, o.scale as int) as i32, h: ceil_div(h, o.scale as int) as i32 }
}

/// Scales an extent down, rounding up.
fn scale_down(a: i32, s: u16) -> (r: i32)
    requires
        a >= 0,
        s >= 1,
    ensures
        r == ceil_div(a as int, s as int),
        0 <= r <= a,
{
    let q = (a as i64 + s as i64 - 1) / s as i64;
    assert(0 <= (a + s - 1) / (s as int) <= a) by (nonlinear_arith)
        requires
            a >= 0,
            s >= 1,
    ;
    q as i32
}

/// A usable output's logical size is not negative.
pub proof fn lemma_logical_size_nonneg(o: Output)
    requires
        o.wf(),
    ensures
        logical_size(o).w >= 0,
        logical_size(o).h >= 0,
{
    let s = o.scale as int;
    let w = o.mode.w as int;
    let h = o.mode.h as int;
    assert(0 <= (w + s - 1) / s <= w) by (nonlinear_arith)
        requires
            w >= 0,
            s >= 1,
    ;
    assert(0 <= (h + s - 1) / s <= h) by (nonlinear_arith)
        requires
            h >= 0,
            s >= 1,
    ;
}

impl Output {
    /// A usable output: a scale of at least one and a mode size that is not
    /// negative.
    pub open spec fn wf(&self) -> bool {
        &&& self.scale >= 1
        &&& self.mode.w >= 0
        &&& self.mode.h >= 0
    }

    /// The output's size in logical coordinates.
    pub fn logical_size(&self) -> (r: Size)
        requires
            self.wf(),
        ensures
            r == logical_size(*self),
            r.w >= 0,
            r.h >= 0,
    {
        if self.transform.swaps_axes() {
            Size { w: scale_down(self.mode.h, self.scale), h: scale_down(self.mode.w, self.scale) }
        } else {
            Size { w: scale_down(self.mode.w, self.scale), h: scale_down(self.mode.h, self.scale) }
        }
    }
}

} // verus!
