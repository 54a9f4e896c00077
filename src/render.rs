//! The elements of one frame: for each window that the output shows, front
//! to back, its popups and then its content with the outline drawn round it.

use vstd::prelude::*;
use crate::config::{Color, Outline};
use crate::geometry::{Rect, Transform, WidePoint, WideRect, rects_overlap, transformed};
use crate::output::Output;
use crate::workspace::{Placed, bounds};

verus! {

/// A window's content, rendered off-screen into a texture of its own, and
/// drawn with an outline round it in one pass.
#[derive(Clone, Copy, Debug, PartialEq, Eq, Structural)]
pub struct RoundedElement {
    /// The window whose content this is.
    pub window: u64,
    /// Where the window's surfaces are drawn in the off-screen texture, in
    /// physical pixels.
    pub content_location: WidePoint,
    /// The size of the off-screen texture, in physical pixels.
    pub buffer_size: WidePoint,
    /// The area the element covers: the window's area grown by the outline's
    /// thickness on every side, in logical coordinates.
    pub geometry: WideRect,
    /// The outline color.
    pub color: Color,
    /// The outline's corner radius.
    pub radius: u32,
    /// The outline's thickness.
    pub thickness: u32,
    /// The output's orientation.
    pub transform: Transform,
}

/// One element of a frame.
#[derive(Clone, Copy, Debug, PartialEq, Eq, Structural)]
pub enum RenderElement {
    /// The popups of a window, drawn directly, offset from `location` in
    /// physical pixels.
    Popups { window: u64, location: WidePoint },
    /// A window's content with its outline.
    RoundedWindow(RoundedElement),
}

/// Whether the window is drawn: it overlaps the area that the output shows,
/// and its texture would have a width and a height.
pub open spec fn is_drawn(p: Placed, output: Output, shown: Rect) -> bool {
    &&& rects_overlap(shown, bounds(p))
    &&& p.window.geometry.size.w * output.scale != 0
    &&& p.window.geometry.size.h * output.scale != 0
}

/// Where the window's surfaces are drawn in its off-screen texture.
pub open spec fn content_location(p: Placed, output: Output, shown: Rect) -> WidePoint {
    let g = bounds(p);
    let a = transformed(output.transform, shown.loc.x as int, shown.loc.y as int, shown.size.w as int, shown.size.h as int);
    let b = transformed(output.transform, g.loc.x as int, g.loc.y as int, g.size.w as int, g.size.h as int);
    WidePoint {
        x: ((a.0 - b.0 - (shown.loc.x - g.loc.x) - p.window.geometry.loc.x) * output.scale) as i64,
        y: ((a.1 - b.1 - (g.loc.y - shown.loc.y) - p.window.geometry.loc.y) * output.scale) as i64,
    }
}

/// Where the window's popups are drawn from.
pub open spec fn popups_location(p: Placed, output: Output) -> WidePoint {
    WidePoint {
        x: ((p.location.x - p.window.geometry.loc.x) * output.scale) as i64,
        y: ((p.location.y - p.window.geometry.loc.y) * output.scale) as i64,
    }
}

/// The outline color of the window: the focused one exactly when the window
/// has the focus.
pub open spec fn outline_color(id: u64, focus: Option<u64>, outline: Outline) -> Color {
    if focus == Some(id) {
        outline.focused_color
    } else {
        outline.color
    }
}

/// The window's content with its outline.
pub open spec fn outlined(p: Placed, output: Output, shown: Rect, focus: Option<u64>, outline: Outline) -> RoundedElement {
    let g = bounds(p);
    let t = outline.thickness as int;
    RoundedElement {
        window: p.window.id,
        content_location: content_location(p, output, shown),
        buffer_size: WidePoint { x: (g.size.w * output.scale) as i64, y: (g.size.h * output.scale) as i64 },
        geometry: WideRect {
            x: (g.loc.x - t) as i64,
            y: (g.loc.y - t) as i64,
            w: (g.size.w + 2 * t) as i64,
            h: (g.size.h + 2 * t) as i64,
        },
        color: outline_color(p.window.id, focus, outline),
        radius: outline.radius,
        thickness: outline.thickness,
        transform: output.transform,
    }
}

/// The elements of one window: none where it is not drawn; else its popups,
/// then its outlined content.
pub open spec fn window_elements(p: Placed, output: Output, shown: Rect, focus: Option<u64>, outline: Outline) -> Seq<RenderElement> {
    if is_drawn(p, output, shown) {
        seq![
            RenderElement::Popups { window: p.window.id, location: popups_location(p, output) },
            RenderElement::RoundedWindow(outlined(p, output, shown, focus, outline)),
        ]
    } else {
        Seq::empty()
    }
}

/// The elements of the windows `s` (back to front), front window first.
pub open spec fn frame_plan(s: Seq<Placed>, output: Output, shown: Rect, focus: Option<u64>, outline: Outline) -> Seq<RenderElement>
    decreases s.len(),
{
    if s.len() == 0 {
        Seq::empty()
    } else {
        frame_plan(s.drop_first(), output, shown, focus, outline) + window_elements(s[0], output, shown, focus, outline)
    }
}

/// Every outlined element of a frame carries the focused color exactly when
/// its window has the focus, and comes from a window whose texture has a
/// width and a height: a window of no size gets no outlined element.
pub proof fn frame_outlines(s: Seq<Placed>, output: Output, shown: Rect, focus: Option<u64>, outline: Outline)
    ensures
        forall|i: int| 0 <= i < frame_plan(s, output, shown, focus, outline).len() ==> match #[trigger] frame_plan(s, output, shown, focus, outline)[i] {
            RenderElement::RoundedWindow(e) => {
                &&& e.color == outline_color(e.window, focus, outline)
                &&& exists|j: int| 0 <= j < s.len() && (#[trigger] s[j]).window.id == e.window && is_drawn(s[j], output, shown)
            },
            RenderElement::Popups { .. } => true,
        },
    decreases s.len(),
{
    if s.len() > 0 {
        let rest = s.drop_first();
        frame_outlines(rest, output, shown, focus, outline);
        let a = frame_plan(rest, output, shown, focus, outline);
        let b = window_elements(s[0], output, shown, focus, outline);
        let all = frame_plan(s, output, shown, focus, outline);
        assert(all == a + b);
        assert forall|i: int| 0 <= i < all.len() implies match #[trigger] all[i] {
            RenderElement::RoundedWindow(e) => {
                &&& e.color == outline_color(e.window, focus, outline)
                &&& exists|j: int| 0 <= j < s.len() && (#[trigger] s[j]).window.id == e.window && is_drawn(s[j], output, shown)
            },
            RenderElement::Popups { .. } => true,
        } by {
            if i < a.len() {
                assert(all[i] == a[i]);
                if let RenderElement::RoundedWindow(e) = a[i] {
                    let j = choose|j: int| 0 <= j < rest.len() && (#[trigger] rest[j]).window.id == e.window && is_drawn(rest[j], output, shown);
                    assert(s[j + 1] == rest[j]);
                }
            } else {
                assert(all[i] == b[i - a.len()]);
                if let RenderElement::RoundedWindow(e) = all[i] {
                    assert(e == outlined(s[0], output, shown, focus, outline));
                    assert(s[0].window.id == e.window);
                }
            }
        }
    }
}

/// `v * s`, for a `v` of at most 2^36 in size and a 16-bit `s`.
fn scale_up(v: i64, s: u16) -> (r: i64)
    requires
        -0x10_0000_0000 <= v <= 0x10_0000_0000,
    ensures
        r == v * s,
{
    assert(-0x10_0000_0000 * 0x1_0000 <= v * s <= 0x10_0000_0000 * 0x1_0000) by (nonlinear_arith)
        requires
            -0x10_0000_0000 <= v <= 0x10_0000_0000,
            0 <= s <= 0xffff,
    ;
    v * s as i64
}

/// Where the window's surfaces are drawn in its off-screen texture.
fn content_location_of(p: Placed, output: &Output, shown: Rect) -> (r: WidePoint)
    ensures
        r == content_location(p, *output, shown),
{
    let g = Rect { loc: p.location, size: p.window.geometry.size };
    let t = output.transform;
    let a = t.transform_point_in(
        WidePoint { x: shown.loc.x as i64, y: shown.loc.y as i64 },
        WidePoint { x: shown.size.w as i64, y: shown.size.h as i64 },
    );
    let b = t.transform_point_in(
        WidePoint { x: g.loc.x as i64, y: g.loc.y as i64 },
        WidePoint { x: g.size.w as i64, y: g.size.h as i64 },
    );
    let wg = p.window.geometry.loc;
    let cx = a.x - b.x - (shown.loc.x as i64 - g.loc.x as i64) - wg.x as i64;
    let cy = a.y - b.y - (g.loc.y as i64 - shown.loc.y as i64) - wg.y as i64;
    WidePoint { x: scale_up(cx, output.scale), y: scale_up(cy, output.scale) }
}

/// Appends the elements of the window `p`.
fn push_window_elements(out: &mut Vec<RenderElement>, p: Placed, output: &Output, shown: Rect, focus: Option<u64>, outline: &Outline)
    ensures
        final(out)@ == old(out)@ + window_elements(p, *output, shown, focus, *outline),
{
    let g = Rect { loc: p.location, size: p.window.geometry.size };
    let s = output.scale;
    let bw = scale_up(g.size.w as i64, s);
    let bh = scale_up(g.size.h as i64, s);
    if !shown.overlaps(&g) || bw == 0 || bh == 0 {
        assert(window_elements(p, *output, shown, focus, *outline) =~= Seq::empty());
        assert(out@ =~= out@ + Seq::<RenderElement>::empty());
        return;
    }
    let t = output.transform;
    let content = content_location_of(p, output, shown);
    let wg = p.window.geometry.loc;
    let popups = WidePoint {
        x: scale_up(g.loc.x as i64 - wg.x as i64, s),
        y: scale_up(g.loc.y as i64 - wg.y as i64, s),
    };
    let th = outline.thickness as i64;
    let geometry = WideRect {
        x: g.loc.x as i64 - th,
        y: g.loc.y as i64 - th,
        w: g.size.w as i64 + 2 * th,
        h: g.size.h as i64 + 2 * th,
    };
    let focused = match focus {
        Some(f) => f == p.window.id,
        None => false,
    };
    let color = if focused {
        outline.focused_color
    } else {
        outline.color
    };
    let element = RoundedElement {
        window: p.window.id,
        content_location: content,
        buffer_size: WidePoint { x: bw, y: bh },
        geometry,
        color,
        radius: outline.radius,
        thickness: outline.thickness,
        transform: t,
    };
    assert(element == outlined(p, *output, shown, focus, *outline));
    let ghost before = out@;
    out.push(RenderElement::Popups { window: p.window.id, location: popups });
    out.push(RenderElement::RoundedWindow(element));
    assert(out@ =~= before + window_elements(p, *output, shown, focus, *outline));
}

/// The elements of a frame showing the windows `windows` (back to front) in
/// the area `shown` of their workspace: for each window that is drawn, front
/// window first, its popups and then its outlined content. `focus` is the
/// window that has the focus, if any.
pub fn compose_frame(windows: &Vec<Placed>, output: &Output, shown: Rect, focus: Option<u64>, outline: &Outline) -> (r: Vec<RenderElement>)
    ensures
        r@ == frame_plan(windows@, *output, shown, focus, *outline),
{
    let mut out: Vec<RenderElement> = Vec::new();
    let n = windows.len();
    let mut i: usize = n;
    assert(windows@.subrange(n as int, n as int) =~= Seq::<Placed>::empty());
    while i > 0
        invariant
            i <= n,
            n == windows@.len(),
            out@ == frame_plan(windows@.subrange(i as int, n as int), *output, shown, focus, *outline),
        decreases i,
    {
        let ghost rest = windows@.subrange(i - 1, n as int);
        assert(rest.drop_first() =~= windows@.subrange(i as int, n as int));
        assert(rest[0] == windows@[i - 1]);
        push_window_elements(&mut out, windows[i - 1], output, shown, focus, outline);
        i = i - 1;
    }
    assert(windows@.subrange(0, n as int) =~= windows@);
    out
}

} // verus!
