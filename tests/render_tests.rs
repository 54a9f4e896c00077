use wayshell::config::{Color, Outline};
use wayshell::geometry::{Point, Rect, Size, Transform, WidePoint, WideRect};
use wayshell::output::Output;
use wayshell::render::{RenderElement, RoundedElement};
use wayshell::workspace::Window;
use wayshell::workspaces::Workspaces;

const GRAY: Color = Color { r: 300, g: 300, b: 300 };
const BLUE: Color = Color { r: 500, g: 500, b: 1000 };

fn outline() -> Outline {
    Outline { color: GRAY, focused_color: BLUE, radius: 24, thickness: 5 }
}

fn window(id: u64, w: i32, h: i32) -> Window {
    Window { id, geometry: Rect { loc: Point { x: 0, y: 0 }, size: Size { w, h } } }
}

fn shown(scale: u16, transform: Transform) -> Workspaces {
    let mut ws = Workspaces::new(1);
    ws.map_output(Output { mode: Size { w: 800 * scale as i32, h: 600 * scale as i32 }, scale, transform });
    ws
}

fn rounded(elements: &[RenderElement]) -> Vec<RoundedElement> {
    elements
        .iter()
        .filter_map(|e| match e {
            RenderElement::RoundedWindow(r) => Some(*r),
            _ => None,
        })
        .collect()
}

#[test]
fn outline_color_follows_focus() {
    let mut ws = shown(1, Transform::Normal);
    ws.map_window(window(1, 100, 100), Point { x: 0, y: 0 }, false);
    ws.map_window(window(2, 100, 100), Point { x: 200, y: 0 }, false);
    let r = rounded(&ws.render_elements(Some(2), &outline()));
    assert_eq!(r.len(), 2);
    let a = r.iter().find(|e| e.window == 1).unwrap();
    let b = r.iter().find(|e| e.window == 2).unwrap();
    assert_eq!(a.color, GRAY);
    assert_eq!(b.color, BLUE);
}

#[test]
fn no_focus_gives_every_window_the_plain_color() {
    let mut ws = shown(1, Transform::Normal);
    ws.map_window(window(1, 100, 100), Point { x: 0, y: 0 }, false);
    let r = rounded(&ws.render_elements(None, &outline()));
    assert_eq!(r[0].color, GRAY);
}

#[test]
fn zero_size_window_gets_no_element() {
    let mut ws = shown(1, Transform::Normal);
    ws.map_window(window(1, 0, 100), Point { x: 10, y: 10 }, false);
    ws.map_window(window(2, 100, 0), Point { x: 10, y: 10 }, false);
    ws.map_window(window(3, 100, 100), Point { x: 10, y: 10 }, false);
    let elements = ws.render_elements(None, &outline());
    let r = rounded(&elements);
    assert_eq!(r.len(), 1);
    assert_eq!(r[0].window, 3);
    assert_eq!(elements.len(), 2);
}

#[test]
fn element_values_for_a_plain_output() {
    let mut ws = shown(1, Transform::Normal);
    let a = Window { id: 1, geometry: Rect { loc: Point { x: 3, y: 4 }, size: Size { w: 100, h: 50 } } };
    ws.map_window(a, Point { x: 10, y: 20 }, false);
    let elements = ws.render_elements(Some(1), &outline());
    assert_eq!(
        elements,
        vec![
            RenderElement::Popups { window: 1, location: WidePoint { x: 7, y: 16 } },
            RenderElement::RoundedWindow(RoundedElement {
                window: 1,
                content_location: WidePoint { x: -3, y: -44 },
                buffer_size: WidePoint { x: 100, y: 50 },
                geometry: WideRect { x: 5, y: 15, w: 110, h: 60 },
                color: BLUE,
                radius: 24,
                thickness: 5,
                transform: Transform::Normal,
            }),
        ]
    );
}

#[test]
fn element_values_scale_with_the_output() {
    let mut ws = shown(2, Transform::Normal);
    ws.map_window(window(1, 100, 50), Point { x: 10, y: 20 }, false);
    let elements = ws.render_elements(None, &outline());
    assert_eq!(elements[0], RenderElement::Popups { window: 1, location: WidePoint { x: 20, y: 40 } });
    let r = rounded(&elements);
    assert_eq!(r[0].content_location, WidePoint { x: 0, y: -80 });
    assert_eq!(r[0].buffer_size, WidePoint { x: 200, y: 100 });
    assert_eq!(r[0].geometry, WideRect { x: 5, y: 15, w: 110, h: 60 });
}

#[test]
fn element_values_for_a_flipped_output() {
    let mut ws = shown(1, Transform::Flipped180);
    ws.map_window(window(1, 100, 50), Point { x: 10, y: 20 }, false);
    let r = rounded(&ws.render_elements(None, &outline()));
    assert_eq!(r[0].content_location, WidePoint { x: 0, y: 550 });
    assert_eq!(r[0].transform, Transform::Flipped180);
}

#[test]
fn front_window_comes_first_and_popups_precede_outline() {
    let mut ws = shown(1, Transform::Normal);
    ws.map_window(window(1, 100, 100), Point { x: 0, y: 0 }, false);
    ws.map_window(window(2, 100, 100), Point { x: 50, y: 50 }, false);
    let elements = ws.render_elements(None, &outline());
    let order: Vec<(u64, bool)> = elements
        .iter()
        .map(|e| match e {
            RenderElement::Popups { window, .. } => (*window, false),
            RenderElement::RoundedWindow(r) => (r.window, true),
        })
        .collect();
    assert_eq!(order, vec![(2, false), (2, true), (1, false), (1, true)]);
}

#[test]
fn windows_off_the_output_are_skipped() {
    let mut ws = shown(1, Transform::Normal);
    ws.map_window(window(1, 100, 100), Point { x: 800, y: 0 }, false);
    ws.map_window(window(2, 100, 100), Point { x: 799, y: 599 }, false);
    let r = rounded(&ws.render_elements(None, &outline()));
    assert_eq!(r.len(), 1);
    assert_eq!(r[0].window, 2);
}

#[test]
fn nothing_is_rendered_without_an_output() {
    let mut ws = Workspaces::new(1);
    ws.map_window(window(1, 100, 100), Point { x: 0, y: 0 }, false);
    assert!(ws.render_elements(None, &outline()).is_empty());
}
