use wayshell::config::Color;
use wayshell::geometry::{Transform, WidePoint, WideRect};
use wayshell::render::RoundedElement;
use wayshell::tracking::OutlineTracker;

fn element(window: u64, color: Color) -> RoundedElement {
    RoundedElement {
        window,
        content_location: WidePoint { x: 0, y: 0 },
        buffer_size: WidePoint { x: 10, y: 10 },
        geometry: WideRect { x: -5, y: -5, w: 20, h: 20 },
        color,
        radius: 24,
        thickness: 5,
        transform: Transform::Normal,
    }
}

#[test]
fn counter_moves_only_on_change() {
    let gray = Color { r: 300, g: 300, b: 300 };
    let blue = Color { r: 500, g: 500, b: 1000 };
    let mut t = OutlineTracker::new();
    assert_eq!(t.track(element(1, gray), false), 0);
    assert_eq!(t.track(element(1, gray), false), 0);
    assert_eq!(t.track(element(1, blue), false), 1);
    assert_eq!(t.track(element(1, blue), true), 2);
    assert_eq!(t.track(element(2, blue), false), 0);
    t.forget(1);
    assert_eq!(t.track(element(1, blue), false), 0);
}
