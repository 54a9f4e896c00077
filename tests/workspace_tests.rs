use wayshell::geometry::{Point, Rect, Size, Transform};
use wayshell::output::Output;
use wayshell::workspace::{Placed, Window, Workspace};

fn window(id: u64, w: i32, h: i32) -> Window {
    Window { id, geometry: Rect { loc: Point { x: 0, y: 0 }, size: Size { w, h } } }
}

fn ids(ws: &Workspace) -> Vec<u64> {
    ws.windows().iter().map(|p: &Placed| p.window.id).collect()
}

#[test]
fn mapped_window_is_found_inside_its_area() {
    let mut ws = Workspace::new();
    let a = window(1, 100, 100);
    ws.map_window(a, Point { x: 10, y: 20 }, false);
    for (x, y) in [(10, 20), (109, 119), (50, 70)] {
        assert_eq!(ws.window_under(Point { x, y }), Some((a, Point { x: 10, y: 20 })));
    }
}

#[test]
fn point_outside_every_window_finds_nothing() {
    let mut ws = Workspace::new();
    ws.map_window(window(1, 100, 100), Point { x: 10, y: 20 }, false);
    ws.map_window(window(2, 50, 50), Point { x: 300, y: 300 }, false);
    for (x, y) in [(9, 20), (110, 50), (50, 120), (200, 200), (350, 350)] {
        assert_eq!(ws.window_under(Point { x, y }), None);
    }
}

#[test]
fn empty_workspace_finds_nothing() {
    let ws = Workspace::new();
    assert_eq!(ws.window_under(Point { x: 0, y: 0 }), None);
    assert!(ws.windows().is_empty());
}

#[test]
fn zero_size_window_covers_nothing() {
    let mut ws = Workspace::new();
    ws.map_window(window(1, 0, 100), Point { x: 0, y: 0 }, false);
    assert_eq!(ws.window_under(Point { x: 0, y: 0 }), None);
}

#[test]
fn front_window_wins_where_windows_overlap() {
    let mut ws = Workspace::new();
    let a = window(1, 100, 100);
    let b = window(2, 100, 100);
    ws.map_window(a, Point { x: 0, y: 0 }, false);
    ws.map_window(b, Point { x: 50, y: 50 }, false);
    assert_eq!(ws.window_under(Point { x: 60, y: 60 }).map(|(w, _)| w.id), Some(2));
    assert_eq!(ws.window_under(Point { x: 10, y: 10 }).map(|(w, _)| w.id), Some(1));
}

#[test]
fn raised_window_wins_where_windows_overlap() {
    let mut ws = Workspace::new();
    ws.map_window(window(1, 100, 100), Point { x: 0, y: 0 }, false);
    ws.map_window(window(2, 100, 100), Point { x: 50, y: 50 }, false);
    ws.raise_window(1, true);
    assert_eq!(ws.window_under(Point { x: 60, y: 60 }).map(|(w, _)| w.id), Some(1));
    assert_eq!(ids(&ws), vec![2, 1]);
    assert_eq!(ws.activated(), Some(1));
}

#[test]
fn raising_an_absent_window_changes_nothing() {
    let mut ws = Workspace::new();
    ws.map_window(window(1, 10, 10), Point { x: 0, y: 0 }, false);
    ws.map_window(window(2, 10, 10), Point { x: 0, y: 0 }, false);
    ws.raise_window(7, true);
    assert_eq!(ids(&ws), vec![1, 2]);
    assert_eq!(ws.activated(), None);
}

#[test]
fn mapping_again_moves_and_raises() {
    let mut ws = Workspace::new();
    let a = window(1, 10, 10);
    ws.map_window(a, Point { x: 0, y: 0 }, true);
    ws.map_window(window(2, 10, 10), Point { x: 0, y: 0 }, false);
    ws.map_window(a, Point { x: 100, y: 100 }, false);
    assert_eq!(ids(&ws), vec![2, 1]);
    assert_eq!(ws.windows()[1].location, Point { x: 100, y: 100 });
    assert_eq!(ws.window_under(Point { x: 5, y: 5 }).map(|(w, _)| w.id), Some(2));
    assert_eq!(ws.activated(), None);
}

#[test]
fn unmap_removes_only_that_window() {
    let mut ws = Workspace::new();
    ws.map_window(window(1, 10, 10), Point { x: 0, y: 0 }, false);
    ws.map_window(window(2, 10, 10), Point { x: 0, y: 0 }, true);
    ws.unmap_window(2);
    assert_eq!(ids(&ws), vec![1]);
    assert_eq!(ws.activated(), None);
    ws.unmap_window(9);
    assert_eq!(ids(&ws), vec![1]);
}

#[test]
fn update_window_keeps_place_and_order() {
    let mut ws = Workspace::new();
    ws.map_window(window(1, 10, 10), Point { x: 5, y: 5 }, false);
    ws.map_window(window(2, 10, 10), Point { x: 0, y: 0 }, false);
    let g = Rect { loc: Point { x: 1, y: 2 }, size: Size { w: 30, h: 40 } };
    ws.update_window(1, g);
    assert_eq!(ids(&ws), vec![1, 2]);
    assert_eq!(ws.windows()[0].window.geometry, g);
    assert_eq!(ws.windows()[0].location, Point { x: 5, y: 5 });
}

#[test]
fn refresh_keeps_living_windows_in_order() {
    let mut ws = Workspace::new();
    for id in 1..=4 {
        ws.map_window(window(id, 10, 10), Point { x: 0, y: 0 }, id == 3);
    }
    ws.refresh(&[4, 2, 9]);
    assert_eq!(ids(&ws), vec![2, 4]);
    assert_eq!(ws.activated(), None);
}

#[test]
fn output_binding_gives_geometry() {
    let mut ws = Workspace::new();
    let o = Output { mode: Size { w: 1920, h: 1080 }, scale: 1, transform: Transform::Normal };
    assert_eq!(ws.output_geometry(&o), None);
    ws.map_output(Point { x: 7, y: 8 });
    assert_eq!(ws.output_location(), Some(Point { x: 7, y: 8 }));
    assert_eq!(
        ws.output_geometry(&o),
        Some(Rect { loc: Point { x: 7, y: 8 }, size: Size { w: 1920, h: 1080 } })
    );
    ws.unmap_output();
    assert_eq!(ws.output_geometry(&o), None);
}

#[test]
fn unmapping_an_absent_window_changes_nothing() {
    let mut ws = Workspace::new();
    ws.map_window(window(1, 10, 10), Point { x: 0, y: 0 }, true);
    ws.unmap_window(2);
    assert_eq!(ids(&ws), vec![1]);
    assert_eq!(ws.activated(), Some(1));
}
