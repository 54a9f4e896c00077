use wayshell::geometry::{Point, Rect, Size, Transform};
use wayshell::output::Output;
use wayshell::workspace::Window;
use wayshell::workspaces::{ShellError, Workspaces};

fn window(id: u64, w: i32, h: i32) -> Window {
    Window { id, geometry: Rect { loc: Point { x: 0, y: 0 }, size: Size { w, h } } }
}

fn output(w: i32, h: i32) -> Output {
    Output { mode: Size { w, h }, scale: 1, transform: Transform::Normal }
}

fn bound_count(ws: &Workspaces) -> usize {
    (0..ws.workspace_count()).filter(|&i| ws.workspace(i).output_location().is_some()).count()
}

#[test]
fn new_workspaces_start_on_the_first() {
    let ws = Workspaces::new(3);
    assert_eq!(ws.workspace_count(), 3);
    assert_eq!(ws.current_index(), 0);
    assert_eq!(ws.output(), None);
    assert_eq!(ws.output_geometry(), None);
    assert_eq!(ws.output_transform(), None);
    assert_eq!(bound_count(&ws), 0);
}

#[test]
fn exactly_one_workspace_is_shown() {
    let mut ws = Workspaces::new(4);
    ws.map_output(output(800, 600));
    assert_eq!(bound_count(&ws), 1);
    for i in [2, 0, 3, 3, 1] {
        ws.switch_to(i).unwrap();
        assert_eq!(ws.current_index(), i);
        assert_eq!(bound_count(&ws), 1);
        assert!(ws.workspace(i).output_location().is_some());
    }
}

#[test]
fn switch_to_shown_workspace_changes_nothing() {
    let mut ws = Workspaces::new(3);
    ws.map_output(output(800, 600));
    ws.switch_to(1).unwrap();
    let before = ws.output_geometry();
    assert_eq!(ws.switch_to(1), Ok(()));
    assert_eq!(ws.current_index(), 1);
    assert_eq!(ws.output_geometry(), before);
    assert_eq!(bound_count(&ws), 1);
}

#[test]
fn switch_keeps_output_location() {
    let mut ws = Workspaces::new(2);
    ws.map_output(output(800, 600));
    ws.switch_to(1).unwrap();
    assert_eq!(
        ws.output_geometry(),
        Some(Rect { loc: Point { x: 0, y: 0 }, size: Size { w: 800, h: 600 } })
    );
    assert_eq!(ws.workspace(0).output_location(), None);
}

#[test]
fn switch_without_output_is_a_no_op() {
    let mut ws = Workspaces::new(3);
    assert_eq!(ws.switch_to(2), Ok(()));
    assert_eq!(ws.current_index(), 0);
}

#[test]
fn switch_out_of_range_is_rejected() {
    let mut ws = Workspaces::new(3);
    ws.map_output(output(800, 600));
    assert_eq!(ws.switch_to(3), Err(ShellError::NoSuchWorkspace));
    assert_eq!(ws.current_index(), 0);
}

#[test]
fn move_then_switch_finds_window_on_new_workspace() {
    let mut ws = Workspaces::new(3);
    ws.map_output(output(800, 600));
    let a = window(1, 100, 100);
    ws.map_window(a, Point { x: 0, y: 0 }, true);
    assert_eq!(ws.move_to(1, 1), Ok(()));
    assert_eq!(ws.current_index(), 0);
    ws.switch_to(1).unwrap();
    assert_eq!(ws.current().window_under(Point { x: 50, y: 50 }), Some((a, Point { x: 0, y: 0 })));
    assert_eq!(ws.workspace(0).window_under(Point { x: 50, y: 50 }), None);
}

#[test]
fn moved_window_lands_at_origin() {
    let mut ws = Workspaces::new(2);
    ws.map_window(window(1, 10, 10), Point { x: 40, y: 40 }, false);
    ws.move_to(1, 1).unwrap();
    assert_eq!(ws.workspace(1).windows()[0].location, Point { x: 0, y: 0 });
    assert!(ws.current().windows().is_empty());
}

#[test]
fn move_errors() {
    let mut ws = Workspaces::new(2);
    ws.map_window(window(1, 10, 10), Point { x: 0, y: 0 }, false);
    assert_eq!(ws.move_to(1, 2), Err(ShellError::NoSuchWorkspace));
    assert_eq!(ws.move_to(5, 1), Err(ShellError::NotMapped));
    assert_eq!(ws.current().windows().len(), 1);
}

#[test]
fn fullscreen_round_trip_restores_placement() {
    let mut ws = Workspaces::new(1);
    ws.map_output(output(800, 600));
    let a = Window { id: 1, geometry: Rect { loc: Point { x: 2, y: 3 }, size: Size { w: 100, h: 80 } } };
    ws.map_window(a, Point { x: 30, y: 40 }, false);
    ws.map_window(window(2, 10, 10), Point { x: 0, y: 0 }, false);
    assert_eq!(ws.fullscreen(1), Ok(Some(Size { w: 800, h: 600 })));
    assert!(ws.is_fullscreen(1));
    let big = ws.current().windows().iter().find(|p| p.window.id == 1).copied().unwrap();
    assert_eq!(big.window.geometry.size, Size { w: 800, h: 600 });
    assert_eq!(big.location, Point { x: 30, y: 40 });
    assert_eq!(ws.unfullscreen(1), Ok(Some(Size { w: 100, h: 80 })));
    assert!(!ws.is_fullscreen(1));
    let back = ws.current().windows().iter().find(|p| p.window.id == 1).copied().unwrap();
    assert_eq!(back.window, a);
    assert_eq!(back.location, Point { x: 30, y: 40 });
}

#[test]
fn fullscreen_twice_keeps_first_saved_geometry() {
    let mut ws = Workspaces::new(1);
    ws.map_output(output(800, 600));
    let a = window(1, 100, 80);
    ws.map_window(a, Point { x: 30, y: 40 }, false);
    assert_eq!(ws.fullscreen(1), Ok(Some(Size { w: 800, h: 600 })));
    assert_eq!(ws.fullscreen(1), Ok(Some(Size { w: 800, h: 600 })));
    assert!(ws.is_fullscreen(1));
    assert_eq!(ws.current().windows()[0].window.geometry.size, Size { w: 800, h: 600 });
    assert_eq!(ws.unfullscreen(1), Ok(Some(Size { w: 100, h: 80 })));
    assert_eq!(ws.current().windows()[0].window, a);
    assert_eq!(ws.current().windows()[0].location, Point { x: 30, y: 40 });
}

#[test]
fn fullscreen_of_unmapped_window_is_rejected() {
    let mut ws = Workspaces::new(1);
    ws.map_window(window(1, 10, 10), Point { x: 0, y: 0 }, false);
    ws.map_output(output(800, 600));
    assert_eq!(ws.fullscreen(2), Err(ShellError::NotMapped));
    assert_eq!(ws.unfullscreen(2), Err(ShellError::NotMapped));
}

#[test]
fn unfullscreen_of_normal_window_changes_nothing() {
    let mut ws = Workspaces::new(1);
    ws.map_output(output(800, 600));
    ws.map_window(window(1, 10, 10), Point { x: 3, y: 3 }, false);
    assert_eq!(ws.unfullscreen(1), Ok(None));
    assert_eq!(ws.current().windows()[0].location, Point { x: 3, y: 3 });
}

#[test]
fn unmap_forgets_fullscreen_state() {
    let mut ws = Workspaces::new(1);
    ws.map_output(output(800, 600));
    ws.map_window(window(1, 10, 10), Point { x: 0, y: 0 }, false);
    ws.fullscreen(1).unwrap();
    ws.unmap_window(1);
    assert!(!ws.is_fullscreen(1));
    assert!(ws.current().windows().is_empty());
}

#[test]
fn output_geometry_follows_mode_and_scale() {
    let mut ws = Workspaces::new(1);
    ws.map_output(Output { mode: Size { w: 1920, h: 1080 }, scale: 2, transform: Transform::Flipped180 });
    assert_eq!(
        ws.output_geometry(),
        Some(Rect { loc: Point { x: 0, y: 0 }, size: Size { w: 960, h: 540 } })
    );
    assert_eq!(ws.output_transform(), Some(Transform::Flipped180));
    ws.change_output_mode(Size { w: 1000, h: 500 });
    assert_eq!(
        ws.output_geometry(),
        Some(Rect { loc: Point { x: 0, y: 0 }, size: Size { w: 500, h: 250 } })
    );
}

#[test]
fn refresh_drops_dead_windows_everywhere() {
    let mut ws = Workspaces::new(2);
    ws.map_window(window(1, 10, 10), Point { x: 0, y: 0 }, false);
    ws.map_window(window(2, 10, 10), Point { x: 0, y: 0 }, false);
    ws.move_to(2, 1).unwrap();
    ws.refresh(&[1]);
    assert_eq!(ws.current().windows().len(), 1);
    assert!(ws.workspace(1).windows().is_empty());
}

#[test]
fn frame_targets_need_an_output() {
    let mut ws = Workspaces::new(1);
    ws.map_window(window(1, 10, 10), Point { x: 0, y: 0 }, false);
    ws.map_window(window(2, 10, 10), Point { x: 0, y: 0 }, false);
    assert!(ws.frame_targets().is_empty());
    ws.map_output(output(100, 100));
    assert_eq!(ws.frame_targets(), vec![1, 2]);
}

#[test]
fn mapping_a_window_takes_it_off_other_workspaces() {
    let mut ws = Workspaces::new(3);
    ws.map_output(output(800, 600));
    ws.map_window(window(1, 10, 10), Point { x: 0, y: 0 }, false);
    ws.move_to(1, 2).unwrap();
    assert_eq!(ws.workspace(2).windows().len(), 1);
    ws.map_window(window(1, 20, 20), Point { x: 5, y: 5 }, true);
    assert!(ws.workspace(2).windows().is_empty());
    assert_eq!(ws.current().windows().len(), 1);
    assert_eq!(ws.current().activated(), Some(1));
}

#[test]
fn fullscreen_without_output_marks_and_saves() {
    let mut ws = Workspaces::new(1);
    let a = window(1, 100, 80);
    ws.map_window(a, Point { x: 30, y: 40 }, false);
    ws.map_window(window(2, 10, 10), Point { x: 0, y: 0 }, false);
    assert_eq!(ws.fullscreen(1), Ok(None));
    assert!(ws.is_fullscreen(1));
    assert_eq!(ws.current().windows()[0].window, a);
    assert_eq!(ws.fullscreen(1), Ok(None));
    assert_eq!(ws.unfullscreen(1), Ok(Some(Size { w: 100, h: 80 })));
    assert!(!ws.is_fullscreen(1));
    let back = ws.current().windows().iter().find(|p| p.window.id == 1).copied().unwrap();
    assert_eq!(back.window, a);
    assert_eq!(back.location, Point { x: 30, y: 40 });
}
