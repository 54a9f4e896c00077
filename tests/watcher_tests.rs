use wayshell::watcher::{FileTime, WatchStep, Watcher};

#[test]
fn change_is_reported_once() {
    let t1 = FileTime { secs: 10, nanos: 5 };
    let t2 = FileTime { secs: 10, nanos: 6 };
    let mut w = Watcher::new(Some(t1));
    assert_eq!(w.poll(false, Some(t1)), WatchStep::Unchanged);
    assert_eq!(w.poll(false, Some(t2)), WatchStep::Changed);
    assert_eq!(w.poll(false, Some(t2)), WatchStep::Unchanged);
}

#[test]
fn unreadable_time_is_no_change() {
    let mut w = Watcher::new(None);
    assert_eq!(w.poll(false, None), WatchStep::Unchanged);
    assert_eq!(w.poll(false, Some(FileTime { secs: 1, nanos: 0 })), WatchStep::Changed);
    assert_eq!(w.poll(false, None), WatchStep::Unchanged);
}

#[test]
fn stop_wins() {
    let mut w = Watcher::new(None);
    assert_eq!(w.poll(true, Some(FileTime { secs: 1, nanos: 0 })), WatchStep::Stop);
    assert_eq!(w.poll(false, Some(FileTime { secs: 1, nanos: 0 })), WatchStep::Changed);
}
