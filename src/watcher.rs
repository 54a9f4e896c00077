//! The decisions of the configuration file watcher: it is polled at an
//! interval with the file's modification time and says whether the file
//! changed since it last looked, or whether to stop.

use vstd::prelude::*;

verus! {

/// A file modification time: whole seconds and the nanoseconds past them.
#[derive(Clone, Copy, Debug, PartialEq, Eq, Structural)]
pub struct FileTime {
    pub secs: u64,
    pub nanos: u32,
}

/// What the watcher asks for after one poll.
#[derive(Clone, Copy, Debug, PartialEq, Eq, Structural)]
pub enum WatchStep {
    /// Stopping was requested: leave the polling loop.
    Stop,
    /// The file changed: signal a reload.
    Changed,
    /// Nothing to do until the next poll.
    Unchanged,
}

/// The modification time seen last, if any was.
pub struct Watcher {
    last_mtime: Option<FileTime>,
}

impl Watcher {
    /// The modification time that the watcher compares against.
    pub closed spec fn last_seen(&self) -> Option<FileTime> {
        self.last_mtime
    }

    /// A watcher that starts from the modification time read when it was
    /// set up (`None` where it could not be read).
    pub fn new(initial: Option<FileTime>) -> (r: Watcher)
        ensures
            r.last_seen() == initial,
    {
        Watcher { last_mtime: initial }
    }

    /// One poll. `should_stop` is whether stopping was requested; `mtime` is
    /// the file's modification time now, `None` where it cannot be read. A
    /// time that differs from the last one seen is a change, and is
    /// remembered; an unreadable time is no change.
    pub fn poll(&mut self, should_stop: bool, mtime: Option<FileTime>) -> (r: WatchStep)
        ensures
            should_stop ==> r == WatchStep::Stop && final(self).last_seen() == old(self).last_seen(),
            !should_stop && mtime is Some && old(self).last_seen() != mtime ==> r == WatchStep::Changed
                && final(self).last_seen() == mtime,
            !should_stop && (mtime is None || old(self).last_seen() == mtime) ==> r
                == WatchStep::Unchanged && final(self).last_seen() == old(self).last_seen(),
    {
        if should_stop {
            return WatchStep::Stop;
        }
        match mtime {
            Some(now) => {
                let same = match self.last_mtime {
                    Some(last) => last == now,
                    None => false,
                };
                if same {
                    WatchStep::Unchanged
                } else {
                    self.last_mtime = Some(now);
                    WatchStep::Changed
                }
            },
            None => WatchStep::Unchanged,
        }
    }
}

} // verus!
