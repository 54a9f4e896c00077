//! What the damage tracker needs to compare frames: each window's outlined
//! element keeps one identity across frames, and its commit counter goes up
//! exactly when what it shows changes.

use vstd::prelude::*;
use std::collections::HashMap;
use crate::render::RoundedElement;

verus! {

broadcast use vstd::std_specs::hash::group_hash_axioms;

/// The commit counter after one more change; it stays at its largest value
/// once it gets there.
pub open spec fn bumped(c: u64) -> u64 {
    if c < u64::MAX {
        (c + 1) as u64
    } else {
        c
    }
}

/// For each window, the commit counter of its outlined element and the
/// element it was last reported with.
pub struct OutlineTracker {
    states: HashMap<u64, (u64, RoundedElement)>,
}

impl View for OutlineTracker {
    type V = Map<u64, (u64, RoundedElement)>;

    closed spec fn view(&self) -> Map<u64, (u64, RoundedElement)> {
        self.states@
    }
}

impl OutlineTracker {
    /// Nothing tracked.
    pub fn new() -> (r: OutlineTracker)
        ensures
            r@ == Map::<u64, (u64, RoundedElement)>::empty(),
    {
        OutlineTracker { states: HashMap::new() }
    }

    /// The commit counter to report for `e` in this frame. A window seen for
    /// the first time starts at zero; after that the counter goes up when
    /// the element differs from the one last reported, or when the window's
    /// content changed (`content_changed`), and stays otherwise.
    pub fn track(&mut self, e: RoundedElement, content_changed: bool) -> (r: u64)
        ensures
            !old(self)@.contains_key(e.window) ==> r == 0,
            old(self)@.contains_key(e.window) ==> r == if old(self)@[e.window].1 == e && !content_changed {
                old(self)@[e.window].0
            } else {
                bumped(old(self)@[e.window].0)
            },
            final(self)@ == old(self)@.insert(e.window, (r, e)),
    {
        let commit = match self.states.get(&e.window) {
            None => 0,
            Some(state) => {
                let (c, last) = *state;
                if last == e && !content_changed {
                    c
                } else if c < u64::MAX {
                    c + 1
                } else {
                    c
                }
            },
        };
        self.states.insert(e.window, (commit, e));
        commit
    }

    /// Forgets the window `id`, once it is gone.
    pub fn forget(&mut self, id: u64)
        ensures
            final(self)@ == old(self)@.remove(id),
    {
        self.states.remove(&id);
    }
}

} // verus!
