//! Side tables kept per window for fullscreen: whether it is fullscreen, and
//! the area it covered before it became so.

use vstd::prelude::*;
use std::collections::{HashMap, HashSet};
use crate::geometry::Rect;

verus! {

broadcast use vstd::std_specs::hash::group_hash_axioms;

/// The windows that are fullscreen, by identity.
pub struct IsFullscreen {
    windows: HashSet<u64>,
}

impl View for IsFullscreen {
    type V = Set<u64>;

    closed spec fn view(&self) -> Set<u64> {
        self.windows@
    }
}

impl IsFullscreen {
    /// No window is fullscreen.
    pub fn new() -> (r: IsFullscreen)
        ensures
            r@ == Set::<u64>::empty(),
    {
        IsFullscreen { windows: HashSet::new() }
    }

    /// Whether the window `id` is fullscreen.
    pub fn get(&self, id: u64) -> (r: bool)
        ensures
            r == self@.contains(id),
    {
        self.windows.contains(&id)
    }

    /// Records whether the window `id` is fullscreen.
    pub fn set(&mut self, id: u64, on: bool)
        ensures
            final(self)@ == if on {
                old(self)@.insert(id)
            } else {
                old(self)@.remove(id)
            },
    {
        if on {
            self.windows.insert(id);
        } else {
            self.windows.remove(&id);
        }
    }
}

/// The area each fullscreen window covered before it became fullscreen, by
/// identity.
pub struct GeometryBeforeFullscreen {
    saved: HashMap<u64, Rect>,
}

impl View for GeometryBeforeFullscreen {
    type V = Map<u64, Rect>;

    closed spec fn view(&self) -> Map<u64, Rect> {
        self.saved@
    }
}

impl GeometryBeforeFullscreen {
    /// Nothing saved.
    pub fn new() -> (r: GeometryBeforeFullscreen)
        ensures
            r@ == Map::<u64, Rect>::empty(),
    {
        GeometryBeforeFullscreen { saved: HashMap::new() }
    }

    /// The area saved for the window `id`, if any is.
    pub fn get(&self, id: u64) -> (r: Option<Rect>)
        ensures
            r == if self@.contains_key(id) {
                Some(self@[id])
            } else {
                None
            },
    {
        match self.saved.get(&id) {
            Some(g) => Some(*g),
            None => None,
        }
    }

    /// Saves `geometry` for the window `id`, in place of what was saved.
    pub fn set(&mut self, id: u64, geometry: Rect)
        ensures
            final(self)@ == old(self)@.insert(id, geometry),
    {
        self.saved.insert(id, geometry);
    }

    /// Forgets what was saved for the window `id`.
    pub fn clear(&mut self, id: u64)
        ensures
            final(self)@ == old(self)@.remove(id),
    {
        self.saved.remove(&id);
    }
}

} // verus!
