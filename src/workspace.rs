//! One virtual desktop: the windows placed on it, in stacking order, and the
//! place of the output on it while it is shown.

use vstd::prelude::*;
use crate::geometry::{Point, Rect, rect_contains};
use crate::output::{Output, logical_size};

verus! {

/// A top-level window as the compositor sees it: its identity and its
/// geometry, that is where its visible part starts inside its surface and
/// how large it is.
#[derive(Clone, Copy, Debug, PartialEq, Eq, Structural)]
pub struct Window {
    pub id: u64,
    pub geometry: Rect,
}

/// A window placed on a workspace at `location`.
#[derive(Clone, Copy, Debug, PartialEq, Eq, Structural)]
pub struct Placed {
    pub window: Window,
    pub location: Point,
}

/// The area that a placed window covers on its workspace.
pub open spec fn bounds(p: Placed) -> Rect {
    Rect { loc: p.location, size: p.window.geometry.size }
}

/// Whether no window occurs twice.
pub open spec fn ids_unique(s: Seq<Placed>) -> bool {
    forall|i: int, j: int|
        0 <= i < s.len() && 0 <= j < s.len() && i != j ==> #[trigger] s[i].window.id
            != #[trigger] s[j].window.id
}

/// Whether the window `id` is placed in `s`.
pub open spec fn holds_id(s: Seq<Placed>, id: u64) -> bool {
    exists|i: int| 0 <= i < s.len() && #[trigger] s[i].window.id == id
}

/// The position of the window `id` in `s`, where it is placed.
pub open spec fn index_of(s: Seq<Placed>, id: u64) -> int {
    choose|i: int| 0 <= i < s.len() && #[trigger] s[i].window.id == id
}

/// The placement of the window `id` in `s`, where it is placed.
pub open spec fn entry_of(s: Seq<Placed>, id: u64) -> Placed {
    s[index_of(s, id)]
}

/// `s` without the window `id`.
pub open spec fn without(s: Seq<Placed>, id: u64) -> Seq<Placed> {
    if holds_id(s, id) {
        s.remove(index_of(s, id))
    } else {
        s
    }
}

/// `s` after `w` is placed at `location`: any earlier placement of it is
/// dropped and it goes in front of all others.
pub open spec fn mapped(s: Seq<Placed>, w: Window, location: Point) -> Seq<Placed> {
    without(s, w.id).push(Placed { window: w, location })
}

/// `s` after the window `id` is raised in front of all others; unchanged
/// where it is not placed.
pub open spec fn raised(s: Seq<Placed>, id: u64) -> Seq<Placed> {
    if holds_id(s, id) {
        without(s, id).push(entry_of(s, id))
    } else {
        s
    }
}

/// `s` with the window `id` given the geometry `g`, in place.
pub open spec fn regeometried(s: Seq<Placed>, id: u64, g: Rect) -> Seq<Placed> {
    if holds_id(s, id) {
        let e = entry_of(s, id);
        s.update(index_of(s, id), Placed { window: Window { id, geometry: g }, location: e.location })
    } else {
        s
    }
}

/// The windows of `s` whose identity is in `alive`, in their order.
pub open spec fn kept_alive(s: Seq<Placed>, alive: Seq<u64>) -> Seq<Placed>
    decreases s.len(),
{
    if s.len() == 0 {
        s
    } else if alive.contains(s.last().window.id) {
        kept_alive(s.drop_last(), alive).push(s.last())
    } else {
        kept_alive(s.drop_last(), alive)
    }
}

/// The position of the frontmost window of `s` that covers `p`; the last
/// window is the front one.
pub open spec fn topmost_at(s: Seq<Placed>, p: Point) -> Option<int>
    decreases s.len(),
{
    if s.len() == 0 {
        None
    } else if rect_contains(bounds(s.last()), p) {
        Some(s.len() - 1)
    } else {
        topmost_at(s.drop_last(), p)
    }
}

/// The frontmost window of `s` that covers `p`, with its location.
pub open spec fn hit(s: Seq<Placed>, p: Point) -> Option<(Window, Point)> {
    match topmost_at(s, p) {
        Some(i) => Some((s[i].window, s[i].location)),
        None => None,
    }
}

/// What a workspace holds, in mathematical terms.
pub ghost struct WorkspaceView {
    /// The placed windows, back to front.
    pub windows: Seq<Placed>,
    /// Where the output shows this workspace, while it does.
    pub output_location: Option<Point>,
    /// The window that was last activated, if it is still placed here.
    pub activated: Option<u64>,
}

/// One virtual desktop.
pub struct Workspace {
    windows: Vec<Placed>,
    output_location: Option<Point>,
    activated: Option<u64>,
}

impl View for Workspace {
    type V = WorkspaceView;

    closed spec fn view(&self) -> WorkspaceView {
        WorkspaceView {
            windows: self.windows@,
            output_location: self.output_location,
            activated: self.activated,
        }
    }
}

/// The one position of `id` in `s` where windows are unique.
pub proof fn lemma_index_of(s: Seq<Placed>, i: int, id: u64)
    requires
        ids_unique(s),
        0 <= i < s.len(),
        s[i].window.id == id,
    ensures
        holds_id(s, id),
        index_of(s, id) == i,
        entry_of(s, id) == s[i],
{
    assert(holds_id(s, id));
    let j = index_of(s, id);
    assert(s[j].window.id == id);
}

/// Dropping a window keeps the others unique and leaves no trace of it.
pub proof fn lemma_without(s: Seq<Placed>, id: u64)
    requires
        ids_unique(s),
    ensures
        ids_unique(without(s, id)),
        !holds_id(without(s, id), id),
        without(s, id).len() == if holds_id(s, id) { s.len() - 1 } else { s.len() as int },
        forall|k: u64| k != id ==> (holds_id(without(s, id), k) <==> holds_id(s, k)),
{
    if holds_id(s, id) {
        let i = index_of(s, id);
        let r = s.remove(i);
        assert forall|a: int| 0 <= a < r.len() implies #[trigger] r[a] == if a < i { s[a] } else { s[a + 1] } by {}
        assert forall|k: u64| k != id implies (holds_id(r, k) <==> holds_id(s, k)) by {
            if holds_id(s, k) {
                let j = choose|j: int| 0 <= j < s.len() && #[trigger] s[j].window.id == k;
                if j < i {
                    assert(r[j].window.id == k);
                } else {
                    assert(j != i);
                    assert(r[j - 1].window.id == k);
                }
            }
            if holds_id(r, k) {
                let j = choose|j: int| 0 <= j < r.len() && #[trigger] r[j].window.id == k;
                if j < i {
                    assert(s[j].window.id == k);
                } else {
                    assert(s[j + 1].window.id == k);
                }
            }
        }
        if holds_id(r, id) {
            let j = choose|j: int| 0 <= j < r.len() && #[trigger] r[j].window.id == id;
            if j < i {
                assert(s[j].window.id == id);
            } else {
                assert(s[j + 1].window.id == id);
            }
        }
    }
}

/// Placing a window that is not there yet keeps windows unique.
pub proof fn lemma_push_unique(s: Seq<Placed>, p: Placed)
    requires
        ids_unique(s),
        !holds_id(s, p.window.id),
    ensures
        ids_unique(s.push(p)),
        forall|k: u64| holds_id(s.push(p), k) <==> (holds_id(s, k) || k == p.window.id),
{
    let r = s.push(p);
    assert(r[s.len() as int] == p);
    assert forall|i: int, j: int|
        0 <= i < r.len() && 0 <= j < r.len() && i != j implies #[trigger] r[i].window.id
            != #[trigger] r[j].window.id by {
        if i < s.len() && j < s.len() {
            assert(r[i] == s[i] && r[j] == s[j]);
        } else if i < s.len() {
            assert(r[i] == s[i]);
        } else {
            assert(r[j] == s[j]);
        }
    }
    assert forall|k: u64| holds_id(r, k) <==> (holds_id(s, k) || k == p.window.id) by {
        if holds_id(r, k) {
            let j = choose|j: int| 0 <= j < r.len() && #[trigger] r[j].window.id == k;
            if j < s.len() {
                assert(s[j] == r[j]);
            }
        }
        if holds_id(s, k) {
            let j = choose|j: int| 0 <= j < s.len() && #[trigger] s[j].window.id == k;
            assert(r[j] == s[j]);
        }
        if k == p.window.id {
            assert(r[s.len() as int].window.id == k);
        }
    }
}


/// Giving a window a new geometry keeps the set of windows.
pub proof fn lemma_regeometried_ids(s: Seq<Placed>, id: u64, g: Rect)
    requires
        ids_unique(s),
    ensures
        ids_unique(regeometried(s, id, g)),
        forall|k: u64| holds_id(regeometried(s, id, g), k) <==> holds_id(s, k),
{
    if holds_id(s, id) {
        let i = index_of(s, id);
        let r = regeometried(s, id, g);
        assert(s[i].window.id == id);
        assert forall|a: int| 0 <= a < r.len() implies #[trigger] r[a].window.id == s[a].window.id by {}
        assert forall|k: u64| holds_id(r, k) <==> holds_id(s, k) by {
            if holds_id(r, k) {
                let j = choose|j: int| 0 <= j < r.len() && #[trigger] r[j].window.id == k;
                assert(s[j].window.id == k);
            }
            if holds_id(s, k) {
                let j = choose|j: int| 0 <= j < s.len() && #[trigger] s[j].window.id == k;
                assert(r[j].window.id == k);
            }
        }
        assert forall|a: int, b: int|
            0 <= a < r.len() && 0 <= b < r.len() && a != b implies #[trigger] r[a].window.id
                != #[trigger] r[b].window.id by {
            assert(s[a].window.id != s[b].window.id);
        }
    }
}

/// Keeping the living windows adds none.
pub proof fn lemma_kept_alive_ids(s: Seq<Placed>, alive: Seq<u64>)
    ensures
        forall|k: u64| holds_id(kept_alive(s, alive), k) ==> holds_id(s, k),
        forall|k: u64| holds_id(s, k) && alive.contains(k) ==> holds_id(kept_alive(s, alive), k),
    decreases s.len(),
{
    if s.len() > 0 {
        let r = s.drop_last();
        lemma_kept_alive_ids(r, alive);
        let kr = kept_alive(r, alive);
        let ks = kept_alive(s, alive);
        if alive.contains(s.last().window.id) {
            assert(ks == kr.push(s.last()));
        } else {
            assert(ks == kr);
        }
        assert forall|k: u64| holds_id(ks, k) implies holds_id(s, k) by {
            let j = choose|j: int| 0 <= j < ks.len() && #[trigger] ks[j].window.id == k;
            if j < kr.len() {
                assert(ks[j] == kr[j]);
                assert(holds_id(kr, k));
                assert(holds_id(r, k));
                let m = choose|m: int| 0 <= m < r.len() && #[trigger] r[m].window.id == k;
                assert(s[m] == r[m]);
            } else {
                assert(ks[j] == s.last());
                assert(s[s.len() - 1].window.id == k);
            }
        }
        assert forall|k: u64| holds_id(s, k) && alive.contains(k) implies holds_id(ks, k) by {
            let m = choose|m: int| 0 <= m < s.len() && #[trigger] s[m].window.id == k;
            if m < r.len() {
                assert(r[m] == s[m]);
                assert(holds_id(r, k));
                assert(holds_id(kr, k));
                let j = choose|j: int| 0 <= j < kr.len() && #[trigger] kr[j].window.id == k;
                assert(ks[j] == kr[j]);
            } else {
                assert(ks[kr.len() as int] == s.last());
            }
        }
    }
}

/// Moving or placing a window changes the set of windows by that window at
/// most.
pub proof fn lemma_mapped_ids(s: Seq<Placed>, w: Window, location: Point)
    requires
        ids_unique(s),
    ensures
        ids_unique(mapped(s, w, location)),
        forall|k: u64| holds_id(mapped(s, w, location), k) <==> (holds_id(s, k) || k == w.id),
{
    lemma_without(s, w.id);
    lemma_push_unique(without(s, w.id), Placed { window: w, location });
}

/// A window just placed at `location` is the one found under any point of
/// the area it covers there.
pub proof fn map_then_hit(s: Seq<Placed>, w: Window, location: Point, p: Point)
    requires
        rect_contains(Rect { loc: location, size: w.geometry.size }, p),
    ensures
        hit(mapped(s, w, location), p) == Some((w, location)),
{
    let m = mapped(s, w, location);
    assert(m.last() == Placed { window: w, location });
}

/// The hit test finds nothing exactly where no window covers the point, and
/// what it finds is the frontmost window that covers it.
pub proof fn hit_is_frontmost_cover(s: Seq<Placed>, p: Point)
    ensures
        topmost_at(s, p) is None <==> forall|i: int| 0 <= i < s.len() ==> !rect_contains(#[trigger] bounds(s[i]), p),
        topmost_at(s, p) matches Some(i) ==> {
            &&& 0 <= i < s.len()
            &&& rect_contains(bounds(s[i]), p)
            &&& forall|j: int| i < j < s.len() ==> !rect_contains(#[trigger] bounds(s[j]), p)
        },
    decreases s.len(),
{
    if s.len() > 0 {
        let r = s.drop_last();
        hit_is_frontmost_cover(r, p);
        assert forall|i: int| 0 <= i < r.len() implies #[trigger] r[i] == s[i] by {}
        if !rect_contains(bounds(s.last()), p) {
            if topmost_at(r, p) is None {
                assert forall|i: int| 0 <= i < s.len() implies !rect_contains(#[trigger] bounds(s[i]), p) by {
                    if i < r.len() {
                        assert(r[i] == s[i]);
                    }
                }
            }
            if topmost_at(r, p) is Some {
                let i = topmost_at(r, p)->0;
                assert forall|j: int| i < j < s.len() implies !rect_contains(#[trigger] bounds(s[j]), p) by {
                    if j < r.len() {
                        assert(r[j] == s[j]);
                    }
                }
            }
        }
    }
}

/// Over a point that no window covers, the hit test finds nothing.
pub proof fn uncovered_point_has_no_hit(s: Seq<Placed>, p: Point)
    requires
        forall|i: int| 0 <= i < s.len() ==> !rect_contains(#[trigger] bounds(s[i]), p),
    ensures
        hit(s, p) is None,
{
    hit_is_frontmost_cover(s, p);
}

/// A window just raised is the one found under any point it covers, however
/// many other windows cover that point too.
pub proof fn raise_then_hit(s: Seq<Placed>, id: u64, p: Point)
    requires
        ids_unique(s),
        holds_id(s, id),
        rect_contains(bounds(entry_of(s, id)), p),
    ensures
        hit(raised(s, id), p) == Some((entry_of(s, id).window, entry_of(s, id).location)),
{
    let r = raised(s, id);
    assert(r.last() == entry_of(s, id));
}

impl Workspace {
    /// No window occurs twice.
    pub open spec fn wf(&self) -> bool {
        &&& ids_unique(self@.windows)
        &&& self@.activated matches Some(a) ==> holds_id(self@.windows, a)
    }

    /// An empty workspace that no output shows.
    pub fn new() -> (r: Workspace)
        ensures
            r.wf(),
            r@.windows == Seq::<Placed>::empty(),
            r@.output_location is None,
            r@.activated is None,
    {
        Workspace { windows: Vec::new(), output_location: None, activated: None }
    }

    /// Where the window `id` stands in the stacking order, if it is here.
    pub fn position(&self, id: u64) -> (r: Option<usize>)
        requires
            self.wf(),
        ensures
            r is None <==> !holds_id(self@.windows, id),
            r matches Some(i) ==> i == index_of(self@.windows, id) && i < self@.windows.len(),
    {
        let mut i: usize = 0;
        while i < self.windows.len()
            invariant
                i <= self.windows@.len(),
                ids_unique(self.windows@),
                forall|j: int| 0 <= j < i ==> self.windows@[j].window.id != id,
            decreases self.windows@.len() - i,
        {
            if self.windows[i].window.id == id {
                proof {
                    lemma_index_of(self.windows@, i as int, id);
                }
                return Some(i);
            }
            i = i + 1;
        }
        None
    }

    /// Removes the window `id`, if it is here. It stays activated no longer.
    pub fn unmap_window(&mut self, id: u64)
        requires
            old(self).wf(),
        ensures
            final(self).wf(),
            final(self)@.windows == without(old(self)@.windows, id),
            final(self)@.output_location == old(self)@.output_location,
            final(self)@.activated == if old(self)@.activated == Some(id) {
                None
            } else {
                old(self)@.activated
            },
            !holds_id(old(self)@.windows, id) ==> final(self)@ == old(self)@,
    {
        proof {
            lemma_without(self.windows@, id);
        }
        match self.position(id) {
            Some(i) => {
                self.windows.remove(i);
            },
            None => {},
        }
        if self.activated == Some(id) {
            self.activated = None;
        }
    }

    /// Places `window` at `location`, in front of all others; a window that
    /// was here already is moved. With `activate` it becomes the activated
    /// window.
    pub fn map_window(&mut self, window: Window, location: Point, activate: bool)
        requires
            old(self).wf(),
        ensures
            final(self).wf(),
            final(self)@.windows == mapped(old(self)@.windows, window, location),
            final(self)@.output_location == old(self)@.output_location,
            final(self)@.activated == if activate {
                Some(window.id)
            } else if old(self)@.activated == Some(window.id) {
                None
            } else {
                old(self)@.activated
            },
    {
        self.unmap_window(window.id);
        proof {
            lemma_without(old(self)@.windows, window.id);
            lemma_push_unique(self.windows@, Placed { window, location });
        }
        self.windows.push(Placed { window, location });
        if activate {
            self.activated = Some(window.id);
        }
    }

    /// The placed windows, back to front.
    pub fn windows(&self) -> (r: &Vec<Placed>)
        ensures
            r@ == self@.windows,
    {
        &self.windows
    }

    /// The window that was last activated, if it is still placed here.
    pub fn activated(&self) -> (r: Option<u64>)
        ensures
            r == self@.activated,
    {
        self.activated
    }

    /// No window is activated any more.
    pub fn deactivate(&mut self)
        ensures
            final(self)@ == (WorkspaceView { activated: None, ..old(self)@ }),
    {
        self.activated = None;
    }

    /// The frontmost window that covers `p`, with its location; `None` over
    /// empty space.
    pub fn window_under(&self, p: Point) -> (r: Option<(Window, Point)>)
        ensures
            r == hit(self@.windows, p),
    {
        let mut i: usize = self.windows.len();
        assert(self.windows@.subrange(0, i as int) =~= self.windows@);
        while i > 0
            invariant
                i <= self.windows@.len(),
                topmost_at(self.windows@, p) == topmost_at(self.windows@.subrange(0, i as int), p),
            decreases i,
        {
            let prefix = Ghost(self.windows@.subrange(0, i as int));
            assert(prefix@.drop_last() =~= self.windows@.subrange(0, i - 1));
            assert(prefix@.last() == self.windows@[i - 1]);
            let e = self.windows[i - 1];
            let b = Rect { loc: e.location, size: e.window.geometry.size };
            if b.contains(p) {
                return Some((e.window, e.location));
            }
            i = i - 1;
        }
        None
    }

    /// Moves the window `id` in front of all others; with `activate` it also
    /// becomes the activated window. Nothing changes where it is not here.
    pub fn raise_window(&mut self, id: u64, activate: bool)
        requires
            old(self).wf(),
        ensures
            final(self).wf(),
            final(self)@.windows == raised(old(self)@.windows, id),
            final(self)@.output_location == old(self)@.output_location,
            final(self)@.activated == if activate && holds_id(old(self)@.windows, id) {
                Some(id)
            } else {
                old(self)@.activated
            },
    {
        match self.position(id) {
            Some(i) => {
                let e = self.windows[i];
                proof {
                    lemma_without(self.windows@, id);
                    lemma_push_unique(without(self.windows@, id), e);
                }
                self.windows.remove(i);
                self.windows.push(e);
                if activate {
                    self.activated = Some(id);
                }
            },
            None => {},
        }
    }

    /// Gives the window `id` the geometry `geometry`, as its client has
    /// committed it; it keeps its place. Nothing changes where it is not
    /// here.
    pub fn update_window(&mut self, id: u64, geometry: Rect)
        requires
            old(self).wf(),
        ensures
            final(self).wf(),
            final(self)@.windows == regeometried(old(self)@.windows, id, geometry),
            final(self)@.output_location == old(self)@.output_location,
            final(self)@.activated == old(self)@.activated,
    {
        proof {
            lemma_regeometried_ids(self.windows@, id, geometry);
        }
        match self.position(id) {
            Some(i) => {
                let location = self.windows[i].location;
                let e = Placed { window: Window { id, geometry }, location };
                self.windows.set(i, e);
                assert(ids_unique(self.windows@)) by {
                    assert forall|a: int, b: int|
                        0 <= a < self.windows@.len() && 0 <= b < self.windows@.len() && a != b
                            implies #[trigger] self.windows@[a].window.id
                            != #[trigger] self.windows@[b].window.id by {
                        assert(old(self).windows@[a].window.id != old(self).windows@[b].window.id);
                    }
                }
            },
            None => {},
        }
    }

    /// Keeps only the windows whose identity is in `alive`, in their order.
    pub fn refresh(&mut self, alive: &[u64])
        requires
            old(self).wf(),
        ensures
            final(self).wf(),
            final(self)@.windows == kept_alive(old(self)@.windows, alive@),
            final(self)@.output_location == old(self)@.output_location,
            final(self)@.activated == match old(self)@.activated {
                Some(a) => if alive@.contains(a) { Some(a) } else { None },
                None => None,
            },
    {
        let mut kept: Vec<Placed> = Vec::new();
        let mut i: usize = 0;
        while i < self.windows.len()
            invariant
                i <= self.windows@.len(),
                ids_unique(self.windows@),
                ids_unique(kept@),
                kept@ == kept_alive(self.windows@.subrange(0, i as int), alive@),
                forall|k: u64| holds_id(kept@, k) ==> exists|j: int| 0 <= j < i && #[trigger] self.windows@[j].window.id == k,
            decreases self.windows@.len() - i,
        {
            let e = self.windows[i];
            let ghost prefix = self.windows@.subrange(0, i + 1);
            assert(prefix.drop_last() =~= self.windows@.subrange(0, i as int));
            assert(prefix.last() == e);
            if slice_contains(alive, e.window.id) {
                proof {
                    if holds_id(kept@, e.window.id) {
                        let j = choose|j: int| 0 <= j < i && #[trigger] self.windows@[j].window.id == e.window.id;
                        assert(self.windows@[j].window.id != self.windows@[i as int].window.id);
                    }
                    lemma_push_unique(kept@, e);
                }
                let ghost before = kept@;
                kept.push(e);
                proof {
                    assert forall|k: u64| holds_id(kept@, k) implies exists|j: int| 0 <= j < i + 1 && #[trigger] self.windows@[j].window.id == k by {
                        if k == e.window.id {
                            assert(self.windows@[i as int].window.id == k);
                        } else {
                            assert(holds_id(before, k));
                            let j = choose|j: int| 0 <= j < i && #[trigger] self.windows@[j].window.id == k;
                            assert(0 <= j < i + 1 && self.windows@[j].window.id == k);
                        }
                    }
                }
            }
            i = i + 1;
        }
        assert(self.windows@.subrange(0, self.windows@.len() as int) =~= self.windows@);
        proof {
            lemma_kept_alive_ids(old(self).windows@, alive@);
        }
        self.windows = kept;
        match self.activated {
            Some(a) => {
                if !slice_contains(alive, a) {
                    self.activated = None;
                }
            },
            None => {},
        }
    }

    /// Shows this workspace on the output, with the output's top-left corner
    /// at `location`.
    pub fn map_output(&mut self, location: Point)
        ensures
            final(self)@ == (WorkspaceView { output_location: Some(location), ..old(self)@ }),
    {
        self.output_location = Some(location);
    }

    /// Stops showing this workspace.
    pub fn unmap_output(&mut self)
        ensures
            final(self)@ == (WorkspaceView { output_location: None, ..old(self)@ }),
    {
        self.output_location = None;
    }

    /// Where the output shows this workspace, if it does.
    pub fn output_location(&self) -> (r: Option<Point>)
        ensures
            r == self@.output_location,
    {
        self.output_location
    }

    /// The area of this workspace that `output` shows; `None` where no
    /// output shows it.
    pub fn output_geometry(&self, output: &Output) -> (r: Option<Rect>)
        requires
            output.wf(),
        ensures
            r == match self@.output_location {
                Some(loc) => Some(Rect { loc, size: logical_size(*output) }),
                None => None,
            },
    {
        match self.output_location {
            Some(loc) => Some(Rect { loc, size: output.logical_size() }),
            None => None,
        }
    }
}

/// Whether `key` occurs in `ids`.
pub fn slice_contains(ids: &[u64], key: u64) -> (r: bool)
    ensures
        r == ids@.contains(key),
{
    let mut i: usize = 0;
    while i < ids.len()
        invariant
            i <= ids@.len(),
            forall|j: int| 0 <= j < i ==> ids@[j] != key,
        decreases ids@.len() - i,
    {
        if ids[i] == key {
            return true;
        }
        i = i + 1;
    }
    false
}

} // verus!
