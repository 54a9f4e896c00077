//! The fixed set of workspaces, the one that is shown, and the operations
//! that move windows and the output between them.

use vstd::prelude::*;
use crate::fullscreen::{GeometryBeforeFullscreen, IsFullscreen};
use crate::geometry::{Point, Rect, Size, Transform};
use crate::config::Outline;
use crate::output::{Output, logical_size, lemma_logical_size_nonneg};
use crate::render::{RenderElement, compose_frame, frame_plan};
use crate::workspace::{
    Placed, Window, Workspace, WorkspaceView, bounds, entry_of, holds_id, ids_unique, index_of,
    kept_alive, mapped, raised, regeometried, without, lemma_index_of, lemma_kept_alive_ids,
    lemma_mapped_ids, lemma_push_unique, lemma_regeometried_ids, lemma_without,
};

verus! {

/// Why a workspace operation did nothing.
#[derive(Clone, Copy, Debug, PartialEq, Eq, Structural)]
pub enum ShellError {
    /// The workspace number is out of range.
    NoSuchWorkspace,
    /// The window is not placed on the shown workspace.
    NotMapped,
}

/// The origin of a workspace, where moved windows land.
pub open spec fn origin() -> Point {
    Point { x: 0, y: 0 }
}

/// `s` with the window `id` grown to `size`, in place: what a window looks
/// like once it is fullscreen.
pub open spec fn fullscreen_windows(s: Seq<Placed>, id: u64, size: Size) -> Seq<Placed> {
    regeometried(s, id, Rect { loc: entry_of(s, id).window.geometry.loc, size })
}

/// `s` with the window `id` back at the area `g`, in front of the others:
/// what a window looks like once it leaves fullscreen.
pub open spec fn restored_windows(s: Seq<Placed>, id: u64, g: Rect) -> Seq<Placed> {
    mapped(
        s,
        Window { id, geometry: Rect { loc: entry_of(s, id).window.geometry.loc, size: g.size } },
        g.loc,
    )
}

/// A workspace after the window `id` was removed from it.
pub open spec fn view_without(v: WorkspaceView, id: u64) -> WorkspaceView {
    WorkspaceView {
        windows: without(v.windows, id),
        activated: if v.activated == Some(id) {
            None
        } else {
            v.activated
        },
        ..v
    }
}

/// A workspace after `w` was placed on it at `location`, not activated.
pub open spec fn view_mapped(v: WorkspaceView, w: Window, location: Point) -> WorkspaceView {
    WorkspaceView { windows: mapped(v.windows, w, location), ..view_without(v, w.id) }
}

/// Exactly one workspace is the shown one, and while an output is bound it is
/// the only workspace that the output shows; with none bound, no workspace is
/// shown on any.
pub proof fn exactly_one_current(ws: &Workspaces)
    requires
        ws.wf(),
    ensures
        ws.count() >= 1,
        0 <= ws.current_at() < ws.count(),
        ws.bound_output() is Some ==> forall|i: int| 0 <= i < ws.count() ==> ((#[trigger] ws.space(i)).output_location is Some <==> i == ws.current_at()),
        ws.bound_output() is None ==> forall|i: int| 0 <= i < ws.count() ==> (#[trigger] ws.space(i)).output_location is None,
{
    assert forall|i: int| 0 <= i < ws.count() implies ((#[trigger] ws.space(i)).output_location is Some <==> (i == ws.current_at() && ws.bound_output() is Some)) by {
        assert(ws.workspaces@[i]@.output_location is Some <==> (i == ws.current && ws.output is Some));
    }
}

/// A window is placed on one workspace at most.
pub proof fn window_on_one_workspace(ws: &Workspaces, id: u64)
    requires
        ws.wf(),
    ensures
        forall|i: int, j: int|
            0 <= i < ws.count() && 0 <= j < ws.count() && i != j && holds_id(#[trigger] ws.space(i).windows, id)
                ==> !holds_id(#[trigger] ws.space(j).windows, id),
{
    assert forall|i: int, j: int|
        0 <= i < ws.count() && 0 <= j < ws.count() && i != j && holds_id(#[trigger] ws.space(i).windows, id)
            implies !holds_id(#[trigger] ws.space(j).windows, id) by {
        assert(holds_id(ws.workspaces@[i]@.windows, id));
    }
}

/// Going fullscreen and back gives a window exactly the placement it had
/// before, and leaves the other windows, in their order, as they were.
pub proof fn fullscreen_round_trip(s: Seq<Placed>, id: u64, size: Size)
    requires
        ids_unique(s),
        holds_id(s, id),
    ensures
        ({
            let back = restored_windows(fullscreen_windows(s, id, size), id, bounds(entry_of(s, id)));
            &&& holds_id(back, id)
            &&& entry_of(back, id) == entry_of(s, id)
            &&& without(back, id) == without(s, id)
        }),
{
    let i = index_of(s, id);
    let e = s[i];
    let x = Placed { window: Window { id, geometry: Rect { loc: e.window.geometry.loc, size } }, location: e.location };
    let s1 = fullscreen_windows(s, id, size);
    assert(s1 == s.update(i, x));
    assert(ids_unique(s1)) by {
        assert forall|a: int, b: int| 0 <= a < s1.len() && 0 <= b < s1.len() && a != b implies #[trigger] s1[a].window.id != #[trigger] s1[b].window.id by {
            assert(s[a].window.id != s[b].window.id);
        }
    }
    lemma_index_of(s1, i, id);
    assert(without(s1, id) =~= without(s, id));
    let g = bounds(e);
    let w = Window { id, geometry: Rect { loc: entry_of(s1, id).window.geometry.loc, size: g.size } };
    assert(w == e.window);
    let back = restored_windows(s1, id, g);
    assert(back == without(s, id).push(e));
    lemma_without(s, id);
    lemma_push_unique(without(s, id), e);
    lemma_index_of(back, back.len() - 1, id);
    assert(without(back, id) =~= without(s, id));
}

/// Making a window fullscreen and then taking it out of fullscreen puts it
/// back exactly where and as large as it was, leaves the other windows of
/// the shown workspace as they were, and leaves no fullscreen state behind.
pub proof fn fullscreen_then_unfullscreen(a: &Workspaces, b: &Workspaces, c: &Workspaces, id: u64)
    requires
        a.wf(),
        holds_id(a.current_windows(), id),
        !a.fullscreen_ids().contains(id),
        b.made_fullscreen(a, id),
        c.left_fullscreen(b, id),
    ensures
        holds_id(c.current_windows(), id),
        entry_of(c.current_windows(), id) == entry_of(a.current_windows(), id),
        without(c.current_windows(), id) == without(a.current_windows(), id),
        !c.fullscreen_ids().contains(id),
        c.saved_geometry() == a.saved_geometry().remove(id),
{
    lemma_spaces_unique(a);
    let s = a.current_windows();
    let size = match a.bound_output() {
        Some(o) => logical_size(o),
        None => entry_of(s, id).window.geometry.size,
    };
    if a.bound_output() is None {
        let i = index_of(s, id);
        assert(s[i].window.id == id);
        assert(fullscreen_windows(s, id, size) =~= s);
    }
    fullscreen_round_trip(s, id, size);
    assert(b.saved_geometry().contains_key(id));
    assert(c.saved_geometry() =~= a.saved_geometry().remove(id));
}

/// Asking twice for fullscreen and then leaving it puts the window back
/// exactly where and as large as it was before the first request.
pub proof fn fullscreen_twice_then_unfullscreen(a: &Workspaces, b: &Workspaces, c: &Workspaces, d: &Workspaces, id: u64)
    requires
        a.wf(),
        holds_id(a.current_windows(), id),
        !a.fullscreen_ids().contains(id),
        b.made_fullscreen(a, id),
        c.made_fullscreen(b, id),
        d.left_fullscreen(c, id),
    ensures
        holds_id(d.current_windows(), id),
        entry_of(d.current_windows(), id) == entry_of(a.current_windows(), id),
        without(d.current_windows(), id) == without(a.current_windows(), id),
        !d.fullscreen_ids().contains(id),
        d.saved_geometry() == a.saved_geometry().remove(id),
{
    fullscreen_twice(a, b, c, id);
    fullscreen_then_unfullscreen(a, b, d, id);
}

/// Asking twice in a row for a window to be fullscreen leaves it fullscreen,
/// with the area saved by the first request and the geometry that request
/// gave it: the second request changes nothing.
pub proof fn fullscreen_twice(a: &Workspaces, b: &Workspaces, c: &Workspaces, id: u64)
    requires
        b.made_fullscreen(a, id),
        c.made_fullscreen(b, id),
    ensures
        c.fullscreen_ids().contains(id),
        *c == *b,
{
}

/// On a well-formed set of workspaces no workspace holds a window twice.
pub proof fn lemma_spaces_unique(ws: &Workspaces)
    requires
        ws.wf(),
    ensures
        forall|i: int| 0 <= i < ws.count() ==> ids_unique(#[trigger] ws.space(i).windows),
        ids_unique(ws.current_windows()),
{
    assert forall|i: int| 0 <= i < ws.count() implies ids_unique(#[trigger] ws.space(i).windows) by {
        assert(ws.workspaces@[i].wf());
    }
}

/// All the workspaces.
pub struct Workspaces {
    current: usize,
    output: Option<Output>,
    workspaces: Vec<Workspace>,
    fullscreen: IsFullscreen,
    saved: GeometryBeforeFullscreen,
}

impl Workspaces {
    /// How many workspaces there are.
    pub closed spec fn count(&self) -> nat {
        self.workspaces@.len()
    }

    /// The position of the shown workspace.
    pub closed spec fn current_at(&self) -> int {
        self.current as int
    }

    /// The output, while one is bound.
    pub closed spec fn bound_output(&self) -> Option<Output> {
        self.output
    }

    /// The workspace at position `i`.
    pub closed spec fn space(&self, i: int) -> WorkspaceView {
        self.workspaces@[i]@
    }

    /// The windows that are fullscreen.
    pub closed spec fn fullscreen_ids(&self) -> Set<u64> {
        self.fullscreen@
    }

    /// The areas saved for windows that went fullscreen.
    pub closed spec fn saved_geometry(&self) -> Map<u64, Rect> {
        self.saved@
    }

    /// The windows of the shown workspace, back to front.
    pub open spec fn current_windows(&self) -> Seq<Placed> {
        self.space(self.current_at()).windows
    }

    /// At least one workspace; the shown one is among them; each holds every
    /// window at most once; the shown workspace is the only one that the
    /// output shows, and it is shown exactly while an output is bound.
    pub closed spec fn wf(&self) -> bool {
        &&& self.workspaces@.len() >= 1
        &&& self.current < self.workspaces@.len()
        &&& forall|i: int| 0 <= i < self.workspaces@.len() ==> #[trigger] self.workspaces@[i].wf()
        &&& forall|i: int|
            0 <= i < self.workspaces@.len() ==> (#[trigger] self.workspaces@[i]@.output_location is Some
                <==> (i == self.current && self.output is Some))
        &&& self.output matches Some(o) ==> o.wf()
        &&& self.placed_once()
        &&& self.saved@.dom() == self.fullscreen@
    }

    /// No window is placed on two workspaces.
    pub closed spec fn placed_once(&self) -> bool {
        forall|i: int, j: int, k: u64|
            #![trigger holds_id(self.workspaces@[i]@.windows, k), holds_id(self.workspaces@[j]@.windows, k)]
            0 <= i < self.workspaces@.len() && 0 <= j < self.workspaces@.len() && i != j
                && holds_id(self.workspaces@[i]@.windows, k) ==> !holds_id(self.workspaces@[j]@.windows, k)
    }

    /// Taking windows away from workspaces keeps every window on one
    /// workspace at most.
    proof fn lemma_placed_once_subset(ws: &Workspaces, previous: &Workspaces)
        requires
            previous.placed_once(),
            ws.workspaces@.len() == previous.workspaces@.len(),
            forall|i: int, k: u64| 0 <= i < ws.workspaces@.len() && #[trigger] holds_id(ws.workspaces@[i]@.windows, k)
                ==> holds_id(previous.workspaces@[i]@.windows, k),
        ensures
            ws.placed_once(),
    {
        assert forall|i: int, j: int, k: u64|
            0 <= i < ws.workspaces@.len() && 0 <= j < ws.workspaces@.len() && i != j
                && holds_id(ws.workspaces@[i]@.windows, k) implies !holds_id(ws.workspaces@[j]@.windows, k) by {
            if holds_id(ws.workspaces@[j]@.windows, k) {
                assert(holds_id(previous.workspaces@[i]@.windows, k));
                assert(holds_id(previous.workspaces@[j]@.windows, k));
            }
        }
    }

    /// Everything but the shown workspace is as in `old`.
    pub open spec fn unchanged_but_current(&self, old: &Workspaces) -> bool {
        &&& self.count() == old.count()
        &&& self.current_at() == old.current_at()
        &&& self.bound_output() == old.bound_output()
        &&& self.fullscreen_ids() == old.fullscreen_ids()
        &&& self.saved_geometry() == old.saved_geometry()
        &&& forall|i: int| 0 <= i < self.count() && i != self.current_at() ==> #[trigger] self.space(i) == old.space(i)
    }

    /// `self` is `old` after the workspace at `index`, which exists, was
    /// asked to be shown.
    pub open spec fn switched(&self, old: &Workspaces, index: int) -> bool {
        if index == old.current_at() || old.bound_output() is None {
            *self == *old
        } else {
            let was = old.current_at();
            &&& self.current_at() == index
            &&& self.count() == old.count()
            &&& self.bound_output() == old.bound_output()
            &&& self.fullscreen_ids() == old.fullscreen_ids()
            &&& self.saved_geometry() == old.saved_geometry()
            &&& self.space(index) == (WorkspaceView { output_location: old.space(was).output_location, ..old.space(index) })
            &&& self.space(was) == (WorkspaceView { output_location: None, ..old.space(was) })
            &&& forall|i: int| 0 <= i < self.count() && i != index && i != was ==> #[trigger] self.space(i) == old.space(i)
        }
    }

    /// `self` is `old` after the window `id`, placed on the shown workspace,
    /// was moved to the workspace at `index`, which exists.
    pub open spec fn moved(&self, old: &Workspaces, id: u64, index: int) -> bool {
        let cur = old.current_at();
        let w = entry_of(old.current_windows(), id).window;
        &&& self.count() == old.count()
        &&& self.current_at() == cur
        &&& self.bound_output() == old.bound_output()
        &&& self.fullscreen_ids() == old.fullscreen_ids()
        &&& self.saved_geometry() == old.saved_geometry()
        &&& index != cur ==> self.space(cur) == view_without(old.space(cur), id)
            && self.space(index) == view_mapped(old.space(index), w, origin())
        &&& index == cur ==> self.space(cur) == view_mapped(view_without(old.space(cur), id), w, origin())
        &&& forall|i: int| 0 <= i < self.count() && i != index && i != cur ==> #[trigger] self.space(i) == old.space(i)
    }

    /// `self` is `old` after the window `id`, placed on the shown workspace,
    /// was made fullscreen: its placement is saved, it is marked fullscreen,
    /// and it takes the output's size where an output is bound. A window that
    /// is fullscreen already stays as it is.
    pub open spec fn made_fullscreen(&self, old: &Workspaces, id: u64) -> bool {
        if old.fullscreen_ids().contains(id) {
            *self == *old
        } else {
            let s = old.current_windows();
            &&& self.fullscreen_ids() == old.fullscreen_ids().insert(id)
            &&& self.saved_geometry() == old.saved_geometry().insert(id, bounds(entry_of(s, id)))
            &&& self.space(old.current_at()) == (WorkspaceView {
                windows: match old.bound_output() {
                    Some(o) => fullscreen_windows(s, id, logical_size(o)),
                    None => s,
                },
                ..old.space(old.current_at())
            })
            &&& self.count() == old.count()
            &&& self.current_at() == old.current_at()
            &&& self.bound_output() == old.bound_output()
            &&& forall|i: int| 0 <= i < self.count() && i != self.current_at() ==> #[trigger] self.space(i) == old.space(i)
        }
    }

    /// `self` is `old` after the window `id`, placed on the shown workspace,
    /// was taken out of fullscreen.
    pub open spec fn left_fullscreen(&self, old: &Workspaces, id: u64) -> bool {
        let s = old.current_windows();
        let cur = old.current_at();
        let saved = old.saved_geometry();
        &&& self.fullscreen_ids() == old.fullscreen_ids().remove(id)
        &&& self.saved_geometry() == saved.remove(id)
        &&& self.space(cur) == if saved.contains_key(id) {
            WorkspaceView { windows: restored_windows(s, id, saved[id]), ..view_without(old.space(cur), id) }
        } else {
            old.space(cur)
        }
        &&& self.count() == old.count()
        &&& self.current_at() == cur
        &&& self.bound_output() == old.bound_output()
        &&& forall|i: int| 0 <= i < self.count() && i != cur ==> #[trigger] self.space(i) == old.space(i)
    }

    /// `n` empty workspaces, the first one shown, no output bound.
    pub fn new(n: usize) -> (r: Workspaces)
        requires
            n >= 1,
        ensures
            r.wf(),
            r.count() == n,
            r.current_at() == 0,
            r.bound_output() is None,
            r.fullscreen_ids() == Set::<u64>::empty(),
            r.saved_geometry() == Map::<u64, Rect>::empty(),
            forall|i: int| 0 <= i < n ==> (#[trigger] r.space(i)).windows.len() == 0 && r.space(i).output_location is None && r.space(i).activated is None,
    {
        let mut workspaces: Vec<Workspace> = Vec::new();
        let mut i: usize = 0;
        while i < n
            invariant
                i <= n,
                workspaces@.len() == i,
                forall|j: int| 0 <= j < i ==> (#[trigger] workspaces@[j]).wf() && workspaces@[j]@.windows.len() == 0 && workspaces@[j]@.output_location is None && workspaces@[j]@.activated is None,
            decreases n - i,
        {
            workspaces.push(Workspace::new());
            i = i + 1;
        }
        Workspaces {
            current: 0,
            output: None,
            workspaces,
            fullscreen: IsFullscreen::new(),
            saved: GeometryBeforeFullscreen::new(),
        }
    }

    /// How many workspaces there are.
    pub fn workspace_count(&self) -> (r: usize)
        ensures
            r == self.count(),
    {
        self.workspaces.len()
    }

    /// The position of the shown workspace.
    pub fn current_index(&self) -> (r: usize)
        ensures
            r == self.current_at(),
    {
        self.current
    }

    /// The shown workspace.
    pub fn current(&self) -> (r: &Workspace)
        requires
            self.wf(),
        ensures
            r@ == self.space(self.current_at()),
            r.wf(),
    {
        &self.workspaces[self.current]
    }

    /// The workspace at position `i`.
    pub fn workspace(&self, i: usize) -> (r: &Workspace)
        requires
            self.wf(),
            i < self.count(),
        ensures
            r@ == self.space(i as int),
            r.wf(),
    {
        &self.workspaces[i]
    }

    /// The output, while one is bound.
    pub fn output(&self) -> (r: Option<Output>)
        ensures
            r == self.bound_output(),
    {
        self.output
    }

    /// Shows the workspace at `index` in place of the shown one. The output
    /// keeps its place: the new workspace is shown at the location where the
    /// old one was. With no output bound, or with the shown workspace, nothing
    /// changes.
    pub fn switch_to(&mut self, index: usize) -> (r: Result<(), ShellError>)
        requires
            old(self).wf(),
        ensures
            final(self).wf(),
            index >= old(self).count() ==> r == Err::<(), ShellError>(ShellError::NoSuchWorkspace) && *final(self) == *old(self),
            index < old(self).count() ==> r is Ok,
            index == old(self).current_at() ==> *final(self) == *old(self),
            index < old(self).count() ==> final(self).switched(old(self), index as int),
    {
        if index >= self.workspaces.len() {
            return Err(ShellError::NoSuchWorkspace);
        }
        if index == self.current || self.output.is_none() {
            return Ok(());
        }
        let was = self.current;
        let location = self.workspaces[was].output_location();
        match location {
            Some(loc) => {
                self.workspaces[was].unmap_output();
                self.workspaces[index].map_output(loc);
                self.current = index;
            },
            None => {},
        }
        assert forall|i: int| 0 <= i < self.workspaces@.len() implies #[trigger] self.workspaces@[i].wf() by {
            assert(self.workspaces@[i]@.windows == old(self).workspaces@[i]@.windows);
            assert(self.workspaces@[i]@.activated == old(self).workspaces@[i]@.activated);
            assert(old(self).workspaces@[i].wf());
        }
        proof {
            assert forall|j: int, k: u64| 0 <= j < self.workspaces@.len() && #[trigger] holds_id(self.workspaces@[j]@.windows, k)
                implies holds_id(old(self).workspaces@[j]@.windows, k) by {
                assert(self.workspaces@[j]@.windows == old(self).workspaces@[j]@.windows);
            }
            Self::lemma_placed_once_subset(self, old(self));
        }
        Ok(())
    }

    /// Moves the window `id` from the shown workspace to the workspace at
    /// `index`, at the origin and not activated. The shown workspace stays
    /// the same.
    pub fn move_to(&mut self, id: u64, index: usize) -> (r: Result<(), ShellError>)
        requires
            old(self).wf(),
        ensures
            final(self).wf(),
            index >= old(self).count() ==> r == Err::<(), ShellError>(ShellError::NoSuchWorkspace) && *final(self) == *old(self),
            index < old(self).count() && !holds_id(old(self).current_windows(), id) ==> r == Err::<(), ShellError>(ShellError::NotMapped) && *final(self) == *old(self),
            index < old(self).count() && holds_id(old(self).current_windows(), id) ==> r is Ok && final(self).moved(old(self), id, index as int),
    {
        if index >= self.workspaces.len() {
            return Err(ShellError::NoSuchWorkspace);
        }
        let cur = self.current;
        let found = self.workspaces[cur].position(id);
        match found {
            None => {
                return Err(ShellError::NotMapped);
            },
            Some(pos) => {
                let w = self.workspaces[cur].windows()[pos].window;
                proof {
                    assert(old(self).workspaces@[cur as int].wf());
                    lemma_index_of(old(self).current_windows(), pos as int, id);
                    lemma_without(old(self).workspaces@[cur as int]@.windows, id);
                }
                self.workspaces[cur].unmap_window(id);
                let ghost mid = self.workspaces@;
                assert(self.workspaces@[index as int].wf());
                self.workspaces[index].map_window(w, Point { x: 0, y: 0 }, false);
                proof {
                    lemma_mapped_ids(mid[index as int]@.windows, w, Point { x: 0, y: 0 });
                    let n = self.workspaces@.len();
                    assert forall|a: int, b: int, k: u64|
                        0 <= a < n && 0 <= b < n && a != b && holds_id(self.workspaces@[a]@.windows, k)
                            implies !holds_id(self.workspaces@[b]@.windows, k) by {
                        // every workspace but `index` holds only windows it held before, and not `id`
                        assert forall|j: int| 0 <= j < n && j != index && #[trigger] holds_id(self.workspaces@[j]@.windows, k)
                            implies holds_id(old(self).workspaces@[j]@.windows, k) && k != id by {
                            if j != cur {
                                assert(self.workspaces@[j] == old(self).workspaces@[j]);
                                if k == id {
                                    assert(holds_id(old(self).workspaces@[cur as int]@.windows, id));
                                }
                            }
                        }
                        if holds_id(self.workspaces@[b]@.windows, k) {
                            if a != index && b != index {
                                assert(holds_id(old(self).workspaces@[a]@.windows, k));
                                assert(holds_id(old(self).workspaces@[b]@.windows, k));
                            } else {
                                let other = if a == index { b } else { a };
                                assert(holds_id(old(self).workspaces@[other]@.windows, k) && k != id);
                                if index == cur {
                                    assert(holds_id(mid[index as int]@.windows, k));
                                    assert(holds_id(old(self).workspaces@[index as int]@.windows, k));
                                } else {
                                    assert(mid[index as int] == old(self).workspaces@[index as int]);
                                    assert(holds_id(old(self).workspaces@[index as int]@.windows, k));
                                }
                            }
                        }
                    }
                }
                assert forall|i: int| 0 <= i < self.workspaces@.len() implies #[trigger] self.workspaces@[i].wf() by {
                    if i != index && i != cur {
                        assert(self.workspaces@[i] == old(self).workspaces@[i]);
                    }
                }
                assert forall|i: int| 0 <= i < self.workspaces@.len() implies (#[trigger] self.workspaces@[i]@.output_location is Some
                    <==> (i == self.current && self.output is Some)) by {
                    assert(self.workspaces@[i]@.output_location == old(self).workspaces@[i]@.output_location);
                }
                Ok(())
            },
        }
    }

    /// Whether the window `id` is fullscreen.
    pub fn is_fullscreen(&self, id: u64) -> (r: bool)
        ensures
            r == self.fullscreen_ids().contains(id),
    {
        self.fullscreen.get(id)
    }

    /// Makes the window `id` of the shown workspace fullscreen: the area it
    /// covers is saved, it is marked fullscreen, and where an output is bound
    /// its size becomes the output's. A window that is fullscreen already
    /// stays as it is, and keeps the area saved when it became so. The result
    /// is the size that the window is asked to take: `None` with no output
    /// bound, which leaves the size to the window.
    pub fn fullscreen(&mut self, id: u64) -> (r: Result<Option<Size>, ShellError>)
        requires
            old(self).wf(),
        ensures
            final(self).wf(),
            !holds_id(old(self).current_windows(), id) ==> r == Err::<Option<Size>, ShellError>(ShellError::NotMapped) && *final(self) == *old(self),
            holds_id(old(self).current_windows(), id) ==> r == Ok::<Option<Size>, ShellError>(match old(self).bound_output() {
                Some(o) => Some(logical_size(o)),
                None => None,
            }) && final(self).made_fullscreen(old(self), id),
            old(self).fullscreen_ids().contains(id) ==> *final(self) == *old(self),
    {
        let cur = self.current;
        let found = self.workspaces[cur].position(id);
        let pos = match found {
            None => {
                return Err(ShellError::NotMapped);
            },
            Some(pos) => pos,
        };
        let size = match self.output {
            None => None,
            Some(o) => Some(o.logical_size()),
        };
        if self.fullscreen.get(id) {
            return Ok(size);
        }
        let e = self.workspaces[cur].windows()[pos];
        proof {
            assert(old(self).workspaces@[cur as int].wf());
            lemma_index_of(old(self).current_windows(), pos as int, id);
        }
        self.saved.set(id, Rect { loc: e.location, size: e.window.geometry.size });
        self.fullscreen.set(id, true);
        match size {
            Some(full) => {
                self.workspaces[cur].update_window(id, Rect { loc: e.window.geometry.loc, size: full });
                proof {
                    lemma_regeometried_ids(old(self).workspaces@[cur as int]@.windows, id, Rect { loc: e.window.geometry.loc, size: full });
                }
            },
            None => {},
        }
        proof {
            assert forall|j: int, k: u64| 0 <= j < self.workspaces@.len() && #[trigger] holds_id(self.workspaces@[j]@.windows, k)
                implies holds_id(old(self).workspaces@[j]@.windows, k) by {
                if j != cur {
                    assert(self.workspaces@[j] == old(self).workspaces@[j]);
                }
            }
            Self::lemma_placed_once_subset(self, old(self));
            assert(self.saved@.dom() =~= self.fullscreen@);
        }
        assert forall|i: int| 0 <= i < self.workspaces@.len() implies #[trigger] self.workspaces@[i].wf() by {
            if i != cur {
                assert(self.workspaces@[i] == old(self).workspaces@[i]);
            }
        }
        assert forall|i: int| 0 <= i < self.workspaces@.len() implies (#[trigger] self.workspaces@[i]@.output_location is Some
            <==> (i == self.current && self.output is Some)) by {
            assert(self.workspaces@[i]@.output_location == old(self).workspaces@[i]@.output_location);
        }
        Ok(size)
    }

    /// Takes the window `id` of the shown workspace out of fullscreen: where
    /// an area was saved for it, it gets that area's size back and is placed
    /// at that area's location, in front of the others, and the saved area
    /// is forgotten. The window is no longer marked fullscreen. The result
    /// is the size that the window is asked to take, if any.
    pub fn unfullscreen(&mut self, id: u64) -> (r: Result<Option<Size>, ShellError>)
        requires
            old(self).wf(),
        ensures
            final(self).wf(),
            !holds_id(old(self).current_windows(), id) ==> r == Err::<Option<Size>, ShellError>(ShellError::NotMapped) && *final(self) == *old(self),
            holds_id(old(self).current_windows(), id) ==> r == Ok::<Option<Size>, ShellError>(
                if old(self).saved_geometry().contains_key(id) { Some(old(self).saved_geometry()[id].size) } else { None },
            ) && final(self).left_fullscreen(old(self), id),
    {
        let cur = self.current;
        let found = self.workspaces[cur].position(id);
        let pos = match found {
            None => {
                return Err(ShellError::NotMapped);
            },
            Some(pos) => pos,
        };
        let e = self.workspaces[cur].windows()[pos];
        proof {
            assert(old(self).workspaces@[cur as int].wf());
            lemma_index_of(old(self).current_windows(), pos as int, id);
        }
        let saved = self.saved.get(id);
        let requested = match saved {
            Some(g) => {
                let w = Window { id, geometry: Rect { loc: e.window.geometry.loc, size: g.size } };
                self.workspaces[cur].map_window(w, g.loc, false);
                proof {
                    lemma_mapped_ids(old(self).workspaces@[cur as int]@.windows, w, g.loc);
                }
                Some(g.size)
            },
            None => None,
        };
        self.saved.clear(id);
        self.fullscreen.set(id, false);
        proof {
            assert forall|j: int, k: u64| 0 <= j < self.workspaces@.len() && #[trigger] holds_id(self.workspaces@[j]@.windows, k)
                implies holds_id(old(self).workspaces@[j]@.windows, k) by {
                if j != cur {
                    assert(self.workspaces@[j] == old(self).workspaces@[j]);
                }
            }
            Self::lemma_placed_once_subset(self, old(self));
        }
        assert forall|i: int| 0 <= i < self.workspaces@.len() implies #[trigger] self.workspaces@[i].wf() by {
            if i != cur {
                assert(self.workspaces@[i] == old(self).workspaces@[i]);
            }
        }
        assert forall|i: int| 0 <= i < self.workspaces@.len() implies (#[trigger] self.workspaces@[i]@.output_location is Some
            <==> (i == self.current && self.output is Some)) by {
            assert(self.workspaces@[i]@.output_location == old(self).workspaces@[i]@.output_location);
        }
        Ok(requested)
    }

    /// Binds `output` and shows the shown workspace on it, at the origin.
    pub fn map_output(&mut self, output: Output)
        requires
            old(self).wf(),
            output.wf(),
        ensures
            final(self).wf(),
            final(self).bound_output() == Some(output),
            final(self).count() == old(self).count(),
            final(self).current_at() == old(self).current_at(),
            final(self).fullscreen_ids() == old(self).fullscreen_ids(),
            final(self).saved_geometry() == old(self).saved_geometry(),
            final(self).space(old(self).current_at()) == (WorkspaceView {
                output_location: Some(origin()),
                ..old(self).space(old(self).current_at())
            }),
            forall|i: int| 0 <= i < final(self).count() && i != final(self).current_at() ==> #[trigger] final(self).space(i) == old(self).space(i),
    {
        self.output = Some(output);
        let cur = self.current;
        self.workspaces[cur].map_output(Point { x: 0, y: 0 });
        assert forall|i: int| 0 <= i < self.workspaces@.len() implies #[trigger] self.workspaces@[i].wf() by {
            assert(self.workspaces@[i]@.windows == old(self).workspaces@[i]@.windows);
            assert(self.workspaces@[i]@.activated == old(self).workspaces@[i]@.activated);
            assert(old(self).workspaces@[i].wf());
        }
        proof {
            assert forall|j: int, k: u64| 0 <= j < self.workspaces@.len() && #[trigger] holds_id(self.workspaces@[j]@.windows, k)
                implies holds_id(old(self).workspaces@[j]@.windows, k) by {
                assert(self.workspaces@[j]@.windows == old(self).workspaces@[j]@.windows);
            }
            Self::lemma_placed_once_subset(self, old(self));
        }
        assert forall|i: int| 0 <= i < self.workspaces@.len() implies (#[trigger] self.workspaces@[i]@.output_location is Some
            <==> (i == self.current && self.output is Some)) by {
            if i != cur {
                assert(self.workspaces@[i] == old(self).workspaces@[i]);
            }
        }
    }

    /// Gives the bound output the mode size `mode`; nothing changes where no
    /// output is bound.
    pub fn change_output_mode(&mut self, mode: Size)
        requires
            old(self).wf(),
            mode.w >= 0,
            mode.h >= 0,
        ensures
            final(self).wf(),
            final(self).bound_output() == match old(self).bound_output() {
                Some(o) => Some(Output { mode, ..o }),
                None => None,
            },
            final(self).count() == old(self).count(),
            final(self).current_at() == old(self).current_at(),
            final(self).fullscreen_ids() == old(self).fullscreen_ids(),
            final(self).saved_geometry() == old(self).saved_geometry(),
            forall|i: int| 0 <= i < final(self).count() ==> #[trigger] final(self).space(i) == old(self).space(i),
    {
        match self.output {
            Some(o) => {
                self.output = Some(Output { mode, ..o });
            },
            None => {},
        }
    }

    /// The area of the shown workspace that the output shows; `None` while no
    /// output is bound.
    pub fn output_geometry(&self) -> (r: Option<Rect>)
        requires
            self.wf(),
        ensures
            r == match self.bound_output() {
                Some(o) => Some(Rect { loc: self.space(self.current_at()).output_location->0, size: logical_size(o) }),
                None => None,
            },
            r matches Some(g) ==> g.size.w >= 0 && g.size.h >= 0,
    {
        match self.output {
            Some(o) => {
                assert(self.workspaces@[self.current as int]@.output_location is Some);
                proof {
                    lemma_logical_size_nonneg(o);
                }
                self.workspaces[self.current].output_geometry(&o)
            },
            None => None,
        }
    }

    /// The orientation of the output, while one is bound.
    pub fn output_transform(&self) -> (r: Option<Transform>)
        ensures
            r == match self.bound_output() {
                Some(o) => Some(o.transform),
                None => None,
            },
    {
        match self.output {
            Some(o) => Some(o.transform),
            None => None,
        }
    }

    /// `self` is `old` after `window` was placed at `location` on the shown
    /// workspace, activated or not: it is in front of the others there and
    /// on no other workspace.
    pub open spec fn mapped_into_current(&self, old: &Workspaces, window: Window, location: Point, activate: bool) -> bool {
        let cur = old.current_at();
        &&& self.count() == old.count()
        &&& self.current_at() == cur
        &&& self.bound_output() == old.bound_output()
        &&& self.fullscreen_ids() == old.fullscreen_ids()
        &&& self.saved_geometry() == old.saved_geometry()
        &&& self.space(cur) == (WorkspaceView {
            windows: mapped(old.current_windows(), window, location),
            activated: if activate {
                Some(window.id)
            } else {
                view_without(old.space(cur), window.id).activated
            },
            ..old.space(cur)
        })
        &&& forall|i: int| 0 <= i < self.count() && i != cur ==> #[trigger] self.space(i) == view_without(old.space(i), window.id)
    }

    /// Places `window` at `location` on the shown workspace, in front of the
    /// others, taking it off any other workspace; with `activate` it becomes
    /// the activated window.
    pub fn map_window(&mut self, window: Window, location: Point, activate: bool)
        requires
            old(self).wf(),
        ensures
            final(self).wf(),
            final(self).mapped_into_current(old(self), window, location, activate),
    {
        let cur = self.current;
        let id = window.id;
        let n = self.workspaces.len();
        let mut i: usize = 0;
        while i < n
            invariant
                n == self.workspaces@.len(),
                n == old(self).workspaces@.len(),
                i <= n,
                self.current == cur,
                cur == old(self).current,
                self.output == old(self).output,
                self.fullscreen@ == old(self).fullscreen@,
                self.saved@ == old(self).saved@,
                self.wf(),
                forall|j: int| 0 <= j < i && j != cur ==> (#[trigger] self.workspaces@[j])@ == view_without(old(self).workspaces@[j]@, id),
                forall|j: int| 0 <= j < i && j != cur ==> !holds_id((#[trigger] self.workspaces@[j])@.windows, id),
                forall|j: int| (i <= j < n || j == cur) ==> #[trigger] self.workspaces@[j] == old(self).workspaces@[j],
            decreases n - i,
        {
            if i != cur {
                let ghost before = self.workspaces@;
                let ghost prev = *self;
                assert(self.workspaces@[i as int].wf());
                self.workspaces[i].unmap_window(id);
                proof {
                    lemma_without(before[i as int]@.windows, id);
                    assert forall|j: int, k: u64| 0 <= j < n && #[trigger] holds_id(self.workspaces@[j]@.windows, k)
                        implies holds_id(prev.workspaces@[j]@.windows, k) by {
                        if j != i {
                            assert(self.workspaces@[j] == before[j]);
                        }
                    }
                    Self::lemma_placed_once_subset(self, &prev);
                    assert forall|j: int| 0 <= j < n implies #[trigger] self.workspaces@[j].wf() by {
                        if j != i {
                            assert(self.workspaces@[j] == before[j]);
                            assert(before[j].wf());
                        }
                    }
                    assert forall|j: int| 0 <= j < n implies (#[trigger] self.workspaces@[j]@.output_location is Some
                        <==> (j == self.current && self.output is Some)) by {
                        assert(self.workspaces@[j]@.output_location == before[j]@.output_location);
                    }
                    assert forall|j: int| 0 <= j < i + 1 && j != cur implies !holds_id((#[trigger] self.workspaces@[j])@.windows, id) by {
                        if j != i {
                            assert(self.workspaces@[j] == before[j]);
                        }
                    }
                }
            }
            i = i + 1;
        }
        let ghost before = self.workspaces@;
        assert(self.workspaces@[cur as int].wf());
        self.workspaces[cur].map_window(window, location, activate);
        proof {
            lemma_mapped_ids(before[cur as int]@.windows, window, location);
            let m = self.workspaces@.len();
            assert forall|a: int, b: int, k: u64|
                0 <= a < m && 0 <= b < m && a != b && holds_id(self.workspaces@[a]@.windows, k)
                    implies !holds_id(self.workspaces@[b]@.windows, k) by {
                if holds_id(self.workspaces@[b]@.windows, k) {
                    if a != cur && b != cur {
                        assert(self.workspaces@[a] == before[a]);
                        assert(self.workspaces@[b] == before[b]);
                        assert(holds_id(before[a]@.windows, k));
                    } else {
                        let other = if a == cur { b } else { a };
                        assert(self.workspaces@[other] == before[other]);
                        assert(holds_id(before[other]@.windows, k));
                        assert(k != id);
                        assert(holds_id(before[cur as int]@.windows, k));
                    }
                }
            }
            assert forall|j: int| 0 <= j < m implies #[trigger] self.workspaces@[j].wf() by {
                if j != cur {
                    assert(self.workspaces@[j] == before[j]);
                }
            }
            assert forall|j: int| 0 <= j < m implies (#[trigger] self.workspaces@[j]@.output_location is Some
                <==> (j == self.current && self.output is Some)) by {
                assert(self.workspaces@[j]@.output_location == old(self).workspaces@[j]@.output_location) by {
                    if j != cur {
                        assert(self.workspaces@[j] == before[j]);
                    }
                }
            }
            assert forall|j: int| 0 <= j < m && j != cur implies #[trigger] self.space(j) == view_without(old(self).space(j), id) by {
                assert(self.workspaces@[j] == before[j]);
            }
        }
    }

    /// `self` is `old` after the window `id` was removed from the shown
    /// workspace and its fullscreen state forgotten.
    pub open spec fn unmapped_from_current(&self, old: &Workspaces, id: u64) -> bool {
        &&& self.count() == old.count()
        &&& self.current_at() == old.current_at()
        &&& self.bound_output() == old.bound_output()
        &&& self.fullscreen_ids() == old.fullscreen_ids().remove(id)
        &&& self.saved_geometry() == old.saved_geometry().remove(id)
        &&& self.space(self.current_at()) == view_without(old.space(old.current_at()), id)
        &&& forall|i: int| 0 <= i < self.count() && i != self.current_at() ==> #[trigger] self.space(i) == old.space(i)
    }

    /// Removes the window `id` from the shown workspace and forgets its
    /// fullscreen state, as when the window is closed.
    pub fn unmap_window(&mut self, id: u64)
        requires
            old(self).wf(),
        ensures
            final(self).wf(),
            final(self).unmapped_from_current(old(self), id),
    {
        let cur = self.current;
        self.workspaces[cur].unmap_window(id);
        self.fullscreen.set(id, false);
        self.saved.clear(id);
        proof {
            assert(old(self).workspaces@[cur as int].wf());
            lemma_without(old(self).workspaces@[cur as int]@.windows, id);
            assert forall|j: int, k: u64| 0 <= j < self.workspaces@.len() && #[trigger] holds_id(self.workspaces@[j]@.windows, k)
                implies holds_id(old(self).workspaces@[j]@.windows, k) by {
                if j != cur {
                    assert(self.workspaces@[j] == old(self).workspaces@[j]);
                }
            }
            Self::lemma_placed_once_subset(self, old(self));
        }
        assert forall|i: int| 0 <= i < self.workspaces@.len() implies #[trigger] self.workspaces@[i].wf() by {
            if i != cur {
                assert(self.workspaces@[i] == old(self).workspaces@[i]);
            }
        }
        assert forall|i: int| 0 <= i < self.workspaces@.len() implies (#[trigger] self.workspaces@[i]@.output_location is Some
            <==> (i == self.current && self.output is Some)) by {
            assert(self.workspaces@[i]@.output_location == old(self).workspaces@[i]@.output_location);
        }
    }

    /// No window of the shown workspace is activated any more.
    pub fn deactivate(&mut self)
        requires
            old(self).wf(),
        ensures
            final(self).wf(),
            final(self).unchanged_but_current(old(self)),
            final(self).space(final(self).current_at()) == (WorkspaceView {
                activated: None,
                ..old(self).space(old(self).current_at())
            }),
    {
        let cur = self.current;
        assert(self.workspaces@[cur as int].wf());
        self.workspaces[cur].deactivate();
        assert(self.workspaces@[cur as int]@.windows == old(self).workspaces@[cur as int]@.windows);
        proof {
            Self::lemma_current_changed(self, old(self));
        }
    }

    /// Moves the window `id` of the shown workspace in front of the others;
    /// with `activate` it also becomes the activated window.
    pub fn raise_window(&mut self, id: u64, activate: bool)
        requires
            old(self).wf(),
        ensures
            final(self).wf(),
            final(self).unchanged_but_current(old(self)),
            final(self).space(final(self).current_at()) == (WorkspaceView {
                windows: raised(old(self).current_windows(), id),
                activated: if activate && holds_id(old(self).current_windows(), id) {
                    Some(id)
                } else {
                    old(self).space(old(self).current_at()).activated
                },
                ..old(self).space(old(self).current_at())
            }),
    {
        let cur = self.current;
        self.workspaces[cur].raise_window(id, activate);
        proof {
            Self::lemma_current_changed(self, old(self));
        }
    }

    /// Gives the window `id` of the shown workspace the geometry that its
    /// client committed; it keeps its place.
    pub fn update_window(&mut self, id: u64, geometry: Rect)
        requires
            old(self).wf(),
        ensures
            final(self).wf(),
            final(self).unchanged_but_current(old(self)),
            final(self).space(final(self).current_at()) == (WorkspaceView {
                windows: regeometried(old(self).current_windows(), id, geometry),
                ..old(self).space(old(self).current_at())
            }),
    {
        let cur = self.current;
        self.workspaces[cur].update_window(id, geometry);
        proof {
            Self::lemma_current_changed(self, old(self));
        }
    }

    /// Keeps, on every workspace, only the windows whose identity is in
    /// `alive`.
    pub fn refresh(&mut self, alive: &[u64])
        requires
            old(self).wf(),
        ensures
            final(self).wf(),
            final(self).count() == old(self).count(),
            final(self).current_at() == old(self).current_at(),
            final(self).bound_output() == old(self).bound_output(),
            final(self).fullscreen_ids() == old(self).fullscreen_ids(),
            final(self).saved_geometry() == old(self).saved_geometry(),
            forall|i: int| 0 <= i < final(self).count() ==> (#[trigger] final(self).space(i)).windows == kept_alive(old(self).space(i).windows, alive@)
                && final(self).space(i).output_location == old(self).space(i).output_location,
    {
        let n = self.workspaces.len();
        let mut i: usize = 0;
        while i < n
            invariant
                n == self.workspaces@.len(),
                n == old(self).workspaces@.len(),
                i <= n,
                self.current == old(self).current,
                self.output == old(self).output,
                self.fullscreen@ == old(self).fullscreen@,
                self.saved@ == old(self).saved@,
                self.wf(),
                forall|j: int| 0 <= j < i ==> (#[trigger] self.workspaces@[j])@.windows == kept_alive(old(self).workspaces@[j]@.windows, alive@)
                    && self.workspaces@[j]@.output_location == old(self).workspaces@[j]@.output_location,
                forall|j: int| i <= j < n ==> #[trigger] self.workspaces@[j] == old(self).workspaces@[j],
            decreases n - i,
        {
            let ghost before = self.workspaces@;
            let ghost prev = *self;
            assert(self.workspaces@[i as int].wf());
            self.workspaces[i].refresh(alive);
            proof {
                lemma_kept_alive_ids(before[i as int]@.windows, alive@);
                assert forall|j: int, k: u64| 0 <= j < n && #[trigger] holds_id(self.workspaces@[j]@.windows, k)
                    implies holds_id(prev.workspaces@[j]@.windows, k) by {
                    if j != i {
                        assert(self.workspaces@[j] == before[j]);
                    }
                }
                Self::lemma_placed_once_subset(self, &prev);
            }
            assert forall|j: int| 0 <= j < n implies #[trigger] self.workspaces@[j].wf() by {
                if j != i {
                    assert(self.workspaces@[j] == before[j]);
                    assert(before[j].wf());
                }
            }
            assert forall|j: int| 0 <= j < n implies (#[trigger] self.workspaces@[j]@.output_location is Some
                <==> (j == self.current && self.output is Some)) by {
                assert(self.workspaces@[j]@.output_location == before[j]@.output_location);
            }
            i = i + 1;
        }
    }

    /// The elements of the next frame: the windows of the shown workspace
    /// that the output shows, front window first, each as its popups and then
    /// its content with an outline in the color that `focus` selects. No
    /// elements while no output is bound.
    pub fn render_elements(&self, focus: Option<u64>, outline: &Outline) -> (r: Vec<RenderElement>)
        requires
            self.wf(),
        ensures
            r@ == match self.bound_output() {
                Some(o) => frame_plan(
                    self.current_windows(),
                    o,
                    Rect { loc: self.space(self.current_at()).output_location->0, size: logical_size(o) },
                    focus,
                    *outline,
                ),
                None => Seq::empty(),
            },
    {
        match self.output {
            Some(o) => {
                let shown = self.output_geometry();
                match shown {
                    Some(g) => compose_frame(self.workspaces[self.current].windows(), &o, g, focus, outline),
                    None => Vec::new(),
                }
            },
            None => Vec::new(),
        }
    }

    /// The windows that are told a frame was shown: those of the shown
    /// workspace, back to front, while an output is bound; none otherwise.
    pub fn frame_targets(&self) -> (r: Vec<u64>)
        requires
            self.wf(),
        ensures
            self.bound_output() is None ==> r@.len() == 0,
            self.bound_output() is Some ==> r@.len() == self.current_windows().len() && forall|i: int| 0 <= i < r@.len() ==> #[trigger] r@[i] == self.current_windows()[i].window.id,
    {
        let mut r: Vec<u64> = Vec::new();
        if self.output.is_none() {
            return r;
        }
        let windows = self.workspaces[self.current].windows();
        let mut i: usize = 0;
        while i < windows.len()
            invariant
                i <= windows@.len(),
                r@.len() == i,
                forall|j: int| 0 <= j < i ==> #[trigger] r@[j] == windows@[j].window.id,
            decreases windows@.len() - i,
        {
            r.push(windows[i].window.id);
            i = i + 1;
        }
        r
    }

    /// Restores the invariant after the shown workspace alone changed in a
    /// way that keeps its windows unique and its output binding.
    proof fn lemma_current_changed(ws: &Workspaces, previous: &Workspaces)
        requires
            previous.wf(),
            ws.workspaces@.len() == previous.workspaces@.len(),
            ws.current == previous.current,
            ws.output == previous.output,
            ws.fullscreen@ == previous.fullscreen@,
            ws.saved@ == previous.saved@,
            ws.workspaces@[ws.current as int].wf(),
            ws.workspaces@[ws.current as int]@.output_location == previous.workspaces@[ws.current as int]@.output_location,
            forall|i: int| 0 <= i < ws.workspaces@.len() && i != ws.current ==> #[trigger] ws.workspaces@[i] == previous.workspaces@[i],
            forall|k: u64| #[trigger] holds_id(ws.workspaces@[ws.current as int]@.windows, k)
                ==> holds_id(previous.workspaces@[ws.current as int]@.windows, k),
        ensures
            ws.wf(),
            ws.unchanged_but_current(previous),
    {
        Self::lemma_placed_once_subset(ws, previous);
        assert forall|i: int| 0 <= i < ws.workspaces@.len() implies #[trigger] ws.workspaces@[i].wf() by {
            if i != ws.current {
                assert(previous.workspaces@[i].wf());
            }
        }
        assert forall|i: int| 0 <= i < ws.workspaces@.len() implies (#[trigger] ws.workspaces@[i]@.output_location is Some
            <==> (i == ws.current && ws.output is Some)) by {
            if i != ws.current {
                assert(ws.workspaces@[i] == previous.workspaces@[i]);
            }
            assert(previous.workspaces@[i]@.output_location is Some <==> (i == previous.current && previous.output is Some));
        }
    }
}

} // verus!
