//! The named operations that key bindings and pointer events trigger, and
//! the focus that they keep up to date.

use vstd::prelude::*;
use crate::config::Action;
use crate::geometry::{Point, Size};
use crate::workspace::{Placed, Window, hit, holds_id};
use crate::workspaces::{Workspaces, origin};

verus! {

/// What the surrounding compositor has to carry out after an operation.
#[derive(Clone, Debug, PartialEq, Eq)]
pub enum Effect {
    /// Nothing.
    Nothing,
    /// Leave the event loop.
    Exit,
    /// Ask the window to close.
    SendClose(u64),
    /// Run the command in a shell, without waiting for it.
    Spawn(String),
    /// Ask the window to take the size, or to pick one itself for `None`.
    Configure { window: u64, size: Option<Size> },
}

/// The window at the back of `s`, which takes the focus when it is handed on.
pub open spec fn first_window(s: Seq<Placed>) -> Option<u64> {
    if s.len() > 0 {
        Some(s[0].window.id)
    } else {
        None
    }
}

/// Whether `n` names a workspace of `count`, counting from one.
pub open spec fn names_workspace(n: int, count: int) -> bool {
    1 <= n <= count
}

/// The workspaces and the window that has the focus.
pub struct Shell {
    workspaces: Workspaces,
    focus: Option<u64>,
}

impl Shell {
    /// The workspaces.
    pub closed spec fn spaces(&self) -> Workspaces {
        self.workspaces
    }

    /// The window that has the focus, if any.
    pub closed spec fn focused(&self) -> Option<u64> {
        self.focus
    }

    /// The workspaces are well formed.
    pub open spec fn wf(&self) -> bool {
        self.spaces().wf()
    }

    /// `self` is `old` after the workspace numbered `n` (from one) was asked
    /// to be shown.
    pub open spec fn switched_to(&self, old: &Shell, n: int) -> bool {
        if names_workspace(n, old.spaces().count() as int) {
            &&& self.spaces().switched(&old.spaces(), n - 1)
            &&& self.focused() == first_window(self.spaces().current_windows())
        } else {
            *self == *old
        }
    }

    /// `self` is `old` after the focused window was asked to move to the
    /// workspace numbered `n` (from one).
    pub open spec fn moved_focus_to(&self, old: &Shell, n: int) -> bool {
        match old.focused() {
            Some(w) => if names_workspace(n, old.spaces().count() as int) && holds_id(old.spaces().current_windows(), w) {
                &&& self.spaces().moved(&old.spaces(), w, n - 1)
                &&& self.focused() is None
            } else {
                *self == *old
            },
            None => *self == *old,
        }
    }

    /// `self` is `old` after fullscreen was toggled on the focused window,
    /// with `r` the window and the size it is asked to take.
    pub open spec fn toggled(&self, old: &Shell, r: Option<(u64, Option<Size>)>) -> bool {
        &&& self.focused() == old.focused()
        &&& match old.focused() {
            Some(w) => if !holds_id(old.spaces().current_windows(), w) {
                r is None && *self == *old
            } else if old.spaces().fullscreen_ids().contains(w) {
                &&& self.spaces().left_fullscreen(&old.spaces(), w)
                &&& r == Some((w, if old.spaces().saved_geometry().contains_key(w) {
                    Some(old.spaces().saved_geometry()[w].size)
                } else {
                    None
                }))
            } else {
                &&& self.spaces().made_fullscreen(&old.spaces(), w)
                &&& r == Some((w, match old.spaces().bound_output() {
                    Some(o) => Some(crate::output::logical_size(o)),
                    None => None,
                }))
            },
            None => r is None && *self == *old,
        }
    }

    /// `count` empty workspaces, the first one shown, and no focus.
    pub fn new(count: usize) -> (r: Shell)
        requires
            count >= 1,
        ensures
            r.wf(),
            r.focused() is None,
            r.spaces().count() == count,
            r.spaces().current_at() == 0,
            r.spaces().bound_output() is None,
            forall|i: int| 0 <= i < count ==> (#[trigger] r.spaces().space(i)).windows.len() == 0,
    {
        Shell { workspaces: Workspaces::new(count), focus: None }
    }

    /// The workspaces.
    pub fn workspaces(&self) -> (r: &Workspaces)
        ensures
            *r == self.spaces(),
    {
        &self.workspaces
    }

    /// The workspaces, to change them.
    pub fn workspaces_mut(&mut self) -> (r: &mut Workspaces)
        ensures
            *r == old(self).spaces(),
            final(self).spaces() == *final(r),
            final(self).focused() == old(self).focused(),
    {
        &mut self.workspaces
    }

    /// The window that has the focus, if any.
    pub fn get_focus(&self) -> (r: Option<u64>)
        ensures
            r == self.focused(),
    {
        self.focus
    }

    /// Gives the focus to `window`, or to none.
    pub fn set_focus(&mut self, window: Option<u64>)
        ensures
            final(self).focused() == window,
            final(self).spaces() == old(self).spaces(),
    {
        self.focus = window;
    }

    /// The window that has to be asked to close: the focused one, if any.
    /// The focus passes to the window at the back of the shown workspace.
    pub fn close(&mut self) -> (r: Option<u64>)
        requires
            old(self).wf(),
        ensures
            r == old(self).focused(),
            final(self).spaces() == old(self).spaces(),
            final(self).focused() == first_window(old(self).spaces().current_windows()),
    {
        let window = self.focus;
        self.focus = self.first_window();
        window
    }

    /// The window at the back of the shown workspace.
    fn first_window(&self) -> (r: Option<u64>)
        requires
            self.wf(),
        ensures
            r == first_window(self.spaces().current_windows()),
    {
        let windows = self.workspaces.current().windows();
        if windows.len() > 0 {
            Some(windows[0].window.id)
        } else {
            None
        }
    }

    /// Shows the workspace numbered `n`, counting from one, and hands the
    /// focus to the window at its back. Nothing happens for a number that
    /// names no workspace.
    pub fn switch_to(&mut self, n: usize)
        requires
            old(self).wf(),
        ensures
            final(self).wf(),
            final(self).switched_to(old(self), n as int),
    {
        if n == 0 || n > self.workspaces.workspace_count() {
            return;
        }
        let _ = self.workspaces.switch_to(n - 1);
        self.focus = self.first_window();
    }

    /// Moves the focused window to the workspace numbered `n`, counting from
    /// one; nothing then has the focus. Nothing happens without a focused
    /// window on the shown workspace or for a number that names no
    /// workspace.
    pub fn move_to(&mut self, n: usize)
        requires
            old(self).wf(),
        ensures
            final(self).wf(),
            final(self).moved_focus_to(old(self), n as int),
    {
        let window = match self.focus {
            Some(w) => w,
            None => {
                return;
            },
        };
        if n == 0 || n > self.workspaces.workspace_count() {
            return;
        }
        match self.workspaces.move_to(window, n - 1) {
            Ok(()) => {
                self.focus = None;
            },
            Err(_) => {},
        }
    }

    /// Toggles fullscreen on the focused window. The result is that window
    /// and the size it is asked to take; `None` where nothing changed.
    pub fn toggle_fullscreen(&mut self) -> (r: Option<(u64, Option<Size>)>)
        requires
            old(self).wf(),
        ensures
            final(self).wf(),
            final(self).toggled(old(self), r),
    {
        let window = match self.focus {
            Some(w) => w,
            None => {
                return None;
            },
        };
        if self.workspaces.is_fullscreen(window) {
            match self.workspaces.unfullscreen(window) {
                Ok(size) => Some((window, size)),
                Err(_) => None,
            }
        } else {
            match self.workspaces.fullscreen(window) {
                Ok(size) => Some((window, size)),
                Err(_) => None,
            }
        }
    }

    /// Carries out the action of a key binding, and says what the
    /// surrounding compositor has to do.
    pub fn process_action(&mut self, action: &Action) -> (r: Effect)
        requires
            old(self).wf(),
        ensures
            final(self).wf(),
            *action == Action::Exit ==> r == Effect::Exit && *final(self) == *old(self),
            action matches Action::Spawn(cmd) ==> r == Effect::Spawn(*cmd) && *final(self) == *old(self),
            *action == Action::Close ==> final(self).spaces() == old(self).spaces()
                && final(self).focused() == first_window(old(self).spaces().current_windows())
                && r == match old(self).focused() {
                    Some(w) => Effect::SendClose(w),
                    None => Effect::Nothing,
                },
            action matches Action::SwitchToWorkspace(n) ==> r == Effect::Nothing && final(self).switched_to(old(self), n as int),
            action matches Action::MoveToWorkspace(n) ==> r == Effect::Nothing && final(self).moved_focus_to(old(self), n as int),
            *action == Action::ToggleFullscreen ==> exists|t: Option<(u64, Option<Size>)>| final(self).toggled(old(self), t)
                && r == match t {
                    Some((w, size)) => Effect::Configure { window: w, size },
                    None => Effect::Nothing,
                },
    {
        match action {
            Action::Exit => Effect::Exit,
            Action::Close => match self.close() {
                Some(w) => Effect::SendClose(w),
                None => Effect::Nothing,
            },
            Action::Spawn(cmd) => Effect::Spawn(cmd.clone()),
            Action::SwitchToWorkspace(n) => {
                self.switch_to(*n);
                Effect::Nothing
            },
            Action::MoveToWorkspace(n) => {
                self.move_to(*n);
                Effect::Nothing
            },
            Action::ToggleFullscreen => match self.toggle_fullscreen() {
                Some((w, size)) => Effect::Configure { window: w, size },
                None => Effect::Nothing,
            },
        }
    }

    /// A new top-level window appears: it is placed at the origin of the
    /// shown workspace, in front, activated, and it takes the focus.
    pub fn new_window(&mut self, window: Window)
        requires
            old(self).wf(),
        ensures
            final(self).wf(),
            final(self).focused() == Some(window.id),
            final(self).spaces().mapped_into_current(&old(self).spaces(), window, origin(), true),
    {
        self.workspaces.map_window(window, Point { x: 0, y: 0 }, true);
        self.focus = Some(window.id);
    }

    /// A window is gone: it leaves the shown workspace and its fullscreen
    /// state is forgotten; it loses the focus if it had it.
    pub fn window_destroyed(&mut self, id: u64)
        requires
            old(self).wf(),
        ensures
            final(self).wf(),
            final(self).focused() == if old(self).focused() == Some(id) {
                None
            } else {
                old(self).focused()
            },
            final(self).spaces().unmapped_from_current(&old(self).spaces(), id),
            !holds_id(final(self).spaces().current_windows(), id),
    {
        self.workspaces.unmap_window(id);
        proof {
            crate::workspaces::lemma_spaces_unique(&old(self).spaces());
            crate::workspace::lemma_without(old(self).spaces().current_windows(), id);
        }
        if self.focus == Some(id) {
            self.focus = None;
        }
    }

    /// The pointer moved to `p`: the window under it, if any, takes the
    /// focus.
    pub fn pointer_motion(&mut self, p: Point)
        requires
            old(self).wf(),
        ensures
            final(self).spaces() == old(self).spaces(),
            final(self).focused() == match hit(old(self).spaces().current_windows(), p) {
                Some((w, _)) => Some(w.id),
                None => old(self).focused(),
            },
    {
        match self.workspaces.current().window_under(p) {
            Some((w, _)) => {
                self.focus = Some(w.id);
            },
            None => {},
        }
    }

    /// A button was pressed with the pointer at `p`: the window under it is
    /// raised, activated and takes the focus; over empty space no window is
    /// activated and none has the focus. The result is the window pressed on.
    pub fn pointer_button(&mut self, p: Point) -> (r: Option<u64>)
        requires
            old(self).wf(),
        ensures
            final(self).wf(),
            final(self).spaces().unchanged_but_current(&old(self).spaces()),
            r == match hit(old(self).spaces().current_windows(), p) {
                Some((w, _)) => Some(w.id),
                None => None,
            },
            final(self).focused() == r,
            r matches Some(id) ==> final(self).spaces().current_windows() == crate::workspace::raised(old(self).spaces().current_windows(), id)
                && final(self).spaces().space(final(self).spaces().current_at()).activated == Some(id),
            r is None ==> final(self).spaces().current_windows() == old(self).spaces().current_windows()
                && final(self).spaces().space(final(self).spaces().current_at()).activated is None,
    {
        match self.workspaces.current().window_under(p) {
            Some((w, _)) => {
                proof {
                    crate::workspace::hit_is_frontmost_cover(old(self).spaces().current_windows(), p);
                    let s = old(self).spaces().current_windows();
                    let i = crate::workspace::topmost_at(s, p)->0;
                    assert(s[i].window.id == w.id);
                }
                self.workspaces.raise_window(w.id, true);
                self.focus = Some(w.id);
                Some(w.id)
            },
            None => {
                self.workspaces.deactivate();
                self.focus = None;
                None
            },
        }
    }
}

} // verus!
