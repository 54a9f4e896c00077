//! What the compositor is configured with: key bindings, the number of
//! workspaces and the look of the window outline.

use vstd::prelude::*;
use std::ops::AddAssign;

verus! {

/// A color as red, green and blue intensities, each in thousandths of the
/// full intensity (0 to 1000).
#[derive(Clone, Copy, Debug, PartialEq, Eq, Structural)]
pub struct Color {
    pub r: u16,
    pub g: u16,
    pub b: u16,
}

/// One modifier key as it is named in a binding.
#[derive(Clone, Copy, Debug, PartialEq, Eq, Hash, Structural)]
pub enum KeyModifier {
    Ctrl,
    Alt,
    Shift,
    Super,
}

/// The set of modifier keys held down, one flag each.
#[derive(Clone, Copy, Debug, PartialEq, Eq, Hash, Default, Structural)]
pub struct KeyModifiers {
    pub ctrl: bool,
    pub alt: bool,
    pub shift: bool,
    pub logo: bool,
}

/// The modifier keys of a binding as they are listed in the configuration.
#[derive(Clone, Debug)]
pub struct KeyModifiersDef(pub Vec<KeyModifier>);

/// The flags that a list of modifier keys sets: each flag is on exactly when
/// its key occurs in the list.
pub open spec fn modifiers_of(keys: Seq<KeyModifier>) -> KeyModifiers {
    KeyModifiers {
        ctrl: keys.contains(KeyModifier::Ctrl),
        alt: keys.contains(KeyModifier::Alt),
        shift: keys.contains(KeyModifier::Shift),
        logo: keys.contains(KeyModifier::Super),
    }
}

/// The flags after `key` is added to `m`.
pub open spec fn with_modifier(m: KeyModifiers, key: KeyModifier) -> KeyModifiers {
    match key {
        KeyModifier::Ctrl => KeyModifiers { ctrl: true, ..m },
        KeyModifier::Alt => KeyModifiers { alt: true, ..m },
        KeyModifier::Shift => KeyModifiers { shift: true, ..m },
        KeyModifier::Super => KeyModifiers { logo: true, ..m },
    }
}

impl KeyModifiers {
    /// No modifier held.
    pub fn none() -> (r: KeyModifiers)
        ensures
            r == modifiers_of(Seq::empty()),
    {
        KeyModifiers { ctrl: false, alt: false, shift: false, logo: false }
    }
}

impl KeyModifiersDef {
    /// The flags of the listed keys.
    pub fn to_modifiers(&self) -> (r: KeyModifiers)
        ensures
            r == modifiers_of(self.0@),
    {
        let keys = &self.0;
        let mut m = KeyModifiers::none();
        let mut i: usize = 0;
        while i < keys.len()
            invariant
                i <= keys@.len(),
                m == modifiers_of(keys@.subrange(0, i as int)),
            decreases keys@.len() - i,
        {
            let key = keys[i];
            m.add_assign(key);
            assert(keys@.subrange(0, i + 1) =~= keys@.subrange(0, i as int).push(key));
            proof {
                let prefix = keys@.subrange(0, i as int);
                let next = prefix.push(key);
                assert(next.contains(key)) by {
                    assert(next[prefix.len() as int] == key);
                }
                assert forall|k: KeyModifier| k != key implies (next.contains(k) <==> prefix.contains(k)) by {
                    if next.contains(k) {
                        let j = choose|j: int| 0 <= j < next.len() && next[j] == k;
                        assert(j < prefix.len());
                        assert(prefix[j] == k);
                    }
                    if prefix.contains(k) {
                        let j = choose|j: int| 0 <= j < prefix.len() && prefix[j] == k;
                        assert(next[j] == k);
                    }
                }
            }
            i = i + 1;
        }
        assert(keys@.subrange(0, keys@.len() as int) =~= keys@);
        m
    }
}

impl AddAssign<KeyModifier> for KeyModifiers {
    /// Marks `key` as held; the other flags stay.
    fn add_assign(&mut self, key: KeyModifier)
        ensures
            *final(self) == with_modifier(*old(self), key),
    {
        match key {
            KeyModifier::Ctrl => self.ctrl = true,
            KeyModifier::Alt => self.alt = true,
            KeyModifier::Shift => self.shift = true,
            KeyModifier::Super => self.logo = true,
        }
    }
}

impl From<KeyModifiersDef> for KeyModifiers {
    fn from(def: KeyModifiersDef) -> (r: KeyModifiers) {
        def.to_modifiers()
    }
}

impl vstd::std_specs::convert::FromSpecImpl<KeyModifiersDef> for KeyModifiers {
    open spec fn obeys_from_spec() -> bool {
        true
    }

    open spec fn from_spec(def: KeyModifiersDef) -> KeyModifiers {
        modifiers_of(def.0@)
    }
}

/// What a key binding asks the compositor to do.
#[derive(Clone, Debug, PartialEq, Eq)]
pub enum Action {
    Exit,
    Close,
    Spawn(String),
    SwitchToWorkspace(usize),
    MoveToWorkspace(usize),
    ToggleFullscreen,
}

impl Action {
    /// A copy of this action.
    pub fn duplicate(&self) -> (r: Action)
        ensures
            r == *self,
    {
        match self {
            Action::Exit => Action::Exit,
            Action::Close => Action::Close,
            Action::Spawn(cmd) => Action::Spawn(cmd.clone()),
            Action::SwitchToWorkspace(n) => Action::SwitchToWorkspace(*n),
            Action::MoveToWorkspace(n) => Action::MoveToWorkspace(*n),
            Action::ToggleFullscreen => Action::ToggleFullscreen,
        }
    }
}

/// A key combination: the modifiers that must be held, exactly, and the key
/// symbol that must be among those pressed.
#[derive(Clone, Copy, Debug, PartialEq, Eq, Hash, Structural)]
pub struct Pattern {
    pub modifiers: KeyModifiers,
    pub key: u32,
}

/// Whether the pattern fires for the pressed symbols under the held modifiers.
pub open spec fn pattern_fires(p: Pattern, syms: Seq<u32>, modifiers: KeyModifiers) -> bool {
    p.modifiers == modifiers && syms.contains(p.key)
}

/// The action of the first binding, in order, whose pattern fires.
pub open spec fn bound_action(
    entries: Seq<(Pattern, Action)>,
    syms: Seq<u32>,
    modifiers: KeyModifiers,
) -> Option<Action>
    decreases entries.len(),
{
    if entries.len() == 0 {
        None
    } else if pattern_fires(entries[0].0, syms, modifiers) {
        Some(entries[0].1)
    } else {
        bound_action(entries.drop_first(), syms, modifiers)
    }
}

/// Whether no two entries share a pattern.
pub open spec fn patterns_unique(entries: Seq<(Pattern, Action)>) -> bool {
    forall|i: int, j: int|
        0 <= i < entries.len() && 0 <= j < entries.len() && i != j ==> #[trigger] entries[i].0
            != #[trigger] entries[j].0
}

/// The key bindings: each pattern is bound to one action, and bindings keep
/// the order in which they were added.
#[derive(Clone, Debug)]
pub struct Bindings {
    entries: Vec<(Pattern, Action)>,
}

impl View for Bindings {
    type V = Seq<(Pattern, Action)>;

    closed spec fn view(&self) -> Seq<(Pattern, Action)> {
        self.entries@
    }
}

impl Bindings {
    /// Each pattern occurs at most once.
    pub closed spec fn wf(&self) -> bool {
        patterns_unique(self.entries@)
    }

    /// No bindings.
    pub fn new() -> (r: Bindings)
        ensures
            r.wf(),
            r@ == Seq::<(Pattern, Action)>::empty(),
    {
        Bindings { entries: Vec::new() }
    }

    /// Binds `pattern` to `action`. A pattern that is bound already keeps its
    /// place and takes the new action; a new one goes last.
    pub fn insert(&mut self, pattern: Pattern, action: Action)
        requires
            old(self).wf(),
        ensures
            final(self).wf(),
            (exists|i: int| 0 <= i < old(self)@.len() && old(self)@[i].0 == pattern) ==> (exists|
                i: int,
            |
                0 <= i < old(self)@.len() && old(self)@[i].0 == pattern && final(self)@ == old(
                    self,
                )@.update(i, (pattern, action))),
            !(exists|i: int| 0 <= i < old(self)@.len() && old(self)@[i].0 == pattern)
                ==> final(self)@ == old(self)@.push((pattern, action)),
    {
        let mut i: usize = 0;
        while i < self.entries.len()
            invariant
                i <= self.entries@.len(),
                self.entries@ == old(self).entries@,
                patterns_unique(old(self).entries@),
                forall|j: int| 0 <= j < i ==> self.entries@[j].0 != pattern,
            decreases self.entries@.len() - i,
        {
            if self.entries[i].0 == pattern {
                self.entries.set(i, (pattern, action));
                assert(patterns_unique(self.entries@)) by {
                    assert forall|a: int, b: int|
                        0 <= a < self.entries@.len() && 0 <= b < self.entries@.len() && a != b
                            implies #[trigger] self.entries@[a].0 != #[trigger] self.entries@[b].0 by {
                        assert(old(self).entries@[a].0 != old(self).entries@[b].0);
                    }
                }
                return;
            }
            i = i + 1;
        }
        self.entries.push((pattern, action));
        assert(patterns_unique(self.entries@)) by {
            assert forall|a: int, b: int|
                0 <= a < self.entries@.len() && 0 <= b < self.entries@.len() && a != b
                    implies #[trigger] self.entries@[a].0 != #[trigger] self.entries@[b].0 by {
                if a < old(self).entries@.len() && b < old(self).entries@.len() {
                    assert(old(self).entries@[a].0 != old(self).entries@[b].0);
                }
            }
        }
    }

    /// The action bound to the first pattern that fires for the pressed key
    /// symbols `raw_syms` under `modifiers`, if any fires.
    pub fn action(&self, raw_syms: &[u32], modifiers: KeyModifiers) -> (r: Option<Action>)
        ensures
            r == bound_action(self@, raw_syms@, modifiers),
    {
        let entries = &self.entries;
        let mut i: usize = 0;
        assert(entries@.subrange(0, entries@.len() as int) =~= entries@);
        while i < entries.len()
            invariant
                i <= entries@.len(),
                entries@ == self@,
                bound_action(entries@, raw_syms@, modifiers) == bound_action(
                    entries@.subrange(i as int, entries@.len() as int),
                    raw_syms@,
                    modifiers,
                ),
            decreases entries@.len() - i,
        {
            let rest = Ghost(entries@.subrange(i as int, entries@.len() as int));
            assert(rest@.drop_first() =~= entries@.subrange(i + 1, entries@.len() as int));
            assert(rest@[0] == entries@[i as int]);
            let pattern = entries[i].0;
            if pattern.modifiers == modifiers && slice_contains(raw_syms, pattern.key) {
                assert(pattern_fires(rest@[0].0, raw_syms@, modifiers));
                assert(bound_action(rest@, raw_syms@, modifiers) == Some(rest@[0].1));
                return Some(entries[i].1.duplicate());
            }
            i = i + 1;
        }
        None
    }
}

/// Whether `key` occurs in `syms`.
fn slice_contains(syms: &[u32], key: u32) -> (r: bool)
    ensures
        r == syms@.contains(key),
{
    let mut i: usize = 0;
    while i < syms.len()
        invariant
            i <= syms@.len(),
            forall|j: int| 0 <= j < i ==> syms@[j] != key,
        decreases syms@.len() - i,
    {
        if syms[i] == key {
            return true;
        }
        i = i + 1;
    }
    false
}

/// How each window's outline looks.
#[derive(Clone, Copy, Debug, PartialEq, Eq, Structural)]
pub struct Outline {
    /// The outline of a window that does not have the focus.
    pub color: Color,
    /// The outline of the window that has the focus.
    pub focused_color: Color,
    /// The corner radius, in logical pixels.
    pub radius: u32,
    /// How far the outline reaches out from the window on every side.
    pub thickness: u32,
}

/// The whole configuration.
#[derive(Clone, Debug)]
pub struct Config {
    pub bindings: Bindings,
    pub workspace_count: usize,
    pub outline: Outline,
}

/// The number of workspaces when the configuration names none.
pub fn default_workspace_count() -> (r: usize)
    ensures
        r == 9,
{
    9
}

/// The outline color of unfocused windows: a dark gray.
pub fn default_outline_color() -> (r: Color)
    ensures
        r == (Color { r: 300, g: 300, b: 300 }),
{
    Color { r: 300, g: 300, b: 300 }
}

/// The outline color of the focused window: a light blue.
pub fn default_outline_focus_color() -> (r: Color)
    ensures
        r == (Color { r: 500, g: 500, b: 1000 }),
{
    Color { r: 500, g: 500, b: 1000 }
}

/// The corner radius of the outline when the configuration names none.
pub fn default_outline_radius() -> (r: u32)
    ensures
        r == 24,
{
    24
}

/// The thickness of the outline when the configuration names none.
pub fn default_outline_thickness() -> (r: u32)
    ensures
        r == 5,
{
    5
}

impl Outline {
    /// The outline with every field at its default.
    pub fn defaults() -> (r: Outline)
        ensures
            r == (Outline {
                color: Color { r: 300, g: 300, b: 300 },
                focused_color: Color { r: 500, g: 500, b: 1000 },
                radius: 24,
                thickness: 5,
            }),
    {
        Outline {
            color: default_outline_color(),
            focused_color: default_outline_focus_color(),
            radius: default_outline_radius(),
            thickness: default_outline_thickness(),
        }
    }
}

} // verus!
