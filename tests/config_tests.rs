use wayshell::config::{
    default_outline_color, default_outline_focus_color, default_outline_radius,
    default_outline_thickness, default_workspace_count, Action, Bindings, Color, KeyModifier,
    KeyModifiers, KeyModifiersDef, Outline, Pattern,
};

fn mods(ctrl: bool, alt: bool, shift: bool, logo: bool) -> KeyModifiers {
    KeyModifiers { ctrl, alt, shift, logo }
}

#[test]
fn defaults() {
    assert_eq!(default_workspace_count(), 9);
    assert_eq!(default_outline_radius(), 24);
    assert_eq!(default_outline_thickness(), 5);
    assert_eq!(default_outline_color(), Color { r: 300, g: 300, b: 300 });
    assert_eq!(default_outline_focus_color(), Color { r: 500, g: 500, b: 1000 });
    let o = Outline::defaults();
    assert_eq!(o.radius, 24);
    assert_eq!(o.thickness, 5);
    assert_eq!(o.color, default_outline_color());
    assert_eq!(o.focused_color, default_outline_focus_color());
}

#[test]
fn add_assign_sets_one_flag() {
    let mut m = KeyModifiers::none();
    m += KeyModifier::Super;
    assert_eq!(m, mods(false, false, false, true));
    m += KeyModifier::Shift;
    assert_eq!(m, mods(false, false, true, true));
    m += KeyModifier::Shift;
    assert_eq!(m, mods(false, false, true, true));
}

#[test]
fn modifier_list_sets_its_flags() {
    let def = KeyModifiersDef(vec![KeyModifier::Ctrl, KeyModifier::Alt, KeyModifier::Ctrl]);
    assert_eq!(def.to_modifiers(), mods(true, true, false, false));
    assert_eq!(KeyModifiersDef(vec![]).to_modifiers(), KeyModifiers::default());
    let from: KeyModifiers = KeyModifiersDef(vec![KeyModifier::Super, KeyModifier::Shift]).into();
    assert_eq!(from, mods(false, false, true, true));
}

#[test]
fn binding_fires_on_exact_modifiers_and_listed_key() {
    let mut b = Bindings::new();
    let logo = mods(false, false, false, true);
    b.insert(Pattern { modifiers: logo, key: 0x31 }, Action::SwitchToWorkspace(1));
    b.insert(Pattern { modifiers: logo, key: 0x71 }, Action::Close);
    assert_eq!(b.action(&[0x31], logo), Some(Action::SwitchToWorkspace(1)));
    assert_eq!(b.action(&[0x20, 0x71], logo), Some(Action::Close));
    assert_eq!(b.action(&[0x31], mods(false, false, true, true)), None);
    assert_eq!(b.action(&[0x32], logo), None);
    assert_eq!(b.action(&[], logo), None);
}

#[test]
fn rebinding_a_pattern_replaces_its_action() {
    let mut b = Bindings::new();
    let ctrl = mods(true, false, false, false);
    b.insert(Pattern { modifiers: ctrl, key: 1 }, Action::Exit);
    b.insert(Pattern { modifiers: ctrl, key: 1 }, Action::Spawn("foot".to_string()));
    assert_eq!(b.action(&[1], ctrl), Some(Action::Spawn("foot".to_string())));
}

#[test]
fn first_binding_wins_when_several_fire() {
    let mut b = Bindings::new();
    let none = KeyModifiers::none();
    b.insert(Pattern { modifiers: none, key: 5 }, Action::MoveToWorkspace(2));
    b.insert(Pattern { modifiers: none, key: 6 }, Action::ToggleFullscreen);
    assert_eq!(b.action(&[6, 5], none), Some(Action::MoveToWorkspace(2)));
}

#[test]
fn duplicate_keeps_the_action() {
    let a = Action::Spawn("alacritty".to_string());
    assert_eq!(a.duplicate(), a);
}
