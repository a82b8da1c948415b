use kanata_keymap::action::{Action, CustomAction, MWheelDirection, MoveDirection};
use kanata_keymap::keymap::{build_keymap, build_keymap_with_names, KeyDocs, LayerInfo, Layout};
use kanata_keymap::protocol::Keymap;

const COL_A: usize = 30;
const COL_B: usize = 48;
const COL_C: usize = 46;
const COL_D: usize = 32;
const COL_E: usize = 18;
const COL_CAPS: usize = 58;
const WIDTH: usize = 59;

/// A physical row with every position transparent but the given ones.
fn row(bound: Vec<(usize, Action)>) -> Vec<Action> {
    let mut r: Vec<Action> = (0..WIDTH).map(|_| Action::Trans).collect();
    for (col, a) in bound {
        r[col] = a;
    }
    r
}

fn infos(names: &[&str]) -> Vec<LayerInfo> {
    names.iter().map(|n| LayerInfo { name: n.to_string() }).collect()
}

fn key(name: &str) -> Action {
    Action::KeyCode(name.to_string())
}

fn strings(items: &[&str]) -> Vec<String> {
    items.iter().map(|s| s.to_string()).collect()
}

fn desc(km: &Keymap, key: &str, layer: &str) -> String {
    km.keys.get(key).unwrap().get(layer).unwrap().desc.clone()
}

#[test]
fn keycodes_and_holdtap_and_layers_are_described() {
    // (defsrc a b caps)
    // (defalias hrm (tap-hold 200 200 esc lctl) tolyr (layer-while-held other))
    // (deflayer base a @tolyr @hrm)
    // (deflayer other b _ _)
    let base = row(vec![
        (COL_A, key("A")),
        (COL_B, Action::Layer(1)),
        (COL_CAPS, Action::HoldTap { tap: Box::new(key("ESC")), hold: Box::new(key("LEFTCTRL")) }),
    ]);
    let other = row(vec![(COL_A, key("B"))]);
    let layout = Layout { layers: vec![base, other] };
    let km = build_keymap(&layout, &infos(&["base", "other"]), &KeyDocs::new());

    assert_eq!(km.layers, vec!["base".to_string(), "other".to_string()]);

    let a = km.keys.get("A").unwrap();
    assert_eq!(a.get("base").unwrap().kind, "keycode");
    assert_eq!(a.get("base").unwrap().desc, "A");
    assert_eq!(a.get("other").unwrap().desc, "B");

    let b = km.keys.get("B").unwrap();
    assert_eq!(b.get("base").unwrap().kind, "layer-while-held");
    assert_eq!(b.get("base").unwrap().desc, "Switch to layer \"other\" while held");
    assert!(!b.contains_key("other"));

    let caps = km.keys.get("CAPSLOCK").unwrap();
    assert_eq!(caps.get("base").unwrap().kind, "holdtap");
    assert_eq!(caps.get("base").unwrap().tap.as_deref(), Some("ESC"));
    assert_eq!(caps.get("base").unwrap().hold.as_deref(), Some("LEFTCTRL"));
    assert!(!caps.contains_key("other"));
}

#[test]
fn command_custom_action_is_labeled() {
    // (defcfg danger-enable-cmd yes) (defsrc a) (deflayer base (cmd echo hi))
    let base = row(vec![(COL_A, Action::Custom(vec![CustomAction::Cmd(strings(&["echo", "hi"]))]))]);
    let km = build_keymap(&Layout { layers: vec![base] }, &infos(&["base"]), &KeyDocs::new());
    let a = km.keys.get("A").unwrap().get("base").unwrap();
    assert_eq!(a.kind, "custom");
    assert!(a.desc.starts_with("Run the command"), "got desc: {}", a.desc);
    assert!(a.desc.contains("echo"), "got desc: {}", a.desc);
}

#[test]
fn builtin_list_actions_render_their_instantiated_values() {
    // (defsrc a b c d e)
    // (deflayer base (mwheel-down 50 120) (movemouse-accel-up 1 1000 1 5) (unmod lsft a)
    //   (unshift ralt 8) (caps-word 2000))
    let custom = |c: CustomAction| Action::Custom(vec![c]);
    let base = row(vec![
        (COL_A, custom(CustomAction::MWheel { direction: MWheelDirection::Down, interval: 50, distance: 120 })),
        (
            COL_B,
            custom(CustomAction::MoveMouseAccel {
                direction: MoveDirection::Up,
                interval: 1,
                accel_time: 1000,
                min_distance: 1,
                max_distance: 5,
            }),
        ),
        (COL_C, custom(CustomAction::Unmodded { keys: strings(&["LEFTSHIFT", "A"]), mods: 0xff })),
        (COL_D, custom(CustomAction::Unshifted { keys: strings(&["RIGHTALT", "8"]) })),
        (COL_E, custom(CustomAction::CapsWord { timeout: 2000 })),
    ]);
    let km = build_keymap(&Layout { layers: vec![base] }, &infos(&["base"]), &KeyDocs::new());

    assert_eq!(desc(&km, "A", "base"), "Scroll the mouse wheel down (120 every 50ms)");
    assert_eq!(
        desc(&km, "B", "base"),
        "Move the mouse up, accelerating from 1 to 5 over 1000ms (every 1ms)"
    );
    assert_eq!(desc(&km, "C", "base"), "Send LEFTSHIFT+A with all active modifiers suppressed");
    assert_eq!(desc(&km, "D", "base"), "Send RIGHTALT+8 with Shift suppressed");
    assert_eq!(desc(&km, "E", "base"), "Enable Caps Word (times out after 2000ms)");
}

#[test]
fn alias_docstring_overwrites_description() {
    // (defalias term (cmd echo hi) #'Launch the terminal' plain (cmd echo bye))
    // (deflayer base @term @plain)
    let cmd = |args: &[&str]| Action::Custom(vec![CustomAction::Cmd(strings(args))]);
    let base = row(vec![(COL_A, cmd(&["echo", "hi"])), (COL_B, cmd(&["echo", "bye"]))]);
    let mut docs = KeyDocs::new();
    docs.insert(0, COL_A, "Launch the terminal".to_string());
    let km = build_keymap(&Layout { layers: vec![base] }, &infos(&["base"]), &docs);

    assert_eq!(desc(&km, "A", "base"), "Launch the terminal");
    assert!(
        desc(&km, "B", "base").starts_with("Run the command"),
        "got desc: {}",
        desc(&km, "B", "base")
    );
}

#[test]
fn template_docstring_flows_through_alias_and_switch() {
    // (deftemplate accent (key mod) #'Type an accented letter' ...)
    // (defalias quote (switch (t! accent a b) (t! accent e b) () use-defsrc fallthrough))
    // (defsrc a) (deflayer base @quote)
    let base = row(vec![(COL_A, Action::Switch { cases: 3 })]);
    let mut docs = KeyDocs::new();
    docs.insert(0, COL_A, "Type an accented letter".to_string());
    let km = build_keymap(&Layout { layers: vec![base] }, &infos(&["base"]), &docs);
    assert_eq!(desc(&km, "A", "base"), "Type an accented letter");
    assert_eq!(km.keys.get("A").unwrap().get("base").unwrap().kind, "switch");
}

#[test]
fn transparent_and_noop_only_keys_are_left_out() {
    let base = row(vec![(COL_A, Action::NoOp), (COL_B, key("B"))]);
    let other = row(vec![(COL_A, Action::NoOp), (COL_B, Action::NoOp)]);
    let km = build_keymap(&Layout { layers: vec![base, other] }, &infos(&["base", "other"]), &KeyDocs::new());
    assert!(!km.keys.contains_key("A"));
    assert!(!km.keys.contains_key("CAPSLOCK"));
    let b = km.keys.get("B").unwrap();
    assert_eq!(b.get("other").unwrap().kind, "noop");
    assert_eq!(b.get("other").unwrap().desc, "Do nothing");
    assert_eq!(km.keys.len(), 1);
}

#[test]
fn unnamed_layers_are_called_by_index() {
    let base = row(vec![(COL_A, Action::DefaultLayer(7))]);
    let second = row(vec![(COL_A, key("Z"))]);
    let km = build_keymap(&Layout { layers: vec![base, second] }, &infos(&["base"]), &KeyDocs::new());
    assert_eq!(desc(&km, "A", "base"), "Switch the base layer to \"layer7\"");
    assert_eq!(km.keys.get("A").unwrap().get("layer1").unwrap().desc, "Z");
    assert_eq!(km.layers, vec!["base".to_string()]);
}

#[test]
fn empty_layout_has_no_keys() {
    let km = build_keymap(&Layout { layers: vec![] }, &infos(&[]), &KeyDocs::new());
    assert_eq!(km.keys.len(), 0);
    assert!(km.layers.is_empty());
}

#[test]
fn keys_come_in_ascending_name_order() {
    let base = row(vec![(COL_CAPS, key("X")), (COL_A, key("Y")), (COL_E, key("W"))]);
    let km = build_keymap(&Layout { layers: vec![base] }, &infos(&["base"]), &KeyDocs::new());
    let names: Vec<String> = (0..km.keys.len()).map(|i| km.keys.key_at(i).clone()).collect();
    assert_eq!(names, vec!["A".to_string(), "CAPSLOCK".to_string(), "E".to_string()]);
}

#[test]
fn docs_replace_only_their_position() {
    let base = row(vec![(COL_A, key("A")), (COL_B, key("B"))]);
    let other = row(vec![(COL_A, key("C"))]);
    let mut docs = KeyDocs::new();
    docs.insert(1, COL_A, "first".to_string());
    docs.insert(1, COL_A, "second".to_string());
    assert_eq!(docs.get(1, COL_A).map(|s| s.as_str()), Some("second"));
    assert!(docs.get(0, COL_A).is_none());
    let km = build_keymap(&Layout { layers: vec![base, other] }, &infos(&["base", "other"]), &docs);
    assert_eq!(desc(&km, "A", "base"), "A");
    assert_eq!(desc(&km, "A", "other"), "second");
    assert_eq!(km.keys.get("A").unwrap().get("other").unwrap().kind, "keycode");
    assert_eq!(desc(&km, "B", "base"), "B");
}

#[test]
fn key_names_come_from_the_parser() {
    let base = row(vec![(29, key("X")), (COL_D, key("Y")), (0, key("Z"))]);
    let km = build_keymap(&Layout { layers: vec![base] }, &infos(&["base"]), &KeyDocs::new());
    assert_eq!(desc(&km, "LEFTCTRL", "base"), "X");
    assert_eq!(desc(&km, "D", "base"), "Y");
    assert_eq!(desc(&km, "RESERVED", "base"), "Z");
}

#[test]
fn columns_are_named_by_the_given_names() {
    // Four columns: "x", unnamed, "x" again, and one past the names given.
    let base = vec![key("P"), key("Q"), key("R"), key("S")];
    let other = vec![Action::Trans, key("T"), Action::NoOp, key("U")];
    let names = vec![Some("x".to_string()), None, Some("x".to_string())];
    let layout = Layout { layers: vec![base, other] };
    let km = build_keymap_with_names(&layout, &infos(&["base", "other"]), &KeyDocs::new(), &names);
    assert_eq!(km.keys.len(), 1);
    // The later column of the same name wins.
    let x = km.keys.get("x").unwrap();
    assert_eq!(x.get("base").unwrap().desc, "R");
    assert_eq!(x.get("other").unwrap().kind, "noop");
}

#[test]
fn a_later_column_without_a_real_binding_does_not_hide_an_earlier_one() {
    let base = vec![key("P"), Action::NoOp];
    let names = vec![Some("x".to_string()), Some("x".to_string())];
    let km = build_keymap_with_names(&Layout { layers: vec![base] }, &infos(&["base"]), &KeyDocs::new(), &names);
    assert_eq!(desc(&km, "x", "base"), "P");
}
