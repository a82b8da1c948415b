use kanata_keymap::action::{Action, Btn, CustomAction, FakeKeyAction, MWheelDirection, MoveDirection, SimpleSExpr};
use kanata_keymap::describe::{describe_action, describe_custom, layer_name_of, simple_sexpr_desc, unmod_mods_desc};
use kanata_keymap::text::{join_strings, push_decimal};

fn decimal(n: u64) -> String {
    let mut s = String::new();
    push_decimal(&mut s, n);
    s
}

fn strings(items: &[&str]) -> Vec<String> {
    items.iter().map(|s| s.to_string()).collect()
}

fn names() -> Vec<String> {
    strings(&["base", "nav"])
}

fn key(name: &str) -> Box<Action> {
    Box::new(Action::KeyCode(name.to_string()))
}

#[test]
fn decimals_render_like_display() {
    assert_eq!(decimal(0), "0");
    assert_eq!(decimal(7), "7");
    assert_eq!(decimal(10), "10");
    assert_eq!(decimal(2000), "2000");
    assert_eq!(decimal(u64::MAX), u64::MAX.to_string());
}

#[test]
fn join_puts_separator_between_neighbours() {
    assert_eq!(join_strings(&strings(&[]), "+"), "");
    assert_eq!(join_strings(&strings(&["a"]), "+"), "a");
    assert_eq!(join_strings(&strings(&["a", "b", "c"]), " + "), "a + b + c");
}

#[test]
fn layer_names_fall_back_to_index() {
    assert_eq!(layer_name_of(&names(), 1), "nav");
    assert_eq!(layer_name_of(&names(), 2), "layer2");
}

#[test]
fn holdtap_exposes_tap_and_hold() {
    let b = describe_action(&Action::HoldTap { tap: key("ESC"), hold: Box::new(Action::Layer(1)) }, &names());
    assert_eq!(b.kind, "holdtap");
    assert_eq!(b.desc, "Tap for ESC, hold for Switch to layer \"nav\" while held");
    assert_eq!(b.tap.as_deref(), Some("ESC"));
    assert_eq!(b.hold.as_deref(), Some("Switch to layer \"nav\" while held"));
}

#[test]
fn composite_actions_are_described() {
    let n = names();
    let multi = Action::MultipleActions(vec![Action::KeyCode("A".into()), Action::OneShot(key("LEFTSHIFT"))]);
    let b = describe_action(&multi, &n);
    assert_eq!((b.kind.as_str(), b.desc.as_str()), ("multi", "A + One-shot: LEFTSHIFT"));
    assert!(b.tap.is_none() && b.hold.is_none());
    let td = Action::TapDance(vec![Action::KeyCode("A".into()), Action::Repeat, Action::NoOp]);
    assert_eq!(describe_action(&td, &n).desc, "Tap repeatedly for: A, then Repeat the last key, then Do nothing");
    let fork = Action::Fork { left: key("A"), right: key("B") };
    assert_eq!(describe_action(&fork, &n).desc, "A, or B when a chosen key is held");
    let chord = Action::MultipleKeyCodes(strings(&["LEFTCTRL", "C"]));
    assert_eq!(describe_action(&chord, &n).kind, "chord");
    assert_eq!(describe_action(&chord, &n).desc, "LEFTCTRL+C");
    assert_eq!(describe_action(&Action::Switch { cases: 2 }, &n).desc, "Choose an action based on 2 conditions");
    assert_eq!(describe_action(&Action::DefaultLayer(0), &n).desc, "Switch the base layer to \"base\"");
    assert_eq!(describe_action(&Action::Trans, &n).kind, "trans");
    assert_eq!(describe_action(&Action::RepeatableSequence, &n).kind, "sequence");
    assert_eq!(describe_action(&Action::OneShotIgnoreEventsTicks, &n).desc, "Pause processing for a one-shot key");
    let custom = Action::Custom(vec![CustomAction::Delay(5), CustomAction::LiveReload]);
    assert_eq!(describe_action(&custom, &n).desc, "Wait 5ms + Live-reload the configuration");
}

#[test]
fn custom_actions_read_as_prose() {
    let cases: Vec<(CustomAction, &str)> = vec![
        (CustomAction::CmdLog(strings(&["ls", "-l"])), "Run and log the command: ls -l"),
        (CustomAction::CmdOutputKeys(strings(&["date"])), "Run a command and type its output: date"),
        (
            CustomAction::PushMessage(vec![
                SimpleSExpr::Atom("hi".into()),
                SimpleSExpr::List(vec![SimpleSExpr::Atom("a".into()), SimpleSExpr::List(vec![])]),
            ]),
            "Send a message to connected clients: hi (a ())",
        ),
        (CustomAction::Unicode('é'), "Type the Unicode character é"),
        (CustomAction::Mouse(Btn::Left), "Hold mouse button ‹🖰"),
        (CustomAction::MouseTap(Btn::Forward), "Click mouse button 🖰↷"),
        (CustomAction::FakeKey { action: FakeKeyAction::Tap }, "On press, tap a virtual key"),
        (CustomAction::FakeKeyOnRelease { action: FakeKeyAction::Toggle }, "On release, toggle a virtual key"),
        (
            CustomAction::FakeKeyOnIdle { action: FakeKeyAction::Press, idle_duration: 300 },
            "After 300ms idle, press a virtual key",
        ),
        (
            CustomAction::FakeKeyOnPhysicalIdle { action: FakeKeyAction::Release, idle_duration: 9 },
            "After 9ms of physical idle, release a virtual key",
        ),
        (CustomAction::FakeKeyHoldForDuration { hold_duration: 40 }, "Hold a virtual key for 40ms"),
        (CustomAction::DelayOnRelease(12), "Wait 12ms on release"),
        (CustomAction::MWheelNotch { direction: MWheelDirection::Left }, "Scroll the mouse wheel left by one notch"),
        (
            CustomAction::MoveMouse { direction: MoveDirection::Right, interval: 4, distance: 2 },
            "Move the mouse right (2 every 4ms)",
        ),
        (CustomAction::MoveMouseSpeed { speed: 150 }, "Set the mouse-move speed to 150%"),
        (CustomAction::SetMouse { x: 10, y: 0 }, "Jump the mouse cursor to (10, 0)"),
        (CustomAction::SequenceCancel, "Cancel the sequence in progress"),
        (CustomAction::SequenceLeader, "Begin a key sequence"),
        (CustomAction::SequenceNoerase, "Begin a key sequence without erasing typed keys"),
        (CustomAction::Repeat, "Repeat the last key"),
        (CustomAction::CancelMacroOnRelease, "Cancel the running macro on release"),
        (CustomAction::CancelMacroOnNextPress(70000), "Cancel the running macro on the next key press within 70000ms"),
        (CustomAction::DynamicMacroRecord(3), "Start recording dynamic macro 3"),
        (CustomAction::DynamicMacroRecordStop(2), "Stop recording the dynamic macro, dropping the last 2 keys"),
        (CustomAction::DynamicMacroPlay(4), "Play dynamic macro 4"),
        (CustomAction::SendArbitraryCode(255), "Send the raw key code 255"),
        (CustomAction::ReverseReleaseOrder, "Release the held keys in reverse order"),
        (CustomAction::LiveReloadNext, "Live-reload the next configuration"),
        (CustomAction::LiveReloadPrev, "Live-reload the previous configuration"),
        (CustomAction::LiveReloadNum(1), "Live-reload configuration #1"),
        (CustomAction::LiveReloadFile("a.kbd".into()), "Live-reload the configuration file a.kbd"),
        (CustomAction::ClipboardSet("x".into()), "Set the clipboard to \"x\""),
        (CustomAction::ClipboardCmdSet(strings(&["pbpaste"])), "Set the clipboard from the command: pbpaste"),
        (CustomAction::ClipboardSave(1), "Save the clipboard into slot 1"),
        (CustomAction::ClipboardRestore(2), "Restore the clipboard from slot 2"),
        (CustomAction::ClipboardSaveSet(1, "y".into()), "Save the clipboard into slot 1, then set it to \"y\""),
        (
            CustomAction::ClipboardSaveCmdSet(3, strings(&["echo", "z"])),
            "Save the clipboard into slot 3, then set it from the command: echo z",
        ),
        (CustomAction::ClipboardSaveSwap(1, 2), "Swap the clipboard with saved slots 1 and 2"),
    ];
    for (ca, expected) in cases {
        assert_eq!(describe_custom(&ca), expected);
    }
}

#[test]
fn unmod_lists_the_suppressed_modifiers() {
    assert_eq!(unmod_mods_desc(0b0001_0001), "lsft+lctl");
    assert_eq!(unmod_mods_desc(0b1000_0000), "rmet");
    let ca = CustomAction::Unmodded { keys: strings(&["A"]), mods: 0b0000_0010 };
    assert_eq!(describe_custom(&ca), "Send A with rsft suppressed");
}

#[test]
fn sexpr_renders_back_to_text() {
    let e = SimpleSExpr::List(vec![SimpleSExpr::Atom("x".into()), SimpleSExpr::Atom("y".into())]);
    assert_eq!(simple_sexpr_desc(&e), "(x y)");
}

#[test]
fn unicode_characters_are_typed_as_is() {
    assert_eq!(describe_custom(&CustomAction::Unicode('λ')), "Type the Unicode character λ");
    assert_eq!(unmod_mods_desc(0b0000_1100), "lalt+ralt");
}
