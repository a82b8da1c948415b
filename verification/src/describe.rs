//! Natural-language descriptions of actions: the text a which-key overlay shows for a key.

use vstd::prelude::*;
use crate::action::{Action, Btn, CustomAction, FakeKeyAction, MWheelDirection, MoveDirection, SimpleSExpr};
use crate::text::{dec, join, join_strings, push_char, push_decimal, texts};
use crate::protocol::{KeyBinding, KeyBindingView, simple_view};
use crate::names::{ascii_lower_text, is_ascii_text, lemma_unmod_names_ascii, unmod_names, unmod_mod_names, to_lowercase};

verus! {

/// The verb for what a virtual key action does.
pub open spec fn fake_key_action_text(a: FakeKeyAction) -> Seq<char> {
    match a {
        FakeKeyAction::Press => "press"@,
        FakeKeyAction::Release => "release"@,
        FakeKeyAction::Tap => "tap"@,
        FakeKeyAction::Toggle => "toggle"@,
    }
}

/// The word for a mouse-wheel direction.
pub open spec fn mwheel_dir_text(d: MWheelDirection) -> Seq<char> {
    match d {
        MWheelDirection::Up => "up"@,
        MWheelDirection::Down => "down"@,
        MWheelDirection::Left => "left"@,
        MWheelDirection::Right => "right"@,
    }
}

/// The word for a mouse-movement direction.
pub open spec fn move_dir_text(d: MoveDirection) -> Seq<char> {
    match d {
        MoveDirection::Up => "up"@,
        MoveDirection::Down => "down"@,
        MoveDirection::Left => "left"@,
        MoveDirection::Right => "right"@,
    }
}

/// The symbol kanata displays for a mouse button.
pub open spec fn btn_text(b: Btn) -> Seq<char> {
    match b {
        Btn::Left => "‹🖰"@,
        Btn::Right => "🖰›"@,
        Btn::Mid => "🖱"@,
        Btn::Backward => "⎌🖰"@,
        Btn::Forward => "🖰↷"@,
    }
}

/// Different virtual-key actions, wheel directions, movement directions and mouse buttons are
/// told apart in descriptions: no two of a kind share a word, and the wheel and the pointer use
/// the same word for the same direction.
pub proof fn lemma_words_tell_values_apart(
    f1: FakeKeyAction,
    f2: FakeKeyAction,
    w1: MWheelDirection,
    w2: MWheelDirection,
    m1: MoveDirection,
    m2: MoveDirection,
    b1: Btn,
    b2: Btn,
)
    ensures
        f1 != f2 ==> fake_key_action_text(f1) != fake_key_action_text(f2),
        w1 != w2 ==> mwheel_dir_text(w1) != mwheel_dir_text(w2),
        m1 != m2 ==> move_dir_text(m1) != move_dir_text(m2),
        b1 != b2 ==> btn_text(b1) != btn_text(b2),
        mwheel_dir_text(MWheelDirection::Up) == move_dir_text(MoveDirection::Up),
        mwheel_dir_text(MWheelDirection::Down) == move_dir_text(MoveDirection::Down),
        mwheel_dir_text(MWheelDirection::Left) == move_dir_text(MoveDirection::Left),
        mwheel_dir_text(MWheelDirection::Right) == move_dir_text(MoveDirection::Right),
{
    reveal_strlit("press");
    reveal_strlit("release");
    reveal_strlit("tap");
    reveal_strlit("toggle");
    reveal_strlit("up");
    reveal_strlit("down");
    reveal_strlit("left");
    reveal_strlit("right");
    reveal_strlit("‹🖰");
    reveal_strlit("🖰›");
    reveal_strlit("🖱");
    reveal_strlit("⎌🖰");
    reveal_strlit("🖰↷");
    if f1 != f2 {
        let t1 = fake_key_action_text(f1);
        let t2 = fake_key_action_text(f2);
        assert(t1.len() != t2.len() || t1[0] != t2[0] || t1[1] != t2[1]);
    }
    if w1 != w2 {
        let t1 = mwheel_dir_text(w1);
        let t2 = mwheel_dir_text(w2);
        assert(t1.len() != t2.len() || t1[0] != t2[0]);
    }
    if m1 != m2 {
        let t1 = move_dir_text(m1);
        let t2 = move_dir_text(m2);
        assert(t1.len() != t2.len() || t1[0] != t2[0]);
    }
    if b1 != b2 {
        let t1 = btn_text(b1);
        let t2 = btn_text(b2);
        assert(t1.len() != t2.len() || t1[0] != t2[0] || t1[1] != t2[1]);
    }
}

/// A `push-msg` item rendered back to config-like text.
pub open spec fn sexpr_text(e: SimpleSExpr) -> Seq<char>
    decreases e,
{
    match e {
        SimpleSExpr::Atom(a) => a@,
        SimpleSExpr::List(l) => "("@ + join(sexpr_texts(l@), " "@) + ")"@,
    }
}

/// The texts of a sequence of `push-msg` items.
pub open spec fn sexpr_texts(s: Seq<SimpleSExpr>) -> Seq<Seq<char>>
    decreases s,
{
    if s.len() == 0 {
        Seq::empty()
    } else {
        sexpr_texts(s.drop_last()).push(sexpr_text(s.last()))
    }
}

/// `sexpr_texts` renders each item in place.
pub proof fn lemma_sexpr_texts(s: Seq<SimpleSExpr>)
    ensures
        sexpr_texts(s).len() == s.len(),
        forall|i: int| 0 <= i < s.len() ==> #[trigger] sexpr_texts(s)[i] == sexpr_text(s[i]),
    decreases s.len(),
{
    if s.len() > 0 {
        lemma_sexpr_texts(s.drop_last());
    }
}

/// An atom renders as itself, and a list as its items between parentheses, each separated
/// from the one before it by a single space: one more item appends a space and that item's
/// text inside the parentheses.
pub proof fn lemma_sexpr_list_spaced(
    t: String,
    a: Vec<SimpleSExpr>,
    b: Vec<SimpleSExpr>,
    x: SimpleSExpr,
)
    requires
        b@ == a@.push(x),
    ensures
        sexpr_text(SimpleSExpr::Atom(t)) == t@,
        a@.len() == 0 ==> sexpr_text(SimpleSExpr::List(a)) == "()"@,
        a@.len() == 0 ==> sexpr_text(SimpleSExpr::List(b)) == "("@ + sexpr_text(x) + ")"@,
        a@.len() > 0 ==> sexpr_text(SimpleSExpr::List(b)) == sexpr_text(SimpleSExpr::List(a)).drop_last()
            + " "@ + sexpr_text(x) + ")"@,
{
    reveal_strlit("()");
    reveal_strlit("(");
    reveal_strlit(")");
    assert(sexpr_texts(b@).drop_last() =~= sexpr_texts(a@)) by {
        assert(b@.drop_last() =~= a@);
    }
    assert(sexpr_texts(b@).last() == sexpr_text(x)) by {
        assert(b@.last() == x);
    }
    if a@.len() == 0 {
        assert(sexpr_texts(a@) =~= Seq::<Seq<char>>::empty());
        assert(sexpr_texts(b@) =~= seq![sexpr_text(x)]);
        assert("("@ + Seq::<char>::empty() + ")"@ =~= "()"@);
    } else {
        let ja = join(sexpr_texts(a@), " "@);
        assert(("("@ + ja + ")"@).drop_last() =~= "("@ + ja);
        assert("("@ + (ja + " "@ + sexpr_text(x)) + ")"@ =~= "("@ + ja + " "@ + sexpr_text(x) + ")"@);
    }
}

/// The ASCII lower-case forms of a sequence of texts.
pub open spec fn lowercased(s: Seq<Seq<char>>) -> Seq<Seq<char>> {
    s.map_values(|t: Seq<char>| ascii_lower_text(t))
}

/// The modifiers of an `unmod` set, as a `+`-separated lower-case list, e.g. `lsft+lctl`.
pub open spec fn unmod_mods_text(bits: u8) -> Seq<char> {
    join(lowercased(unmod_names(bits, 8)), "+"@)
}

/// The bits of the `unmod` set that holds every modifier.
pub const ALL_UNMOD_MODS: u8 = 0xff;

/// A sentence describing a kanata-specific action, with the binding's own values in it.
pub open spec fn custom_text(ca: CustomAction) -> Seq<char> {
    match ca {
        CustomAction::Cmd(args) => "Run the command: "@ + join(texts(args@), " "@),
        CustomAction::CmdLog(args) => "Run and log the command: "@ + join(texts(args@), " "@),
        CustomAction::CmdOutputKeys(args) => "Run a command and type its output: "@ + join(
            texts(args@),
            " "@,
        ),
        CustomAction::PushMessage(msg) => "Send a message to connected clients: "@ + join(
            sexpr_texts(msg@),
            " "@,
        ),
        CustomAction::Unicode(c) => "Type the Unicode character "@.push(c),
        CustomAction::Mouse(b) => "Hold mouse button "@ + btn_text(b),
        CustomAction::MouseTap(b) => "Click mouse button "@ + btn_text(b),
        CustomAction::FakeKey { action } => "On press, "@ + fake_key_action_text(action)
            + " a virtual key"@,
        CustomAction::FakeKeyOnRelease { action } => "On release, "@ + fake_key_action_text(
            action,
        ) + " a virtual key"@,
        CustomAction::FakeKeyOnIdle { action, idle_duration } => "After "@ + dec(
            idle_duration as nat,
        ) + "ms idle, "@ + fake_key_action_text(action) + " a virtual key"@,
        CustomAction::FakeKeyOnPhysicalIdle { action, idle_duration } => "After "@ + dec(
            idle_duration as nat,
        ) + "ms of physical idle, "@ + fake_key_action_text(action) + " a virtual key"@,
        CustomAction::FakeKeyHoldForDuration { hold_duration } => "Hold a virtual key for "@
            + dec(hold_duration as nat) + "ms"@,
        CustomAction::Delay(ms) => "Wait "@ + dec(ms as nat) + "ms"@,
        CustomAction::DelayOnRelease(ms) => "Wait "@ + dec(ms as nat) + "ms on release"@,
        CustomAction::MWheel { direction, interval, distance } => "Scroll the mouse wheel "@
            + mwheel_dir_text(direction) + " ("@ + dec(distance as nat) + " every "@ + dec(
            interval as nat,
        ) + "ms)"@,
        CustomAction::MWheelNotch { direction } => "Scroll the mouse wheel "@ + mwheel_dir_text(
            direction,
        ) + " by one notch"@,
        CustomAction::MoveMouse { direction, interval, distance } => "Move the mouse "@
            + move_dir_text(direction) + " ("@ + dec(distance as nat) + " every "@ + dec(
            interval as nat,
        ) + "ms)"@,
        CustomAction::MoveMouseAccel {
            direction,
            interval,
            accel_time,
            min_distance,
            max_distance,
        } => "Move the mouse "@ + move_dir_text(direction) + ", accelerating from "@ + dec(
            min_distance as nat,
        ) + " to "@ + dec(max_distance as nat) + " over "@ + dec(accel_time as nat)
            + "ms (every "@ + dec(interval as nat) + "ms)"@,
        CustomAction::MoveMouseSpeed { speed } => "Set the mouse-move speed to "@ + dec(
            speed as nat,
        ) + "%"@,
        CustomAction::SetMouse { x, y } => "Jump the mouse cursor to ("@ + dec(x as nat) + ", "@
            + dec(y as nat) + ")"@,
        CustomAction::SequenceCancel => "Cancel the sequence in progress"@,
        CustomAction::SequenceLeader => "Begin a key sequence"@,
        CustomAction::SequenceNoerase => "Begin a key sequence without erasing typed keys"@,
        CustomAction::Repeat => "Repeat the last key"@,
        CustomAction::CancelMacroOnRelease => "Cancel the running macro on release"@,
        CustomAction::CancelMacroOnNextPress(timeout) =>
            "Cancel the running macro on the next key press within "@ + dec(timeout as nat)
            + "ms"@,
        CustomAction::DynamicMacroRecord(id) => "Start recording dynamic macro "@ + dec(
            id as nat,
        ),
        CustomAction::DynamicMacroRecordStop(truncate) =>
            "Stop recording the dynamic macro, dropping the last "@ + dec(truncate as nat)
            + " keys"@,
        CustomAction::DynamicMacroPlay(id) => "Play dynamic macro "@ + dec(id as nat),
        CustomAction::SendArbitraryCode(code) => "Send the raw key code "@ + dec(code as nat),
        CustomAction::CapsWord { timeout } => "Enable Caps Word (times out after "@ + dec(
            timeout as nat,
        ) + "ms)"@,
        CustomAction::Unmodded { keys, mods } => if mods == ALL_UNMOD_MODS {
            "Send "@ + join(texts(keys@), "+"@) + " with all active modifiers suppressed"@
        } else {
            "Send "@ + join(texts(keys@), "+"@) + " with "@ + unmod_mods_text(mods)
                + " suppressed"@
        },
        CustomAction::Unshifted { keys } => "Send "@ + join(texts(keys@), "+"@)
            + " with Shift suppressed"@,
        CustomAction::ReverseReleaseOrder => "Release the held keys in reverse order"@,
        CustomAction::LiveReload => "Live-reload the configuration"@,
        CustomAction::LiveReloadNext => "Live-reload the next configuration"@,
        CustomAction::LiveReloadPrev => "Live-reload the previous configuration"@,
        CustomAction::LiveReloadNum(n) => "Live-reload configuration #"@ + dec(n as nat),
        CustomAction::LiveReloadFile(f) => "Live-reload the configuration file "@ + f@,
        CustomAction::ClipboardSet(t) => "Set the clipboard to \""@ + t@ + "\""@,
        CustomAction::ClipboardCmdSet(args) => "Set the clipboard from the command: "@ + join(
            texts(args@),
            " "@,
        ),
        CustomAction::ClipboardSave(id) => "Save the clipboard into slot "@ + dec(id as nat),
        CustomAction::ClipboardRestore(id) => "Restore the clipboard from slot "@ + dec(
            id as nat,
        ),
        CustomAction::ClipboardSaveSet(id, t) => "Save the clipboard into slot "@ + dec(
            id as nat,
        ) + ", then set it to \""@ + t@ + "\""@,
        CustomAction::ClipboardSaveCmdSet(id, args) => "Save the clipboard into slot "@ + dec(
            id as nat,
        ) + ", then set it from the command: "@ + join(texts(args@), " "@),
        CustomAction::ClipboardSaveSwap(a, b) => "Swap the clipboard with saved slots "@ + dec(
            a as nat,
        ) + " and "@ + dec(b as nat),
    }
}

proof fn lemma_join_push_texts(a: Seq<String>, x: String, sep: Seq<char>)
    ensures
        join(texts(a.push(x)), sep) == if a.len() == 0 {
            x@
        } else {
            join(texts(a), sep) + sep + x@
        },
{
    assert(texts(a.push(x)).drop_last() =~= texts(a));
    if a.len() == 0 {
        assert(texts(a.push(x)) =~= seq![x@]);
    }
}

/// A command is described by its arguments, each separated from the one before it by a single
/// space: with no arguments the description is the bare lead-in, with one it is the lead-in and
/// that argument, and one more argument appends a space and that argument. This holds for
/// `cmd`, `cmd-log`, `cmd-output-keys` and the clipboard-from-command actions alike.
pub proof fn lemma_command_arguments_spaced(a: Vec<String>, b: Vec<String>, x: String)
    requires
        b@ == a@.push(x),
    ensures
        a@.len() == 0 ==> custom_text(CustomAction::Cmd(a)) == "Run the command: "@,
        a@.len() == 0 ==> custom_text(CustomAction::Cmd(b)) == "Run the command: "@ + x@,
        a@.len() > 0 ==> custom_text(CustomAction::Cmd(b)) == custom_text(CustomAction::Cmd(a))
            + " "@ + x@,
        a@.len() == 0 ==> custom_text(CustomAction::CmdLog(b)) == "Run and log the command: "@
            + x@,
        a@.len() > 0 ==> custom_text(CustomAction::CmdLog(b)) == custom_text(
            CustomAction::CmdLog(a),
        ) + " "@ + x@,
        a@.len() == 0 ==> custom_text(CustomAction::CmdOutputKeys(b))
            == "Run a command and type its output: "@ + x@,
        a@.len() > 0 ==> custom_text(CustomAction::CmdOutputKeys(b)) == custom_text(
            CustomAction::CmdOutputKeys(a),
        ) + " "@ + x@,
        a@.len() == 0 ==> custom_text(CustomAction::ClipboardCmdSet(b))
            == "Set the clipboard from the command: "@ + x@,
        a@.len() > 0 ==> custom_text(CustomAction::ClipboardCmdSet(b)) == custom_text(
            CustomAction::ClipboardCmdSet(a),
        ) + " "@ + x@,
{
    lemma_join_push_texts(a@, x, " "@);
    assert(a@.len() == 0 ==> texts(a@) =~= Seq::<Seq<char>>::empty());
    if a@.len() > 0 {
        assert("Run the command: "@ + join(texts(a@), " "@) + " "@ + x@ =~= "Run the command: "@ + (
        join(texts(a@), " "@) + " "@ + x@));
        assert("Run and log the command: "@ + join(texts(a@), " "@) + " "@ + x@
            =~= "Run and log the command: "@ + (join(texts(a@), " "@) + " "@ + x@));
        assert("Run a command and type its output: "@ + join(texts(a@), " "@) + " "@ + x@
            =~= "Run a command and type its output: "@ + (join(texts(a@), " "@) + " "@ + x@));
        assert("Set the clipboard from the command: "@ + join(texts(a@), " "@) + " "@ + x@
            =~= "Set the clipboard from the command: "@ + (join(texts(a@), " "@) + " "@ + x@));
    }
}

/// The texts of a sequence of kanata-specific actions.
pub open spec fn custom_texts(s: Seq<CustomAction>) -> Seq<Seq<char>> {
    s.map_values(|c: CustomAction| custom_text(c))
}

/// The name of layer `idx`: its given name, or `layer{idx}` when it has none.
pub open spec fn layer_name(names: Seq<Seq<char>>, idx: int) -> Seq<char> {
    if 0 <= idx < names.len() {
        names[idx]
    } else {
        "layer"@ + dec(idx as nat)
    }
}

/// The coarse category of an action.
pub open spec fn action_kind(a: Action) -> Seq<char> {
    match a {
        Action::NoOp => "noop"@,
        Action::Trans => "trans"@,
        Action::Repeat => "repeat"@,
        Action::KeyCode(_) => "keycode"@,
        Action::MultipleKeyCodes(_) => "chord"@,
        Action::MultipleActions(_) => "multi"@,
        Action::Layer(_) => "layer-while-held"@,
        Action::DefaultLayer(_) => "layer-switch"@,
        Action::HoldTap { .. } => "holdtap"@,
        Action::OneShot(_) => "oneshot"@,
        Action::TapDance(_) => "tapdance"@,
        Action::Fork { .. } => "fork"@,
        Action::Chords => "chords"@,
        Action::Switch { .. } => "switch"@,
        Action::Sequence => "sequence"@,
        Action::RepeatableSequence => "sequence"@,
        Action::CancelSequences => "sequence"@,
        Action::ReleaseState => "release"@,
        Action::OneShotIgnoreEventsTicks => "oneshot"@,
        Action::Src => "src"@,
        Action::Custom(_) => "custom"@,
    }
}

/// What an action does, in words; `names` are the layer names.
pub open spec fn action_desc(a: Action, names: Seq<Seq<char>>) -> Seq<char>
    decreases a,
{
    match a {
        Action::NoOp => "Do nothing"@,
        Action::Trans => "Transparent, falling through to the layer below"@,
        Action::Repeat => "Repeat the last key"@,
        Action::KeyCode(k) => k@,
        Action::MultipleKeyCodes(ks) => join(texts(ks@), "+"@),
        Action::MultipleActions(v) => join(action_descs(v@, names), " + "@),
        Action::Layer(n) => "Switch to layer \""@ + layer_name(names, n as int)
            + "\" while held"@,
        Action::DefaultLayer(n) => "Switch the base layer to \""@ + layer_name(names, n as int)
            + "\""@,
        Action::HoldTap { tap, hold } => "Tap for "@ + action_desc(*tap, names) + ", hold for "@
            + action_desc(*hold, names),
        Action::OneShot(inner) => "One-shot: "@ + action_desc(*inner, names),
        Action::TapDance(v) => "Tap repeatedly for: "@ + join(action_descs(v@, names), ", then "@),
        Action::Fork { left, right } => action_desc(*left, names) + ", or "@ + action_desc(
            *right,
            names,
        ) + " when a chosen key is held"@,
        Action::Chords => "Press with other keys to trigger a chord"@,
        Action::Switch { cases } => "Choose an action based on "@ + dec(cases as nat)
            + " conditions"@,
        Action::Sequence => "Play a key sequence"@,
        Action::RepeatableSequence => "Play a key sequence, repeating while held"@,
        Action::CancelSequences => "Cancel any sequence in progress"@,
        Action::ReleaseState => "Release a held key or layer"@,
        Action::OneShotIgnoreEventsTicks => "Pause processing for a one-shot key"@,
        Action::Src => "Use the key from defsrc"@,
        Action::Custom(cs) => join(custom_texts(cs@), " + "@),
    }
}

/// What each of a sequence of actions does.
pub open spec fn action_descs(s: Seq<Action>, names: Seq<Seq<char>>) -> Seq<Seq<char>>
    decreases s,
{
    if s.len() == 0 {
        Seq::empty()
    } else {
        action_descs(s.drop_last(), names).push(action_desc(s.last(), names))
    }
}

/// `action_descs` describes each action in place.
pub proof fn lemma_action_descs(s: Seq<Action>, names: Seq<Seq<char>>)
    ensures
        action_descs(s, names).len() == s.len(),
        forall|i: int|
            0 <= i < s.len() ==> #[trigger] action_descs(s, names)[i] == action_desc(s[i], names),
    decreases s.len(),
{
    if s.len() > 0 {
        lemma_action_descs(s.drop_last(), names);
    }
}

/// The binding that describes an action: a hold-tap exposes the descriptions of its tap and
/// hold actions, every other action has neither.
pub open spec fn binding_of(a: Action, names: Seq<Seq<char>>) -> KeyBindingView {
    match a {
        Action::HoldTap { tap, hold } => KeyBindingView {
            kind: "holdtap"@,
            desc: action_desc(a, names),
            tap: Some(action_desc(*tap, names)),
            hold: Some(action_desc(*hold, names)),
        },
        _ => simple_view(action_kind(a), action_desc(a, names)),
    }
}

/// Only a hold-tap binding exposes tap and hold descriptions: they are the descriptions of its
/// tap and hold actions, and its own description reads "Tap for {tap}, hold for {hold}".
pub proof fn lemma_only_holdtap_has_tap_and_hold(a: Action, names: Seq<Seq<char>>)
    ensures
        binding_of(a, names).tap is Some <==> a is HoldTap,
        binding_of(a, names).hold is Some <==> a is HoldTap,
        a matches Action::HoldTap { tap, hold } ==> {
            &&& binding_of(a, names).tap == Some(binding_of(*tap, names).desc)
            &&& binding_of(a, names).hold == Some(binding_of(*hold, names).desc)
            &&& binding_of(a, names).desc == "Tap for "@ + binding_of(*tap, names).desc
                + ", hold for "@ + binding_of(*hold, names).desc
        },
{
}

/// A chord is described by its keys joined with `+`: one more key appends `+` and its name.
pub proof fn lemma_chord_keys_joined(a: Vec<String>, b: Vec<String>, x: String, names: Seq<Seq<char>>)
    requires
        b@ == a@.push(x),
    ensures
        a@.len() == 0 ==> action_desc(Action::MultipleKeyCodes(b), names) == x@,
        a@.len() > 0 ==> action_desc(Action::MultipleKeyCodes(b), names) == action_desc(
            Action::MultipleKeyCodes(a),
            names,
        ) + "+"@ + x@,
{
    lemma_join_push_texts(a@, x, "+"@);
}

/// The verb for what a virtual key action does.
pub fn fake_key_action_desc(action: FakeKeyAction) -> (res: &'static str)
    ensures
        res@ == fake_key_action_text(action),
{
    match action {
        FakeKeyAction::Press => "press",
        FakeKeyAction::Release => "release",
        FakeKeyAction::Tap => "tap",
        FakeKeyAction::Toggle => "toggle",
    }
}

/// The word for a mouse-wheel direction.
pub fn mwheel_dir(d: MWheelDirection) -> (res: &'static str)
    ensures
        res@ == mwheel_dir_text(d),
{
    match d {
        MWheelDirection::Up => "up",
        MWheelDirection::Down => "down",
        MWheelDirection::Left => "left",
        MWheelDirection::Right => "right",
    }
}

/// The word for a mouse-movement direction.
pub fn move_dir(d: MoveDirection) -> (res: &'static str)
    ensures
        res@ == move_dir_text(d),
{
    match d {
        MoveDirection::Up => "up",
        MoveDirection::Down => "down",
        MoveDirection::Left => "left",
        MoveDirection::Right => "right",
    }
}

/// The symbol kanata displays for a mouse button.
pub fn btn_desc(b: Btn) -> (res: &'static str)
    ensures
        res@ == btn_text(b),
{
    match b {
        Btn::Left => "‹🖰",
        Btn::Right => "🖰›",
        Btn::Mid => "🖱",
        Btn::Backward => "⎌🖰",
        Btn::Forward => "🖰↷",
    }
}

/// Render a `push-msg` item back to config-like text.
pub fn simple_sexpr_desc(e: &SimpleSExpr) -> (res: String)
    ensures
        res@ == sexpr_text(*e),
    decreases e,
{
    match e {
        SimpleSExpr::Atom(a) => a.clone(),
        SimpleSExpr::List(l) => {
            let inner = simple_sexpr_descs(l);
            let mut res = String::from_str("(");
            res.append(inner.as_str());
            res.append(")");
            res
        },
    }
}

/// Render a list of `push-msg` items, separated by spaces.
pub fn simple_sexpr_descs(l: &Vec<SimpleSExpr>) -> (res: String)
    ensures
        res@ == join(sexpr_texts(l@), " "@),
    decreases l,
{
    let mut parts: Vec<String> = Vec::new();
    let n = l.len();
    let mut i: usize = 0;
    while i < n
        invariant
            n == l@.len(),
            0 <= i <= n,
            parts@.len() == i,
            forall|j: int| 0 <= j < i ==> #[trigger] parts@[j]@ == sexpr_text(l@[j]),
        decreases n - i,
    {
        proof {
            assert(decreases_to!(l => l@[i as int]));
        }
        let d = simple_sexpr_desc(&l[i]);
        parts.push(d);
        i = i + 1;
    }
    proof {
        lemma_sexpr_texts(l@);
        assert(texts(parts@) =~= sexpr_texts(l@));
    }
    join_strings(&parts, " ")
}

/// Join key names into a `+`-separated list, e.g. `LEFTCTRL+A`.
pub fn keys_desc(keys: &Vec<String>) -> (res: String)
    ensures
        res@ == join(texts(keys@), "+"@),
{
    join_strings(keys, "+")
}

/// The set of modifiers an `unmod` suppresses, as a `+`-separated lower-case list.
pub fn unmod_mods_desc(mods: u8) -> (res: String)
    ensures
        res@ == unmod_mods_text(mods),
{
    let names = unmod_mod_names(mods);
    proof {
        lemma_unmod_names_ascii(mods, 8);
    }
    let mut lower: Vec<String> = Vec::new();
    let n = names.len();
    let mut i: usize = 0;
    while i < n
        invariant
            n == names@.len(),
            texts(names@) == unmod_names(mods, 8),
            forall|j: int|
                0 <= j < unmod_names(mods, 8).len() ==> is_ascii_text(
                    #[trigger] unmod_names(mods, 8)[j],
                ),
            0 <= i <= n,
            lower@.len() == i,
            forall|j: int| 0 <= j < i ==> #[trigger] lower@[j]@ == ascii_lower_text(names@[j]@),
        decreases n - i,
    {
        assert(names@[i as int]@ == unmod_names(mods, 8)[i as int]);
        let l = to_lowercase(names[i].as_str());
        lower.push(l);
        i = i + 1;
    }
    assert(texts(lower@) =~= lowercased(texts(names@)));
    join_strings(&lower, "+")
}

/// A string holding `prefix` and then `rest`.
fn cat(prefix: &str, rest: &str) -> (res: String)
    ensures
        res@ == prefix@ + rest@,
{
    let mut s = String::from_str(prefix);
    s.append(rest);
    s
}

/// A string holding `prefix`, the decimal rendering of `n`, and then `suffix`.
fn cat_num(prefix: &str, n: u64, suffix: &str) -> (res: String)
    ensures
        res@ == prefix@ + dec(n as nat) + suffix@,
{
    let mut s = String::from_str(prefix);
    push_decimal(&mut s, n);
    s.append(suffix);
    s
}

/// A string holding `prefix` and then the decimal rendering of `n`.
fn cat_dec(prefix: &str, n: u64) -> (res: String)
    ensures
        res@ == prefix@ + dec(n as nat),
{
    let mut s = String::from_str(prefix);
    push_decimal(&mut s, n);
    s
}

/// Describe a kanata-specific action as a sentence with the binding's own values in it.
pub fn describe_custom(ca: &CustomAction) -> (res: String)
    ensures
        res@ == custom_text(*ca),
{
    match ca {
        CustomAction::Cmd(args) => cat("Run the command: ", join_strings(args, " ").as_str()),
        CustomAction::CmdLog(args) => cat(
            "Run and log the command: ",
            join_strings(args, " ").as_str(),
        ),
        CustomAction::CmdOutputKeys(args) => cat(
            "Run a command and type its output: ",
            join_strings(args, " ").as_str(),
        ),
        CustomAction::PushMessage(msg) => cat(
            "Send a message to connected clients: ",
            simple_sexpr_descs(msg).as_str(),
        ),
        CustomAction::Unicode(c) => {
            let mut s = String::from_str("Type the Unicode character ");
            push_char(&mut s, *c);
            s
        },
        CustomAction::Mouse(b) => cat("Hold mouse button ", btn_desc(*b)),
        CustomAction::MouseTap(b) => cat("Click mouse button ", btn_desc(*b)),
        CustomAction::FakeKey { action } => {
            let mut s = cat("On press, ", fake_key_action_desc(*action));
            s.append(" a virtual key");
            s
        },
        CustomAction::FakeKeyOnRelease { action } => {
            let mut s = cat("On release, ", fake_key_action_desc(*action));
            s.append(" a virtual key");
            s
        },
        CustomAction::FakeKeyOnIdle { action, idle_duration } => {
            let mut s = cat_num("After ", *idle_duration as u64, "ms idle, ");
            s.append(fake_key_action_desc(*action));
            s.append(" a virtual key");
            s
        },
        CustomAction::FakeKeyOnPhysicalIdle { action, idle_duration } => {
            let mut s = cat_num("After ", *idle_duration as u64, "ms of physical idle, ");
            s.append(fake_key_action_desc(*action));
            s.append(" a virtual key");
            s
        },
        CustomAction::FakeKeyHoldForDuration { hold_duration } => cat_num(
            "Hold a virtual key for ",
            *hold_duration as u64,
            "ms",
        ),
        CustomAction::Delay(ms) => cat_num("Wait ", *ms as u64, "ms"),
        CustomAction::DelayOnRelease(ms) => cat_num("Wait ", *ms as u64, "ms on release"),
        CustomAction::MWheel { direction, interval, distance } => {
            let mut s = cat("Scroll the mouse wheel ", mwheel_dir(*direction));
            s.append(" (");
            push_decimal(&mut s, *distance as u64);
            s.append(" every ");
            push_decimal(&mut s, *interval as u64);
            s.append("ms)");
            s
        },
        CustomAction::MWheelNotch { direction } => {
            let mut s = cat("Scroll the mouse wheel ", mwheel_dir(*direction));
            s.append(" by one notch");
            s
        },
        CustomAction::MoveMouse { direction, interval, distance } => {
            let mut s = cat("Move the mouse ", move_dir(*direction));
            s.append(" (");
            push_decimal(&mut s, *distance as u64);
            s.append(" every ");
            push_decimal(&mut s, *interval as u64);
            s.append("ms)");
            s
        },
        CustomAction::MoveMouseAccel {
            direction,
            interval,
            accel_time,
            min_distance,
            max_distance,
        } => {
            let mut s = cat("Move the mouse ", move_dir(*direction));
            s.append(", accelerating from ");
            push_decimal(&mut s, *min_distance as u64);
            s.append(" to ");
            push_decimal(&mut s, *max_distance as u64);
            s.append(" over ");
            push_decimal(&mut s, *accel_time as u64);
            s.append("ms (every ");
            push_decimal(&mut s, *interval as u64);
            s.append("ms)");
            s
        },
        CustomAction::MoveMouseSpeed { speed } => cat_num(
            "Set the mouse-move speed to ",
            *speed as u64,
            "%",
        ),
        CustomAction::SetMouse { x, y } => {
            let mut s = cat_num("Jump the mouse cursor to (", *x as u64, ", ");
            push_decimal(&mut s, *y as u64);
            s.append(")");
            s
        },
        CustomAction::SequenceCancel => String::from_str("Cancel the sequence in progress"),
        CustomAction::SequenceLeader => String::from_str("Begin a key sequence"),
        CustomAction::SequenceNoerase => String::from_str(
            "Begin a key sequence without erasing typed keys",
        ),
        CustomAction::Repeat => String::from_str("Repeat the last key"),
        CustomAction::CancelMacroOnRelease => String::from_str(
            "Cancel the running macro on release",
        ),
        CustomAction::CancelMacroOnNextPress(timeout) => cat_num(
            "Cancel the running macro on the next key press within ",
            *timeout as u64,
            "ms",
        ),
        CustomAction::DynamicMacroRecord(id) => cat_dec("Start recording dynamic macro ", *id as u64),
        CustomAction::DynamicMacroRecordStop(truncate) => cat_num(
            "Stop recording the dynamic macro, dropping the last ",
            *truncate as u64,
            " keys",
        ),
        CustomAction::DynamicMacroPlay(id) => cat_dec("Play dynamic macro ", *id as u64),
        CustomAction::SendArbitraryCode(code) => cat_dec("Send the raw key code ", *code as u64),
        CustomAction::CapsWord { timeout } => cat_num(
            "Enable Caps Word (times out after ",
            *timeout as u64,
            "ms)",
        ),
        CustomAction::Unmodded { keys, mods } => {
            let k = keys_desc(keys);
            let mut s = cat("Send ", k.as_str());
            if *mods == ALL_UNMOD_MODS {
                s.append(" with all active modifiers suppressed");
            } else {
                s.append(" with ");
                s.append(unmod_mods_desc(*mods).as_str());
                s.append(" suppressed");
            }
            s
        },
        CustomAction::Unshifted { keys } => {
            let mut s = cat("Send ", keys_desc(keys).as_str());
            s.append(" with Shift suppressed");
            s
        },
        CustomAction::ReverseReleaseOrder => String::from_str(
            "Release the held keys in reverse order",
        ),
        CustomAction::LiveReload => String::from_str("Live-reload the configuration"),
        CustomAction::LiveReloadNext => String::from_str("Live-reload the next configuration"),
        CustomAction::LiveReloadPrev => String::from_str(
            "Live-reload the previous configuration",
        ),
        CustomAction::LiveReloadNum(n) => cat_dec("Live-reload configuration #", *n as u64),
        CustomAction::LiveReloadFile(f) => cat(
            "Live-reload the configuration file ",
            f.as_str(),
        ),
        CustomAction::ClipboardSet(t) => {
            let mut s = cat("Set the clipboard to \"", t.as_str());
            s.append("\"");
            s
        },
        CustomAction::ClipboardCmdSet(args) => cat(
            "Set the clipboard from the command: ",
            join_strings(args, " ").as_str(),
        ),
        CustomAction::ClipboardSave(id) => cat_dec("Save the clipboard into slot ", *id as u64),
        CustomAction::ClipboardRestore(id) => cat_dec("Restore the clipboard from slot ", *id as u64),
        CustomAction::ClipboardSaveSet(id, t) => {
            let mut s = cat_num("Save the clipboard into slot ", *id as u64, ", then set it to \"");
            s.append(t.as_str());
            s.append("\"");
            s
        },
        CustomAction::ClipboardSaveCmdSet(id, args) => {
            let mut s = cat_num(
                "Save the clipboard into slot ",
                *id as u64,
                ", then set it from the command: ",
            );
            s.append(join_strings(args, " ").as_str());
            s
        },
        CustomAction::ClipboardSaveSwap(a, b) => {
            let mut s = cat_num("Swap the clipboard with saved slots ", *a as u64, " and ");
            push_decimal(&mut s, *b as u64);
            s
        },
    }
}

/// The name of layer `idx`: its given name, or `layer{idx}` when it has none.
pub fn layer_name_of(names: &Vec<String>, idx: usize) -> (res: String)
    ensures
        res@ == layer_name(texts(names@), idx as int),
{
    if idx < names.len() {
        names[idx].clone()
    } else {
        cat_dec("layer", idx as u64)
    }
}

/// A binding with a kind and a description, and neither tap nor hold.
fn simple_binding(kind: &str, desc: String) -> (res: KeyBinding)
    ensures
        res@ == simple_view(kind@, desc@),
{
    KeyBinding { kind: String::from_str(kind), desc, tap: None, hold: None }
}

/// The descriptions of each of `actions`, joined with `sep`.
fn describe_all(actions: &Vec<Action>, names: &Vec<String>, sep: &str) -> (res: String)
    ensures
        res@ == join(action_descs(actions@, texts(names@)), sep@),
    decreases actions,
{
    let mut parts: Vec<String> = Vec::new();
    let n = actions.len();
    let mut i: usize = 0;
    while i < n
        invariant
            n == actions@.len(),
            0 <= i <= n,
            parts@.len() == i,
            forall|j: int|
                0 <= j < i ==> #[trigger] parts@[j]@ == action_desc(actions@[j], texts(names@)),
        decreases n - i,
    {
        proof {
            assert(decreases_to!(actions => actions@[i as int]));
        }
        let b = describe_action(&actions[i], names);
        parts.push(b.desc);
        i = i + 1;
    }
    proof {
        lemma_action_descs(actions@, texts(names@));
        assert(texts(parts@) =~= action_descs(actions@, texts(names@)));
    }
    join_strings(&parts, sep)
}

/// Describe a single action as a [`KeyBinding`]; `names` are the layer names, by index.
pub fn describe_action(action: &Action, names: &Vec<String>) -> (res: KeyBinding)
    ensures
        res@ == binding_of(*action, texts(names@)),
    decreases action,
{
    match action {
        Action::NoOp => simple_binding("noop", String::from_str("Do nothing")),
        Action::Trans => simple_binding(
            "trans",
            String::from_str("Transparent, falling through to the layer below"),
        ),
        Action::Repeat => simple_binding("repeat", String::from_str("Repeat the last key")),
        Action::KeyCode(k) => simple_binding("keycode", k.clone()),
        Action::MultipleKeyCodes(ks) => simple_binding("chord", keys_desc(ks)),
        Action::MultipleActions(v) => simple_binding("multi", describe_all(v, names, " + ")),
        Action::Layer(n) => {
            let mut s = cat("Switch to layer \"", layer_name_of(names, *n).as_str());
            s.append("\" while held");
            simple_binding("layer-while-held", s)
        },
        Action::DefaultLayer(n) => {
            let mut s = cat("Switch the base layer to \"", layer_name_of(names, *n).as_str());
            s.append("\"");
            simple_binding("layer-switch", s)
        },
        Action::HoldTap { tap, hold } => {
            let tap_desc = describe_action(tap, names).desc;
            let hold_desc = describe_action(hold, names).desc;
            let mut s = cat("Tap for ", tap_desc.as_str());
            s.append(", hold for ");
            s.append(hold_desc.as_str());
            KeyBinding {
                kind: String::from_str("holdtap"),
                desc: s,
                tap: Some(tap_desc),
                hold: Some(hold_desc),
            }
        },
        Action::OneShot(inner) => {
            let d = describe_action(inner, names).desc;
            simple_binding("oneshot", cat("One-shot: ", d.as_str()))
        },
        Action::TapDance(v) => simple_binding(
            "tapdance",
            cat("Tap repeatedly for: ", describe_all(v, names, ", then ").as_str()),
        ),
        Action::Fork { left, right } => {
            let mut s = describe_action(left, names).desc;
            s.append(", or ");
            s.append(describe_action(right, names).desc.as_str());
            s.append(" when a chosen key is held");
            simple_binding("fork", s)
        },
        Action::Chords => simple_binding(
            "chords",
            String::from_str("Press with other keys to trigger a chord"),
        ),
        Action::Switch { cases } => simple_binding(
            "switch",
            cat_num("Choose an action based on ", *cases as u64, " conditions"),
        ),
        Action::Sequence => simple_binding("sequence", String::from_str("Play a key sequence")),
        Action::RepeatableSequence => simple_binding(
            "sequence",
            String::from_str("Play a key sequence, repeating while held"),
        ),
        Action::CancelSequences => simple_binding(
            "sequence",
            String::from_str("Cancel any sequence in progress"),
        ),
        Action::ReleaseState => simple_binding(
            "release",
            String::from_str("Release a held key or layer"),
        ),
        Action::OneShotIgnoreEventsTicks => simple_binding(
            "oneshot",
            String::from_str("Pause processing for a one-shot key"),
        ),
        Action::Src => simple_binding("src", String::from_str("Use the key from defsrc")),
        Action::Custom(cs) => {
            let mut parts: Vec<String> = Vec::new();
            let n = cs.len();
            let mut i: usize = 0;
            while i < n
                invariant
                    n == cs@.len(),
                    0 <= i <= n,
                    parts@.len() == i,
                    forall|j: int| 0 <= j < i ==> #[trigger] parts@[j]@ == custom_text(cs@[j]),
                decreases n - i,
            {
                parts.push(describe_custom(&cs[i]));
                i = i + 1;
            }
            assert(texts(parts@) =~= custom_texts(cs@));
            simple_binding("custom", join_strings(&parts, " + "))
        },
    }
}

} // verus!
