//! The actions a key can be bound to, holding as plain values what a description reads
//! from kanata's layout: key names, layer indices, timeouts, texts.

use vstd::prelude::*;

verus! {

/// What a virtual (fake) key does when it is triggered.
#[derive(Debug, Clone, Copy, PartialEq, Eq)]
pub enum FakeKeyAction {
    Press,
    Release,
    Tap,
    Toggle,
}

/// A direction of the mouse wheel.
#[derive(Debug, Clone, Copy, PartialEq, Eq)]
pub enum MWheelDirection {
    Up,
    Down,
    Left,
    Right,
}

/// A direction of mouse movement.
#[derive(Debug, Clone, Copy, PartialEq, Eq)]
pub enum MoveDirection {
    Up,
    Down,
    Left,
    Right,
}

/// A mouse button.
#[derive(Debug, Clone, Copy, PartialEq, Eq)]
pub enum Btn {
    Left,
    Right,
    Mid,
    Forward,
    Backward,
}

/// A `push-msg` payload item: an atom or a parenthesized list.
#[derive(Debug, PartialEq, Eq)]
pub enum SimpleSExpr {
    Atom(String),
    List(Vec<SimpleSExpr>),
}

/// A kanata-specific action. Keys are held by their OS key names (e.g. `"LEFTSHIFT"`),
/// modifier sets by their bits (`LSft = 1`, `RSft = 2`, ..., `RMet = 128`).
#[derive(Debug, PartialEq, Eq)]
#[allow(inconsistent_fields)]
pub enum CustomAction {
    Cmd(Vec<String>),
    CmdLog(Vec<String>),
    CmdOutputKeys(Vec<String>),
    PushMessage(Vec<SimpleSExpr>),
    Unicode(char),
    Mouse(Btn),
    MouseTap(Btn),
    FakeKey { action: FakeKeyAction },
    FakeKeyOnRelease { action: FakeKeyAction },
    FakeKeyOnIdle { action: FakeKeyAction, idle_duration: u16 },
    FakeKeyOnPhysicalIdle { action: FakeKeyAction, idle_duration: u16 },
    FakeKeyHoldForDuration { hold_duration: u16 },
    Delay(u16),
    DelayOnRelease(u16),
    MWheel { direction: MWheelDirection, interval: u16, distance: u16 },
    MWheelNotch { direction: MWheelDirection },
    MoveMouse { direction: MoveDirection, interval: u16, distance: u16 },
    MoveMouseAccel {
        direction: MoveDirection,
        interval: u16,
        accel_time: u16,
        min_distance: u16,
        max_distance: u16,
    },
    MoveMouseSpeed { speed: u16 },
    SetMouse { x: u16, y: u16 },
    SequenceCancel,
    SequenceLeader,
    SequenceNoerase,
    Repeat,
    CancelMacroOnRelease,
    CancelMacroOnNextPress(u32),
    DynamicMacroRecord(u16),
    DynamicMacroRecordStop(u16),
    DynamicMacroPlay(u16),
    SendArbitraryCode(u16),
    CapsWord { timeout: u16 },
    Unmodded { keys: Vec<String>, mods: u8 },
    Unshifted { keys: Vec<String> },
    ReverseReleaseOrder,
    LiveReload,
    LiveReloadNext,
    LiveReloadPrev,
    LiveReloadNum(u16),
    LiveReloadFile(String),
    ClipboardSet(String),
    ClipboardCmdSet(Vec<String>),
    ClipboardSave(u16),
    ClipboardRestore(u16),
    ClipboardSaveSet(u16, String),
    ClipboardSaveCmdSet(u16, Vec<String>),
    ClipboardSaveSwap(u16, u16),
}

/// An action bound to a key position. Keys are held by their OS key names
/// (e.g. `"A"`, `"LEFTCTRL"`), layers by their indices.
#[derive(Debug, PartialEq, Eq)]
pub enum Action {
    NoOp,
    Trans,
    Repeat,
    KeyCode(String),
    MultipleKeyCodes(Vec<String>),
    MultipleActions(Vec<Action>),
    Layer(usize),
    DefaultLayer(usize),
    HoldTap { tap: Box<Action>, hold: Box<Action> },
    OneShot(Box<Action>),
    TapDance(Vec<Action>),
    Fork { left: Box<Action>, right: Box<Action> },
    Chords,
    /// A switch, by the number of its cases.
    Switch { cases: usize },
    Sequence,
    RepeatableSequence,
    CancelSequences,
    ReleaseState,
    OneShotIgnoreEventsTicks,
    Src,
    Custom(Vec<CustomAction>),
}

} // verus!
