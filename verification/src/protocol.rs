//! The messages exchanged with kanata's TCP server, and the key-centric keymap they carry.

use vstd::prelude::*;
use crate::strmap::StrMap;
use crate::text::texts;

verus! {

/// What a [`KeyBinding`] is, as plain text.
pub struct KeyBindingView {
    pub kind: Seq<char>,
    pub desc: Seq<char>,
    pub tap: Option<Seq<char>>,
    pub hold: Option<Seq<char>>,
}

/// The text held by an optional string.
pub open spec fn opt_text(o: Option<String>) -> Option<Seq<char>> {
    match o {
        Some(s) => Some(s@),
        None => None,
    }
}

/// A single operation bound to a key on one layer.
#[derive(Debug, Clone, PartialEq, Eq)]
pub struct KeyBinding {
    /// Coarse category of the operation, e.g. `"keycode"`, `"holdtap"`,
    /// `"layer-while-held"`, `"custom"`, `"noop"`.
    pub kind: String,
    /// Human-readable description of what the key does.
    pub desc: String,
    /// For hold-tap actions, the description of the tap action.
    pub tap: Option<String>,
    /// For hold-tap actions, the description of the hold action.
    pub hold: Option<String>,
}

impl View for KeyBinding {
    type V = KeyBindingView;

    open spec fn view(&self) -> KeyBindingView {
        KeyBindingView {
            kind: self.kind@,
            desc: self.desc@,
            tap: opt_text(self.tap),
            hold: opt_text(self.hold),
        }
    }
}

/// A binding with just a kind and a description, and neither tap nor hold.
pub open spec fn simple_view(kind: Seq<char>, desc: Seq<char>) -> KeyBindingView {
    KeyBindingView { kind, desc, tap: None, hold: None }
}

impl KeyBinding {
    /// Build a binding with just a kind and description (no tap/hold).
    pub fn simple(kind: &str, desc: &str) -> (res: KeyBinding)
        ensures
            res@ == simple_view(kind@, desc@),
    {
        KeyBinding {
            kind: String::from_str(kind),
            desc: String::from_str(desc),
            tap: None,
            hold: None,
        }
    }
}

/// What a [`Keymap`] holds: the layer names in order, and per key name a map from layer
/// name to binding.
pub struct KeymapView {
    pub layers: Seq<Seq<char>>,
    pub keys: Map<Seq<char>, Map<Seq<char>, KeyBindingView>>,
}

/// A key-centric view of a keymap: `keys[key_name][layer_name]` is the operation bound to
/// that physical key on that layer. A key/layer pair is present only if the key is actually
/// bound there (transparent fall-through positions are omitted).
#[derive(Debug, Clone, PartialEq, Eq)]
pub struct Keymap {
    /// Layer names in definition order, so consumers can lay out columns consistently.
    pub layers: Vec<String>,
    /// `key -> (layer -> binding)`, keyed by human-readable physical key name (e.g. `"A"`),
    /// entries in ascending order of their keys.
    pub keys: StrMap<StrMap<KeyBinding>>,
}

impl View for Keymap {
    type V = KeymapView;

    open spec fn view(&self) -> KeymapView {
        KeymapView { layers: texts(self.layers@), keys: self.keys@ }
    }
}

/// A JSON value, as a pushed message carries it.
#[derive(Debug, PartialEq, Eq)]
pub enum JsonValue {
    Null,
    Bool(bool),
    /// A number, held as its JSON text (e.g. `-12`, `0.5`, `1e100`).
    Number(String),
    Text(String),
    Array(Vec<JsonValue>),
    /// The members of an object, in the order they are written.
    Object(Vec<(String, JsonValue)>),
}

/// A message from kanata's TCP server to a client.
#[derive(Debug)]
pub enum ServerMessage {
    LayerChange { new: String },
    LayerNames { names: Vec<String> },
    CurrentLayerInfo { name: String, cfg_text: String },
    ConfigFileReload { new: String },
    CurrentLayerName { name: String },
    MessagePush { message: JsonValue },
    /// Key-centric keymap of the running configuration: for every physical key, the
    /// operation bound to it on each layer. Sent in response to `RequestKeymap`.
    Keymap { keymap: Keymap },
    Error { msg: String },
}

/// The server's answer to a client command.
#[derive(Debug, Clone, PartialEq, Eq)]
pub enum ServerResponse {
    /// Serialized with the status `Ok`.
    Okay,
    Error { msg: String },
}

/// A message from a client to kanata's TCP server.
#[derive(Debug, Clone, PartialEq, Eq)]
pub enum ClientMessage {
    ChangeLayer { new: String },
    RequestLayerNames {},
    RequestCurrentLayerInfo {},
    RequestCurrentLayerName {},
    /// Request the full key-centric keymap of the running configuration. Answered with
    /// a `ServerMessage::Keymap`.
    RequestKeymap {},
    ActOnFakeKey { name: String, action: FakeKeyActionMessage },
    SetMouse { x: u16, y: u16 },
    Reload {},
    ReloadNext {},
    ReloadPrev {},
    ReloadNum { index: usize },
    ReloadFile { path: String },
}

/// What a client asks a virtual key to do.
#[derive(Debug, Clone, Copy, PartialEq, Eq, Hash)]
pub enum FakeKeyActionMessage {
    Press,
    Release,
    Tap,
    Toggle,
}

} // verus!
