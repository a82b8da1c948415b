# kanata_keymap

A key-centric view of kanata keyboard layouts, and the TCP protocol messages that carry it,
written in Verus with its behaviour stated in contracts and proved.

For every physical key, the keymap lists what the key does on each layer where it is bound,
as a kind and a natural-language description (with hold-tap actions exposing their tap and
hold descriptions, and authored docs taking the place of derived descriptions).

Layout of `src/`:

- `text.rs`: decimal numbers, joined lists, single characters.
- `names.rs`: key and modifier names from kanata's parser, lower-casing.
- `action.rs`: the actions a key can be bound to.
- `describe.rs`: descriptions of actions and bindings.
- `strmap.rs`: a string-keyed map kept in ascending key order.
- `keymap.rs`: building the keymap of a layout, and the laws it obeys.
- `protocol.rs`: the protocol's messages and the keymap types.
- `json.rs`: the protocol's compact JSON wire format.
- `which_key.rs`: the keys a layer binds, and an overlay that follows the active layer.
- `treesitter.rs`: parsing configuration text with a Tree-sitter grammar.

`app/` holds what stays in ordinary Rust: reading kanata's parsed layouts into the library's
model, and the serde forms of the protocol types (pretty keymap export, parsing messages).
A pushed message's JSON value is converted there into the library's `JsonValue` (numbers keep
the text serde_json gives them), which the library writes onto the wire.
