use kanata_keymap::protocol::{KeyBinding, Keymap, ServerMessage};
use kanata_keymap::strmap::StrMap;
use kanata_keymap::which_key::{layer_rows, leader_keys, Step, WhichKey};

fn keymap() -> Keymap {
    let mut keys = StrMap::new();
    let mut a = StrMap::new();
    a.insert("base".to_string(), KeyBinding::simple("keycode", "A"));
    a.insert("nav".to_string(), KeyBinding::simple("sequence", "Play a key sequence"));
    let mut b = StrMap::new();
    b.insert("base".to_string(), KeyBinding::simple("keycode", "B"));
    keys.insert("b".to_string(), b);
    keys.insert("a".to_string(), a);
    Keymap { layers: vec!["base".into(), "nav".into()], keys }
}

#[test]
fn rows_list_the_keys_bound_on_a_layer_in_order() {
    let km = keymap();
    let base: Vec<(String, String)> =
        layer_rows(&km, "base").into_iter().map(|(k, b)| (k, b.desc)).collect();
    assert_eq!(base, vec![("a".to_string(), "A".to_string()), ("b".to_string(), "B".to_string())]);
    let nav = layer_rows(&km, "nav");
    assert_eq!(nav.len(), 1);
    assert_eq!(leader_keys(&nav), vec!["a".to_string()]);
    assert!(leader_keys(&layer_rows(&km, "base")).is_empty());
    assert!(layer_rows(&km, "other").is_empty());
}

#[test]
fn overlay_follows_the_active_layer() {
    let mut w = WhichKey::new();
    assert_eq!(w.on_message(ServerMessage::LayerChange { new: "nav".into() }), Step::AwaitKeymap { layer: "nav".into() });
    assert_eq!(w.on_message(ServerMessage::Keymap { keymap: keymap() }), Step::Render { layer: "nav".into() });
    assert_eq!(w.on_message(ServerMessage::LayerChange { new: "base".into() }), Step::Render { layer: "base".into() });
    assert_eq!(w.on_message(ServerMessage::Error { msg: "x".into() }), Step::Nothing);
    assert_eq!(w.active_layer.as_deref(), Some("base"));

    let mut fresh = WhichKey::new();
    assert_eq!(fresh.on_message(ServerMessage::Keymap { keymap: keymap() }), Step::Nothing);
    assert!(fresh.keymap.is_some());
}
