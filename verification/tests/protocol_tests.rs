use kanata_keymap::json::encode;
use kanata_keymap::protocol::{
    ClientMessage, FakeKeyActionMessage, JsonValue, KeyBinding, Keymap, ServerMessage, ServerResponse,
};
use kanata_keymap::strmap::StrMap;

fn text_of(bytes: &[u8]) -> &str {
    std::str::from_utf8(&bytes[..bytes.len() - 1]).unwrap()
}

fn payload() -> Keymap {
    let mut keys = StrMap::new();
    let mut a_layers = StrMap::new();
    a_layers.insert("base".to_string(), KeyBinding::simple("keycode", "a"));
    keys.insert("a".to_string(), a_layers);
    Keymap { layers: vec!["base".to_string()], keys }
}

fn keymap_from_value(v: &serde_json::Value) -> Keymap {
    let layers = v["layers"]
        .as_array()
        .unwrap()
        .iter()
        .map(|l| l.as_str().unwrap().to_string())
        .collect();
    let mut keys = StrMap::new();
    for (key, per_layer) in v["keys"].as_object().unwrap() {
        let mut bindings = StrMap::new();
        for (layer, b) in per_layer.as_object().unwrap() {
            let field = |f: &str| b.get(f).map(|x| x.as_str().unwrap().to_string());
            bindings.insert(
                layer.clone(),
                KeyBinding {
                    kind: field("kind").unwrap(),
                    desc: field("desc").unwrap(),
                    tap: field("tap"),
                    hold: field("hold"),
                },
            );
        }
        keys.insert(key.clone(), bindings);
    }
    Keymap { layers, keys }
}

#[test]
fn test_server_response_json_format() {
    assert_eq!(text_of(&ServerResponse::Okay.as_bytes()), r#"{"status":"Ok"}"#);
    assert_eq!(
        text_of(&ServerResponse::Error { msg: "test".to_string() }.as_bytes()),
        r#"{"status":"Error","msg":"test"}"#
    );
}

#[test]
fn test_keymap_server_message_roundtrips() {
    let payload = payload();
    let msg = ServerMessage::Keymap { keymap: payload.clone() };
    let bytes = msg.as_bytes();
    assert!(bytes.ends_with(b"\n"));
    let parsed: serde_json::Value = serde_json::from_slice(&bytes).unwrap();
    let expected: serde_json::Value = serde_json::from_str(
        r#"{"Keymap":{"keymap":{"layers":["base"],"keys":{"a":{"base":{"kind":"keycode","desc":"a"}}}}}}"#,
    )
    .unwrap();
    assert_eq!(parsed, expected);
    let variants: Vec<&String> = parsed.as_object().unwrap().keys().collect();
    assert_eq!(variants, vec!["Keymap"]);
    assert_eq!(keymap_from_value(&parsed["Keymap"]["keymap"]), payload);
    assert_eq!(
        text_of(&bytes),
        r#"{"Keymap":{"keymap":{"layers":["base"],"keys":{"a":{"base":{"kind":"keycode","desc":"a"}}}}}}"#
    );
}

#[test]
fn test_as_bytes_includes_newline() {
    let bytes = ServerResponse::Okay.as_bytes();
    assert!(bytes.ends_with(b"\n"), "Response should end with newline");
    let error_bytes = ServerResponse::Error { msg: "test".to_string() }.as_bytes();
    assert!(error_bytes.ends_with(b"\n"), "Error response should end with newline");
}

#[test]
fn strings_are_escaped_by_serde_json() {
    let bytes = ServerResponse::Error { msg: "a\"b\nc".to_string() }.as_bytes();
    assert_eq!(text_of(&bytes), "{\"status\":\"Error\",\"msg\":\"a\\\"b\\nc\"}");
    assert_eq!(bytes.iter().filter(|b| **b == b'\n').count(), 1);
}

#[test]
fn every_server_message_is_one_json_line() {
    let msgs = vec![
        ServerMessage::LayerChange { new: "nav".into() },
        ServerMessage::LayerNames { names: vec!["base".into(), "nav".into()] },
        ServerMessage::CurrentLayerInfo { name: "base".into(), cfg_text: "(x)".into() },
        ServerMessage::ConfigFileReload { new: "b.kbd".into() },
        ServerMessage::CurrentLayerName { name: "nav".into() },
        ServerMessage::MessagePush {
            message: JsonValue::Array(vec![
                JsonValue::Number("1".to_string()),
                JsonValue::Object(vec![("k".to_string(), JsonValue::Bool(true))]),
            ]),
        },
        ServerMessage::Error { msg: "oops".into() },
    ];
    let expected = [
        r#"{"LayerChange":{"new":"nav"}}"#,
        r#"{"LayerNames":{"names":["base","nav"]}}"#,
        r#"{"CurrentLayerInfo":{"name":"base","cfg_text":"(x)"}}"#,
        r#"{"ConfigFileReload":{"new":"b.kbd"}}"#,
        r#"{"CurrentLayerName":{"name":"nav"}}"#,
        r#"{"MessagePush":{"message":[1,{"k":true}]}}"#,
        r#"{"Error":{"msg":"oops"}}"#,
    ];
    for (m, e) in msgs.iter().zip(expected.iter()) {
        let bytes = m.as_bytes();
        assert!(bytes.ends_with(b"\n"));
        assert_eq!(text_of(&bytes), *e);
    }
}

#[test]
fn holdtap_bindings_carry_tap_and_hold_on_the_wire() {
    let mut layers = StrMap::new();
    layers.insert(
        "nav".to_string(),
        KeyBinding { kind: "holdtap".into(), desc: "d".into(), tap: Some("t".into()), hold: Some("h".into()) },
    );
    layers.insert("base".to_string(), KeyBinding::simple("noop", "Do nothing"));
    let mut keys = StrMap::new();
    keys.insert("b".to_string(), layers);
    keys.insert("a".to_string(), StrMap::new());
    let km = Keymap { layers: vec![], keys };
    let bytes = ServerMessage::Keymap { keymap: km }.as_bytes();
    assert_eq!(
        text_of(&bytes),
        r#"{"Keymap":{"keymap":{"layers":[],"keys":{"a":{},"b":{"base":{"kind":"noop","desc":"Do nothing"},"nav":{"kind":"holdtap","desc":"d","tap":"t","hold":"h"}}}}}}"#
    );
}

#[test]
fn simple_bindings_have_no_tap_or_hold() {
    let b = KeyBinding::simple("keycode", "a");
    assert_eq!(b, KeyBinding { kind: "keycode".into(), desc: "a".into(), tap: None, hold: None });
}

#[test]
fn client_messages_encode_as_json_lines() {
    let cases = vec![
        (ClientMessage::RequestKeymap {}, r#"{"RequestKeymap":{}}"#),
        (ClientMessage::ChangeLayer { new: "nav".into() }, r#"{"ChangeLayer":{"new":"nav"}}"#),
        (ClientMessage::RequestLayerNames {}, r#"{"RequestLayerNames":{}}"#),
        (ClientMessage::RequestCurrentLayerInfo {}, r#"{"RequestCurrentLayerInfo":{}}"#),
        (ClientMessage::RequestCurrentLayerName {}, r#"{"RequestCurrentLayerName":{}}"#),
        (
            ClientMessage::ActOnFakeKey { name: "vk".into(), action: FakeKeyActionMessage::Toggle },
            r#"{"ActOnFakeKey":{"name":"vk","action":"Toggle"}}"#,
        ),
        (ClientMessage::SetMouse { x: 10, y: 65535 }, r#"{"SetMouse":{"x":10,"y":65535}}"#),
        (ClientMessage::Reload {}, r#"{"Reload":{}}"#),
        (ClientMessage::ReloadNext {}, r#"{"ReloadNext":{}}"#),
        (ClientMessage::ReloadPrev {}, r#"{"ReloadPrev":{}}"#),
        (ClientMessage::ReloadNum { index: 3 }, r#"{"ReloadNum":{"index":3}}"#),
        (ClientMessage::ReloadFile { path: "a\\b.kbd".into() }, r#"{"ReloadFile":{"path":"a\\b.kbd"}}"#),
    ];
    for (m, e) in cases {
        let bytes = encode(&m);
        assert!(bytes.ends_with(b"\n"));
        assert_eq!(text_of(&bytes), e);
    }
}

#[test]
fn control_characters_are_escaped_by_table() {
    let msg = "\u{1}\u{1f}\t\u{8}\u{c}\r\\\u{7f}é".to_string();
    let bytes = ServerResponse::Error { msg }.as_bytes();
    assert_eq!(
        text_of(&bytes),
        "{\"status\":\"Error\",\"msg\":\"\\u0001\\u001f\\t\\b\\f\\r\\\\\u{7f}é\"}"
    );
    assert_eq!(bytes.iter().filter(|b| **b == b'\n').count(), 1);
}

#[test]
fn test_request_keymap_roundtrips() {
    let bytes = encode(&ClientMessage::RequestKeymap {});
    assert_eq!(text_of(&bytes), r#"{"RequestKeymap":{}}"#);
    let parsed: serde_json::Value = serde_json::from_slice(&bytes).unwrap();
    let expected: serde_json::Value = serde_json::from_str(r#"{"RequestKeymap":{}}"#).unwrap();
    assert_eq!(parsed, expected);
}

#[test]
fn pushed_messages_are_written_in_full() {
    let message = JsonValue::Object(vec![
        ("a".to_string(), JsonValue::Null),
        ("b\n".to_string(), JsonValue::Text("x\"y".to_string())),
        ("c".to_string(), JsonValue::Array(vec![])),
        ("d".to_string(), JsonValue::Object(vec![])),
        ("e".to_string(), JsonValue::Array(vec![JsonValue::Number("-0.5".to_string()), JsonValue::Bool(false)])),
    ]);
    let bytes = ServerMessage::MessagePush { message }.as_bytes();
    assert_eq!(
        text_of(&bytes),
        r#"{"MessagePush":{"message":{"a":null,"b\n":"x\"y","c":[],"d":{},"e":[-0.5,false]}}}"#
    );
    assert_eq!(bytes.iter().filter(|b| **b == b'\n').count(), 1);
    let reparsed: serde_json::Value = serde_json::from_slice(&bytes).unwrap();
    assert_eq!(reparsed["MessagePush"]["message"]["e"][0].as_f64(), Some(-0.5));
    assert_eq!(reparsed["MessagePush"]["message"]["b\n"].as_str(), Some("x\"y"));
}
