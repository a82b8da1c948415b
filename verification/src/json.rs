//! The protocol's JSON wire format: one compact JSON text per message, fields in declaration
//! order, optional fields left out when absent, maps in ascending key order.

use vstd::prelude::*;
use crate::protocol::{
    ClientMessage, FakeKeyActionMessage, JsonValue, KeyBinding, KeyBindingView, Keymap, KeymapView,
    ServerMessage, ServerResponse,
};
use vstd::utf8::{
    decode_utf8, encode_scalar, encode_utf8, encode_utf8_decode_utf8, encode_utf8_valid_utf8,
    has_width_1_encoding, last_continuation_byte, leading_byte_width_1, leading_byte_width_2,
    leading_byte_width_3, leading_byte_width_4, second_last_continuation_byte,
    third_last_continuation_byte, valid_utf8,
};
use crate::strmap::{sorted_entries, lemma_sorted_entries_of, StrMap};
use crate::text::{dec, digit_char, join, push_decimal, texts};

verus! {

/// The lower-case hexadecimal digit of `d`, for `0 <= d < 16`.
pub open spec fn hex_digit(d: int) -> char {
    if d < 10 {
        digit_char(d)
    } else if d == 10 {
        'a'
    } else if d == 11 {
        'b'
    } else if d == 12 {
        'c'
    } else if d == 13 {
        'd'
    } else if d == 14 {
        'e'
    } else {
        'f'
    }
}

/// How `serde_json` writes the character `c` inside a string literal: a quote and a backslash
/// behind a backslash; backspace, tab, line feed, form feed and carriage return as `\b`,
/// `\t`, `\n`, `\f`, `\r`; every other control character below U+0020 as `\u00` and two
/// lower-case hexadecimal digits; any other character as itself.
pub open spec fn json_char_escape(c: char) -> Seq<char> {
    if c == '"' {
        seq!['\\', '"']
    } else if c == '\\' {
        seq!['\\', '\\']
    } else if c == '\u{8}' {
        seq!['\\', 'b']
    } else if c == '\t' {
        seq!['\\', 't']
    } else if c == '\n' {
        seq!['\\', 'n']
    } else if c == '\u{c}' {
        seq!['\\', 'f']
    } else if c == '\r' {
        seq!['\\', 'r']
    } else if (c as u32) < 0x20 {
        seq!['\\', 'u', '0', '0', hex_digit((c as u32 / 16) as int), hex_digit((c as u32 % 16) as int)]
    } else {
        seq![c]
    }
}

/// The characters of `s`, each as `serde_json` writes it inside a string literal.
pub open spec fn json_escaped(s: Seq<char>) -> Seq<char>
    decreases s.len(),
{
    if s.len() == 0 {
        Seq::empty()
    } else {
        json_escaped(s.drop_last()) + json_char_escape(s.last())
    }
}

/// The JSON string literal that `serde_json` writes for the text `s`: the escaped characters
/// between double quotes.
pub open spec fn json_quoted(s: Seq<char>) -> Seq<char> {
    seq!['"'] + json_escaped(s) + seq!['"']
}

/// Calls `serde_json::to_string` on a string slice (whose serialization cannot fail). The
/// contract claims what `format_escaped_str` in serde_json's source writes: the text between
/// double quotes, each character escaped by its table (`json_char_escape`).
#[verifier::external_body]
pub(crate) fn json_string(s: &str) -> (res: String)
    ensures
        res@ == json_quoted(s@),
{
    serde_json::to_string(s).expect("a string slice serializes")
}

/// The JSON texts of a sequence of strings.
pub open spec fn json_strings(s: Seq<Seq<char>>) -> Seq<Seq<char>> {
    s.map_values(|t: Seq<char>| json_quoted(t))
}

/// A JSON array of strings.
pub open spec fn json_string_array(s: Seq<Seq<char>>) -> Seq<char> {
    "["@ + join(json_strings(s), ","@) + "]"@
}

/// A binding as a JSON object: `kind` and `desc`, then `tap` and `hold` where present.
pub open spec fn binding_json(b: KeyBindingView) -> Seq<char> {
    "{\"kind\":"@ + json_quoted(b.kind) + ",\"desc\":"@ + json_quoted(b.desc) + (
    match b.tap {
        Some(t) => ",\"tap\":"@ + json_quoted(t),
        None => Seq::empty(),
    }) + (match b.hold {
        Some(h) => ",\"hold\":"@ + json_quoted(h),
        None => Seq::empty(),
    }) + "}"@
}

/// One `"key":value` member of a JSON object.
pub open spec fn member(key: Seq<char>, value: Seq<char>) -> Seq<char> {
    json_quoted(key) + ":"@ + value
}

/// The members of a map from layer names to bindings, in key order.
pub open spec fn layer_members(e: Seq<(Seq<char>, KeyBindingView)>) -> Seq<Seq<char>> {
    e.map_values(|p: (Seq<char>, KeyBindingView)| member(p.0, binding_json(p.1)))
}

/// A map from layer names to bindings as a JSON object, entries in ascending key order.
pub open spec fn layer_map_json(m: Map<Seq<char>, KeyBindingView>) -> Seq<char> {
    "{"@ + join(layer_members(sorted_entries(m)), ","@) + "}"@
}

/// The members of a map from key names to per-layer maps, in key order.
pub open spec fn key_members(e: Seq<(Seq<char>, Map<Seq<char>, KeyBindingView>)>) -> Seq<
    Seq<char>,
> {
    e.map_values(|p: (Seq<char>, Map<Seq<char>, KeyBindingView>)| member(p.0, layer_map_json(p.1)))
}

/// A keymap as a JSON object: its layers, then its keys.
pub open spec fn keymap_json(k: KeymapView) -> Seq<char> {
    "{\"layers\":"@ + json_string_array(k.layers) + ",\"keys\":{"@ + join(
        key_members(sorted_entries(k.keys)),
        ","@,
    ) + "}}"@
}

/// Joining one more part onto a prefix of parts.
pub proof fn lemma_join_take(parts: Seq<Seq<char>>, sep: Seq<char>, i: int)
    requires
        0 <= i < parts.len(),
    ensures
        join(parts.take(i + 1), sep) == if i == 0 {
            parts[0]
        } else {
            join(parts.take(i), sep) + sep + parts[i]
        },
{
    assert(parts.take(i + 1).drop_last() =~= parts.take(i));
    if i == 0 {
        assert(parts.take(1) =~= seq![parts[0]]);
    }
}

/// Appends the JSON text of `s`.
pub fn push_json_string(out: &mut String, s: &str)
    ensures
        final(out)@ == old(out)@ + json_quoted(s@),
{
    out.append(json_string(s).as_str());
}

/// Appends a JSON array of strings.
pub fn push_string_array(out: &mut String, items: &Vec<String>)
    ensures
        final(out)@ == old(out)@ + json_string_array(texts(items@)),
{
    let ghost parts = json_strings(texts(items@));
    let ghost start = out@ + "["@;
    out.append("[");
    let n = items.len();
    let mut i: usize = 0;
    while i < n
        invariant
            n == items@.len(),
            parts == json_strings(texts(items@)),
            0 <= i <= n,
            out@ == start + join(parts.take(i as int), ","@),
        decreases n - i,
    {
        proof {
            lemma_join_take(parts, ","@, i as int);
        }
        if i > 0 {
            out.append(",");
        }
        push_json_string(out, items[i].as_str());
        assert(out@ =~= start + join(parts.take(i + 1), ","@));
        i = i + 1;
    }
    assert(parts.take(n as int) =~= parts);
    out.append("]");
}

/// Appends a binding as a JSON object.
pub fn push_binding(out: &mut String, b: &KeyBinding)
    ensures
        final(out)@ == old(out)@ + binding_json(b@),
{
    let ghost start = old(out)@;
    out.append("{\"kind\":");
    push_json_string(out, b.kind.as_str());
    out.append(",\"desc\":");
    push_json_string(out, b.desc.as_str());
    match &b.tap {
        Some(t) => {
            out.append(",\"tap\":");
            push_json_string(out, t.as_str());
        },
        None => {},
    }
    match &b.hold {
        Some(h) => {
            out.append(",\"hold\":");
            push_json_string(out, h.as_str());
        },
        None => {},
    }
    out.append("}");
    assert(out@ =~= start + binding_json(b@));
}

/// Appends a map from layer names to bindings as a JSON object.
pub fn push_layer_map(out: &mut String, m: &StrMap<KeyBinding>)
    ensures
        final(out)@ == old(out)@ + layer_map_json(m@),
{
    let n = m.len();
    proof {
        lemma_sorted_entries_of(m.entries_view());
    }
    let ghost parts = layer_members(m.entries_view());
    let ghost start = out@ + "{"@;
    out.append("{");
    let mut i: usize = 0;
    while i < n
        invariant
            n == m.entries_view().len(),
            parts == layer_members(m.entries_view()),
            0 <= i <= n,
            out@ == start + join(parts.take(i as int), ","@),
        decreases n - i,
    {
        proof {
            lemma_join_take(parts, ","@, i as int);
        }
        if i > 0 {
            out.append(",");
        }
        push_json_string(out, m.key_at(i).as_str());
        out.append(":");
        push_binding(out, m.value_at(i));
        assert(out@ =~= start + join(parts.take(i + 1), ","@));
        i = i + 1;
    }
    assert(parts.take(n as int) =~= parts);
    out.append("}");
}

/// Appends a keymap as a JSON object.
pub fn push_keymap(out: &mut String, k: &Keymap)
    ensures
        final(out)@ == old(out)@ + keymap_json(k@),
{
    let ghost start0 = old(out)@;
    out.append("{\"layers\":");
    push_string_array(out, &k.layers);
    out.append(",\"keys\":{");
    let m = &k.keys;
    let n = m.len();
    proof {
        lemma_sorted_entries_of(m.entries_view());
    }
    let ghost parts = key_members(m.entries_view());
    let ghost start = out@;
    let mut i: usize = 0;
    while i < n
        invariant
            n == m.entries_view().len(),
            parts == key_members(m.entries_view()),
            0 <= i <= n,
            out@ == start + join(parts.take(i as int), ","@),
        decreases n - i,
    {
        proof {
            lemma_join_take(parts, ","@, i as int);
        }
        if i > 0 {
            out.append(",");
        }
        push_json_string(out, m.key_at(i).as_str());
        out.append(":");
        push_layer_map(out, m.value_at(i));
        assert(out@ =~= start + join(parts.take(i + 1), ","@));
        i = i + 1;
    }
    assert(parts.take(n as int) =~= parts);
    out.append("}}");
    assert(out@ =~= start0 + keymap_json(k@));
}

/// A message as it goes over the wire: the UTF-8 bytes of its JSON text, then a newline.
pub open spec fn frame(text: Seq<char>) -> Seq<u8> {
    encode_utf8(text) + seq![10u8]
}

/// A framed message ends with its newline, and the bytes before it are valid UTF-8 that
/// decodes to the JSON text.
pub proof fn lemma_frame(text: Seq<char>)
    ensures
        frame(text).len() > 0,
        frame(text).last() == 10u8,
        valid_utf8(frame(text).drop_last()),
        decode_utf8(frame(text).drop_last()) == text,
{
    assert(frame(text).drop_last() =~= encode_utf8(text));
    encode_utf8_valid_utf8(text);
    encode_utf8_decode_utf8(text);
}

/// The text holds no line feed.
pub open spec fn one_line(t: Seq<char>) -> bool {
    forall|i: int| 0 <= i < t.len() ==> t[i] != '\n'
}

proof fn lemma_cat_one_line(a: Seq<char>, b: Seq<char>)
    requires
        one_line(a),
        one_line(b),
    ensures
        one_line(a + b),
{
    assert forall|i: int| 0 <= i < (a + b).len() implies (a + b)[i] != '\n' by {
        if i < a.len() {
            assert((a + b)[i] == a[i]);
        } else {
            assert((a + b)[i] == b[i - a.len()]);
        }
    }
}

proof fn lemma_escaped_one_line(s: Seq<char>)
    ensures
        one_line(json_escaped(s)),
    decreases s.len(),
{
    if s.len() > 0 {
        lemma_escaped_one_line(s.drop_last());
        let c = s.last();
        let e = json_char_escape(c);
        if c != '"' && c != '\\' && c != '\u{8}' && c != '\t' && c != '\n' && c != '\u{c}' && c
            != '\r' && (c as u32) < 0x20 {
            let h = (c as u32 / 16) as int;
            let l = (c as u32 % 16) as int;
            assert(hex_digit(h) != '\n');
            assert(hex_digit(l) != '\n');
        }
        assert(one_line(e));
        lemma_cat_one_line(json_escaped(s.drop_last()), e);
    }
}

proof fn lemma_quoted_one_line(s: Seq<char>)
    ensures
        one_line(json_quoted(s)),
{
    lemma_escaped_one_line(s);
    lemma_cat_one_line(seq!['"'], json_escaped(s));
    lemma_cat_one_line(seq!['"'] + json_escaped(s), seq!['"']);
}

proof fn lemma_join_one_line(parts: Seq<Seq<char>>, sep: Seq<char>)
    requires
        one_line(sep),
        forall|i: int| 0 <= i < parts.len() ==> one_line(#[trigger] parts[i]),
    ensures
        one_line(join(parts, sep)),
    decreases parts.len(),
{
    if parts.len() > 1 {
        let init = parts.drop_last();
        assert forall|i: int| 0 <= i < init.len() implies one_line(#[trigger] init[i]) by {
            assert(init[i] == parts[i]);
        }
        lemma_join_one_line(init, sep);
        lemma_cat_one_line(join(init, sep), sep);
        lemma_cat_one_line(join(init, sep) + sep, parts.last());
    } else if parts.len() == 1 {
        assert(one_line(parts[0]));
    }
}

proof fn lemma_binding_one_line(b: KeyBindingView)
    ensures
        one_line(binding_json(b)),
{
    reveal_strlit("{\"kind\":");
    reveal_strlit(",\"desc\":");
    reveal_strlit(",\"tap\":");
    reveal_strlit(",\"hold\":");
    reveal_strlit("}");
    lemma_quoted_one_line(b.kind);
    lemma_quoted_one_line(b.desc);
    let a = "{\"kind\":"@ + json_quoted(b.kind) + ",\"desc\":"@ + json_quoted(b.desc);
    lemma_cat_one_line("{\"kind\":"@, json_quoted(b.kind));
    lemma_cat_one_line("{\"kind\":"@ + json_quoted(b.kind), ",\"desc\":"@);
    lemma_cat_one_line("{\"kind\":"@ + json_quoted(b.kind) + ",\"desc\":"@, json_quoted(b.desc));
    let t = match b.tap {
        Some(t) => ",\"tap\":"@ + json_quoted(t),
        None => Seq::empty(),
    };
    let h = match b.hold {
        Some(h) => ",\"hold\":"@ + json_quoted(h),
        None => Seq::empty(),
    };
    match b.tap {
        Some(x) => {
            lemma_quoted_one_line(x);
            lemma_cat_one_line(",\"tap\":"@, json_quoted(x));
        },
        None => {},
    }
    match b.hold {
        Some(x) => {
            lemma_quoted_one_line(x);
            lemma_cat_one_line(",\"hold\":"@, json_quoted(x));
        },
        None => {},
    }
    lemma_cat_one_line(a, t);
    lemma_cat_one_line(a + t, h);
    lemma_cat_one_line(a + t + h, "}"@);
}

proof fn lemma_member_one_line(key: Seq<char>, value: Seq<char>)
    requires
        one_line(value),
    ensures
        one_line(member(key, value)),
{
    reveal_strlit(":");
    lemma_quoted_one_line(key);
    lemma_cat_one_line(json_quoted(key), ":"@);
    lemma_cat_one_line(json_quoted(key) + ":"@, value);
}

proof fn lemma_braced_one_line(open: Seq<char>, body: Seq<char>, close: Seq<char>)
    requires
        one_line(open),
        one_line(body),
        one_line(close),
    ensures
        one_line(open + body + close),
{
    lemma_cat_one_line(open, body);
    lemma_cat_one_line(open + body, close);
}

proof fn lemma_layer_map_one_line(m: Map<Seq<char>, KeyBindingView>)
    ensures
        one_line(layer_map_json(m)),
{
    reveal_strlit("{");
    reveal_strlit(",");
    reveal_strlit("}");
    let e = sorted_entries(m);
    let parts = layer_members(e);
    assert forall|i: int| 0 <= i < parts.len() implies one_line(#[trigger] parts[i]) by {
        lemma_binding_one_line(e[i].1);
        lemma_member_one_line(e[i].0, binding_json(e[i].1));
    }
    lemma_join_one_line(parts, ","@);
    lemma_braced_one_line("{"@, join(parts, ","@), "}"@);
}

proof fn lemma_string_array_one_line(s: Seq<Seq<char>>)
    ensures
        one_line(json_string_array(s)),
{
    reveal_strlit("[");
    reveal_strlit(",");
    reveal_strlit("]");
    let parts = json_strings(s);
    assert forall|i: int| 0 <= i < parts.len() implies one_line(#[trigger] parts[i]) by {
        lemma_quoted_one_line(s[i]);
    }
    lemma_join_one_line(parts, ","@);
    lemma_braced_one_line("["@, join(parts, ","@), "]"@);
}

proof fn lemma_keymap_one_line(k: KeymapView)
    ensures
        one_line(keymap_json(k)),
{
    reveal_strlit("{\"layers\":");
    reveal_strlit(",\"keys\":{");
    reveal_strlit(",");
    reveal_strlit("}}");
    let e = sorted_entries(k.keys);
    let parts = key_members(e);
    assert forall|i: int| 0 <= i < parts.len() implies one_line(#[trigger] parts[i]) by {
        lemma_layer_map_one_line(e[i].1);
        lemma_member_one_line(e[i].0, layer_map_json(e[i].1));
    }
    lemma_join_one_line(parts, ","@);
    lemma_string_array_one_line(k.layers);
    lemma_braced_one_line("{\"layers\":"@, json_string_array(k.layers), ",\"keys\":{"@);
    lemma_braced_one_line(
        "{\"layers\":"@ + json_string_array(k.layers) + ",\"keys\":{"@,
        join(parts, ","@),
        "}}"@,
    );
}

/// A framed one-line text is exactly one line on the wire: its last byte is the newline, no
/// byte before it is one, and those bytes are valid UTF-8 decoding to the text.
proof fn lemma_frame_one_line(text: Seq<char>)
    requires
        one_line(text),
    ensures
        frame(text).len() > 0,
        frame(text).last() == 10u8,
        !frame(text).drop_last().contains(10u8),
        valid_utf8(frame(text).drop_last()),
        decode_utf8(frame(text).drop_last()) == text,
{
    lemma_frame(text);
    lemma_encode_no_newline(text);
    assert(frame(text).drop_last() =~= encode_utf8(text));
}

proof fn lemma_scalar_no_newline(c: char)
    requires
        c != '\n',
    ensures
        !encode_scalar(c as u32).contains(10u8),
{
    let v = c as u32;
    if has_width_1_encoding(v) {
        assert(v != 10);
        assert(leading_byte_width_1(v) == v as u8) by (bit_vector)
            requires
                v <= 0x7f,
        ;
        assert(encode_scalar(v)[0] != 10u8);
    } else {
        assert(leading_byte_width_2(v) != 10u8) by (bit_vector);
        assert(leading_byte_width_3(v) != 10u8) by (bit_vector);
        assert(leading_byte_width_4(v) != 10u8) by (bit_vector);
        assert(last_continuation_byte(v) != 10u8) by (bit_vector);
        assert(second_last_continuation_byte(v) != 10u8) by (bit_vector);
        assert(third_last_continuation_byte(v) != 10u8) by (bit_vector);
    }
}

proof fn lemma_encode_no_newline(text: Seq<char>)
    requires
        one_line(text),
    ensures
        !encode_utf8(text).contains(10u8),
    decreases text.len(),
{
    if text.len() > 0 {
        let rest = text.drop_first();
        assert forall|i: int| 0 <= i < rest.len() implies rest[i] != '\n' by {
            assert(rest[i] == text[i + 1]);
        }
        lemma_encode_no_newline(rest);
        assert(text[0] != '\n');
        lemma_scalar_no_newline(text[0]);
        let a = encode_scalar(text[0] as u32);
        let b = encode_utf8(rest);
        assert(encode_utf8(text) == a + b);
        if (a + b).contains(10u8) {
            let i = choose|i: int| 0 <= i < (a + b).len() && (a + b)[i] == 10u8;
            if i < a.len() {
                assert(a[i] == 10u8);
            } else {
                assert(b[i - a.len()] == 10u8);
            }
        }
    }
}

/// Every response goes over the wire as exactly one line: the UTF-8 bytes of its JSON text, with
/// no newline among them, then one newline.
pub proof fn lemma_response_is_one_line(r: ServerResponse)
    ensures
        frame(server_response_json(r)).len() > 1,
        frame(server_response_json(r)).last() == 10u8,
        !frame(server_response_json(r)).drop_last().contains(10u8),
        decode_utf8(frame(server_response_json(r)).drop_last()) == server_response_json(r),
{
    reveal_strlit("{\"status\":\"Ok\"}");
    reveal_strlit("{\"status\":\"Error\",\"msg\":");
    reveal_strlit("}");
    match r {
        ServerResponse::Okay => {},
        ServerResponse::Error { msg } => {
            lemma_quoted_one_line(msg@);
            lemma_braced_one_line("{\"status\":\"Error\",\"msg\":"@, json_quoted(msg@), "}"@);
        },
    }
    lemma_frame_one_line(server_response_json(r));
    assert(encode_utf8(server_response_json(r)).len() > 0) by {
        assert(server_response_json(r).len() > 0);
    }
    assert(frame(server_response_json(r)).drop_last() =~= encode_utf8(server_response_json(r)));
}

/// The JSON text of a response: tagged by `status`.
pub open spec fn server_response_json(r: ServerResponse) -> Seq<char> {
    match r {
        ServerResponse::Okay => "{\"status\":\"Ok\"}"@,
        ServerResponse::Error { msg } => "{\"status\":\"Error\",\"msg\":"@ + json_quoted(msg@)
            + "}"@,
    }
}

/// The JSON text of a server message: an object whose one member is named by the variant.
pub open spec fn server_message_json(m: ServerMessage) -> Seq<char> {
    match m {
        ServerMessage::LayerChange { new } => "{\"LayerChange\":{\"new\":"@ + json_quoted(
            new@,
        ) + "}}"@,
        ServerMessage::LayerNames { names } => "{\"LayerNames\":{\"names\":"@ + json_string_array(
            texts(names@),
        ) + "}}"@,
        ServerMessage::CurrentLayerInfo { name, cfg_text } => "{\"CurrentLayerInfo\":{\"name\":"@
            + json_quoted(name@) + ",\"cfg_text\":"@ + json_quoted(cfg_text@) + "}}"@,
        ServerMessage::ConfigFileReload { new } => "{\"ConfigFileReload\":{\"new\":"@
            + json_quoted(new@) + "}}"@,
        ServerMessage::CurrentLayerName { name } => "{\"CurrentLayerName\":{\"name\":"@
            + json_quoted(name@) + "}}"@,
        ServerMessage::MessagePush { message } => "{\"MessagePush\":{\"message\":"@ + value_json(
            message,
        ) + "}}"@,
        ServerMessage::Keymap { keymap } => "{\"Keymap\":{\"keymap\":"@ + keymap_json(keymap@)
            + "}}"@,
        ServerMessage::Error { msg } => "{\"Error\":{\"msg\":"@ + json_quoted(msg@) + "}}"@,
    }
}

/// The compact JSON text of a value, as `serde_json` writes it: `null`, `true`, `false`, a
/// number as its text, a string quoted and escaped, an array's items and an object's
/// `"name":value` members comma-separated in their order, with no whitespace.
pub open spec fn value_json(v: JsonValue) -> Seq<char>
    decreases v, 0int,
{
    match v {
        JsonValue::Null => "null"@,
        JsonValue::Bool(b) => if b {
            "true"@
        } else {
            "false"@
        },
        JsonValue::Number(n) => n@,
        JsonValue::Text(t) => json_quoted(t@),
        JsonValue::Array(items) => "["@ + items_json(items@, items@.len() as int) + "]"@,
        JsonValue::Object(members) => "{"@ + members_json(members@, members@.len() as int)
            + "}"@,
    }
}

/// The first `n` items, each as JSON, comma-separated.
pub open spec fn items_json(items: Seq<JsonValue>, n: int) -> Seq<char>
    decreases items, n,
{
    if n <= 0 || n > items.len() {
        Seq::empty()
    } else if n == 1 {
        value_json(items[0])
    } else {
        items_json(items, n - 1) + ","@ + value_json(items[n - 1])
    }
}

/// The first `n` members, each as `"name":value`, comma-separated.
pub open spec fn members_json(members: Seq<(String, JsonValue)>, n: int) -> Seq<char>
    decreases members, n,
{
    if n <= 0 || n > members.len() {
        Seq::empty()
    } else if n == 1 {
        json_quoted(members[0].0@) + ":"@ + value_json(members[0].1)
    } else {
        members_json(members, n - 1) + ","@ + json_quoted(members[n - 1].0@) + ":"@ + value_json(
            members[n - 1].1,
        )
    }
}

/// Appends the compact JSON text of `v`.
pub fn push_value(out: &mut String, v: &JsonValue)
    ensures
        final(out)@ == old(out)@ + value_json(*v),
    decreases v,
{
    match v {
        JsonValue::Null => out.append("null"),
        JsonValue::Bool(b) => {
            if *b {
                out.append("true");
            } else {
                out.append("false");
            }
        },
        JsonValue::Number(n) => out.append(n.as_str()),
        JsonValue::Text(t) => push_json_string(out, t.as_str()),
        JsonValue::Array(items) => {
            let ghost start = out@ + "["@;
            out.append("[");
            let n = items.len();
            let mut i: usize = 0;
            while i < n
                invariant
                    n == items@.len(),
                    *v == JsonValue::Array(*items),
                    0 <= i <= n,
                    out@ == start + items_json(items@, i as int),
                decreases n - i,
            {
                if i > 0 {
                    out.append(",");
                }
                proof {
                    assert(decreases_to!(*v => (*v)->Array_0));
                    assert(decreases_to!(*items => items@));
                    assert(decreases_to!(items@ => items@[i as int]));
                }
                push_value(out, &items[i]);
                assert(out@ =~= start + items_json(items@, i + 1));
                i = i + 1;
            }
            out.append("]");
        },
        JsonValue::Object(members) => {
            let ghost start = out@ + "{"@;
            out.append("{");
            let n = members.len();
            let mut i: usize = 0;
            while i < n
                invariant
                    n == members@.len(),
                    *v == JsonValue::Object(*members),
                    0 <= i <= n,
                    out@ == start + members_json(members@, i as int),
                decreases n - i,
            {
                if i > 0 {
                    out.append(",");
                }
                push_json_string(out, members[i].0.as_str());
                out.append(":");
                proof {
                    assert(decreases_to!(*v => (*v)->Object_0));
                    assert(decreases_to!(*members => members@));
                    assert(decreases_to!(members@ => members@[i as int]));
                    assert(decreases_to!(members@[i as int] => members@[i as int].1));
                }
                push_value(out, &members[i].1);
                assert(out@ =~= start + members_json(members@, i + 1));
                i = i + 1;
            }
            out.append("}");
        },
    }
}

/// The UTF-8 bytes of `text` followed by a newline.
fn framed(text: String) -> (res: Vec<u8>)
    ensures
        res@ == frame(text@),
{
    let mut bytes = text.as_str().as_bytes_vec();
    bytes.push(10u8);
    bytes
}

impl ServerResponse {
    /// The response as a newline-terminated JSON line.
    pub fn as_bytes(&self) -> (res: Vec<u8>)
        ensures
            res@ == frame(server_response_json(*self)),
    {
        match self {
            ServerResponse::Okay => framed(String::from_str("{\"status\":\"Ok\"}")),
            ServerResponse::Error { msg } => {
                let mut s = String::from_str("{\"status\":\"Error\",\"msg\":");
                push_json_string(&mut s, msg.as_str());
                s.append("}");
                framed(s)
            },
        }
    }
}

impl ServerMessage {
    /// The message as a newline-terminated JSON line.
    pub fn as_bytes(&self) -> (res: Vec<u8>)
        ensures
            res@ == frame(server_message_json(*self)),
    {
        let mut s = String::new();
        match self {
            ServerMessage::LayerChange { new } => {
                s.append("{\"LayerChange\":{\"new\":");
                push_json_string(&mut s, new.as_str());
            },
            ServerMessage::LayerNames { names } => {
                s.append("{\"LayerNames\":{\"names\":");
                push_string_array(&mut s, names);
            },
            ServerMessage::CurrentLayerInfo { name, cfg_text } => {
                s.append("{\"CurrentLayerInfo\":{\"name\":");
                push_json_string(&mut s, name.as_str());
                s.append(",\"cfg_text\":");
                push_json_string(&mut s, cfg_text.as_str());
            },
            ServerMessage::ConfigFileReload { new } => {
                s.append("{\"ConfigFileReload\":{\"new\":");
                push_json_string(&mut s, new.as_str());
            },
            ServerMessage::CurrentLayerName { name } => {
                s.append("{\"CurrentLayerName\":{\"name\":");
                push_json_string(&mut s, name.as_str());
            },
            ServerMessage::MessagePush { message } => {
                s.append("{\"MessagePush\":{\"message\":");
                push_value(&mut s, message);
            },
            ServerMessage::Keymap { keymap } => {
                s.append("{\"Keymap\":{\"keymap\":");
                push_keymap(&mut s, keymap);
            },
            ServerMessage::Error { msg } => {
                s.append("{\"Error\":{\"msg\":");
                push_json_string(&mut s, msg.as_str());
            },
        }
        s.append("}}");
        let ghost t = s@;
        let res = framed(s);
        assert(t =~= server_message_json(*self));
        res
    }
}

/// Every number in `v` has its text on one line.
pub open spec fn numbers_one_line(v: JsonValue) -> bool
    decreases v, 0int,
{
    match v {
        JsonValue::Number(n) => one_line(n@),
        JsonValue::Array(items) => items_numbers_one_line(items@, items@.len() as int),
        JsonValue::Object(members) => members_numbers_one_line(members@, members@.len() as int),
        _ => true,
    }
}

/// Every number in the first `n` items has its text on one line.
pub open spec fn items_numbers_one_line(items: Seq<JsonValue>, n: int) -> bool
    decreases items, n,
{
    if n <= 0 || n > items.len() {
        true
    } else {
        items_numbers_one_line(items, n - 1) && numbers_one_line(items[n - 1])
    }
}

/// Every number in the values of the first `n` members has its text on one line.
pub open spec fn members_numbers_one_line(members: Seq<(String, JsonValue)>, n: int) -> bool
    decreases members, n,
{
    if n <= 0 || n > members.len() {
        true
    } else {
        members_numbers_one_line(members, n - 1) && numbers_one_line(members[n - 1].1)
    }
}

proof fn lemma_value_one_line(v: JsonValue)
    requires
        numbers_one_line(v),
    ensures
        one_line(value_json(v)),
    decreases v, 0int,
{
    reveal_strlit("null");
    reveal_strlit("true");
    reveal_strlit("false");
    reveal_strlit("[");
    reveal_strlit("]");
    reveal_strlit("{");
    reveal_strlit("}");
    match v {
        JsonValue::Text(t) => {
            lemma_quoted_one_line(t@);
        },
        JsonValue::Array(items) => {
            lemma_items_one_line(items@, items@.len() as int);
            lemma_braced_one_line("["@, items_json(items@, items@.len() as int), "]"@);
        },
        JsonValue::Object(members) => {
            lemma_members_one_line(members@, members@.len() as int);
            lemma_braced_one_line("{"@, members_json(members@, members@.len() as int), "}"@);
        },
        _ => {},
    }
}

proof fn lemma_items_one_line(items: Seq<JsonValue>, n: int)
    requires
        items_numbers_one_line(items, n),
    ensures
        one_line(items_json(items, n)),
    decreases items, n,
{
    reveal_strlit(",");
    if 0 < n <= items.len() {
        lemma_value_one_line(items[n - 1]);
        if n > 1 {
            lemma_items_one_line(items, n - 1);
            lemma_braced_one_line(items_json(items, n - 1), ","@, value_json(items[n - 1]));
        }
    }
}

proof fn lemma_members_one_line(members: Seq<(String, JsonValue)>, n: int)
    requires
        members_numbers_one_line(members, n),
    ensures
        one_line(members_json(members, n)),
    decreases members, n,
{
    reveal_strlit(",");
    reveal_strlit(":");
    if 0 < n <= members.len() {
        let m = members[n - 1];
        lemma_value_one_line(m.1);
        lemma_quoted_one_line(m.0@);
        lemma_braced_one_line(json_quoted(m.0@), ":"@, value_json(m.1));
        if n > 1 {
            lemma_members_one_line(members, n - 1);
            lemma_braced_one_line(members_json(members, n - 1), ","@, json_quoted(m.0@));
            lemma_braced_one_line(
                members_json(members, n - 1) + ","@ + json_quoted(m.0@),
                ":"@,
                value_json(m.1),
            );
        }
    }
}

/// Every server message goes over the wire as exactly one line: the UTF-8 bytes of its JSON
/// text, with no newline among them, then one newline. (A pushed value's numbers are held as
/// text; the law asks that each be one line, as every JSON number is.)
pub proof fn lemma_message_is_one_line(m: ServerMessage)
    requires
        m matches ServerMessage::MessagePush { message } ==> numbers_one_line(message),
    ensures
        frame(server_message_json(m)).len() > 1,
        frame(server_message_json(m)).last() == 10u8,
        !frame(server_message_json(m)).drop_last().contains(10u8),
        decode_utf8(frame(server_message_json(m)).drop_last()) == server_message_json(m),
{
    reveal_strlit("}}");
    let close = "}}"@;
    match m {
        ServerMessage::LayerChange { new } => {
            reveal_strlit("{\"LayerChange\":{\"new\":");
            lemma_quoted_one_line(new@);
            lemma_braced_one_line("{\"LayerChange\":{\"new\":"@, json_quoted(new@), close);
        },
        ServerMessage::LayerNames { names } => {
            reveal_strlit("{\"LayerNames\":{\"names\":");
            lemma_string_array_one_line(texts(names@));
            lemma_braced_one_line(
                "{\"LayerNames\":{\"names\":"@,
                json_string_array(texts(names@)),
                close,
            );
        },
        ServerMessage::CurrentLayerInfo { name, cfg_text } => {
            reveal_strlit("{\"CurrentLayerInfo\":{\"name\":");
            reveal_strlit(",\"cfg_text\":");
            lemma_quoted_one_line(name@);
            lemma_quoted_one_line(cfg_text@);
            lemma_braced_one_line(
                "{\"CurrentLayerInfo\":{\"name\":"@,
                json_quoted(name@),
                ",\"cfg_text\":"@,
            );
            lemma_braced_one_line(
                "{\"CurrentLayerInfo\":{\"name\":"@ + json_quoted(name@) + ",\"cfg_text\":"@,
                json_quoted(cfg_text@),
                close,
            );
        },
        ServerMessage::ConfigFileReload { new } => {
            reveal_strlit("{\"ConfigFileReload\":{\"new\":");
            lemma_quoted_one_line(new@);
            lemma_braced_one_line("{\"ConfigFileReload\":{\"new\":"@, json_quoted(new@), close);
        },
        ServerMessage::CurrentLayerName { name } => {
            reveal_strlit("{\"CurrentLayerName\":{\"name\":");
            lemma_quoted_one_line(name@);
            lemma_braced_one_line("{\"CurrentLayerName\":{\"name\":"@, json_quoted(name@), close);
        },
        ServerMessage::MessagePush { message } => {
            reveal_strlit("{\"MessagePush\":{\"message\":");
            lemma_value_one_line(message);
            lemma_braced_one_line("{\"MessagePush\":{\"message\":"@, value_json(message), close);
        },
        ServerMessage::Keymap { keymap } => {
            reveal_strlit("{\"Keymap\":{\"keymap\":");
            lemma_keymap_one_line(keymap@);
            lemma_braced_one_line("{\"Keymap\":{\"keymap\":"@, keymap_json(keymap@), close);
        },
        ServerMessage::Error { msg } => {
            reveal_strlit("{\"Error\":{\"msg\":");
            lemma_quoted_one_line(msg@);
            lemma_braced_one_line("{\"Error\":{\"msg\":"@, json_quoted(msg@), close);
        },
    }
    let t = server_message_json(m);
    lemma_frame_one_line(t);
    assert(t.len() > 0);
    assert(frame(t).drop_last() =~= encode_utf8(t));
}

/// The JSON text of a virtual key action: its name as a string.
pub open spec fn fake_key_action_json(a: FakeKeyActionMessage) -> Seq<char> {
    match a {
        FakeKeyActionMessage::Press => "\"Press\""@,
        FakeKeyActionMessage::Release => "\"Release\""@,
        FakeKeyActionMessage::Tap => "\"Tap\""@,
        FakeKeyActionMessage::Toggle => "\"Toggle\""@,
    }
}

/// The JSON text of a client message: an object whose one member is named by the variant.
pub open spec fn client_message_json(m: ClientMessage) -> Seq<char> {
    match m {
        ClientMessage::ChangeLayer { new } => "{\"ChangeLayer\":{\"new\":"@ + json_quoted(
            new@,
        ) + "}}"@,
        ClientMessage::RequestLayerNames {  } => "{\"RequestLayerNames\":{}}"@,
        ClientMessage::RequestCurrentLayerInfo {  } => "{\"RequestCurrentLayerInfo\":{}}"@,
        ClientMessage::RequestCurrentLayerName {  } => "{\"RequestCurrentLayerName\":{}}"@,
        ClientMessage::RequestKeymap {  } => "{\"RequestKeymap\":{}}"@,
        ClientMessage::ActOnFakeKey { name, action } => "{\"ActOnFakeKey\":{\"name\":"@
            + json_quoted(name@) + ",\"action\":"@ + fake_key_action_json(action) + "}}"@,
        ClientMessage::SetMouse { x, y } => "{\"SetMouse\":{\"x\":"@ + dec(x as nat) + ",\"y\":"@
            + dec(y as nat) + "}}"@,
        ClientMessage::Reload {  } => "{\"Reload\":{}}"@,
        ClientMessage::ReloadNext {  } => "{\"ReloadNext\":{}}"@,
        ClientMessage::ReloadPrev {  } => "{\"ReloadPrev\":{}}"@,
        ClientMessage::ReloadNum { index } => "{\"ReloadNum\":{\"index\":"@ + dec(index as nat)
            + "}}"@,
        ClientMessage::ReloadFile { path } => "{\"ReloadFile\":{\"path\":"@ + json_quoted(
            path@,
        ) + "}}"@,
    }
}

proof fn lemma_dec_one_line(n: nat)
    ensures
        one_line(dec(n)),
    decreases n,
{
    if n >= 10 {
        lemma_dec_one_line(n / 10);
        let d = digit_char((n % 10) as int);
        assert(d != '\n');
        lemma_cat_one_line(dec(n / 10), seq![d]);
        assert(dec(n) =~= dec(n / 10) + seq![d]);
    } else {
        assert(digit_char(n as int) != '\n');
    }
}

/// Every client message goes over the wire as exactly one line: the UTF-8 bytes of its JSON
/// text, with no newline among them, then one newline.
pub proof fn lemma_client_message_is_one_line(m: ClientMessage)
    ensures
        frame(client_message_json(m)).len() > 1,
        frame(client_message_json(m)).last() == 10u8,
        !frame(client_message_json(m)).drop_last().contains(10u8),
        decode_utf8(frame(client_message_json(m)).drop_last()) == client_message_json(m),
{
    reveal_strlit("}}");
    let close = "}}"@;
    match m {
        ClientMessage::ChangeLayer { new } => {
            reveal_strlit("{\"ChangeLayer\":{\"new\":");
            lemma_quoted_one_line(new@);
            lemma_braced_one_line("{\"ChangeLayer\":{\"new\":"@, json_quoted(new@), close);
        },
        ClientMessage::RequestLayerNames {  } => {
            reveal_strlit("{\"RequestLayerNames\":{}}");
        },
        ClientMessage::RequestCurrentLayerInfo {  } => {
            reveal_strlit("{\"RequestCurrentLayerInfo\":{}}");
        },
        ClientMessage::RequestCurrentLayerName {  } => {
            reveal_strlit("{\"RequestCurrentLayerName\":{}}");
        },
        ClientMessage::RequestKeymap {  } => {
            reveal_strlit("{\"RequestKeymap\":{}}");
        },
        ClientMessage::ActOnFakeKey { name, action } => {
            reveal_strlit("{\"ActOnFakeKey\":{\"name\":");
            reveal_strlit(",\"action\":");
            reveal_strlit("\"Press\"");
            reveal_strlit("\"Release\"");
            reveal_strlit("\"Tap\"");
            reveal_strlit("\"Toggle\"");
            lemma_quoted_one_line(name@);
            let a = "{\"ActOnFakeKey\":{\"name\":"@ + json_quoted(name@) + ",\"action\":"@;
            lemma_braced_one_line("{\"ActOnFakeKey\":{\"name\":"@, json_quoted(name@), ",\"action\":"@);
            assert(one_line(fake_key_action_json(action)));
            lemma_braced_one_line(a, fake_key_action_json(action), close);
        },
        ClientMessage::SetMouse { x, y } => {
            reveal_strlit("{\"SetMouse\":{\"x\":");
            reveal_strlit(",\"y\":");
            lemma_dec_one_line(x as nat);
            lemma_dec_one_line(y as nat);
            let a = "{\"SetMouse\":{\"x\":"@ + dec(x as nat) + ",\"y\":"@;
            lemma_braced_one_line("{\"SetMouse\":{\"x\":"@, dec(x as nat), ",\"y\":"@);
            lemma_braced_one_line(a, dec(y as nat), close);
        },
        ClientMessage::Reload {  } => {
            reveal_strlit("{\"Reload\":{}}");
        },
        ClientMessage::ReloadNext {  } => {
            reveal_strlit("{\"ReloadNext\":{}}");
        },
        ClientMessage::ReloadPrev {  } => {
            reveal_strlit("{\"ReloadPrev\":{}}");
        },
        ClientMessage::ReloadNum { index } => {
            reveal_strlit("{\"ReloadNum\":{\"index\":");
            lemma_dec_one_line(index as nat);
            lemma_braced_one_line("{\"ReloadNum\":{\"index\":"@, dec(index as nat), close);
        },
        ClientMessage::ReloadFile { path } => {
            reveal_strlit("{\"ReloadFile\":{\"path\":");
            lemma_quoted_one_line(path@);
            lemma_braced_one_line("{\"ReloadFile\":{\"path\":"@, json_quoted(path@), close);
        },
    }
    let t = client_message_json(m);
    lemma_frame_one_line(t);
    assert(t.len() > 0);
    assert(frame(t).drop_last() =~= encode_utf8(t));
}

proof fn lemma_strip_frame(p: Seq<char>, x: Seq<char>, y: Seq<char>, q: Seq<char>)
    requires
        p + x + q == p + y + q,
    ensures
        x == y,
{
    let t = p + x + q;
    assert((p + x + q).len() == p.len() + x.len() + q.len());
    assert((p + y + q).len() == p.len() + y.len() + q.len());
    assert(x.len() == y.len());
    assert(x =~= t.subrange(p.len() as int, (p.len() + x.len()) as int));
    assert(y =~= (p + y + q).subrange(p.len() as int, (p.len() + y.len()) as int));
}

/// Messages that act on the same virtual key with different actions are sent as different
/// lines: the line names the action that was asked for, so a press is never sent as a tap.
pub proof fn lemma_fake_key_actions_distinguished(
    name: String,
    a1: FakeKeyActionMessage,
    a2: FakeKeyActionMessage,
)
    requires
        a1 != a2,
    ensures
        client_message_json(ClientMessage::ActOnFakeKey { name, action: a1 }) != client_message_json(
            ClientMessage::ActOnFakeKey { name, action: a2 },
        ),
{
    reveal_strlit("\"Press\"");
    reveal_strlit("\"Release\"");
    reveal_strlit("\"Tap\"");
    reveal_strlit("\"Toggle\"");
    let p = "{\"ActOnFakeKey\":{\"name\":"@ + json_quoted(name@) + ",\"action\":"@;
    let f1 = fake_key_action_json(a1);
    let f2 = fake_key_action_json(a2);
    assert(f1.len() != f2.len()) by {
        match a1 {
            FakeKeyActionMessage::Press => {},
            FakeKeyActionMessage::Release => {},
            FakeKeyActionMessage::Tap => {},
            FakeKeyActionMessage::Toggle => {},
        }
        match a2 {
            FakeKeyActionMessage::Press => {},
            FakeKeyActionMessage::Release => {},
            FakeKeyActionMessage::Tap => {},
            FakeKeyActionMessage::Toggle => {},
        }
    }
    if client_message_json(ClientMessage::ActOnFakeKey { name, action: a1 }) == client_message_json(
        ClientMessage::ActOnFakeKey { name, action: a2 },
    ) {
        lemma_strip_frame(p, f1, f2, "}}"@);
    }
}

/// The virtual-key action a client names `name` on the wire: each variant goes by its own name.
pub open spec fn fake_key_action_named(name: Seq<char>) -> Option<FakeKeyActionMessage> {
    if name == "Press"@ {
        Some(FakeKeyActionMessage::Press)
    } else if name == "Release"@ {
        Some(FakeKeyActionMessage::Release)
    } else if name == "Tap"@ {
        Some(FakeKeyActionMessage::Tap)
    } else if name == "Toggle"@ {
        Some(FakeKeyActionMessage::Toggle)
    } else {
        None
    }
}

/// A line that acts on a virtual key carries the key's name as a JSON string and the action
/// as a JSON string holding the action's own name, so reading the action back gives the
/// action that was sent.
pub proof fn lemma_fake_key_action_reads_back(name: String, action: FakeKeyActionMessage)
    ensures
        exists|w: Seq<char>|
            fake_key_action_named(w) == Some(action) && client_message_json(
                ClientMessage::ActOnFakeKey { name, action },
            ) == "{\"ActOnFakeKey\":{\"name\":"@ + json_quoted(name@) + ",\"action\":"@ + (
            seq!['"'] + w + seq!['"']) + "}}"@,
{
    reveal_strlit("\"Press\"");
    reveal_strlit("\"Release\"");
    reveal_strlit("\"Tap\"");
    reveal_strlit("\"Toggle\"");
    reveal_strlit("Press");
    reveal_strlit("Release");
    reveal_strlit("Tap");
    reveal_strlit("Toggle");
    let w = match action {
        FakeKeyActionMessage::Press => "Press"@,
        FakeKeyActionMessage::Release => "Release"@,
        FakeKeyActionMessage::Tap => "Tap"@,
        FakeKeyActionMessage::Toggle => "Toggle"@,
    };
    assert(fake_key_action_json(action) =~= seq!['"'] + w + seq!['"']);
    assert(fake_key_action_named(w) == Some(action));
}

/// Serialize a client message as a newline-terminated JSON line.
pub fn encode(msg: &ClientMessage) -> (res: Vec<u8>)
    ensures
        res@ == frame(client_message_json(*msg)),
{
    let s = match msg {
        ClientMessage::ChangeLayer { new } => {
            let mut s = String::from_str("{\"ChangeLayer\":{\"new\":");
            push_json_string(&mut s, new.as_str());
            s.append("}}");
            s
        },
        ClientMessage::RequestLayerNames {  } => String::from_str("{\"RequestLayerNames\":{}}"),
        ClientMessage::RequestCurrentLayerInfo {  } => String::from_str(
            "{\"RequestCurrentLayerInfo\":{}}",
        ),
        ClientMessage::RequestCurrentLayerName {  } => String::from_str(
            "{\"RequestCurrentLayerName\":{}}",
        ),
        ClientMessage::RequestKeymap {  } => String::from_str("{\"RequestKeymap\":{}}"),
        ClientMessage::ActOnFakeKey { name, action } => {
            let mut s = String::from_str("{\"ActOnFakeKey\":{\"name\":");
            push_json_string(&mut s, name.as_str());
            s.append(",\"action\":");
            s.append(
                match action {
                    FakeKeyActionMessage::Press => "\"Press\"",
                    FakeKeyActionMessage::Release => "\"Release\"",
                    FakeKeyActionMessage::Tap => "\"Tap\"",
                    FakeKeyActionMessage::Toggle => "\"Toggle\"",
                },
            );
            s.append("}}");
            s
        },
        ClientMessage::SetMouse { x, y } => {
            let mut s = String::from_str("{\"SetMouse\":{\"x\":");
            push_decimal(&mut s, *x as u64);
            s.append(",\"y\":");
            push_decimal(&mut s, *y as u64);
            s.append("}}");
            s
        },
        ClientMessage::Reload {  } => String::from_str("{\"Reload\":{}}"),
        ClientMessage::ReloadNext {  } => String::from_str("{\"ReloadNext\":{}}"),
        ClientMessage::ReloadPrev {  } => String::from_str("{\"ReloadPrev\":{}}"),
        ClientMessage::ReloadNum { index } => {
            let mut s = String::from_str("{\"ReloadNum\":{\"index\":");
            push_decimal(&mut s, *index as u64);
            s.append("}}");
            s
        },
        ClientMessage::ReloadFile { path } => {
            let mut s = String::from_str("{\"ReloadFile\":{\"path\":");
            push_json_string(&mut s, path.as_str());
            s.append("}}");
            s
        },
    };
    framed(s)
}

} // verus!
