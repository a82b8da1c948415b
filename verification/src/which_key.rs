//! A which-key overlay: which keys a layer binds and what they do, following the active
//! layer as the server reports it.

use vstd::prelude::*;
use crate::protocol::{KeyBinding, KeyBindingView, Keymap, ServerMessage};
use crate::strmap::{
    compare_str, entries_map, entry_keys, lemma_entry_at, lemma_sorted_entries_of, seq_lt, sorted_entries,
    sorted_keys, Rel,
};

verus! {

/// The keys bound on `layer`, each with its binding there, in the order of the entries.
pub open spec fn rows_of(
    e: Seq<(Seq<char>, Map<Seq<char>, KeyBindingView>)>,
    layer: Seq<char>,
) -> Seq<(Seq<char>, KeyBindingView)>
    decreases e.len(),
{
    if e.len() == 0 {
        Seq::empty()
    } else {
        let rest = rows_of(e.drop_last(), layer);
        if e.last().1.contains_key(layer) {
            rest.push((e.last().0, e.last().1[layer]))
        } else {
            rest
        }
    }
}

/// The row at `i` comes from an entry that binds the layer.
proof fn lemma_row_from_entry(
    e: Seq<(Seq<char>, Map<Seq<char>, KeyBindingView>)>,
    layer: Seq<char>,
    i: int,
) -> (j: int)
    requires
        0 <= i < rows_of(e, layer).len(),
    ensures
        0 <= j < e.len(),
        e[j].0 == rows_of(e, layer)[i].0,
        e[j].1.contains_key(layer),
        rows_of(e, layer)[i].1 == e[j].1[layer],
    decreases e.len(),
{
    let init = e.drop_last();
    let rest = rows_of(init, layer);
    if i < rest.len() {
        let j = lemma_row_from_entry(init, layer, i);
        assert(e[j] == init[j]);
        j
    } else {
        (e.len() - 1) as int
    }
}

/// An entry that binds the layer gives a row.
proof fn lemma_entry_gives_row(
    e: Seq<(Seq<char>, Map<Seq<char>, KeyBindingView>)>,
    layer: Seq<char>,
    j: int,
) -> (i: int)
    requires
        0 <= j < e.len(),
        e[j].1.contains_key(layer),
    ensures
        0 <= i < rows_of(e, layer).len(),
        rows_of(e, layer)[i] == (e[j].0, e[j].1[layer]),
    decreases e.len(),
{
    let init = e.drop_last();
    let rest = rows_of(init, layer);
    if j < init.len() {
        assert(init[j] == e[j]);
        let i = lemma_entry_gives_row(init, layer, j);
        assert(rows_of(e, layer)[i] == rest[i]);
        i
    } else {
        (rows_of(e, layer).len() - 1) as int
    }
}

/// With ascending entry keys, the row keys ascend.
proof fn lemma_rows_ascend(
    e: Seq<(Seq<char>, Map<Seq<char>, KeyBindingView>)>,
    layer: Seq<char>,
    i: int,
    k: int,
)
    requires
        sorted_keys(entry_keys(e)),
        0 <= i < k < rows_of(e, layer).len(),
    ensures
        seq_lt(rows_of(e, layer)[i].0, rows_of(e, layer)[k].0),
    decreases e.len(),
{
    let init = e.drop_last();
    let rest = rows_of(init, layer);
    assert(sorted_keys(entry_keys(init))) by {
        assert forall|a: int, b: int| 0 <= a < b < entry_keys(init).len() implies seq_lt(
            #[trigger] entry_keys(init)[a],
            #[trigger] entry_keys(init)[b],
        ) by {
            assert(entry_keys(init)[a] == entry_keys(e)[a]);
            assert(entry_keys(init)[b] == entry_keys(e)[b]);
        }
    }
    assert(rows_of(e, layer)[i] == rest[i]);
    if k < rest.len() {
        assert(rows_of(e, layer)[k] == rest[k]);
        lemma_rows_ascend(init, layer, i, k);
    } else {
        let j = lemma_row_from_entry(init, layer, i);
        assert(rows_of(e, layer)[k].0 == e[e.len() - 1].0);
        assert(entry_keys(e)[j] == e[j].0);
        assert(entry_keys(e)[e.len() - 1] == e[e.len() - 1].0);
        assert(e[j] == init[j]);
    }
}

/// The rows of a layer are exactly the keys bound on that layer, each with its binding there,
/// in strictly ascending key order: no bound key is left out, and nothing else is listed.
pub proof fn lemma_layer_rows_are_the_bound_keys(
    keys: Map<Seq<char>, Map<Seq<char>, KeyBindingView>>,
    layer: Seq<char>,
)
    requires
        sorted_keys(entry_keys(sorted_entries(keys))),
        entries_map(sorted_entries(keys)) == keys,
    ensures
        forall|k: Seq<char>|
            keys.contains_key(k) && (#[trigger] keys[k]).contains_key(layer) ==> exists|i: int|
                0 <= i < rows_of(sorted_entries(keys), layer).len() && #[trigger] rows_of(
                    sorted_entries(keys),
                    layer,
                )[i] == (k, keys[k][layer]),
        forall|i: int|
            0 <= i < rows_of(sorted_entries(keys), layer).len() ==> {
                let r = #[trigger] rows_of(sorted_entries(keys), layer)[i];
                keys.contains_key(r.0) && keys[r.0].contains_key(layer) && r.1 == keys[r.0][layer]
            },
        forall|i: int, j: int|
            0 <= i < j < rows_of(sorted_entries(keys), layer).len() ==> seq_lt(
                #[trigger] rows_of(sorted_entries(keys), layer)[i].0,
                #[trigger] rows_of(sorted_entries(keys), layer)[j].0,
            ),
{
    let e = sorted_entries(keys);
    let rows = rows_of(e, layer);
    assert forall|k: Seq<char>| keys.contains_key(k) && (#[trigger] keys[k]).contains_key(
        layer,
    ) implies exists|i: int| 0 <= i < rows.len() && #[trigger] rows[i] == (k, keys[k][layer]) by {
        let j = choose|j: int| 0 <= j < e.len() && #[trigger] e[j].0 == k;
        lemma_entry_at(e, j);
        let i = lemma_entry_gives_row(e, layer, j);
    }
    assert forall|i: int| 0 <= i < rows.len() implies {
        let r = #[trigger] rows[i];
        keys.contains_key(r.0) && keys[r.0].contains_key(layer) && r.1 == keys[r.0][layer]
    } by {
        let j = lemma_row_from_entry(e, layer, i);
        lemma_entry_at(e, j);
    }
    assert forall|i: int, j: int| 0 <= i < j < rows.len() implies seq_lt(
        #[trigger] rows[i].0,
        #[trigger] rows[j].0,
    ) by {
        lemma_rows_ascend(e, layer, i, j);
    }
}

/// The keys of the rows whose binding starts a sequence (the leader keys).
pub open spec fn leaders_of(rows: Seq<(Seq<char>, KeyBindingView)>) -> Seq<Seq<char>>
    decreases rows.len(),
{
    if rows.len() == 0 {
        Seq::empty()
    } else {
        let rest = leaders_of(rows.drop_last());
        if rows.last().1.kind == "sequence"@ {
            rest.push(rows.last().0)
        } else {
            rest
        }
    }
}

/// The leader at `i` is the key of a row whose binding starts a sequence.
proof fn lemma_leader_from_row(rows: Seq<(Seq<char>, KeyBindingView)>, i: int) -> (j: int)
    requires
        0 <= i < leaders_of(rows).len(),
    ensures
        0 <= j < rows.len(),
        rows[j].0 == leaders_of(rows)[i],
        rows[j].1.kind == "sequence"@,
    decreases rows.len(),
{
    let init = rows.drop_last();
    if i < leaders_of(init).len() {
        let j = lemma_leader_from_row(init, i);
        assert(rows[j] == init[j]);
        j
    } else {
        (rows.len() - 1) as int
    }
}

/// A row whose binding starts a sequence gives a leader.
proof fn lemma_row_gives_leader(rows: Seq<(Seq<char>, KeyBindingView)>, j: int) -> (i: int)
    requires
        0 <= j < rows.len(),
        rows[j].1.kind == "sequence"@,
    ensures
        0 <= i < leaders_of(rows).len(),
        leaders_of(rows)[i] == rows[j].0,
    decreases rows.len(),
{
    let init = rows.drop_last();
    if j < init.len() {
        assert(init[j] == rows[j]);
        let i = lemma_row_gives_leader(init, j);
        assert(leaders_of(rows)[i] == leaders_of(init)[i]);
        i
    } else {
        (leaders_of(rows).len() - 1) as int
    }
}

/// The leader keys are exactly the keys of the rows whose binding is of kind `sequence`: none
/// is missed and no other key is listed.
pub proof fn lemma_leaders_are_the_sequence_rows(rows: Seq<(Seq<char>, KeyBindingView)>)
    ensures
        forall|j: int|
            0 <= j < rows.len() && (#[trigger] rows[j]).1.kind == "sequence"@ ==> exists|i: int|
                0 <= i < leaders_of(rows).len() && #[trigger] leaders_of(rows)[i] == rows[j].0,
        forall|i: int|
            0 <= i < leaders_of(rows).len() ==> exists|j: int|
                0 <= j < rows.len() && (#[trigger] rows[j]).0 == #[trigger] leaders_of(rows)[i]
                    && rows[j].1.kind == "sequence"@,
{
    assert forall|j: int| 0 <= j < rows.len() && (#[trigger] rows[j]).1.kind == "sequence"@ implies exists|
        i: int,
    | 0 <= i < leaders_of(rows).len() && #[trigger] leaders_of(rows)[i] == rows[j].0 by {
        let i = lemma_row_gives_leader(rows, j);
    }
    assert forall|i: int| 0 <= i < leaders_of(rows).len() implies exists|j: int|
        0 <= j < rows.len() && (#[trigger] rows[j]).0 == #[trigger] leaders_of(rows)[i]
            && rows[j].1.kind == "sequence"@ by {
        let j = lemma_leader_from_row(rows, i);
    }
}

/// The text and binding views of a sequence of rows.
pub open spec fn rows_view(rows: Seq<(String, KeyBinding)>) -> Seq<(Seq<char>, KeyBindingView)> {
    rows.map_values(|r: (String, KeyBinding)| (r.0@, r.1@))
}

/// A copy of a binding.
fn copy_binding(b: &KeyBinding) -> (res: KeyBinding)
    ensures
        res@ == b@,
{
    let tap = match &b.tap {
        Some(t) => Some(t.clone()),
        None => None,
    };
    let hold = match &b.hold {
        Some(h) => Some(h.clone()),
        None => None,
    };
    KeyBinding { kind: b.kind.clone(), desc: b.desc.clone(), tap, hold }
}

/// Every key bound on `layer`, with what it does there, in ascending order of key names.
pub fn layer_rows(keymap: &Keymap, layer: &str) -> (rows: Vec<(String, KeyBinding)>)
    ensures
        rows_view(rows@) == rows_of(sorted_entries(keymap@.keys), layer@),
        sorted_keys(entry_keys(sorted_entries(keymap@.keys))),
        entries_map(sorted_entries(keymap@.keys)) == keymap@.keys,
{
    let keys = &keymap.keys;
    let n = keys.len();
    proof {
        lemma_sorted_entries_of(keys.entries_view());
    }
    let mut rows: Vec<(String, KeyBinding)> = Vec::new();
    let mut i: usize = 0;
    while i < n
        invariant
            n == keys.entries_view().len(),
            0 <= i <= n,
            rows_view(rows@) == rows_of(keys.entries_view().take(i as int), layer@),
        decreases n - i,
    {
        let ghost e = keys.entries_view();
        assert(e.take(i + 1).drop_last() =~= e.take(i as int));
        let per_layer = keys.value_at(i);
        match per_layer.get(layer) {
            Some(b) => {
                rows.push((keys.key_at(i).clone(), copy_binding(b)));
                assert(rows_view(rows@) =~= rows_of(e.take(i as int), layer@).push(
                    (e[i as int].0, e[i as int].1[layer@]),
                ));
            },
            None => {},
        }
        i = i + 1;
    }
    assert(keys.entries_view().take(n as int) =~= keys.entries_view());
    rows
}

/// The keys among `rows` whose binding starts a key sequence.
pub fn leader_keys(rows: &Vec<(String, KeyBinding)>) -> (keys: Vec<String>)
    ensures
        crate::text::texts(keys@) == leaders_of(rows_view(rows@)),
{
    let mut keys: Vec<String> = Vec::new();
    let n = rows.len();
    let mut i: usize = 0;
    while i < n
        invariant
            n == rows@.len(),
            0 <= i <= n,
            crate::text::texts(keys@) == leaders_of(rows_view(rows@).take(i as int)),
        decreases n - i,
    {
        let ghost r = rows_view(rows@);
        assert(r.take(i + 1).drop_last() =~= r.take(i as int));
        if compare_str(rows[i].1.kind.as_str(), "sequence") == Rel::Equal {
            keys.push(rows[i].0.clone());
            assert(crate::text::texts(keys@) =~= leaders_of(r.take(i as int)).push(r[i as int].0));
        }
        i = i + 1;
    }
    assert(rows_view(rows@).take(n as int) =~= rows_view(rows@));
    keys
}

/// What the overlay does after a server message.
#[derive(Debug, Clone, PartialEq, Eq)]
pub enum Step {
    /// Show the keys of this layer.
    Render { layer: String },
    /// This layer became active before any keymap arrived.
    AwaitKeymap { layer: String },
    /// Nothing to show.
    Nothing,
}

/// What the overlay knows: the keymap, once it has arrived, and the active layer, once known.
pub struct WhichKey {
    pub keymap: Option<Keymap>,
    pub active_layer: Option<String>,
}

/// The text of an optional string.
pub open spec fn opt_seq(o: Option<String>) -> Option<Seq<char>> {
    match o {
        Some(s) => Some(s@),
        None => None,
    }
}

impl WhichKey {
    /// Nothing known yet.
    pub fn new() -> (w: WhichKey)
        ensures
            w.keymap is None,
            w.active_layer is None,
    {
        WhichKey { keymap: None, active_layer: None }
    }

    /// Take in a server message: a keymap is kept and shown for the active layer if one is
    /// known; a layer change makes that layer active and shows it, or waits for the keymap;
    /// any other message changes nothing.
    pub fn on_message(&mut self, msg: ServerMessage) -> (step: Step)
        ensures
            match msg {
                ServerMessage::Keymap { keymap } => {
                    &&& final(self).keymap == Some(keymap)
                    &&& final(self).active_layer == old(self).active_layer
                    &&& match old(self).active_layer {
                        Some(l) => step matches Step::Render { layer } && layer@ == l@,
                        None => step is Nothing,
                    }
                },
                ServerMessage::LayerChange { new } => {
                    &&& final(self).keymap == old(self).keymap
                    &&& opt_seq(final(self).active_layer) == Some(new@)
                    &&& match old(self).keymap {
                        Some(_) => step matches Step::Render { layer } && layer@ == new@,
                        None => step matches Step::AwaitKeymap { layer } && layer@ == new@,
                    }
                },
                _ => {
                    &&& final(self).keymap == old(self).keymap
                    &&& final(self).active_layer == old(self).active_layer
                    &&& step is Nothing
                },
            },
    {
        match msg {
            ServerMessage::Keymap { keymap } => {
                self.keymap = Some(keymap);
                match &self.active_layer {
                    Some(l) => Step::Render { layer: l.clone() },
                    None => Step::Nothing,
                }
            },
            ServerMessage::LayerChange { new } => {
                self.active_layer = Some(new.clone());
                if self.keymap.is_some() {
                    Step::Render { layer: new }
                } else {
                    Step::AwaitKeymap { layer: new }
                }
            },
            _ => Step::Nothing,
        }
    }
}

} // verus!
