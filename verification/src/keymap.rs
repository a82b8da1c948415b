//! Building the key-centric keymap of a layout: for every physical key, what it does on
//! each layer where it is bound.

use vstd::prelude::*;
use crate::action::Action;
use crate::describe::{binding_of, describe_action, layer_name, layer_name_of};
use crate::names::{os_key_name, os_key_name_of};
use crate::protocol::{opt_text, KeyBinding, KeyBindingView, Keymap};
use crate::strmap::StrMap;
use crate::text::texts;

verus! {

/// The layers of a layout, each by its physical-key row: `layers[i][col]` is the action
/// bound to the physical key with OS code `col` on layer `i`.
#[derive(Debug)]
pub struct Layout {
    pub layers: Vec<Vec<Action>>,
}

/// What the keymap reads of a layer's metadata: its name.
#[derive(Debug, Clone)]
pub struct LayerInfo {
    pub name: String,
}

/// Authored documentation of key positions: `(layer index, column)` to text.
/// Each position appears once.
#[derive(Debug)]
pub struct KeyDocs {
    docs: Vec<((usize, usize), String)>,
}

/// A position of the doc of `p`.
pub open spec fn doc_index(d: Seq<((usize, usize), Seq<char>)>, p: (usize, usize)) -> int {
    choose|i: int| 0 <= i < d.len() && #[trigger] d[i].0 == p
}

/// The docs held by a sequence of entries with distinct positions.
pub open spec fn docs_map(d: Seq<((usize, usize), Seq<char>)>) -> Map<(usize, usize), Seq<char>> {
    Map::new(
        |p: (usize, usize)| exists|i: int| 0 <= i < d.len() && #[trigger] d[i].0 == p,
        |p: (usize, usize)| d[doc_index(d, p)].1,
    )
}

/// In a sequence of doc entries with distinct positions, the doc of `d[i].0` is `d[i].1`.
proof fn lemma_doc_at(d: Seq<((usize, usize), Seq<char>)>, i: int)
    requires
        forall|a: int, b: int| 0 <= a < b < d.len() ==> #[trigger] d[a].0 != #[trigger] d[b].0,
        0 <= i < d.len(),
    ensures
        docs_map(d).contains_key(d[i].0),
        docs_map(d)[d[i].0] == d[i].1,
{
    let p = d[i].0;
    assert(0 <= i < d.len() && d[i].0 == p);
    let j = doc_index(d, p);
    assert(0 <= j < d.len() && d[j].0 == p);
    if j < i {
        assert(d[j].0 != d[i].0);
    } else if i < j {
        assert(d[i].0 != d[j].0);
    }
    assert(docs_map(d).dom().contains(p));
}

impl KeyDocs {
    /// The entries, as positions and texts.
    pub closed spec fn docs_view(self) -> Seq<((usize, usize), Seq<char>)> {
        self.docs@.map_values(|e: ((usize, usize), String)| (e.0, e.1@))
    }

    #[verifier::type_invariant]
    closed spec fn positions_distinct(self) -> bool {
        forall|a: int, b: int|
            0 <= a < b < self.docs_view().len() ==> #[trigger] self.docs_view()[a].0
                != #[trigger] self.docs_view()[b].0
    }
}

impl View for KeyDocs {
    type V = Map<(usize, usize), Seq<char>>;

    open spec fn view(&self) -> Map<(usize, usize), Seq<char>> {
        docs_map(self.docs_view())
    }
}

impl KeyDocs {
    /// No docs.
    pub fn new() -> (d: KeyDocs)
        ensures
            d@ == Map::<(usize, usize), Seq<char>>::empty(),
    {
        let d = KeyDocs { docs: Vec::new() };
        assert(d.docs_view() =~= Seq::<((usize, usize), Seq<char>)>::empty());
        assert(d@ =~= Map::<(usize, usize), Seq<char>>::empty());
        d
    }

    /// The position of the doc of `(layer, col)` among the entries.
    fn find(&self, layer: usize, col: usize) -> (r: Option<usize>)
        ensures
            match r {
                Some(i) => i < self.docs_view().len() && self.docs_view()[i as int].0 == (
                    layer,
                    col,
                ),
                None => forall|i: int|
                    0 <= i < self.docs_view().len() ==> #[trigger] self.docs_view()[i].0 != (
                        layer,
                        col,
                    ),
            },
    {
        let n = self.docs.len();
        let mut i: usize = 0;
        while i < n
            invariant
                n == self.docs_view().len(),
                n == self.docs@.len(),
                0 <= i <= n,
                forall|j: int| 0 <= j < i ==> #[trigger] self.docs_view()[j].0 != (layer, col),
            decreases n - i,
        {
            if self.docs[i].0.0 == layer && self.docs[i].0.1 == col {
                return Some(i);
            }
            i = i + 1;
        }
        None
    }

    /// The doc of the key at column `col` on layer `layer`.
    pub fn get(&self, layer: usize, col: usize) -> (r: Option<&String>)
        ensures
            match r {
                Some(s) => self@.contains_key((layer, col)) && s@ == self@[(layer, col)],
                None => !self@.contains_key((layer, col)),
            },
    {
        proof {
            use_type_invariant(self);
        }
        match self.find(layer, col) {
            Some(i) => {
                proof {
                    lemma_doc_at(self.docs_view(), i as int);
                }
                Some(&self.docs[i].1)
            },
            None => None,
        }
    }

    /// Documents the key at column `col` on layer `layer`, replacing an earlier doc.
    pub fn insert(&mut self, layer: usize, col: usize, doc: String)
        ensures
            final(self)@ == old(self)@.insert((layer, col), doc@),
    {
        proof {
            use_type_invariant(&*self);
        }
        let ghost old_d = self.docs_view();
        let ghost dv = doc@;
        let found = self.find(layer, col);
        let mut docs: Vec<((usize, usize), String)> = Vec::new();
        std::mem::swap(&mut docs, &mut self.docs);
        let ghost i: int;
        match found {
            Some(j) => {
                docs.set(j, ((layer, col), doc));
                proof {
                    i = j as int;
                    let d = docs@.map_values(|e: ((usize, usize), String)| (e.0, e.1@));
                    assert(d =~= old_d.update(i, ((layer, col), dv)));
                }
            },
            None => {
                docs.push(((layer, col), doc));
                proof {
                    i = old_d.len() as int;
                    let d = docs@.map_values(|e: ((usize, usize), String)| (e.0, e.1@));
                    assert(d =~= old_d.push(((layer, col), dv)));
                }
            },
        }
        self.docs = docs;
        proof {
            let d = self.docs_view();
            let p = (layer, col);
            assert forall|q: (usize, usize)|
                #![trigger old(self)@.insert(p, dv).contains_key(q)]
                docs_map(d).contains_key(q) == old(self)@.insert(p, dv).contains_key(q) && (
                docs_map(d).contains_key(q) ==> docs_map(d)[q] == old(self)@.insert(p, dv)[q]) by {
                if q == p {
                    lemma_doc_at(d, i);
                } else {
                    if docs_map(d).contains_key(q) {
                        let j = choose|j: int| 0 <= j < d.len() && #[trigger] d[j].0 == q;
                        lemma_doc_at(d, j);
                        lemma_doc_at(old_d, j);
                    }
                    if old(self)@.contains_key(q) {
                        let j = choose|j: int| 0 <= j < old_d.len() && #[trigger] old_d[j].0 == q;
                        assert(d[j].0 == q);
                    }
                }
            }
            assert(docs_map(d) =~= old(self)@.insert(p, dv));
        }
    }
}

/// The names of the layers.
pub open spec fn info_names(info: Seq<LayerInfo>) -> Seq<Seq<char>> {
    info.map_values(|li: LayerInfo| li.name@)
}

/// The keymap lists one layer name per given layer, in the given order.
pub proof fn lemma_layers_in_given_order(info: Seq<LayerInfo>)
    ensures
        info_names(info).len() == info.len(),
        forall|i: int| 0 <= i < info.len() ==> #[trigger] info_names(info)[i] == info[i].name@,
{
}

/// The number of physical-key columns of a layout: that of its first layer.
pub open spec fn num_cols(layers: Seq<Vec<Action>>) -> int {
    if layers.len() == 0 {
        0
    } else {
        layers[0]@.len() as int
    }
}

/// Every layer has at least as many physical-key columns as the first.
pub open spec fn columns_fit(layers: Seq<Vec<Action>>) -> bool {
    forall|l: int| 0 <= l < layers.len() ==> #[trigger] layers[l]@.len() >= num_cols(layers)
}

/// The binding shown for the key at column `col` on layer `l`: the description of its action,
/// with an authored doc in place of the derived description where the position has one.
pub open spec fn cell_binding(
    layers: Seq<Vec<Action>>,
    names: Seq<Seq<char>>,
    docs: Map<(usize, usize), Seq<char>>,
    l: int,
    col: int,
) -> KeyBindingView {
    let b = binding_of(layers[l]@[col], names);
    if docs.contains_key((l as usize, col as usize)) {
        KeyBindingView { desc: docs[(l as usize, col as usize)], ..b }
    } else {
        b
    }
}

/// The bindings of column `col` on the first `k` layers, by layer name; transparent
/// positions are left out, and a later layer of the same name wins.
pub open spec fn column_bindings(
    layers: Seq<Vec<Action>>,
    names: Seq<Seq<char>>,
    docs: Map<(usize, usize), Seq<char>>,
    col: int,
    k: nat,
) -> Map<Seq<char>, KeyBindingView>
    decreases k,
{
    if k == 0 {
        Map::empty()
    } else {
        let m = column_bindings(layers, names, docs, col, (k - 1) as nat);
        let l = k - 1;
        if layers[l]@[col] is Trans {
            m
        } else {
            m.insert(layer_name(names, l), cell_binding(layers, names, docs, l, col))
        }
    }
}

/// Column `col` does something real, neither transparent nor a no-op, on one of the first
/// `k` layers.
pub open spec fn has_real_binding(layers: Seq<Vec<Action>>, col: int, k: int) -> bool {
    exists|l: int|
        0 <= l < k && !(#[trigger] layers[l]@[col] is Trans) && !(layers[l]@[col] is NoOp)
}

/// The key names of the columns, as texts.
pub open spec fn opt_texts(v: Seq<Option<String>>) -> Seq<Option<Seq<char>>> {
    v.map_values(|o: Option<String>| opt_text(o))
}

/// The name of the key at column `col`: `key_names[col]`, or none past the end.
pub open spec fn key_name_at(key_names: Seq<Option<Seq<char>>>, col: int) -> Option<Seq<char>> {
    if 0 <= col < key_names.len() {
        key_names[col]
    } else {
        None
    }
}

/// The keys of the first `c` columns that have a name and a real binding, by key name, each
/// with its bindings on all layers; a later column of the same name wins.
pub open spec fn keys_of(
    layers: Seq<Vec<Action>>,
    names: Seq<Seq<char>>,
    docs: Map<(usize, usize), Seq<char>>,
    key_names: Seq<Option<Seq<char>>>,
    c: nat,
) -> Map<Seq<char>, Map<Seq<char>, KeyBindingView>>
    decreases c,
{
    if c == 0 {
        Map::empty()
    } else {
        let m = keys_of(layers, names, docs, key_names, (c - 1) as nat);
        let col = c - 1;
        match key_name_at(key_names, col) {
            Some(key) => if has_real_binding(layers, col, layers.len() as int) {
                m.insert(key, column_bindings(layers, names, docs, col, layers.len()))
            } else {
                m
            },
            None => m,
        }
    }
}

/// Layer `l` binds the key at column `col`: the key has the name `key`, the layer the name
/// `layer`, and the position is not transparent.
pub open spec fn position_binds(
    layers: Seq<Vec<Action>>,
    names: Seq<Seq<char>>,
    key_names: Seq<Option<Seq<char>>>,
    key: Seq<char>,
    layer: Seq<char>,
    col: int,
    l: int,
) -> bool {
    &&& key_name_at(key_names, col) == Some(key)
    &&& layer_name(names, l) == layer
    &&& !(layers[l]@[col] is Trans)
}

/// The first `k` layers have distinct names.
pub open spec fn layer_names_distinct(names: Seq<Seq<char>>, k: int) -> bool {
    forall|i: int, j: int|
        0 <= i < j < k ==> #[trigger] layer_name(names, i) != #[trigger] layer_name(names, j)
}

/// No column from `col + 1` up to `c` with the name `key` does something real: `col` is the
/// last such column below `c`.
pub open spec fn last_real_column(
    layers: Seq<Vec<Action>>,
    key_names: Seq<Option<Seq<char>>>,
    key: Seq<char>,
    col: int,
    c: int,
) -> bool {
    forall|c2: int, l: int|
        col < c2 < c && #[trigger] key_name_at(key_names, c2) == Some(key) && 0 <= l
            < layers.len() ==> (#[trigger] layers[l]@[c2] is Trans || layers[l]@[c2] is NoOp)
}

proof fn lemma_column_only_bound(
    layers: Seq<Vec<Action>>,
    names: Seq<Seq<char>>,
    docs: Map<(usize, usize), Seq<char>>,
    col: int,
    k: nat,
    layer: Seq<char>,
)
    requires
        column_bindings(layers, names, docs, col, k).contains_key(layer),
    ensures
        exists|l: int|
            0 <= l < k && layer_name(names, l) == layer && !(#[trigger] layers[l]@[col] is Trans),
    decreases k,
{
    if k > 0 {
        let l = k - 1;
        if !(layers[l]@[col] is Trans) && layer_name(names, l) == layer {
        } else {
            lemma_column_only_bound(layers, names, docs, col, (k - 1) as nat, layer);
            let w = choose|w: int|
                0 <= w < k - 1 && layer_name(names, w) == layer && !(
                #[trigger] layers[w]@[col] is Trans);
            assert(0 <= w < k);
        }
    }
}

proof fn lemma_keys_only_real(
    layers: Seq<Vec<Action>>,
    names: Seq<Seq<char>>,
    docs: Map<(usize, usize), Seq<char>>,
    key_names: Seq<Option<Seq<char>>>,
    c: nat,
    key: Seq<char>,
)
    requires
        keys_of(layers, names, docs, key_names, c).contains_key(key),
    ensures
        exists|col: int|
            0 <= col < c && #[trigger] key_name_at(key_names, col) == Some(key)
                && has_real_binding(layers, col, layers.len() as int)
                && keys_of(layers, names, docs, key_names, c)[key] == column_bindings(
                layers,
                names,
                docs,
                col,
                layers.len(),
            ),
    decreases c,
{
    if c > 0 {
        let col = c - 1;
        let m = keys_of(layers, names, docs, key_names, (c - 1) as nat);
        if key_name_at(key_names, col) == Some(key) && has_real_binding(
            layers,
            col,
            layers.len() as int,
        ) {
            assert(keys_of(layers, names, docs, key_names, c)[key] == column_bindings(
                layers,
                names,
                docs,
                col,
                layers.len(),
            ));
        } else {
            assert(m.contains_key(key));
            assert(keys_of(layers, names, docs, key_names, c)[key] == m[key]);
            lemma_keys_only_real(layers, names, docs, key_names, (c - 1) as nat, key);
            let w = choose|w: int|
                0 <= w < c - 1 && #[trigger] key_name_at(key_names, w) == Some(key)
                    && has_real_binding(layers, w, layers.len() as int) && m[key]
                    == column_bindings(layers, names, docs, w, layers.len());
            assert(0 <= w < c);
        }
    }
}

/// Every key in a layout's keymap names a physical key that does something real (neither
/// transparent nor a no-op) on some layer, and every layer listed under a key binds that key
/// at a non-transparent position: transparent fall-through positions are never listed.
pub proof fn lemma_keymap_lists_only_bound_keys(
    layers: Seq<Vec<Action>>,
    names: Seq<Seq<char>>,
    docs: Map<(usize, usize), Seq<char>>,
    key_names: Seq<Option<Seq<char>>>,
    key: Seq<char>,
    layer: Seq<char>,
)
    requires
        keys_of(layers, names, docs, key_names, num_cols(layers) as nat).contains_key(key),
    ensures
        exists|col: int, l: int|
            0 <= col < num_cols(layers) && #[trigger] key_name_at(key_names, col) == Some(key)
                && 0 <= l < layers.len() && !(#[trigger] layers[l]@[col] is Trans) && !(
            layers[l]@[col] is NoOp),
        keys_of(layers, names, docs, key_names, num_cols(layers) as nat)[key].contains_key(layer)
            ==> exists|col: int, l: int|
            0 <= col < num_cols(layers) && 0 <= l < layers.len() && #[trigger] position_binds(
                layers,
                names,
                key_names,
                key,
                layer,
                col,
                l,
            ),
{
    let c = num_cols(layers) as nat;
    lemma_keys_only_real(layers, names, docs, key_names, c, key);
    let col = choose|col: int|
        0 <= col < c && #[trigger] key_name_at(key_names, col) == Some(key) && has_real_binding(
            layers,
            col,
            layers.len() as int,
        ) && keys_of(layers, names, docs, key_names, c)[key] == column_bindings(
            layers,
            names,
            docs,
            col,
            layers.len(),
        );
    let w = choose|w: int|
        0 <= w < layers.len() && !(#[trigger] layers[w]@[col] is Trans) && !(
        layers[w]@[col] is NoOp);
    assert(key_name_at(key_names, col) == Some(key) && 0 <= w < layers.len() && !(
    layers[w]@[col] is Trans));
    if keys_of(layers, names, docs, key_names, c)[key].contains_key(layer) {
        lemma_column_only_bound(layers, names, docs, col, layers.len(), layer);
        let l = choose|l: int|
            0 <= l < layers.len() && layer_name(names, l) == layer && !(
            #[trigger] layers[l]@[col] is Trans);
        assert(position_binds(layers, names, key_names, key, layer, col, l));
    }
}

proof fn lemma_column_lookup(
    layers: Seq<Vec<Action>>,
    names: Seq<Seq<char>>,
    docs: Map<(usize, usize), Seq<char>>,
    col: int,
    k: nat,
    l: int,
)
    requires
        layer_names_distinct(names, k as int),
        0 <= l < k,
    ensures
        column_bindings(layers, names, docs, col, k).contains_key(layer_name(names, l)) <==> !(
        layers[l]@[col] is Trans),
        !(layers[l]@[col] is Trans) ==> column_bindings(layers, names, docs, col, k)[layer_name(
            names,
            l,
        )] == cell_binding(layers, names, docs, l, col),
    decreases k,
{
    let m = column_bindings(layers, names, docs, col, (k - 1) as nat);
    let top = k - 1;
    if l < top {
        lemma_column_lookup(layers, names, docs, col, (k - 1) as nat, l);
        assert(layer_name(names, l) != layer_name(names, top));
        if !(layers[top]@[col] is Trans) {
            assert(column_bindings(layers, names, docs, col, k) == m.insert(
                layer_name(names, top),
                cell_binding(layers, names, docs, top, col),
            ));
        } else {
            assert(column_bindings(layers, names, docs, col, k) == m);
        }
    } else if layers[top]@[col] is Trans {
        if m.contains_key(layer_name(names, top)) {
            lemma_column_only_bound(layers, names, docs, col, (k - 1) as nat, layer_name(names, top));
            let w = choose|w: int|
                0 <= w < k - 1 && layer_name(names, w) == layer_name(names, top) && !(
                #[trigger] layers[w]@[col] is Trans);
            assert(layer_name(names, w) != layer_name(names, top));
        }
    }
}

proof fn lemma_keys_lookup(
    layers: Seq<Vec<Action>>,
    names: Seq<Seq<char>>,
    docs: Map<(usize, usize), Seq<char>>,
    key_names: Seq<Option<Seq<char>>>,
    c: nat,
    col: int,
    key: Seq<char>,
)
    requires
        0 <= col < c,
        key_name_at(key_names, col) == Some(key),
        has_real_binding(layers, col, layers.len() as int),
        last_real_column(layers, key_names, key, col, c as int),
    ensures
        keys_of(layers, names, docs, key_names, c).contains_key(key),
        keys_of(layers, names, docs, key_names, c)[key] == column_bindings(
            layers,
            names,
            docs,
            col,
            layers.len(),
        ),
    decreases c,
{
    if col < c - 1 {
        lemma_keys_lookup(layers, names, docs, key_names, (c - 1) as nat, col, key);
        if key_name_at(key_names, c - 1) == Some(key) {
            if has_real_binding(layers, c - 1, layers.len() as int) {
                let w = choose|w: int|
                    0 <= w < layers.len() && !(#[trigger] layers[w]@[c - 1] is Trans) && !(
                    layers[w]@[c - 1] is NoOp);
                assert(key_name_at(key_names, c - 1) == Some(key) && 0 <= w < layers.len());
            }
        }
    }
}

/// Where the named columns below `c` have distinct key names, each of them is the last column
/// of its name below `c` that does something real.
pub proof fn lemma_distinct_key_names_last(
    layers: Seq<Vec<Action>>,
    key_names: Seq<Option<Seq<char>>>,
    col: int,
    c: int,
)
    requires
        forall|i: int, j: int|
            0 <= i < j < c && (#[trigger] key_name_at(key_names, i)) is Some ==> key_name_at(
                key_names,
                i,
            ) != #[trigger] key_name_at(key_names, j),
        0 <= col < c,
        key_name_at(key_names, col) is Some,
    ensures
        last_real_column(layers, key_names, key_name_at(key_names, col)->0, col, c),
{
    let key = key_name_at(key_names, col)->0;
    assert forall|c2: int, l: int|
        col < c2 < c && #[trigger] key_name_at(key_names, c2) == Some(key) && 0 <= l
            < layers.len() implies (#[trigger] layers[l]@[c2] is Trans || layers[l]@[c2] is NoOp) by {
        assert(key_name_at(key_names, col) != key_name_at(key_names, c2));
    }
}

/// A named column that does something real (neither transparent nor a no-op) on any layer,
/// not only the first, is listed in the keymap under its name.
pub proof fn lemma_real_column_is_listed(
    layers: Seq<Vec<Action>>,
    names: Seq<Seq<char>>,
    docs: Map<(usize, usize), Seq<char>>,
    key_names: Seq<Option<Seq<char>>>,
    col: int,
    l: int,
    key: Seq<char>,
)
    requires
        0 <= col < num_cols(layers),
        0 <= l < layers.len(),
        key_name_at(key_names, col) == Some(key),
        !(layers[l]@[col] is Trans),
        !(layers[l]@[col] is NoOp),
    ensures
        keys_of(layers, names, docs, key_names, num_cols(layers) as nat).contains_key(key),
{
    assert(has_real_binding(layers, col, layers.len() as int));
    lemma_listed_stays(layers, names, docs, key_names, col, key, num_cols(layers) as nat);
}

proof fn lemma_listed_stays(
    layers: Seq<Vec<Action>>,
    names: Seq<Seq<char>>,
    docs: Map<(usize, usize), Seq<char>>,
    key_names: Seq<Option<Seq<char>>>,
    col: int,
    key: Seq<char>,
    c: nat,
)
    requires
        0 <= col < c,
        key_name_at(key_names, col) == Some(key),
        has_real_binding(layers, col, layers.len() as int),
    ensures
        keys_of(layers, names, docs, key_names, c).contains_key(key),
    decreases c,
{
    if c > col + 1 {
        lemma_listed_stays(layers, names, docs, key_names, col, key, (c - 1) as nat);
    }
}

/// Where layers have distinct names, the keymap shows, for each physical key that does
/// something real on some layer, exactly the non-transparent positions of the last column
/// with that key's name that does something real: on each such layer the binding is the
/// description of the action there, with the position's authored doc in place of the derived
/// description where it has one.
pub proof fn lemma_keymap_shows_each_position(
    layers: Seq<Vec<Action>>,
    names: Seq<Seq<char>>,
    docs: Map<(usize, usize), Seq<char>>,
    key_names: Seq<Option<Seq<char>>>,
    col: int,
    l: int,
    key: Seq<char>,
)
    requires
        layer_names_distinct(names, layers.len() as int),
        0 <= col < num_cols(layers),
        0 <= l < layers.len(),
        key_name_at(key_names, col) == Some(key),
        exists|r: int|
            0 <= r < layers.len() && !(#[trigger] layers[r]@[col] is Trans) && !(
            layers[r]@[col] is NoOp),
        last_real_column(layers, key_names, key, col, num_cols(layers)),
    ensures
        ({
            let km = keys_of(layers, names, docs, key_names, num_cols(layers) as nat);
            let layer = layer_name(names, l);
            &&& km.contains_key(key)
            &&& km[key].contains_key(layer) <==> !(layers[l]@[col] is Trans)
            &&& !(layers[l]@[col] is Trans) ==> km[key][layer] == cell_binding(
                layers,
                names,
                docs,
                l,
                col,
            )
            &&& !(layers[l]@[col] is Trans) ==> km[key][layer].desc == if docs.contains_key(
                (l as usize, col as usize),
            ) {
                docs[(l as usize, col as usize)]
            } else {
                binding_of(layers[l]@[col], names).desc
            }
            &&& !(layers[l]@[col] is Trans) ==> km[key][layer].kind == binding_of(
                layers[l]@[col],
                names,
            ).kind
            &&& !(layers[l]@[col] is Trans) ==> km[key][layer].tap == binding_of(
                layers[l]@[col],
                names,
            ).tap
            &&& !(layers[l]@[col] is Trans) ==> km[key][layer].hold == binding_of(
                layers[l]@[col],
                names,
            ).hold
        }),
{
    let r = choose|r: int|
        0 <= r < layers.len() && !(#[trigger] layers[r]@[col] is Trans) && !(
        layers[r]@[col] is NoOp);
    assert(has_real_binding(layers, col, layers.len() as int));
    lemma_keys_lookup(layers, names, docs, key_names, num_cols(layers) as nat, col, key);
    lemma_column_lookup(layers, names, docs, col, layers.len(), l);
}

/// The names of the layers, in order.
fn layer_names_of(layer_info: &[LayerInfo]) -> (res: Vec<String>)
    ensures
        texts(res@) == info_names(layer_info@),
{
    let mut res: Vec<String> = Vec::new();
    let n = layer_info.len();
    let mut i: usize = 0;
    while i < n
        invariant
            n == layer_info@.len(),
            0 <= i <= n,
            res@.len() == i,
            forall|j: int| 0 <= j < i ==> #[trigger] res@[j]@ == layer_info@[j].name@,
        decreases n - i,
    {
        res.push(layer_info[i].name.clone());
        i = i + 1;
    }
    assert(texts(res@) =~= info_names(layer_info@));
    res
}

/// The bindings of column `col` on every layer, and whether one of them is real.
fn column_of(layout: &Layout, names: &Vec<String>, key_docs: &KeyDocs, col: usize) -> (res: (
    StrMap<KeyBinding>,
    bool,
))
    requires
        columns_fit(layout.layers@),
        col < num_cols(layout.layers@),
    ensures
        res.0@ == column_bindings(
            layout.layers@,
            texts(names@),
            key_docs@,
            col as int,
            layout.layers@.len(),
        ),
        res.1 == has_real_binding(layout.layers@, col as int, layout.layers@.len() as int),
{
    let layers = &layout.layers;
    let ghost lv = layers@;
    let ghost nv = texts(names@);
    let mut per_layer: StrMap<KeyBinding> = StrMap::new();
    let mut has_real = false;
    let n = layers.len();
    let mut l: usize = 0;
    while l < n
        invariant
            n == lv.len(),
            lv == layers@,
            nv == texts(names@),
            columns_fit(lv),
            col < num_cols(lv),
            0 <= l <= n,
            per_layer@ == column_bindings(lv, nv, key_docs@, col as int, l as nat),
            has_real == has_real_binding(lv, col as int, l as int),
        decreases n - l,
    {
        assert(lv[l as int]@.len() >= num_cols(lv));
        let action = &layers[l][col];
        if !matches!(action, Action::Trans) {
            if !matches!(action, Action::NoOp) {
                has_real = true;
            }
            let mut binding = describe_action(action, names);
            match key_docs.get(l, col) {
                Some(doc) => {
                    binding.desc = doc.clone();
                },
                None => {},
            }
            per_layer.insert(layer_name_of(names, l), binding);
        }
        assert(has_real == has_real_binding(lv, col as int, l + 1)) by {
            if has_real_binding(lv, col as int, l + 1) && !has_real_binding(lv, col as int, l as int) {
                let w = choose|w: int|
                    0 <= w < l + 1 && !(#[trigger] lv[w]@[col as int] is Trans) && !(lv[w]@[col as int] is NoOp);
                assert(w == l);
            }
            if has_real_binding(lv, col as int, l as int) {
                let w = choose|w: int|
                    0 <= w < l && !(#[trigger] lv[w]@[col as int] is Trans) && !(lv[w]@[col as int] is NoOp);
                assert(0 <= w < l + 1);
            }
        }
        l = l + 1;
    }
    (per_layer, has_real)
}

/// Build the key-centric keymap of a layout whose physical-key column `col` is named
/// `key_names[col]` (a column without a name, or past the end of `key_names`, is left out).
///
/// `key_docs` holds authored documentation for individual key positions; where a position has
/// a doc, it overwrites the derived description. Transparent positions are left out, and a key
/// is listed only if it does something real (neither transparent nor a no-op) on some layer.
pub fn build_keymap_with_names(
    layout: &Layout,
    layer_info: &[LayerInfo],
    key_docs: &KeyDocs,
    key_names: &Vec<Option<String>>,
) -> (res: Keymap)
    requires
        columns_fit(layout.layers@),
    ensures
        res@.layers == info_names(layer_info@),
        res@.keys == keys_of(
            layout.layers@,
            info_names(layer_info@),
            key_docs@,
            opt_texts(key_names@),
            num_cols(layout.layers@) as nat,
        ),
{
    let names = layer_names_of(layer_info);
    let ghost lv = layout.layers@;
    let ghost nv = info_names(layer_info@);
    let ghost kn = opt_texts(key_names@);
    let cols = if layout.layers.len() == 0 {
        0
    } else {
        layout.layers[0].len()
    };
    let mut keys: StrMap<StrMap<KeyBinding>> = StrMap::new();
    let mut col: usize = 0;
    while col < cols
        invariant
            cols == num_cols(lv),
            lv == layout.layers@,
            nv == texts(names@),
            kn == opt_texts(key_names@),
            columns_fit(lv),
            0 <= col <= cols,
            keys@ == keys_of(lv, nv, key_docs@, kn, col as nat),
        decreases cols - col,
    {
        if col < key_names.len() {
            match &key_names[col] {
                Some(name) => {
                    let (per_layer, has_real) = column_of(layout, &names, key_docs, col);
                    if has_real {
                        keys.insert(name.clone(), per_layer);
                    }
                },
                None => {},
            }
        }
        col = col + 1;
    }
    Keymap { layers: names, keys }
}

/// The names kanata gives the OS key codes `0..count`: entry `i` is its name for code `i`.
fn os_key_names(count: usize) -> (res: Vec<Option<String>>)
    ensures
        res@.len() == count,
        forall|i: int| 0 <= i < count ==> os_key_name_of(i as usize, #[trigger] opt_texts(res@)[i]),
{
    let mut res: Vec<Option<String>> = Vec::new();
    let mut code: usize = 0;
    while code < count
        invariant
            0 <= code <= count,
            res@.len() == code,
            forall|i: int|
                0 <= i < code ==> os_key_name_of(i as usize, #[trigger] opt_texts(res@)[i]),
        decreases count - code,
    {
        let name = os_key_name(code);
        let ghost before = res@;
        res.push(name);
        assert forall|i: int| 0 <= i < code + 1 implies os_key_name_of(
            i as usize,
            #[trigger] opt_texts(res@)[i],
        ) by {
            if i < code {
                assert(opt_texts(res@)[i] == opt_texts(before)[i]);
            } else {
                assert(opt_texts(res@)[i] == opt_text(name));
            }
        }
        code = code + 1;
    }
    res
}

/// Build the key-centric keymap of a layout, naming each physical-key column `c` by kanata's
/// name for the OS key code `c` (a code that names no key is left out).
///
/// `key_docs` holds authored documentation for individual key positions; where a position has
/// a doc, it overwrites the derived description. Transparent positions are left out, and a key
/// is listed only if it does something real (neither transparent nor a no-op) on some layer.
pub fn build_keymap(layout: &Layout, layer_info: &[LayerInfo], key_docs: &KeyDocs) -> (res:
    Keymap)
    requires
        columns_fit(layout.layers@),
    ensures
        res@.layers == info_names(layer_info@),
        exists|key_names: Seq<Option<Seq<char>>>|
            {
                &&& key_names.len() == num_cols(layout.layers@)
                &&& forall|c: int|
                    0 <= c < key_names.len() ==> os_key_name_of(c as usize, #[trigger] key_names[c])
                &&& res@.keys == #[trigger] keys_of(
                    layout.layers@,
                    info_names(layer_info@),
                    key_docs@,
                    key_names,
                    num_cols(layout.layers@) as nat,
                )
            },
{
    let cols = if layout.layers.len() == 0 {
        0
    } else {
        layout.layers[0].len()
    };
    let key_names = os_key_names(cols);
    let res = build_keymap_with_names(layout, layer_info, key_docs, &key_names);
    assert(opt_texts(key_names@).len() == num_cols(layout.layers@));
    res
}

} // verus!
