//! A map keyed by strings whose entries are kept in the order of their keys, as the
//! protocol's maps are: each key once, keys in ascending order.

use vstd::prelude::*;

verus! {

/// `a` comes before `b` in the order of strings: compared character by character, the first
/// difference decides, and a proper prefix comes first.
pub open spec fn seq_lt(a: Seq<char>, b: Seq<char>) -> bool
    decreases a.len(),
{
    if a.len() == 0 {
        b.len() > 0
    } else if b.len() == 0 {
        false
    } else if a[0] != b[0] {
        a[0] < b[0]
    } else {
        seq_lt(a.drop_first(), b.drop_first())
    }
}

/// No string comes before itself.
pub proof fn lemma_seq_lt_irreflexive(a: Seq<char>)
    ensures
        !seq_lt(a, a),
    decreases a.len(),
{
    if a.len() > 0 {
        lemma_seq_lt_irreflexive(a.drop_first());
    }
}

/// The order of strings is transitive.
pub proof fn lemma_seq_lt_transitive(a: Seq<char>, b: Seq<char>, c: Seq<char>)
    requires
        seq_lt(a, b),
        seq_lt(b, c),
    ensures
        seq_lt(a, c),
    decreases a.len(),
{
    if a.len() > 0 && b.len() > 0 && c.len() > 0 {
        if a[0] == b[0] && b[0] == c[0] {
            lemma_seq_lt_transitive(a.drop_first(), b.drop_first(), c.drop_first());
        }
    }
}

/// Of two different strings, one comes before the other.
pub proof fn lemma_seq_lt_total(a: Seq<char>, b: Seq<char>)
    requires
        a != b,
    ensures
        seq_lt(a, b) || seq_lt(b, a),
    decreases a.len(),
{
    if a.len() == 0 && b.len() == 0 {
        assert(a =~= b);
    } else if a.len() > 0 && b.len() > 0 && a[0] == b[0] {
        if a.drop_first() == b.drop_first() {
            assert(a =~= seq![a[0]] + a.drop_first());
            assert(b =~= seq![b[0]] + b.drop_first());
        }
        lemma_seq_lt_total(a.drop_first(), b.drop_first());
    }
}

/// How two strings compare.
#[derive(Debug, Clone, Copy, PartialEq, Eq, Structural)]
pub enum Rel {
    Less,
    Equal,
    Greater,
}

/// Compares two strings character by character.
pub fn compare_str(a: &str, b: &str) -> (r: Rel)
    ensures
        r == Rel::Less <==> seq_lt(a@, b@),
        r == Rel::Equal <==> a@ == b@,
        r == Rel::Greater <==> seq_lt(b@, a@),
{
    let la = a.unicode_len();
    let lb = b.unicode_len();
    let mut i: usize = 0;
    proof {
        assert(a@.skip(0) =~= a@);
        assert(b@.skip(0) =~= b@);
        lemma_seq_lt_irreflexive(a@);
    }
    while i < la && i < lb
        invariant
            la == a@.len(),
            lb == b@.len(),
            i <= la,
            i <= lb,
            a@.take(i as int) == b@.take(i as int),
            seq_lt(a@, b@) == seq_lt(a@.skip(i as int), b@.skip(i as int)),
            seq_lt(b@, a@) == seq_lt(b@.skip(i as int), a@.skip(i as int)),
        decreases la - i,
    {
        let ca = a.get_char(i);
        let cb = b.get_char(i);
        if ca != cb {
            assert(a@.skip(i as int)[0] == ca);
            assert(b@.skip(i as int)[0] == cb);
            if ca < cb {
                return Rel::Less;
            } else {
                return Rel::Greater;
            }
        }
        assert(a@.skip(i as int).drop_first() =~= a@.skip(i + 1));
        assert(b@.skip(i as int).drop_first() =~= b@.skip(i + 1));
        assert(a@.take(i + 1) =~= a@.take(i as int).push(ca));
        assert(b@.take(i + 1) =~= b@.take(i as int).push(cb));
        i = i + 1;
    }
    if la < lb {
        assert(a@ =~= a@.take(i as int));
        Rel::Less
    } else if lb < la {
        assert(b@ =~= b@.take(i as int));
        Rel::Greater
    } else {
        assert(a@ =~= a@.take(i as int));
        assert(b@ =~= b@.take(i as int));
        Rel::Equal
    }
}

/// A map from strings to values, each key once, entries in ascending order of their keys.
#[derive(Debug, PartialEq, Eq)]
pub struct StrMap<V: View> {
    entries: Vec<(String, V)>,
}

/// The keys of a sequence of entries, in order, strictly ascend.
pub open spec fn sorted_keys(keys: Seq<Seq<char>>) -> bool {
    forall|i: int, j: int| 0 <= i < j < keys.len() ==> seq_lt(#[trigger] keys[i], #[trigger] keys[j])
}

/// A position of the entry with key `k`.
pub open spec fn key_index<W>(e: Seq<(Seq<char>, W)>, k: Seq<char>) -> int {
    choose|i: int| 0 <= i < e.len() && #[trigger] e[i].0 == k
}

/// The map that a sequence of entries with distinct keys holds.
pub open spec fn entries_map<W>(e: Seq<(Seq<char>, W)>) -> Map<Seq<char>, W> {
    Map::new(
        |k: Seq<char>| exists|i: int| 0 <= i < e.len() && #[trigger] e[i].0 == k,
        |k: Seq<char>| e[key_index(e, k)].1,
    )
}

/// Entries as text and value views.
pub open spec fn view_entries<V: View>(v: Seq<(String, V)>) -> Seq<(Seq<char>, V::V)> {
    v.map_values(|p: (String, V)| (p.0@, p.1@))
}

/// The keys of a sequence of entries.
pub open spec fn entry_keys<W>(e: Seq<(Seq<char>, W)>) -> Seq<Seq<char>> {
    e.map_values(|p: (Seq<char>, W)| p.0)
}

impl<V: View> StrMap<V> {
    /// The entries, as text and value views, in order.
    pub closed spec fn entries_view(self) -> Seq<(Seq<char>, V::V)> {
        view_entries(self.entries@)
    }

    #[verifier::type_invariant]
    closed spec fn keys_ascend(self) -> bool {
        sorted_keys(entry_keys(self.entries_view()))
    }
}

impl<V: View> View for StrMap<V> {
    type V = Map<Seq<char>, V::V>;

    open spec fn view(&self) -> Map<Seq<char>, V::V> {
        entries_map(self.entries_view())
    }
}

/// In a sequence of entries with ascending keys, the entry with key `k` is the one at `i`.
pub proof fn lemma_entry_at<W>(e: Seq<(Seq<char>, W)>, i: int)
    requires
        sorted_keys(entry_keys(e)),
        0 <= i < e.len(),
    ensures
        entries_map(e).contains_key(e[i].0),
        entries_map(e)[e[i].0] == e[i].1,
{
    let k = e[i].0;
    assert(entry_keys(e)[i] == k);
    assert(0 <= i < e.len() && e[i].0 == k);
    let j = key_index(e, k);
    assert(0 <= j < e.len() && e[j].0 == k);
    if j != i {
        assert(entry_keys(e)[j] == k);
        if j < i {
            assert(seq_lt(entry_keys(e)[j], entry_keys(e)[i]));
        } else {
            assert(seq_lt(entry_keys(e)[i], entry_keys(e)[j]));
        }
        lemma_seq_lt_irreflexive(k);
    }
    assert(entries_map(e).dom().contains(k));
    assert(entries_map(e)[k] == e[j].1);
}

/// The entries of `m` in ascending order of their keys.
pub open spec fn sorted_entries<W>(m: Map<Seq<char>, W>) -> Seq<(Seq<char>, W)> {
    choose|e: Seq<(Seq<char>, W)>| sorted_keys(entry_keys(e)) && entries_map(e) == m
}

/// The entries after the first of a sequence with ascending keys hold the map without the
/// first key.
proof fn lemma_entries_map_drop_first<W>(e: Seq<(Seq<char>, W)>)
    requires
        sorted_keys(entry_keys(e)),
        e.len() > 0,
    ensures
        sorted_keys(entry_keys(e.drop_first())),
        entries_map(e.drop_first()) == entries_map(e).remove(e[0].0),
{
    let t = e.drop_first();
    assert forall|a: int, b: int| 0 <= a < b < entry_keys(t).len() implies seq_lt(
        #[trigger] entry_keys(t)[a],
        #[trigger] entry_keys(t)[b],
    ) by {
        assert(entry_keys(t)[a] == entry_keys(e)[a + 1]);
        assert(entry_keys(t)[b] == entry_keys(e)[b + 1]);
    }
    let m = entries_map(e).remove(e[0].0);
    assert forall|k: Seq<char>|
        #![trigger m.contains_key(k)]
        entries_map(t).contains_key(k) == m.contains_key(k) && (entries_map(t).contains_key(k)
            ==> entries_map(t)[k] == m[k]) by {
        if entries_map(t).contains_key(k) {
            let j = choose|j: int| 0 <= j < t.len() && #[trigger] t[j].0 == k;
            lemma_entry_at(t, j);
            lemma_entry_at(e, j + 1);
            assert(entry_keys(e)[0] == e[0].0);
            assert(entry_keys(e)[j + 1] == e[j + 1].0);
            if k == e[0].0 {
                lemma_seq_lt_irreflexive(k);
            }
        }
        if m.contains_key(k) {
            let j = choose|j: int| 0 <= j < e.len() && #[trigger] e[j].0 == k;
            assert(j != 0);
            assert(t[j - 1].0 == k);
        }
    }
    assert(entries_map(t) =~= m);
}

/// Two sequences of entries with ascending keys that hold the same map are the same: the
/// order of a map's entries is a function of its content.
pub proof fn lemma_sorted_entries_unique<W>(e1: Seq<(Seq<char>, W)>, e2: Seq<(Seq<char>, W)>)
    requires
        sorted_keys(entry_keys(e1)),
        sorted_keys(entry_keys(e2)),
        entries_map(e1) == entries_map(e2),
    ensures
        e1 == e2,
    decreases e1.len(),
{
    if e1.len() == 0 {
        if e2.len() > 0 {
            lemma_entry_at(e2, 0);
        }
        assert(e1 =~= e2);
    } else if e2.len() == 0 {
        lemma_entry_at(e1, 0);
    } else {
        let a = e1[0].0;
        let b = e2[0].0;
        lemma_entry_at(e1, 0);
        lemma_entry_at(e2, 0);
        if a != b {
            let j = choose|j: int| 0 <= j < e2.len() && #[trigger] e2[j].0 == a;
            let i = choose|i: int| 0 <= i < e1.len() && #[trigger] e1[i].0 == b;
            assert(entry_keys(e2)[0] == b && entry_keys(e2)[j] == a);
            assert(entry_keys(e1)[0] == a && entry_keys(e1)[i] == b);
            lemma_seq_lt_transitive(a, b, a);
            lemma_seq_lt_irreflexive(a);
        }
        lemma_entries_map_drop_first(e1);
        lemma_entries_map_drop_first(e2);
        lemma_sorted_entries_unique(e1.drop_first(), e2.drop_first());
        assert(e1 =~= seq![e1[0]] + e1.drop_first());
        assert(e2 =~= seq![e2[0]] + e2.drop_first());
    }
}

/// A sequence of entries with ascending keys is the sorted sequence of entries of its map.
pub proof fn lemma_sorted_entries_of<W>(e: Seq<(Seq<char>, W)>)
    requires
        sorted_keys(entry_keys(e)),
    ensures
        sorted_entries(entries_map(e)) == e,
{
    let c = sorted_entries(entries_map(e));
    assert(sorted_keys(entry_keys(e)) && entries_map(e) == entries_map(e));
    lemma_sorted_entries_unique(c, e);
}

impl<V: View> StrMap<V> {
    /// An empty map.
    pub fn new() -> (m: StrMap<V>)
        ensures
            m@ == Map::<Seq<char>, V::V>::empty(),
            m.entries_view() == Seq::<(Seq<char>, V::V)>::empty(),
    {
        let m = StrMap { entries: Vec::new() };
        assert(m.entries_view() =~= Seq::<(Seq<char>, V::V)>::empty());
        assert(m@ =~= Map::<Seq<char>, V::V>::empty());
        m
    }

    /// The number of entries.
    pub fn len(&self) -> (n: usize)
        ensures
            n == self.entries_view().len(),
            sorted_keys(entry_keys(self.entries_view())),
    {
        proof {
            use_type_invariant(self);
        }
        self.entries.len()
    }

    /// The key of the `i`-th entry in key order.
    pub fn key_at(&self, i: usize) -> (k: &String)
        requires
            i < self.entries_view().len(),
        ensures
            k@ == self.entries_view()[i as int].0,
    {
        &self.entries[i].0
    }

    /// The value of the `i`-th entry in key order.
    pub fn value_at(&self, i: usize) -> (v: &V)
        requires
            i < self.entries_view().len(),
        ensures
            v@ == self.entries_view()[i as int].1,
    {
        &self.entries[i].1
    }

    /// The position of `key` among the entries, if it is there.
    fn find(&self, key: &str) -> (r: Option<usize>)
        ensures
            match r {
                Some(i) => i < self.entries_view().len() && self.entries_view()[i as int].0
                    == key@,
                None => forall|i: int|
                    0 <= i < self.entries_view().len() ==> #[trigger] self.entries_view()[i].0
                        != key@,
            },
    {
        let n = self.entries.len();
        let mut i: usize = 0;
        while i < n
            invariant
                n == self.entries_view().len(),
                n == self.entries@.len(),
                0 <= i <= n,
                forall|j: int| 0 <= j < i ==> #[trigger] self.entries_view()[j].0 != key@,
            decreases n - i,
        {
            if compare_str(self.entries[i].0.as_str(), key) == Rel::Equal {
                return Some(i);
            }
            i = i + 1;
        }
        None
    }

    /// Whether the map holds `key`.
    pub fn contains_key(&self, key: &str) -> (b: bool)
        ensures
            b == self@.contains_key(key@),
    {
        proof {
            use_type_invariant(self);
        }
        match self.find(key) {
            Some(i) => {
                proof {
                    lemma_entry_at(self.entries_view(), i as int);
                }
                true
            },
            None => false,
        }
    }

    /// The value stored under `key`.
    pub fn get(&self, key: &str) -> (r: Option<&V>)
        ensures
            match r {
                Some(v) => self@.contains_key(key@) && v@ == self@[key@],
                None => !self@.contains_key(key@),
            },
    {
        proof {
            use_type_invariant(self);
        }
        match self.find(key) {
            Some(i) => {
                proof {
                    lemma_entry_at(self.entries_view(), i as int);
                }
                Some(&self.entries[i].1)
            },
            None => None,
        }
    }

    /// Stores `value` under `key`, replacing the value that was there.
    pub fn insert(&mut self, key: String, value: V)
        ensures
            final(self)@ == old(self)@.insert(key@, value@),
    {
        proof {
            use_type_invariant(&*self);
        }
        let ghost old_e = self.entries_view();
        let n = self.entries.len();
        let mut i: usize = 0;
        let mut found = false;
        while i < n
            invariant_except_break
                !found,
                n == old_e.len(),
                n == self.entries@.len(),
                old_e == self.entries_view(),
                0 <= i <= n,
                forall|j: int| 0 <= j < i ==> seq_lt(#[trigger] old_e[j].0, key@),
            ensures
                n == old_e.len(),
                n == self.entries@.len(),
                old_e == self.entries_view(),
                0 <= i <= n,
                forall|j: int| 0 <= j < i ==> seq_lt(#[trigger] old_e[j].0, key@),
                found ==> i < n && old_e[i as int].0 == key@,
                !found && i < n ==> seq_lt(key@, old_e[i as int].0),
            decreases n - i,
        {
            let r = compare_str(self.entries[i].0.as_str(), key.as_str());
            if r == Rel::Equal {
                found = true;
                break;
            } else if r == Rel::Greater {
                break;
            }
            i = i + 1;
        }
        let ghost kv = key@;
        let ghost vv = value@;
        let mut entries: Vec<(String, V)> = Vec::new();
        std::mem::swap(&mut entries, &mut self.entries);
        if found {
            entries.set(i, (key, value));
            proof {
                lemma_replace_entry(old_e, i as int, kv, vv);
                assert(view_entries(entries@) =~= old_e.update(i as int, (kv, vv)));
            }
        } else {
            entries.insert(i, (key, value));
            proof {
                lemma_insert_entry(old_e, i as int, kv, vv);
                assert(view_entries(entries@) =~= old_e.insert(i as int, (kv, vv)));
            }
        }
        self.entries = entries;
    }
}

impl<V: View> StrMap<V> {
    /// The stored values, in key order.
    pub closed spec fn stored_values(self) -> Seq<V> {
        self.entries@.map_values(|e: (String, V)| e.1)
    }
}

impl<V: View + Clone> Clone for StrMap<V> {
    /// A map with the same keys in the same order, each value a clone of the value there.
    fn clone(&self) -> (res: Self)
        ensures
            entry_keys(res.entries_view()) == entry_keys(self.entries_view()),
            res.stored_values().len() == self.stored_values().len(),
            forall|j: int|
                0 <= j < self.stored_values().len() ==> cloned::<V>(
                    self.stored_values()[j],
                    #[trigger] res.stored_values()[j],
                ),
    {
        proof {
            use_type_invariant(self);
        }
        let n = self.entries.len();
        let mut entries: Vec<(String, V)> = Vec::new();
        let mut i: usize = 0;
        while i < n
            invariant
                n == self.entries@.len(),
                0 <= i <= n,
                entries@.len() == i,
                forall|j: int| 0 <= j < i ==> #[trigger] entries@[j].0@ == self.entries@[j].0@,
                forall|j: int| 0 <= j < i ==> cloned::<V>(self.entries@[j].1, #[trigger] entries@[j].1),
            decreases n - i,
        {
            let v = self.entries[i].1.clone();
            entries.push((self.entries[i].0.clone(), v));
            i = i + 1;
        }
        proof {
            assert(entry_keys(view_entries(entries@)) =~= entry_keys(self.entries_view()));
        }
        let res = StrMap { entries };
        assert forall|j: int| 0 <= j < self.stored_values().len() implies cloned::<V>(
            self.stored_values()[j],
            #[trigger] res.stored_values()[j],
        ) by {
            assert(res.stored_values()[j] == res.entries@[j].1);
            assert(self.stored_values()[j] == self.entries@[j].1);
        }
        res
    }
}

/// Replacing the value of the entry at `i` keeps the keys ascending and stores the new value
/// under its key.
proof fn lemma_replace_entry<W>(e: Seq<(Seq<char>, W)>, i: int, k: Seq<char>, v: W)
    requires
        sorted_keys(entry_keys(e)),
        0 <= i < e.len(),
        e[i].0 == k,
    ensures
        sorted_keys(entry_keys(e.update(i, (k, v)))),
        entries_map(e.update(i, (k, v))) == entries_map(e).insert(k, v),
{
    let f = e.update(i, (k, v));
    assert(entry_keys(f) =~= entry_keys(e));
    let m = entries_map(e).insert(k, v);
    assert forall|q: Seq<char>|
        #![trigger m.contains_key(q)]
        entries_map(f).contains_key(q) == m.contains_key(q) && (entries_map(f).contains_key(q)
            ==> entries_map(f)[q] == m[q]) by {
        if q == k {
            lemma_entry_at(f, i);
        } else {
            if entries_map(f).contains_key(q) {
                let j = choose|j: int| 0 <= j < f.len() && #[trigger] f[j].0 == q;
                lemma_entry_at(f, j);
                lemma_entry_at(e, j);
            }
            if entries_map(e).contains_key(q) {
                let j = choose|j: int| 0 <= j < e.len() && #[trigger] e[j].0 == q;
                assert(f[j].0 == q);
            }
        }
    }
    assert(entries_map(f) =~= m);
}

/// Inserting a new entry at `i`, after the keys that come before `k` and before the first that
/// comes after it, keeps the keys ascending and adds `k` to the map.
proof fn lemma_insert_entry<W>(e: Seq<(Seq<char>, W)>, i: int, k: Seq<char>, v: W)
    requires
        sorted_keys(entry_keys(e)),
        0 <= i <= e.len(),
        forall|j: int| 0 <= j < i ==> seq_lt(#[trigger] e[j].0, k),
        i < e.len() ==> seq_lt(k, e[i].0),
    ensures
        sorted_keys(entry_keys(e.insert(i, (k, v)))),
        entries_map(e.insert(i, (k, v))) == entries_map(e).insert(k, v),
{
    let f = e.insert(i, (k, v));
    assert forall|a: int, b: int| 0 <= a < b < entry_keys(f).len() implies seq_lt(
        #[trigger] entry_keys(f)[a],
        #[trigger] entry_keys(f)[b],
    ) by {
        assert(entry_keys(f)[a] == f[a].0);
        assert(entry_keys(f)[b] == f[b].0);
        if b < i {
            assert(entry_keys(e)[a] == e[a].0);
            assert(entry_keys(e)[b] == e[b].0);
        } else if a > i {
            assert(entry_keys(e)[a - 1] == e[a - 1].0);
            assert(entry_keys(e)[b - 1] == e[b - 1].0);
        } else if a == i {
            if b - 1 > i {
                assert(entry_keys(e)[i] == e[i].0);
                assert(entry_keys(e)[b - 1] == e[b - 1].0);
                lemma_seq_lt_transitive(k, e[i].0, e[b - 1].0);
            }
        } else if b == i {
        } else {
            if b - 1 > i {
                assert(entry_keys(e)[i] == e[i].0);
                assert(entry_keys(e)[b - 1] == e[b - 1].0);
                lemma_seq_lt_transitive(k, e[i].0, e[b - 1].0);
            }
            lemma_seq_lt_transitive(e[a].0, k, e[b - 1].0);
        }
    }
    let m = entries_map(e).insert(k, v);
    assert forall|q: Seq<char>|
        #![trigger m.contains_key(q)]
        entries_map(f).contains_key(q) == m.contains_key(q) && (entries_map(f).contains_key(q)
            ==> entries_map(f)[q] == m[q]) by {
        if q == k {
            lemma_entry_at(f, i);
        } else {
            if entries_map(f).contains_key(q) {
                let j = choose|j: int| 0 <= j < f.len() && #[trigger] f[j].0 == q;
                lemma_entry_at(f, j);
                if j < i {
                    lemma_entry_at(e, j);
                } else {
                    assert(j != i);
                    lemma_entry_at(e, j - 1);
                }
            }
            if entries_map(e).contains_key(q) {
                let j = choose|j: int| 0 <= j < e.len() && #[trigger] e[j].0 == q;
                if j < i {
                    assert(f[j].0 == q);
                } else {
                    assert(f[j + 1].0 == q);
                }
            }
        }
    }
    assert(entries_map(f) =~= m);
}

} // verus!
