//! An insertion-ordered key/value table.
//!
//! A table is modelled by the sequence of its entries, each a pair of the key's
//! and the value's model. A key is looked up by its model, so two keys that
//! spell the same text are the same key. `insert` overwrites the value of a key
//! that is present and appends a key that is not, so a table that grows by
//! `insert` alone never holds a key twice and keeps the order in which its keys
//! first arrived.
use vstd::prelude::*;
use crate::text::lemma_deep_view_push;

verus! {

/// Index of the first entry of `m` at or after `from` whose key is `k`;
/// `m.len()` when there is none.
pub open spec fn key_index_from<K, V>(m: Seq<(K, V)>, k: K, from: int) -> int
    decreases m.len() - from,
{
    if from >= m.len() {
        m.len() as int
    } else if from >= 0 && m[from].0 == k {
        from
    } else {
        key_index_from(m, k, from + 1)
    }
}

/// Index of the first entry of `m` whose key is `k`; `m.len()` when there is none.
pub open spec fn key_index<K, V>(m: Seq<(K, V)>, k: K) -> int {
    key_index_from(m, k, 0)
}

/// Whether `m` holds the key `k`.
pub open spec fn has_key<K, V>(m: Seq<(K, V)>, k: K) -> bool {
    key_index(m, k) < m.len()
}

/// The value that `m` holds for `k`.
pub open spec fn lookup<K, V>(m: Seq<(K, V)>, k: K) -> Option<V> {
    if has_key(m, k) {
        Some(m[key_index(m, k)].1)
    } else {
        None
    }
}

/// `m` with `k` bound to `v`: in place where `k` is present, at the end where it is not.
pub open spec fn with_entry<K, V>(m: Seq<(K, V)>, k: K, v: V) -> Seq<(K, V)> {
    if has_key(m, k) {
        m.update(key_index(m, k), (k, v))
    } else {
        m.push((k, v))
    }
}

/// `base` with every entry of `over` inserted in order: on a shared key the
/// value of `over` wins, and keys new to `base` follow in the order of `over`.
pub open spec fn merged<K, V>(base: Seq<(K, V)>, over: Seq<(K, V)>) -> Seq<(K, V)>
    decreases over.len(),
{
    if over.len() == 0 {
        base
    } else {
        with_entry(merged(base, over.drop_last()), over.last().0, over.last().1)
    }
}

/// No key occurs in two entries of `m`.
pub open spec fn unique_keys<K, V>(m: Seq<(K, V)>) -> bool {
    forall|i: int, j: int| 0 <= i < j < m.len() ==> m[i].0 != m[j].0
}

/// `key_index_from` is the least index at or after `from` whose key is `k`.
pub proof fn lemma_key_index_from<K, V>(m: Seq<(K, V)>, k: K, from: int)
    requires
        0 <= from <= m.len(),
    ensures
        from <= key_index_from(m, k, from) <= m.len(),
        key_index_from(m, k, from) < m.len() ==> m[key_index_from(m, k, from)].0 == k,
        forall|j: int| from <= j < key_index_from(m, k, from) ==> m[j].0 != k,
    decreases m.len() - from,
{
    if from < m.len() && m[from].0 != k {
        lemma_key_index_from(m, k, from + 1);
    }
}

/// An index whose key is `k`, with no such key between `from` and it, is `key_index_from`.
pub proof fn lemma_key_index_from_is<K, V>(m: Seq<(K, V)>, k: K, from: int, r: int)
    requires
        0 <= from <= r <= m.len(),
        forall|j: int| from <= j < r ==> m[j].0 != k,
        r < m.len() ==> m[r].0 == k,
    ensures
        key_index_from(m, k, from) == r,
    decreases r - from,
{
    if from < r {
        lemma_key_index_from_is(m, k, from + 1, r);
    }
}

/// After `with_entry(m, k, v)` the key `k` holds `v` and every other key holds what it held.
pub proof fn lemma_lookup_with_entry<K, V>(m: Seq<(K, V)>, k: K, v: V, other: K)
    ensures
        lookup(with_entry(m, k, v), other) == if other == k {
            Some(v)
        } else {
            lookup(m, other)
        },
        has_key(with_entry(m, k, v), other) == (other == k || has_key(m, other)),
{
    let n = with_entry(m, k, v);
    lemma_key_index_from(m, k, 0);
    lemma_key_index_from(m, other, 0);
    let i = key_index(m, k);
    let j = key_index(m, other);
    if other == k {
        lemma_key_index_from_is(n, k, 0, i);
    } else if has_key(m, k) {
        lemma_key_index_from_is(n, other, 0, j);
    } else {
        if j < m.len() {
            lemma_key_index_from_is(n, other, 0, j);
        } else {
            lemma_key_index_from_is(n, other, 0, n.len() as int);
        }
    }
}

/// `with_entry` keeps keys unique.
pub proof fn lemma_with_entry_unique<K, V>(m: Seq<(K, V)>, k: K, v: V)
    requires
        unique_keys(m),
    ensures
        unique_keys(with_entry(m, k, v)),
{
    lemma_key_index_from(m, k, 0);
    let n = with_entry(m, k, v);
    let i = key_index(m, k);
    assert forall|a: int, b: int| 0 <= a < b < n.len() implies n[a].0 != n[b].0 by {
        if has_key(m, k) {
            assert(n[a].0 == m[a].0);
            assert(n[b].0 == m[b].0);
        } else if b < m.len() {
        } else {
            assert(n[a].0 == m[a].0);
        }
    }
}

/// `merged` keeps the keys of `base` unique.
pub proof fn lemma_merged_unique<K, V>(base: Seq<(K, V)>, over: Seq<(K, V)>)
    requires
        unique_keys(base),
    ensures
        unique_keys(merged(base, over)),
    decreases over.len(),
{
    if over.len() > 0 {
        lemma_merged_unique(base, over.drop_last());
        lemma_with_entry_unique(merged(base, over.drop_last()), over.last().0, over.last().1);
    }
}

/// In a merge the overriding table wins: a key holds what `over` holds for it,
/// and what `base` holds where `over` has no such key.
pub proof fn lemma_lookup_merged<K, V>(base: Seq<(K, V)>, over: Seq<(K, V)>, k: K)
    requires
        unique_keys(over),
    ensures
        lookup(merged(base, over), k) == if has_key(over, k) {
            lookup(over, k)
        } else {
            lookup(base, k)
        },
    decreases over.len(),
{
    if over.len() > 0 {
        let front = over.drop_last();
        let last = over.last();
        lemma_lookup_merged(base, front, k);
        lemma_lookup_with_entry(merged(base, front), last.0, last.1, k);
        lemma_key_index_from(over, k, 0);
        lemma_key_index_from(front, k, 0);
        let i = key_index(over, k);
        if k == last.0 {
            assert(over[over.len() - 1].0 == k);
            assert(i == over.len() - 1);
        } else {
            if i < over.len() {
                assert(front[i].0 == k);
                lemma_key_index_from_is(front, k, 0, i);
            } else {
                assert forall|j: int| 0 <= j < front.len() implies front[j].0 != k by {
                    assert(front[j] == over[j]);
                }
                lemma_key_index_from_is(front, k, 0, front.len() as int);
            }
        }
    } else {
        lemma_key_index_from(over, k, 0);
    }
}

/// What can serve as a key: a value that is compared by its model.
pub trait TableKey: DeepView + Sized {
    /// Whether the two keys have the same model.
    fn key_eq(&self, other: &Self) -> (b: bool)
        ensures
            b == (self.deep_view() == other.deep_view()),
    ;
}

impl TableKey for String {
    fn key_eq(&self, other: &Self) -> (b: bool) {
        *self == *other
    }
}

/// An insertion-ordered table from `K` to `V`.
#[derive(Debug)]
pub struct Table<K, V> {
    pub entries: Vec<(K, V)>,
}

/// A table from text to text.
pub type StringMap = Table<String, String>;

/// A copy of a text table.
pub fn clone_string_map(m: &StringMap) -> (r: StringMap)
    ensures
        r.deep_view() == m.deep_view(),
{
    let mut entries: Vec<(String, String)> = Vec::new();
    let mut i: usize = 0;
    while i < m.entries.len()
        invariant
            i <= m.entries.len(),
            entries.deep_view() == m.entries.deep_view().take(i as int),
        decreases m.entries.len() - i,
    {
        let ghost before = entries;
        let entry = (m.entries[i].0.clone(), m.entries[i].1.clone());
        entries.push(entry);
        proof {
            lemma_deep_view_push(before, entries, entry);
            assert(m.entries.deep_view().take(i as int + 1) =~= m.entries.deep_view().take(
                i as int,
            ).push((m.entries@[i as int].0@, m.entries@[i as int].1@)));
        }
        i += 1;
    }
    assert(m.entries.deep_view().take(m.entries.len() as int) == m.entries.deep_view());
    Table { entries }
}

/// A copy of a text table that may be absent.
pub fn clone_option_string_map(m: &Option<StringMap>) -> (r: Option<StringMap>)
    ensures
        r.deep_view() == m.deep_view(),
{
    match m {
        None => None,
        Some(t) => Some(clone_string_map(t)),
    }
}

/// `base` with every entry of `over` laid on top.
pub fn merge_string_maps(base: &StringMap, over: &StringMap) -> (r: StringMap)
    ensures
        r.deep_view() == merged(base.deep_view(), over.deep_view()),
{
    let mut r = clone_string_map(base);
    let mut i: usize = 0;
    assert(over.deep_view().take(0) =~= Seq::<(Seq<char>, Seq<char>)>::empty());
    while i < over.entries.len()
        invariant
            i <= over.entries.len(),
            r.deep_view() == merged(base.deep_view(), over.deep_view().take(i as int)),
        decreases over.entries.len() - i,
    {
        proof {
            let next = over.deep_view().take(i as int + 1);
            assert(next.drop_last() == over.deep_view().take(i as int));
            assert(next.last() == (over.entries@[i as int].0@, over.entries@[i as int].1@));
        }
        r.insert(over.entries[i].0.clone(), over.entries[i].1.clone());
        i += 1;
    }
    assert(over.deep_view().take(over.entries.len() as int) == over.deep_view());
    r
}

impl<K: DeepView, V: DeepView> DeepView for Table<K, V> {
    type V = Seq<(K::V, V::V)>;

    open spec fn deep_view(&self) -> Seq<(K::V, V::V)> {
        self.entries.deep_view()
    }
}

impl<K: TableKey, V: DeepView> Table<K, V> {
    /// The empty table.
    pub fn new() -> (t: Self)
        ensures
            t.deep_view() == Seq::<(K::V, V::V)>::empty(),
            t.entries@.len() == 0,
    {
        let t = Table { entries: Vec::new() };
        assert(t.deep_view() =~= Seq::<(K::V, V::V)>::empty());
        t
    }

    /// The number of entries.
    pub fn len(&self) -> (n: usize)
        ensures
            n == self.deep_view().len(),
            n == self.entries@.len(),
    {
        self.entries.len()
    }

    /// Whether the table has no entry.
    pub fn is_empty(&self) -> (b: bool)
        ensures
            b == (self.deep_view().len() == 0),
    {
        self.entries.len() == 0
    }

    /// The index of the first entry under `key`, or the number of entries when there is none.
    pub fn position(&self, key: &K) -> (i: usize)
        ensures
            i == key_index(self.deep_view(), key.deep_view()),
            i <= self.entries@.len(),
    {
        let mut i: usize = 0;
        while i < self.entries.len() && !self.entries[i].0.key_eq(key)
            invariant
                i <= self.entries@.len(),
                forall|j: int| 0 <= j < i ==> self.deep_view()[j].0 != key.deep_view(),
            decreases self.entries@.len() - i,
        {
            i += 1;
        }
        proof {
            lemma_key_index_from_is(self.deep_view(), key.deep_view(), 0, i as int);
        }
        i
    }

    /// Whether the table holds `key`.
    pub fn contains_key(&self, key: &K) -> (b: bool)
        ensures
            b == has_key(self.deep_view(), key.deep_view()),
    {
        self.position(key) < self.entries.len()
    }

    /// The value held for `key`.
    pub fn get(&self, key: &K) -> (r: Option<&V>)
        ensures
            r.deep_view() == lookup(self.deep_view(), key.deep_view()),
            match r {
                Some(v) => has_key(self.deep_view(), key.deep_view()) && *v
                    == self.entries@[key_index(self.deep_view(), key.deep_view())].1,
                None => !has_key(self.deep_view(), key.deep_view()),
            },
    {
        let i = self.position(key);
        if i < self.entries.len() {
            Some(&self.entries[i].1)
        } else {
            None
        }
    }

    /// Binds `key` to `value`, in place where the key is present and at the end where it is not.
    pub fn insert(&mut self, key: K, value: V)
        ensures
            final(self).deep_view() == with_entry(
                old(self).deep_view(),
                key.deep_view(),
                value.deep_view(),
            ),
    {
        let i = self.position(&key);
        let ghost before = self.entries;
        if i < self.entries.len() {
            self.entries.set(i, (key, value));
            assert(self.deep_view() =~= with_entry(
                old(self).deep_view(),
                key.deep_view(),
                value.deep_view(),
            ));
        } else {
            self.entries.push((key, value));
            proof {
                lemma_deep_view_push(before, self.entries, (key, value));
            }
        }
    }
}

} // verus!
