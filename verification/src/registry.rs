use std::any::TypeId;
use vstd::prelude::*;

use crate::definition::Key;

verus! {

/// Whether some entry of `s` is stored under a key equal to `k`.
pub open spec fn has_key<T>(s: Seq<(Key, T)>, k: (TypeId, Seq<char>)) -> bool {
    exists|i: int| 0 <= i < s.len() && (#[trigger] s[i]).0@ == k
}

/// The position of an entry of `s` stored under a key equal to `k`.
pub open spec fn find_key<T>(s: Seq<(Key, T)>, k: (TypeId, Seq<char>)) -> int {
    choose|i: int| 0 <= i < s.len() && (#[trigger] s[i]).0@ == k
}

/// No two entries of `s` are stored under equal keys.
pub open spec fn distinct_keys<T>(s: Seq<(Key, T)>) -> bool {
    forall|i: int, j: int| 0 <= i < s.len() && 0 <= j < s.len() && i != j ==> (#[trigger] s[i]).0@ != (#[trigger] s[j]).0@
}

/// The map from keys to values that the entries of `s` describe.
pub open spec fn entries_map<T>(s: Seq<(Key, T)>) -> Map<(TypeId, Seq<char>), T> {
    Map::new(|k: (TypeId, Seq<char>)| has_key(s, k), |k: (TypeId, Seq<char>)| s[find_key(s, k)].1)
}

/// In entries with distinct keys, the entry at `i` is the one the map gives for its key.
pub proof fn lemma_entries_map_at<T>(s: Seq<(Key, T)>, i: int)
    requires
        distinct_keys(s),
        0 <= i < s.len(),
    ensures
        entries_map(s).contains_key(s[i].0@),
        entries_map(s)[s[i].0@] == s[i].1,
        find_key(s, s[i].0@) == i,
{
    assert(has_key(s, s[i].0@));
    let j = find_key(s, s[i].0@);
    assert(s[j].0@ == s[i].0@);
}

/// Pushing an entry under a new key inserts it into the map.
pub proof fn lemma_entries_map_push<T>(s: Seq<(Key, T)>, k: Key, v: T)
    requires
        distinct_keys(s),
        !has_key(s, k@),
    ensures
        distinct_keys(s.push((k, v))),
        entries_map(s.push((k, v))) =~= entries_map(s).insert(k@, v),
{
    let t = s.push((k, v));
    assert forall|i: int, j: int| 0 <= i < t.len() && 0 <= j < t.len() && i != j implies (#[trigger] t[i]).0@ != (#[trigger] t[j]).0@ by {
        if i < s.len() && j < s.len() {
            assert(t[i] == s[i] && t[j] == s[j]);
        } else if i < s.len() {
            assert(t[i] == s[i]);
        } else {
            assert(t[j] == s[j]);
        }
    }
    assert forall|key: (TypeId, Seq<char>)| #[trigger] entries_map(t).contains_key(key) == entries_map(s).insert(k@, v).contains_key(key) by {
        if has_key(t, key) && key != k@ {
            let i = choose|i: int| 0 <= i < t.len() && (#[trigger] t[i]).0@ == key;
            assert(t[i] == s[i]);
        }
        if has_key(s, key) {
            let i = choose|i: int| 0 <= i < s.len() && (#[trigger] s[i]).0@ == key;
            assert(t[i] == s[i]);
        }
        if key == k@ {
            assert(t[s.len() as int].0@ == key);
        }
    }
    assert forall|key: (TypeId, Seq<char>)| #[trigger] entries_map(t).contains_key(key) implies entries_map(t)[key] == entries_map(s).insert(k@, v)[key] by {
        if key == k@ {
            lemma_entries_map_at(t, s.len() as int);
        } else {
            let i = choose|i: int| 0 <= i < t.len() && (#[trigger] t[i]).0@ == key;
            assert(t[i] == s[i]);
            lemma_entries_map_at(t, i);
            lemma_entries_map_at(s, i);
        }
    }
}

/// Replacing the value of the entry at `i` replaces the value its key maps to.
pub proof fn lemma_entries_map_update<T>(s: Seq<(Key, T)>, i: int, v: T)
    requires
        distinct_keys(s),
        0 <= i < s.len(),
    ensures
        distinct_keys(s.update(i, (s[i].0, v))),
        entries_map(s.update(i, (s[i].0, v))) =~= entries_map(s).insert(s[i].0@, v),
{
    let t = s.update(i, (s[i].0, v));
    assert forall|a: int, b: int| 0 <= a < t.len() && 0 <= b < t.len() && a != b implies (#[trigger] t[a]).0@ != (#[trigger] t[b]).0@ by {
        assert(t[a].0 == s[a].0 && t[b].0 == s[b].0);
    }
    assert forall|key: (TypeId, Seq<char>)| #[trigger] entries_map(t).contains_key(key) == entries_map(s).insert(s[i].0@, v).contains_key(key) by {
        if has_key(t, key) {
            let j = choose|j: int| 0 <= j < t.len() && (#[trigger] t[j]).0@ == key;
            assert(s[j].0@ == key);
        }
        if has_key(s, key) {
            let j = choose|j: int| 0 <= j < s.len() && (#[trigger] s[j]).0@ == key;
            assert(t[j].0@ == key);
        }
        assert(t[i].0@ == s[i].0@);
    }
    assert forall|key: (TypeId, Seq<char>)| #[trigger] entries_map(t).contains_key(key) implies entries_map(t)[key] == entries_map(s).insert(s[i].0@, v)[key] by {
        let j = choose|j: int| 0 <= j < t.len() && (#[trigger] t[j]).0@ == key;
        lemma_entries_map_at(t, j);
        if j != i {
            assert(t[j] == s[j]);
            lemma_entries_map_at(s, j);
        }
    }
}

/// Removing the entry at `i` removes its key from the map.
pub proof fn lemma_entries_map_remove<T>(s: Seq<(Key, T)>, i: int)
    requires
        distinct_keys(s),
        0 <= i < s.len(),
    ensures
        distinct_keys(s.remove(i)),
        entries_map(s.remove(i)) =~= entries_map(s).remove(s[i].0@),
{
    let t = s.remove(i);
    s.remove_ensures(i);
    assert forall|a: int, b: int| 0 <= a < t.len() && 0 <= b < t.len() && a != b implies (#[trigger] t[a]).0@ != (#[trigger] t[b]).0@ by {
        let a2 = if a < i { a } else { a + 1 };
        let b2 = if b < i { b } else { b + 1 };
        assert(t[a] == s[a2] && t[b] == s[b2]);
    }
    assert forall|key: (TypeId, Seq<char>)| #[trigger] entries_map(t).contains_key(key) == entries_map(s).remove(s[i].0@).contains_key(key) by {
        if has_key(t, key) {
            let j = choose|j: int| 0 <= j < t.len() && (#[trigger] t[j]).0@ == key;
            let j2 = if j < i { j } else { j + 1 };
            assert(t[j] == s[j2]);
            assert(s[j2].0@ == key);
        }
        if has_key(s, key) && key != s[i].0@ {
            let j = choose|j: int| 0 <= j < s.len() && (#[trigger] s[j]).0@ == key;
            if j < i {
                assert(t[j] == s[j]);
            } else {
                assert(t[j - 1] == s[j]);
            }
        }
        if has_key(t, key) {
            let j = choose|j: int| 0 <= j < t.len() && (#[trigger] t[j]).0@ == key;
            let j2 = if j < i { j } else { j + 1 };
            assert(t[j] == s[j2]);
            assert(j2 != i);
        }
    }
    assert forall|key: (TypeId, Seq<char>)| #[trigger] entries_map(t).contains_key(key) implies entries_map(t)[key] == entries_map(s).remove(s[i].0@)[key] by {
        let j = choose|j: int| 0 <= j < t.len() && (#[trigger] t[j]).0@ == key;
        let j2 = if j < i { j } else { j + 1 };
        assert(t[j] == s[j2]);
        lemma_entries_map_at(t, j);
        lemma_entries_map_at(s, j2);
    }
}

/// A map from [`Key`]s to values, kept as a list of entries in which no key occurs twice.
pub struct Registry<T> {
    pub(crate) entries: Vec<(Key, T)>,
}

/// The entries after storing `v` under `k`: an entry under an equal key gets `v` as its
/// value in place, keeping its key; otherwise `(k, v)` is appended.
pub open spec fn registry_insert<T>(s: Seq<(Key, T)>, k: Key, v: T) -> Seq<(Key, T)> {
    if has_key(s, k@) {
        s.update(find_key(s, k@), (s[find_key(s, k@)].0, v))
    } else {
        s.push((k, v))
    }
}

/// The entries after removing the one stored under a key equal to `k`, if any.
pub open spec fn registry_remove<T>(s: Seq<(Key, T)>, k: (TypeId, Seq<char>)) -> Seq<(Key, T)> {
    if has_key(s, k) {
        s.remove(find_key(s, k))
    } else {
        s
    }
}

/// Storing a value keeps the keys distinct and stores it in the map.
pub proof fn lemma_registry_insert<T>(s: Seq<(Key, T)>, k: Key, v: T)
    requires
        distinct_keys(s),
    ensures
        distinct_keys(registry_insert(s, k, v)),
        entries_map(registry_insert(s, k, v)) == entries_map(s).insert(k@, v),
{
    if has_key(s, k@) {
        let i = find_key(s, k@);
        lemma_entries_map_update(s, i, v);
    } else {
        lemma_entries_map_push(s, k, v);
    }
}

/// Removing a key keeps the keys distinct and removes it from the map.
pub proof fn lemma_registry_remove<T>(s: Seq<(Key, T)>, k: (TypeId, Seq<char>))
    requires
        distinct_keys(s),
    ensures
        distinct_keys(registry_remove(s, k)),
        entries_map(registry_remove(s, k)) == entries_map(s).remove(k),
{
    if has_key(s, k) {
        let i = find_key(s, k);
        lemma_entries_map_remove(s, i);
    } else {
        assert(entries_map(s).remove(k) =~= entries_map(s));
    }
}

impl<T> Registry<T> {
    /// The entries, in the order in which their keys were first inserted.
    pub(crate) open spec fn entries(&self) -> Seq<(Key, T)> {
        self.entries@
    }

    /// No two entries are stored under equal keys.
    pub(crate) open spec fn wf(&self) -> bool {
        distinct_keys(self.entries@)
    }

    /// The map from keys to values that the registry holds.
    pub(crate) open spec fn map(&self) -> Map<(TypeId, Seq<char>), T> {
        entries_map(self.entries())
    }

    /// An empty registry.
    pub(crate) fn new() -> (r: Self)
        ensures
            r.wf(),
            r.entries() == Seq::<(Key, T)>::empty(),
            r.map() == Map::<(TypeId, Seq<char>), T>::empty(),
    {
        let r = Registry { entries: Vec::new() };
        assert(r.map() =~= Map::<(TypeId, Seq<char>), T>::empty());
        r
    }

    /// The entries, in the order in which their keys were first inserted.
    pub(crate) fn inner(&self) -> (r: &Vec<(Key, T)>)
        ensures
            r@ == self.entries(),
    {
        &self.entries
    }

    /// The number of entries.
    pub(crate) fn len(&self) -> (n: usize)
        requires
            self.wf(),
        ensures
            n == self.entries().len(),
            n == self.map().len(),
    {
        proof {
            self.lemma_len();
        }
        self.entries.len()
    }

    /// The map has as many keys as the registry has entries.
    pub(crate) proof fn lemma_len(&self)
        requires
            self.wf(),
        ensures
            self.map().dom().finite(),
            self.map().len() == self.entries().len(),
        decreases self.entries().len(),
    {
        let s = self.entries();
        let views = s.map_values(|e: (Key, T)| e.0@);
        assert(views.no_duplicates()) by {
            assert forall|i: int, j: int| 0 <= i < views.len() && 0 <= j < views.len() && i != j implies views[i] != views[j] by {
                assert(s[i].0@ != s[j].0@);
            }
        }
        assert(self.map().dom() =~= views.to_set()) by {
            assert forall|k| #[trigger] self.map().dom().contains(k) implies views.to_set().contains(k) by {
                let i = choose|i: int| 0 <= i < s.len() && (#[trigger] s[i]).0@ == k;
                assert(views[i] == k);
            }
            assert forall|k| #[trigger] views.to_set().contains(k) implies self.map().dom().contains(k) by {
                let i = choose|i: int| 0 <= i < views.len() && views[i] == k;
                assert(s[i].0@ == k);
            }
        }
        views.unique_seq_to_set();
    }

    /// The position of the entry stored under `key`, if there is one.
    pub(crate) fn index_of(&self, key: &Key) -> (r: Option<usize>)
        requires
            self.wf(),
        ensures
            r is None <==> !self.map().contains_key(key@),
            r matches Some(i) ==> i < self.entries().len() && self.entries()[i as int].0@ == key@
                && self.map()[key@] == self.entries()[i as int].1,
    {
        let mut i: usize = 0;
        while i < self.entries.len()
            invariant
                i <= self.entries@.len(),
                distinct_keys(self.entries@),
                forall|j: int| 0 <= j < i ==> (#[trigger] self.entries@[j]).0@ != key@,
            decreases self.entries@.len() - i,
        {
            if self.entries[i].0.same(key) {
                proof {
                    lemma_entries_map_at(self.entries@, i as int);
                }
                return Some(i);
            }
            i = i + 1;
        }
        None
    }

    /// Whether a value is stored under `key`.
    pub(crate) fn contains(&self, key: &Key) -> (r: bool)
        requires
            self.wf(),
        ensures
            r == self.map().contains_key(key@),
    {
        self.index_of(key).is_some()
    }

    /// The value stored under `key`, if there is one.
    pub(crate) fn get(&self, key: &Key) -> (r: Option<&T>)
        requires
            self.wf(),
        ensures
            r is Some <==> self.map().contains_key(key@),
            r matches Some(v) ==> *v == self.map()[key@],
    {
        match self.index_of(key) {
            Some(i) => Some(&self.entries[i].1),
            None => None,
        }
    }

    /// Stores `value` under `key`. Where a value was stored under an equal key, it is
    /// replaced in place and the stored key is kept, which only `allow_override` permits;
    /// otherwise a new entry is appended.
    pub(crate) fn insert(&mut self, key: Key, value: T, allow_override: bool)
        requires
            old(self).wf(),
            allow_override || !old(self).map().contains_key(key@),
        ensures
            final(self).wf(),
            final(self).map() == old(self).map().insert(key@, value),
            final(self).entries() == registry_insert(old(self).entries(), key, value),
    {
        proof {
            lemma_registry_insert(self.entries@, key, value);
        }
        match self.index_of(&key) {
            Some(i) => {
                proof {
                    lemma_entries_map_at(self.entries@, i as int);
                }
                let (stored, _replaced) = self.entries.remove(i);
                self.entries.insert(i, (stored, value));
                proof {
                    let s = old(self).entries@;
                    assert(self.entries@ =~= s.update(i as int, (s[i as int].0, value)));
                }
            },
            None => {
                self.entries.push((key, value));
            },
        }
    }

    /// Removes and returns the value stored under `key`, if there is one; the other
    /// entries keep their order.
    pub(crate) fn remove(&mut self, key: &Key) -> (r: Option<T>)
        requires
            old(self).wf(),
        ensures
            final(self).wf(),
            final(self).map() == old(self).map().remove(key@),
            final(self).entries() == registry_remove(old(self).entries(), key@),
            r is Some <==> old(self).map().contains_key(key@),
            r matches Some(v) ==> v == old(self).map()[key@],
    {
        proof {
            lemma_registry_remove(self.entries@, key@);
        }
        match self.index_of(key) {
            Some(i) => {
                proof {
                    lemma_entries_map_at(self.entries@, i as int);
                }
                let (_stored, value) = self.entries.remove(i);
                Some(value)
            },
            None => {
                assert(old(self).map().remove(key@) =~= old(self).map());
                None
            },
        }
    }
}

} // verus!
