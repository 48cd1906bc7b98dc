//! A table of values keyed by strings, in which no key occurs twice.
//!
//! Its view is a finite map from the key's characters to the value; the
//! entries keep the order in which they were first inserted.

use vstd::prelude::*;

verus! {

/// The map that a sequence of (key, value) entries describes; a later entry
/// for a key overrides an earlier one.
pub open spec fn entries_map<V>(s: Seq<(String, V)>) -> Map<Seq<char>, V>
    decreases s.len(),
{
    if s.len() == 0 {
        Map::empty()
    } else {
        entries_map(s.drop_last()).insert(s.last().0@, s.last().1)
    }
}

/// No key occurs twice among the entries.
pub open spec fn keys_distinct<V>(s: Seq<(String, V)>) -> bool {
    forall|i: int, j: int| 0 <= i < j < s.len() ==> (#[trigger] s[i]).0@ != (#[trigger] s[j]).0@
}

/// A key lies in the map exactly when some entry carries it.
pub proof fn lemma_entries_map_dom<V>(s: Seq<(String, V)>, k: Seq<char>)
    ensures
        entries_map(s).dom().contains(k) <==> exists|i: int| 0 <= i < s.len() && (#[trigger] s[i]).0@ == k,
    decreases s.len(),
{
    if s.len() > 0 {
        lemma_entries_map_dom(s.drop_last(), k);
        if entries_map(s.drop_last()).dom().contains(k) {
            let i = choose|i: int| 0 <= i < s.drop_last().len() && (#[trigger] s.drop_last()[i]).0@ == k;
            assert(s[i] == s.drop_last()[i]);
        }
        if exists|i: int| 0 <= i < s.len() && (#[trigger] s[i]).0@ == k {
            let i = choose|i: int| 0 <= i < s.len() && (#[trigger] s[i]).0@ == k;
            if i < s.len() - 1 {
                assert(s.drop_last()[i] == s[i]);
            }
        }
    }
}

/// The map is finite.
pub proof fn lemma_entries_map_finite<V>(s: Seq<(String, V)>)
    ensures
        entries_map(s).dom().finite(),
    decreases s.len(),
{
    if s.len() > 0 {
        lemma_entries_map_finite(s.drop_last());
    }
}

/// With distinct keys, the map sends each entry's key to that entry's value.
pub proof fn lemma_entries_map_index<V>(s: Seq<(String, V)>, i: int)
    requires
        keys_distinct(s),
        0 <= i < s.len(),
    ensures
        entries_map(s).dom().contains(s[i].0@),
        entries_map(s)[s[i].0@] == s[i].1,
    decreases s.len(),
{
    if i < s.len() - 1 {
        let t = s.drop_last();
        assert(t[i] == s[i]);
        assert(keys_distinct(t)) by {
            assert forall|a: int, b: int| 0 <= a < b < t.len() implies (#[trigger] t[a]).0@ != (#[trigger] t[b]).0@ by {
                assert(t[a] == s[a]);
                assert(t[b] == s[b]);
            }
        }
        lemma_entries_map_index(t, i);
        assert(s[i].0@ != s.last().0@) by {
            assert(s.last() == s[s.len() - 1]);
        }
    }
}

/// Distinct keys stay distinct in any subsequence taken by removing one entry.
proof fn lemma_keys_distinct_remove<V>(s: Seq<(String, V)>, i: int)
    requires
        keys_distinct(s),
        0 <= i < s.len(),
    ensures
        keys_distinct(s.remove(i)),
{
    let t = s.remove(i);
    assert forall|a: int, b: int| 0 <= a < b < t.len() implies (#[trigger] t[a]).0@ != (#[trigger] t[b]).0@ by {
        let a2 = if a < i { a } else { a + 1 };
        let b2 = if b < i { b } else { b + 1 };
        assert(t[a] == s[a2]);
        assert(t[b] == s[b2]);
    }
}

/// Removing the entry at `i` removes its key from the map.
pub proof fn lemma_entries_map_remove<V>(s: Seq<(String, V)>, i: int)
    requires
        keys_distinct(s),
        0 <= i < s.len(),
    ensures
        entries_map(s.remove(i)) == entries_map(s).remove(s[i].0@),
{
    let t = s.remove(i);
    let k = s[i].0@;
    lemma_keys_distinct_remove(s, i);
    assert forall|key: Seq<char>| #[trigger] entries_map(t).dom().contains(key)
        <==> entries_map(s).remove(k).dom().contains(key) by {
        lemma_entries_map_dom(t, key);
        lemma_entries_map_dom(s, key);
        if entries_map(t).dom().contains(key) {
            let a = choose|a: int| 0 <= a < t.len() && (#[trigger] t[a]).0@ == key;
            let a2 = if a < i { a } else { a + 1 };
            assert(t[a] == s[a2]);
            assert(s[a2].0@ == key);
        }
        if entries_map(s).remove(k).dom().contains(key) {
            let a = choose|a: int| 0 <= a < s.len() && (#[trigger] s[a]).0@ == key;
            assert(a != i);
            let a2 = if a < i { a } else { a - 1 };
            assert(t[a2] == s[a]);
        }
    }
    assert forall|key: Seq<char>| #[trigger] entries_map(t).dom().contains(key)
        implies entries_map(t)[key] == entries_map(s).remove(k)[key] by {
        lemma_entries_map_dom(t, key);
        let a = choose|a: int| 0 <= a < t.len() && (#[trigger] t[a]).0@ == key;
        let a2 = if a < i { a } else { a + 1 };
        assert(t[a] == s[a2]);
        lemma_entries_map_index(t, a);
        lemma_entries_map_index(s, a2);
    }
    assert(entries_map(t) =~= entries_map(s).remove(k));
}

/// Replacing the value of the entry at `i` updates its key in the map.
pub proof fn lemma_entries_map_update<V>(s: Seq<(String, V)>, i: int, v: V)
    requires
        keys_distinct(s),
        0 <= i < s.len(),
    ensures
        keys_distinct(s.update(i, (s[i].0, v))),
        entries_map(s.update(i, (s[i].0, v))) == entries_map(s).insert(s[i].0@, v),
{
    let t = s.update(i, (s[i].0, v));
    let k = s[i].0@;
    assert forall|a: int, b: int| 0 <= a < b < t.len() implies (#[trigger] t[a]).0@ != (#[trigger] t[b]).0@ by {
        assert(t[a].0@ == s[a].0@);
        assert(t[b].0@ == s[b].0@);
    }
    assert forall|key: Seq<char>| #[trigger] entries_map(t).dom().contains(key)
        <==> entries_map(s).insert(k, v).dom().contains(key) by {
        lemma_entries_map_dom(t, key);
        lemma_entries_map_dom(s, key);
        if entries_map(t).dom().contains(key) {
            let a = choose|a: int| 0 <= a < t.len() && (#[trigger] t[a]).0@ == key;
            assert(s[a].0@ == key);
        }
        if entries_map(s).dom().contains(key) {
            let a = choose|a: int| 0 <= a < s.len() && (#[trigger] s[a]).0@ == key;
            assert(t[a].0@ == key);
        }
    }
    assert forall|key: Seq<char>| #[trigger] entries_map(t).dom().contains(key)
        implies entries_map(t)[key] == entries_map(s).insert(k, v)[key] by {
        lemma_entries_map_dom(t, key);
        let a = choose|a: int| 0 <= a < t.len() && (#[trigger] t[a]).0@ == key;
        lemma_entries_map_index(t, a);
        if a != i {
            lemma_entries_map_index(s, a);
        }
    }
    assert(entries_map(t) =~= entries_map(s).insert(k, v));
}

/// Appending an entry whose key is new inserts it into the map and keeps
/// keys distinct.
pub proof fn lemma_entries_map_push<V>(s: Seq<(String, V)>, e: (String, V))
    requires
        keys_distinct(s),
        !entries_map(s).dom().contains(e.0@),
    ensures
        keys_distinct(s.push(e)),
        entries_map(s.push(e)) == entries_map(s).insert(e.0@, e.1),
{
    let t = s.push(e);
    assert(t.drop_last() =~= s);
    assert forall|a: int, b: int| 0 <= a < b < t.len() implies (#[trigger] t[a]).0@ != (#[trigger] t[b]).0@ by {
        if b == s.len() {
            assert(t[a] == s[a]);
            lemma_entries_map_dom(s, e.0@);
        } else {
            assert(t[a] == s[a]);
            assert(t[b] == s[b]);
        }
    }
}

/// A table of values keyed by strings; no key occurs twice.
pub struct KeyedTable<T> {
    entries: Vec<(String, T)>,
}

impl<T> View for KeyedTable<T> {
    type V = Map<Seq<char>, T>;

    /// What the table holds: a map from each key to its value.
    closed spec fn view(&self) -> Map<Seq<char>, T> {
        entries_map(self.entries@)
    }
}

impl<T> KeyedTable<T> {
    /// No key occurs twice.
    #[verifier::type_invariant]
    spec fn keys_unique(&self) -> bool {
        keys_distinct(self.entries@)
    }

    /// The keys in the order in which they were first inserted.
    pub closed spec fn key_order(&self) -> Seq<Seq<char>> {
        self.entries@.map_values(|e: (String, T)| e.0@)
    }

    /// A table holds finitely many keys.
    pub proof fn lemma_finite(&self)
        ensures
            self@.dom().finite(),
    {
        lemma_entries_map_finite(self.entries@);
    }

    /// An empty table.
    pub fn new() -> (t: Self)
        ensures
            t@ == Map::<Seq<char>, T>::empty(),
    {
        KeyedTable { entries: Vec::new() }
    }

    /// The number of keys in the table.
    pub fn len(&self) -> (n: usize)
        ensures
            n == self@.len(),
    {
        proof {
            use_type_invariant(self);
            lemma_len_of(self.entries@);
        }
        self.entries.len()
    }

    /// Where the entry for `key` stands, if any.
    fn position(&self, key: &String) -> (r: Option<usize>)
        ensures
            match r {
                Some(i) => i < self.entries@.len() && self.entries@[i as int].0@ == key@,
                None => !self@.dom().contains(key@),
            },
    {
        let mut i: usize = 0;
        while i < self.entries.len()
            invariant
                i <= self.entries@.len(),
                forall|j: int| 0 <= j < i ==> (#[trigger] self.entries@[j]).0@ != key@,
            decreases self.entries@.len() - i,
        {
            if self.entries[i].0 == *key {
                return Some(i);
            }
            i = i + 1;
        }
        proof {
            lemma_entries_map_dom(self.entries@, key@);
        }
        None
    }

    /// Whether the table holds `key`.
    pub fn contains_key(&self, key: &String) -> (b: bool)
        ensures
            b == self@.dom().contains(key@),
    {
        proof {
            use_type_invariant(self);
        }
        match self.position(key) {
            Some(i) => {
                proof {
                    lemma_entries_map_index(self.entries@, i as int);
                }
                true
            },
            None => false,
        }
    }

    /// The value stored under `key`, if any.
    pub fn get(&self, key: &String) -> (r: Option<&T>)
        ensures
            match r {
                Some(v) => self@.dom().contains(key@) && self@[key@] == *v,
                None => !self@.dom().contains(key@),
            },
    {
        proof {
            use_type_invariant(self);
        }
        match self.position(key) {
            Some(i) => {
                proof {
                    lemma_entries_map_index(self.entries@, i as int);
                }
                Some(&self.entries[i].1)
            },
            None => None,
        }
    }

    /// Stores `value` under `key`, replacing what was stored there.
    pub fn insert(&mut self, key: String, value: T)
        ensures
            final(self)@ == old(self)@.insert(key@, value),
    {
        proof {
            use_type_invariant(&*self);
        }
        let pos = self.position(&key);
        let mut entries: Vec<(String, T)> = Vec::new();
        core::mem::swap(&mut entries, &mut self.entries);
        match pos {
            Some(i) => {
                proof {
                    lemma_entries_map_update(entries@, i as int, value);
                }
                let old_key = entries[i].0.clone();
                entries.set(i, (old_key, value));
            },
            None => {
                proof {
                    lemma_entries_map_push(entries@, (key, value));
                }
                entries.push((key, value));
            },
        }
        self.entries = entries;
    }

    /// Removes the entry for `key`; returns its value if there was one.
    pub fn remove(&mut self, key: &String) -> (r: Option<T>)
        ensures
            final(self)@ == old(self)@.remove(key@),
            match r {
                Some(v) => old(self)@.dom().contains(key@) && old(self)@[key@] == v,
                None => !old(self)@.dom().contains(key@),
            },
    {
        proof {
            use_type_invariant(&*self);
        }
        match self.position(key) {
            Some(i) => {
                let mut entries: Vec<(String, T)> = Vec::new();
                core::mem::swap(&mut entries, &mut self.entries);
                proof {
                    lemma_entries_map_index(entries@, i as int);
                    lemma_entries_map_remove(entries@, i as int);
                    lemma_keys_distinct_remove(entries@, i as int);
                }
                let (_k, v) = entries.remove(i);
                self.entries = entries;
                Some(v)
            },
            None => {
                proof {
                    assert(self@.remove(key@) =~= self@);
                }
                None
            },
        }
    }

    /// The keys of the table, in insertion order: each key once, and every
    /// key of the table among them.
    pub fn keys(&self) -> (r: Vec<String>)
        ensures
            r@.len() == self.key_order().len(),
            r@.len() == self@.len(),
            self@.dom().finite(),
            forall|i: int| 0 <= i < r@.len() ==> (#[trigger] r@[i])@ == self.key_order()[i],
            forall|a: int, b: int| 0 <= a < b < r@.len() ==> (#[trigger] r@[a])@ != (#[trigger] r@[b])@,
            forall|k: Seq<char>| self@.dom().contains(k) <==> self.key_order().contains(k),
            forall|k: Seq<char>| self@.dom().contains(k) <==> exists|i: int| 0 <= i < r@.len() && (#[trigger] r@[i])@ == k,
    {
        proof {
            use_type_invariant(self);
            lemma_len_of(self.entries@);
        }
        let mut r: Vec<String> = Vec::new();
        let mut i: usize = 0;
        while i < self.entries.len()
            invariant
                i <= self.entries@.len(),
                r@.len() == i,
                forall|j: int| 0 <= j < i ==> (#[trigger] r@[j])@ == self.entries@[j].0@,
            decreases self.entries@.len() - i,
        {
            r.push(self.entries[i].0.clone());
            i = i + 1;
        }
        proof {
            assert forall|a: int, b: int| 0 <= a < b < r@.len() implies (#[trigger] r@[a])@ != (#[trigger] r@[b])@ by {
                assert(self.entries@[a].0@ != self.entries@[b].0@);
            }
            assert forall|k: Seq<char>| self@.dom().contains(k) <==> exists|i: int| 0 <= i < r@.len() && (#[trigger] r@[i])@ == k by {
                lemma_entries_map_dom(self.entries@, k);
                if self@.dom().contains(k) {
                    let j = choose|j: int| 0 <= j < self.entries@.len() && (#[trigger] self.entries@[j]).0@ == k;
                    assert(r@[j]@ == k);
                }
                if exists|i: int| 0 <= i < r@.len() && (#[trigger] r@[i])@ == k {
                    let j = choose|j: int| 0 <= j < r@.len() && (#[trigger] r@[j])@ == k;
                    assert(self.entries@[j].0@ == k);
                }
            }
            assert forall|k: Seq<char>| self@.dom().contains(k) <==> self.key_order().contains(k) by {
                if self@.dom().contains(k) {
                    let j = choose|j: int| 0 <= j < r@.len() && (#[trigger] r@[j])@ == k;
                    assert(self.key_order()[j] == k);
                }
                if self.key_order().contains(k) {
                    let j = choose|j: int| 0 <= j < self.key_order().len() && self.key_order()[j] == k;
                    assert(r@[j]@ == k);
                }
            }
        }
        r
    }
}

/// What a table gives for a key after storing `value` under `key`: that
/// value for `key`, and what it gave before for every other key.
pub proof fn law_insert_then_lookup<T>(m: Map<Seq<char>, T>, key: Seq<char>, value: T, other: Seq<char>)
    requires
        other != key,
    ensures
        m.insert(key, value).dom().contains(key),
        m.insert(key, value)[key] == value,
        m.insert(key, value).dom().contains(other) == m.dom().contains(other),
        m.dom().contains(other) ==> m.insert(key, value)[other] == m[other],
{
}

/// After removing `key`, a table no longer holds it, and holds every other
/// key as before.
pub proof fn law_remove_then_lookup<T>(m: Map<Seq<char>, T>, key: Seq<char>, other: Seq<char>)
    requires
        other != key,
    ensures
        !m.remove(key).dom().contains(key),
        m.remove(key).dom().contains(other) == m.dom().contains(other),
        m.dom().contains(other) ==> m.remove(key)[other] == m[other],
{
}

/// With distinct keys, the number of keys is the number of entries.
proof fn lemma_len_of<V>(s: Seq<(String, V)>)
    requires
        keys_distinct(s),
    ensures
        entries_map(s).len() == s.len(),
        entries_map(s).dom().finite(),
    decreases s.len(),
{
    lemma_entries_map_finite(s);
    if s.len() > 0 {
        let t = s.drop_last();
        assert(keys_distinct(t)) by {
            assert forall|a: int, b: int| 0 <= a < b < t.len() implies (#[trigger] t[a]).0@ != (#[trigger] t[b]).0@ by {
                assert(t[a] == s[a]);
                assert(t[b] == s[b]);
            }
        }
        lemma_len_of(t);
        lemma_entries_map_dom(t, s.last().0@);
        if entries_map(t).dom().contains(s.last().0@) {
            let i = choose|i: int| 0 <= i < t.len() && (#[trigger] t[i]).0@ == s.last().0@;
            assert(t[i] == s[i]);
            assert(s.last() == s[s.len() - 1]);
        }
    }
}

} // verus!
