//! A map keyed by text: the shape in which the contracts keep their tables.
use vstd::prelude::*;

verus! {

/// The map that an association list denotes: a later entry overrides an earlier one.
pub open spec fn entries_map<V>(entries: Seq<(String, V)>) -> Map<Seq<char>, V>
    decreases entries.len(),
{
    if entries.len() == 0 {
        Map::empty()
    } else {
        entries_map(entries.drop_last()).insert(entries.last().0@, entries.last().1)
    }
}

/// No two entries carry the same key.
pub open spec fn keys_distinct<V>(entries: Seq<(String, V)>) -> bool {
    forall|i: int, j: int|
        0 <= i < entries.len() && 0 <= j < entries.len() && i != j ==> #[trigger] entries[i].0@
            != #[trigger] entries[j].0@
}

/// The keys of an association list, in order.
pub open spec fn entry_keys<V>(entries: Seq<(String, V)>) -> Seq<Seq<char>> {
    entries.map_values(|e: (String, V)| e.0@)
}

pub proof fn lemma_entries_map_finite<V>(entries: Seq<(String, V)>)
    ensures
        entries_map(entries).dom().finite(),
    decreases entries.len(),
{
    if entries.len() > 0 {
        lemma_entries_map_finite(entries.drop_last());
    }
}

pub proof fn lemma_entries_map_dom<V>(entries: Seq<(String, V)>, k: Seq<char>)
    ensures
        entries_map(entries).contains_key(k) <==> exists|i: int|
            0 <= i < entries.len() && #[trigger] entries[i].0@ == k,
    decreases entries.len(),
{
    if entries.len() > 0 {
        let rest = entries.drop_last();
        lemma_entries_map_dom(rest, k);
        if entries_map(entries).contains_key(k) {
            if k == entries.last().0@ {
                assert(entries[entries.len() - 1].0@ == k);
            } else {
                let i = choose|i: int| 0 <= i < rest.len() && #[trigger] rest[i].0@ == k;
                assert(entries[i].0@ == k);
            }
        }
        if exists|i: int| 0 <= i < entries.len() && #[trigger] entries[i].0@ == k {
            let i = choose|i: int| 0 <= i < entries.len() && #[trigger] entries[i].0@ == k;
            if i < entries.len() - 1 {
                assert(rest[i].0@ == k);
            }
        }
    }
}

pub proof fn lemma_entries_map_index<V>(entries: Seq<(String, V)>, i: int)
    requires
        keys_distinct(entries),
        0 <= i < entries.len(),
    ensures
        entries_map(entries).contains_key(entries[i].0@),
        entries_map(entries)[entries[i].0@] == entries[i].1,
    decreases entries.len(),
{
    let rest = entries.drop_last();
    if i < entries.len() - 1 {
        assert(rest[i] == entries[i]);
        assert(keys_distinct(rest)) by {
            assert forall|a: int, b: int|
                0 <= a < rest.len() && 0 <= b < rest.len() && a != b implies #[trigger] rest[a].0@
                != #[trigger] rest[b].0@ by {
                assert(rest[a] == entries[a] && rest[b] == entries[b]);
            }
        }
        lemma_entries_map_index(rest, i);
        assert(entries[i].0@ != entries[entries.len() - 1].0@);
    }
}

proof fn lemma_distinct_drop_last<V>(entries: Seq<(String, V)>)
    requires
        keys_distinct(entries),
        entries.len() > 0,
    ensures
        keys_distinct(entries.drop_last()),
{
    let rest = entries.drop_last();
    assert forall|a: int, b: int|
        0 <= a < rest.len() && 0 <= b < rest.len() && a != b implies #[trigger] rest[a].0@
        != #[trigger] rest[b].0@ by {
        assert(rest[a] == entries[a] && rest[b] == entries[b]);
    }
}

proof fn lemma_entries_map_len<V>(entries: Seq<(String, V)>)
    requires
        keys_distinct(entries),
    ensures
        entries_map(entries).dom().len() == entries.len(),
    decreases entries.len(),
{
    if entries.len() > 0 {
        let rest = entries.drop_last();
        lemma_distinct_drop_last(entries);
        lemma_entries_map_len(rest);
        lemma_entries_map_finite(rest);
        lemma_entries_map_dom(rest, entries.last().0@);
        assert forall|j: int| 0 <= j < rest.len() implies #[trigger] rest[j].0@
            != entries.last().0@ by {
            assert(rest[j] == entries[j]);
        }
    }
}

proof fn lemma_entries_map_update<V>(entries: Seq<(String, V)>, i: int, e: (String, V))
    requires
        keys_distinct(entries),
        0 <= i < entries.len(),
        entries[i].0@ == e.0@,
    ensures
        entries_map(entries.update(i, e)) == entries_map(entries).insert(e.0@, e.1),
    decreases entries.len(),
{
    let upd = entries.update(i, e);
    let rest = entries.drop_last();
    if i == entries.len() - 1 {
        assert(upd.drop_last() =~= rest);
        assert(entries_map(upd) =~= entries_map(entries).insert(e.0@, e.1));
    } else {
        lemma_distinct_drop_last(entries);
        assert(upd.drop_last() =~= rest.update(i, e));
        lemma_entries_map_update(rest, i, e);
        assert(entries[i].0@ != entries.last().0@);
        assert(entries_map(upd) =~= entries_map(entries).insert(e.0@, e.1));
    }
}

proof fn lemma_entries_map_remove<V>(entries: Seq<(String, V)>, i: int)
    requires
        keys_distinct(entries),
        0 <= i < entries.len(),
    ensures
        entries_map(entries.remove(i)) == entries_map(entries).remove(entries[i].0@),
    decreases entries.len(),
{
    let k = entries[i].0@;
    let rem = entries.remove(i);
    let rest = entries.drop_last();
    lemma_distinct_drop_last(entries);
    if i == entries.len() - 1 {
        assert(rem =~= rest);
        lemma_entries_map_dom(rest, k);
        assert forall|j: int| 0 <= j < rest.len() implies #[trigger] rest[j].0@ != k by {
            assert(rest[j] == entries[j]);
        }
        assert(!entries_map(rest).contains_key(k));
        assert(entries_map(rem) =~= entries_map(entries).remove(k));
    } else {
        assert(rem.drop_last() =~= rest.remove(i));
        assert(rem.last() == entries.last());
        lemma_entries_map_remove(rest, i);
        assert(rest[i] == entries[i]);
        assert(entries[i].0@ != entries.last().0@);
        assert(entries_map(rem) =~= entries_map(entries).remove(k));
    }
}

/// The map that a `StrMap` stands for is that of its entries.
pub proof fn lemma_view_is_items<V>(m: StrMap<V>)
    ensures
        m@ == entries_map(m.items()),
{
}

/// A map from text keys to values, kept as a list of entries with distinct keys.
pub struct StrMap<V> {
    entries: Vec<(String, V)>,
}

impl<V> View for StrMap<V> {
    type V = Map<Seq<char>, V>;

    closed spec fn view(&self) -> Map<Seq<char>, V> {
        entries_map(self.entries@)
    }
}

impl<V> StrMap<V> {
    #[verifier::type_invariant]
    spec fn distinct_keys(&self) -> bool {
        keys_distinct(self.entries@)
    }

    /// The entries in the order in which they are kept.
    pub closed spec fn items(&self) -> Seq<(String, V)> {
        self.entries@
    }

    /// The empty map.
    pub fn new() -> (m: Self)
        ensures
            m@ == Map::<Seq<char>, V>::empty(),
            m.items().len() == 0,
    {
        StrMap { entries: Vec::new() }
    }

    /// The number of entries.
    pub fn len(&self) -> (n: usize)
        ensures
            n == self.items().len(),
            n == self@.dom().len(),
            keys_distinct(self.items()),
            self@ == entries_map(self.items()),
    {
        proof {
            use_type_invariant(self);
            lemma_entries_map_len(self.entries@);
        }
        self.entries.len()
    }

    fn find(&self, key: &String) -> (r: Option<usize>)
        ensures
            match r {
                Some(i) => i < self.entries@.len() && self.entries@[i as int].0@ == key@,
                None => forall|i: int|
                    0 <= i < self.entries@.len() ==> #[trigger] self.entries@[i].0@ != key@,
            },
    {
        let n = self.entries.len();
        let mut i: usize = 0;
        while i < n
            invariant
                n == self.entries@.len(),
                i <= n,
                forall|j: int| 0 <= j < i ==> #[trigger] self.entries@[j].0@ != key@,
            decreases n - i,
        {
            if self.entries[i].0 == *key {
                return Some(i);
            }
            i = i + 1;
        }
        None
    }

    /// Whether the map holds the key.
    pub fn contains_key(&self, key: &String) -> (b: bool)
        ensures
            b == self@.contains_key(key@),
    {
        proof {
            use_type_invariant(self);
            lemma_entries_map_dom(self.entries@, key@);
        }
        self.find(key).is_some()
    }

    /// The value under the key, if any.
    pub fn get(&self, key: &String) -> (r: Option<&V>)
        ensures
            match r {
                Some(v) => self@.contains_key(key@) && *v == self@[key@],
                None => !self@.contains_key(key@),
            },
    {
        proof {
            use_type_invariant(self);
            lemma_entries_map_dom(self.entries@, key@);
        }
        match self.find(key) {
            Some(i) => {
                proof {
                    lemma_entries_map_index(self.entries@, i as int);
                }
                Some(&self.entries[i].1)
            },
            None => None,
        }
    }

    /// The key of the entry at a position.
    pub fn key_at(&self, i: usize) -> (k: &String)
        requires
            i < self.items().len(),
        ensures
            *k == self.items()[i as int].0,
            self@.contains_key(k@),
            self@[k@] == self.items()[i as int].1,
    {
        proof {
            use_type_invariant(self);
            lemma_entries_map_index(self.entries@, i as int);
        }
        &self.entries[i].0
    }

    /// The value of the entry at a position.
    pub fn value_at(&self, i: usize) -> (v: &V)
        requires
            i < self.items().len(),
        ensures
            *v == self.items()[i as int].1,
    {
        &self.entries[i].1
    }

    /// The keys, in the order in which the entries are kept.
    pub fn keys(&self) -> (ks: Vec<String>)
        ensures
            ks@.len() == self.items().len(),
            forall|i: int| 0 <= i < ks@.len() ==> #[trigger] ks@[i] == self.items()[i].0,
            forall|i: int| 0 <= i < ks@.len() ==> self@.contains_key(#[trigger] ks@[i]@),
    {
        proof {
            use_type_invariant(self);
        }
        let n = self.entries.len();
        let mut ks: Vec<String> = Vec::new();
        let mut i: usize = 0;
        while i < n
            invariant
                n == self.entries@.len(),
                i <= n,
                keys_distinct(self.entries@),
                ks@.len() == i,
                forall|j: int| 0 <= j < i ==> #[trigger] ks@[j] == self.entries@[j].0,
            decreases n - i,
        {
            ks.push(self.entries[i].0.clone());
            i = i + 1;
        }
        proof {
            assert forall|j: int| 0 <= j < ks@.len() implies self@.contains_key(#[trigger] ks@[j]@) by {
                lemma_entries_map_index(self.entries@, j);
            }
        }
        ks
    }

    /// A copy of the map, entry for entry.
    pub fn copied(&self) -> (m: StrMap<V>) where V: Copy
        ensures
            m.items() == self.items(),
            m@ == self@,
    {
        proof {
            use_type_invariant(self);
        }
        let n = self.entries.len();
        let mut entries: Vec<(String, V)> = Vec::new();
        let mut i: usize = 0;
        while i < n
            invariant
                n == self.entries@.len(),
                i <= n,
                entries@ == self.entries@.subrange(0, i as int),
            decreases n - i,
        {
            let k = self.entries[i].0.clone();
            let v = self.entries[i].1;
            entries.push((k, v));
            proof {
                assert(entries@ =~= self.entries@.subrange(0, i + 1));
            }
            i = i + 1;
        }
        proof {
            assert(entries@ =~= self.entries@);
        }
        StrMap { entries }
    }

    /// Sets the value under the key, adding the key where it is new.
    pub fn insert(&mut self, key: String, value: V)
        ensures
            final(self)@ == old(self)@.insert(key@, value),
            old(self)@.contains_key(key@) ==> final(self).items().len() == old(
                self,
            ).items().len(),
            old(self)@.contains_key(key@) ==> entry_keys(final(self).items()) == entry_keys(
                old(self).items(),
            ),
            !old(self)@.contains_key(key@) ==> final(self).items() == old(self).items().push(
                (key, value),
            ),
    {
        proof {
            use_type_invariant(&*self);
            lemma_entries_map_dom(self.entries@, key@);
        }
        match self.find(&key) {
            Some(i) => {
                proof {
                    lemma_entries_map_update(self.entries@, i as int, (key, value));
                }
                let ghost prev = self.entries@;
                let mut entries: Vec<(String, V)> = Vec::new();
                std::mem::swap(&mut entries, &mut self.entries);
                entries.set(i, (key, value));
                proof {
                    assert forall|a: int, b: int|
                        0 <= a < entries@.len() && 0 <= b < entries@.len() && a
                            != b implies #[trigger] entries@[a].0@
                        != #[trigger] entries@[b].0@ by {
                        assert(prev[a].0@ != prev[b].0@);
                    }
                }
                proof {
                    assert(entry_keys(entries@) =~= entry_keys(prev));
                }
                self.entries = entries;
            },
            None => {
                let ghost prev = self.entries@;
                let mut entries: Vec<(String, V)> = Vec::new();
                std::mem::swap(&mut entries, &mut self.entries);
                entries.push((key, value));
                proof {
                    assert(entries@.drop_last() =~= prev);
                    assert forall|a: int, b: int|
                        0 <= a < entries@.len() && 0 <= b < entries@.len() && a
                            != b implies #[trigger] entries@[a].0@
                        != #[trigger] entries@[b].0@ by {
                        if a < prev.len() && b < prev.len() {
                            assert(prev[a].0@ != prev[b].0@);
                        }
                    }
                }
                self.entries = entries;
            },
        }
    }

    /// Replaces the value of the entry at a position, keeping its key and place.
    pub fn set_value_at(&mut self, i: usize, value: V)
        requires
            i < old(self).items().len(),
        ensures
            final(self).items() == old(self).items().update(
                i as int,
                (old(self).items()[i as int].0, value),
            ),
            final(self)@ == old(self)@.insert(old(self).items()[i as int].0@, value),
    {
        proof {
            use_type_invariant(&*self);
        }
        let ghost prev = self.entries@;
        let mut entries: Vec<(String, V)> = Vec::new();
        std::mem::swap(&mut entries, &mut self.entries);
        let (k, _) = entries.remove(i);
        entries.insert(i, (k, value));
        proof {
            assert(entries@ =~= prev.update(i as int, (prev[i as int].0, value)));
            lemma_entries_map_update(prev, i as int, (prev[i as int].0, value));
            assert forall|a: int, b: int|
                0 <= a < entries@.len() && 0 <= b < entries@.len() && a != b implies #[trigger] entries@[a].0@
                != #[trigger] entries@[b].0@ by {
                assert(prev[a].0@ != prev[b].0@);
            }
        }
        self.entries = entries;
    }

    /// Takes the key out of the map; gives back its value, if it was there.
    pub fn remove(&mut self, key: &String) -> (r: Option<V>)
        ensures
            final(self)@ == old(self)@.remove(key@),
            r is None ==> *final(self) == *old(self),
            match r {
                Some(v) => old(self)@.contains_key(key@) && v == old(self)@[key@],
                None => !old(self)@.contains_key(key@),
            },
    {
        proof {
            use_type_invariant(&*self);
            lemma_entries_map_dom(self.entries@, key@);
        }
        match self.find(key) {
            Some(i) => {
                proof {
                    lemma_entries_map_index(self.entries@, i as int);
                    lemma_entries_map_remove(self.entries@, i as int);
                }
                let ghost prev = self.entries@;
                let mut entries: Vec<(String, V)> = Vec::new();
                std::mem::swap(&mut entries, &mut self.entries);
                let (_, v) = entries.remove(i);
                proof {
                    assert forall|a: int, b: int|
                        0 <= a < entries@.len() && 0 <= b < entries@.len() && a
                            != b implies #[trigger] entries@[a].0@
                        != #[trigger] entries@[b].0@ by {
                        let pa = if a < i { a } else { a + 1 };
                        let pb = if b < i { b } else { b + 1 };
                        assert(entries@[a] == prev[pa]);
                        assert(entries@[b] == prev[pb]);
                    }
                }
                self.entries = entries;
                Some(v)
            },
            None => {
                proof {
                    assert(self@.remove(key@) =~= self@);
                }
                None
            },
        }
    }
}

} // verus!
