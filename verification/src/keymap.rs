//! Association lists keyed by strings: the lookup that every keyed table of
//! the library goes through, and a map type whose keys never repeat.
use vstd::prelude::*;

verus! {

/// The index of the first entry whose key is `key`, if any.
#[verifier::opaque]
pub open spec fn first_key_index<V>(entries: Seq<(String, V)>, key: Seq<char>) -> Option<int> {
    if exists|i: int| 0 <= i < entries.len() && #[trigger] entries[i].0@ == key {
        Some(
            choose|i: int|
                0 <= i < entries.len() && #[trigger] entries[i].0@ == key && forall|j: int|
                    0 <= j < i ==> entries[j].0@ != key,
        )
    } else {
        None
    }
}

/// The smallest index holding `key` is what `first_key_index` picks.
pub proof fn lemma_first_key_index<V>(entries: Seq<(String, V)>, key: Seq<char>, i: int)
    requires
        0 <= i < entries.len(),
        entries[i].0@ == key,
        forall|j: int| 0 <= j < i ==> entries[j].0@ != key,
    ensures
        first_key_index(entries, key) == Some(i),
{
    reveal(first_key_index);
    let k = choose|k: int|
        0 <= k < entries.len() && #[trigger] entries[k].0@ == key && forall|j: int|
            0 <= j < k ==> entries[j].0@ != key;
    assert(0 <= k < entries.len() && entries[k].0@ == key && forall|j: int|
        0 <= j < k ==> entries[j].0@ != key);
    if k < i {
        assert(entries[k].0@ != key);
    }
    if i < k {
        assert(entries[i].0@ != key);
    }
}

/// Finds the first entry whose key equals `key`.
pub fn find_key<V>(entries: &Vec<(String, V)>, key: &String) -> (res: Option<usize>)
    ensures
        match res {
            Some(i) => first_key_index(entries@, key@) == Some(i as int) && i < entries@.len()
                && entries@[i as int].0@ == key@,
            None => first_key_index(entries@, key@) is None,
        },
{
    let mut i: usize = 0;
    while i < entries.len()
        invariant
            i <= entries.len(),
            forall|j: int| 0 <= j < i ==> entries@[j].0@ != key@,
        decreases entries.len() - i,
    {
        if entries[i].0 == *key {
            proof {
                lemma_first_key_index(entries@, key@, i as int);
            }
            return Some(i);
        }
        i = i + 1;
    }
    assert(!exists|j: int| 0 <= j < entries@.len() && #[trigger] entries@[j].0@ == key@);
    proof {
        reveal(first_key_index);
    }
    None
}

/// No key occurs twice.
pub open spec fn keys_unique<V>(entries: Seq<(String, V)>) -> bool {
    forall|i: int, j: int|
        0 <= i < entries.len() && 0 <= j < entries.len() && i != j ==> entries[i].0@
            != entries[j].0@
}

/// The map that a list of entries with distinct keys stands for.
pub open spec fn entries_map<V>(entries: Seq<(String, V)>) -> Map<Seq<char>, V> {
    Map::new(
        |k: Seq<char>| first_key_index(entries, k) is Some,
        |k: Seq<char>| entries[first_key_index(entries, k)->0].1,
    )
}

} // verus!

verus! {

/// With distinct keys, every entry is what the map holds under its key.
pub proof fn lemma_entries_map_at<V>(entries: Seq<(String, V)>, i: int)
    requires
        keys_unique(entries),
        0 <= i < entries.len(),
    ensures
        first_key_index(entries, entries[i].0@) == Some(i),
        entries_map(entries).contains_key(entries[i].0@),
        entries_map(entries)[entries[i].0@] == entries[i].1,
{
    lemma_first_key_index(entries, entries[i].0@, i);
}

/// A key that no entry carries is not in the map.
pub proof fn lemma_entries_map_absent<V>(entries: Seq<(String, V)>, key: Seq<char>)
    requires
        forall|i: int| 0 <= i < entries.len() ==> entries[i].0@ != key,
    ensures
        first_key_index(entries, key) is None,
        !entries_map(entries).contains_key(key),
{
    reveal(first_key_index);
}

/// The keys of a list of entries.
pub open spec fn keys_of<V>(entries: Seq<(String, V)>) -> Seq<Seq<char>> {
    entries.map_values(|p: (String, V)| p.0@)
}

/// With distinct keys, the map's keys are those of the entries, one per
/// entry.
pub proof fn lemma_entries_map_dom<V>(entries: Seq<(String, V)>)
    requires
        keys_unique(entries),
    ensures
        entries_map(entries).dom() == keys_of(entries).to_set(),
        entries_map(entries).dom().finite(),
        entries_map(entries).dom().len() == entries.len(),
{
    let ks = keys_of(entries);
    assert forall|k: Seq<char>| #[trigger]
        entries_map(entries).dom().contains(k) <==> ks.to_set().contains(k) by {
        if entries_map(entries).dom().contains(k) {
            let i = first_key_index(entries, k)->0;
            reveal(first_key_index);
            assert(0 <= i < entries.len() && entries[i].0@ == k);
            assert(ks[i] == k);
        }
        if ks.to_set().contains(k) {
            assert(ks.contains(k));
            let i = choose|i: int| 0 <= i < ks.len() && ks[i] == k;
            lemma_entries_map_at(entries, i);
        }
    }
    assert(entries_map(entries).dom() =~= ks.to_set());
    assert(ks.no_duplicates()) by {
        assert forall|i: int, j: int| 0 <= i < ks.len() && 0 <= j < ks.len() && i != j implies ks[i]
            != ks[j] by {
            assert(ks[i] == entries[i].0@ && ks[j] == entries[j].0@);
        }
    }
    ks.unique_seq_to_set();
}

/// A map from strings to values, kept as a list of entries whose keys never
/// repeat; entries keep the order in which their keys were first inserted.
pub struct KeyMap<V> {
    entries: Vec<(String, V)>,
}

impl<V> View for KeyMap<V> {
    type V = Map<Seq<char>, V>;

    closed spec fn view(&self) -> Map<Seq<char>, V> {
        entries_map(self.entries@)
    }
}

impl<V> KeyMap<V> {
    /// The entries, in insertion order.
    pub closed spec fn entries(&self) -> Seq<(String, V)> {
        self.entries@
    }

    /// Keys are distinct.
    #[verifier::type_invariant]
    closed spec fn keys_distinct(&self) -> bool {
        keys_unique(self.entries@)
    }

    /// An empty map.
    pub fn new() -> (res: Self)
        ensures
            res@ == Map::<Seq<char>, V>::empty(),
            res.entries().len() == 0,
    {
        let res = KeyMap { entries: Vec::new() };
        proof {
            reveal(first_key_index);
        }
        assert(res@ =~= Map::<Seq<char>, V>::empty());
        res
    }

    /// The number of keys. The entries carry distinct keys and stand for
    /// the map, so there are as many of them as the map has keys.
    pub fn len(&self) -> (res: usize)
        ensures
            res == self.entries().len(),
            res == self@.len(),
            self@.dom().finite(),
            keys_unique(self.entries()),
            self@ == entries_map(self.entries()),
    {
        proof {
            use_type_invariant(self);
            lemma_entries_map_dom(self.entries@);
        }
        self.entries.len()
    }

    /// The entry at position `i`.
    pub fn entry_at(&self, i: usize) -> (res: &(String, V))
        requires
            i < self.entries().len(),
        ensures
            *res == self.entries()[i as int],
    {
        &self.entries[i]
    }

    /// The value stored under `key`, if any.
    pub fn get(&self, key: &String) -> (res: Option<&V>)
        ensures
            match res {
                Some(v) => self@.contains_key(key@) && *v == self@[key@],
                None => !self@.contains_key(key@),
            },
    {
        proof {
            use_type_invariant(self);
        }
        match find_key(&self.entries, key) {
            Some(i) => Some(&self.entries[i].1),
            None => None,
        }
    }

    /// Whether `key` has a value.
    pub fn contains_key(&self, key: &String) -> (res: bool)
        ensures
            res == self@.contains_key(key@),
    {
        proof {
            use_type_invariant(self);
        }
        find_key(&self.entries, key).is_some()
    }

    /// Stores `value` under `key`, replacing what was there.
    pub fn insert(&mut self, key: String, value: V)
        ensures
            final(self)@ == old(self)@.insert(key@, value),
    {
        proof {
            use_type_invariant(&*self);
        }
        let ghost old_e = self.entries@;
        let ghost k = key@;
        let mut entries: Vec<(String, V)> = Vec::new();
        std::mem::swap(&mut entries, &mut self.entries);
        match find_key(&entries, &key) {
            Some(i) => {
                entries.set(i, (key, value));
                proof {
                    reveal(first_key_index);
                    let e = entries@;
                    assert(e =~= old_e.update(i as int, (e[i as int].0, value)));
                    assert(keys_unique(e));
                    lemma_entries_map_at(e, i as int);
                    assert forall|q: Seq<char>|
                        #![trigger entries_map(e).contains_key(q)]
                        q != k implies (entries_map(e).contains_key(q) == entries_map(
                            old_e,
                        ).contains_key(q) && (entries_map(e).contains_key(q) ==> entries_map(
                            e,
                        )[q] == entries_map(old_e)[q])) by {
                        if entries_map(old_e).contains_key(q) {
                            let j = first_key_index(old_e, q)->0;
                            lemma_entries_map_at(old_e, j);
                            lemma_entries_map_at(e, j);
                        }
                        if entries_map(e).contains_key(q) {
                            let j = first_key_index(e, q)->0;
                            lemma_entries_map_at(e, j);
                            lemma_entries_map_at(old_e, j);
                        }
                    }
                    assert(entries_map(e) =~= entries_map(old_e).insert(k, value));
                }
            },
            None => {
                entries.push((key, value));
                proof {
                    reveal(first_key_index);
                    let e = entries@;
                    assert(e =~= old_e.push((e[e.len() - 1].0, value)));
                    assert(keys_unique(e));
                    lemma_entries_map_at(e, e.len() - 1);
                    assert forall|q: Seq<char>|
                        #![trigger entries_map(e).contains_key(q)]
                        q != k implies (entries_map(e).contains_key(q) == entries_map(
                            old_e,
                        ).contains_key(q) && (entries_map(e).contains_key(q) ==> entries_map(
                            e,
                        )[q] == entries_map(old_e)[q])) by {
                        if entries_map(old_e).contains_key(q) {
                            let j = first_key_index(old_e, q)->0;
                            lemma_entries_map_at(old_e, j);
                            lemma_entries_map_at(e, j);
                        }
                        if entries_map(e).contains_key(q) {
                            let j = first_key_index(e, q)->0;
                            lemma_entries_map_at(e, j);
                            if j < old_e.len() {
                                lemma_entries_map_at(old_e, j);
                            }
                        }
                    }
                    assert(entries_map(e) =~= entries_map(old_e).insert(k, value));
                }
            },
        }
        self.entries = entries;
    }

    /// Removes the value stored under `key` and hands it back.
    pub fn remove(&mut self, key: &String) -> (res: Option<V>)
        ensures
            final(self)@ == old(self)@.remove(key@),
            match res {
                Some(v) => old(self)@.contains_key(key@) && v == old(self)@[key@],
                None => !old(self)@.contains_key(key@),
            },
    {
        proof {
            use_type_invariant(&*self);
        }
        let ghost old_e = self.entries@;
        let ghost k = key@;
        match find_key(&self.entries, key) {
            Some(i) => {
                let mut entries: Vec<(String, V)> = Vec::new();
                std::mem::swap(&mut entries, &mut self.entries);
                let (_, v) = entries.remove(i);
                proof {
                    reveal(first_key_index);
                    let e = entries@;
                    assert(e =~= old_e.remove(i as int));
                    assert(keys_unique(e)) by {
                        assert forall|a: int, b: int|
                            0 <= a < e.len() && 0 <= b < e.len() && a != b implies e[a].0@
                            != e[b].0@ by {
                            let a2 = if a < i { a } else { a + 1 };
                            let b2 = if b < i { b } else { b + 1 };
                            assert(e[a] == old_e[a2]);
                            assert(e[b] == old_e[b2]);
                        }
                    }
                    lemma_entries_map_at(old_e, i as int);
                    assert forall|q: Seq<char>|
                        #![trigger entries_map(e).contains_key(q)]
                        q != k implies (entries_map(e).contains_key(q) == entries_map(
                            old_e,
                        ).contains_key(q) && (entries_map(e).contains_key(q) ==> entries_map(
                            e,
                        )[q] == entries_map(old_e)[q])) by {
                        if entries_map(old_e).contains_key(q) {
                            let j = first_key_index(old_e, q)->0;
                            lemma_entries_map_at(old_e, j);
                            assert(j != i);
                            let j2 = if j < i { j } else { j - 1 };
                            assert(e[j2] == old_e[j]);
                            lemma_entries_map_at(e, j2);
                        }
                        if entries_map(e).contains_key(q) {
                            let j = first_key_index(e, q)->0;
                            lemma_entries_map_at(e, j);
                            let j2 = if j < i { j } else { j + 1 };
                            assert(e[j] == old_e[j2]);
                            lemma_entries_map_at(old_e, j2);
                        }
                    }
                    assert forall|j: int| 0 <= j < e.len() implies e[j].0@ != k by {
                        let j2 = if j < i { j } else { j + 1 };
                        assert(e[j] == old_e[j2]);
                    }
                    lemma_entries_map_absent(e, k);
                    assert(entries_map(e) =~= entries_map(old_e).remove(k));
                }
                self.entries = entries;
                Some(v)
            },
            None => {
                proof {
                    assert(entries_map(old_e) =~= entries_map(old_e).remove(k));
                }
                None
            },
        }
    }
}

} // verus!
