//! Maps keyed by strings, held as vectors of entries with distinct keys.
use vstd::prelude::*;
use crate::strings::distinct;
use crate::text::str_eq;

verus! {

/// The keys of a sequence of entries.
pub open spec fn keys_of<V>(s: Seq<(String, V)>) -> Seq<Seq<char>> {
    s.map_values(|e: (String, V)| e.0@)
}

/// The map that entries describe, a later entry for a key replacing an
/// earlier one.
pub open spec fn to_map<V>(s: Seq<(String, V)>) -> Map<Seq<char>, V>
    decreases s.len(),
{
    if s.len() == 0 {
        Map::empty()
    } else {
        to_map(s.drop_last()).insert(s.last().0@, s.last().1)
    }
}

/// The keys of the map are the keys of the entries.
pub proof fn lemma_to_map_dom<V>(s: Seq<(String, V)>)
    ensures
        to_map(s).dom() == keys_of(s).to_set(),
    decreases s.len(),
{
    if s.len() > 0 {
        lemma_to_map_dom(s.drop_last());
        assert(keys_of(s) =~= keys_of(s.drop_last()).push(s.last().0@));
        let d = s.drop_last();
        assert forall|k: Seq<char>| keys_of(s).to_set().contains(k) implies to_map(s).dom().contains(k) by {
            let i = choose|i: int| 0 <= i < keys_of(s).len() && keys_of(s)[i] == k;
            if i < s.len() - 1 {
                assert(keys_of(d)[i] == k);
                assert(keys_of(d).to_set().contains(k));
            }
        }
        assert forall|k: Seq<char>| to_map(s).dom().contains(k) implies keys_of(s).to_set().contains(k) by {
            if k == s.last().0@ {
                assert(keys_of(s)[s.len() - 1] == k);
            } else {
                assert(keys_of(d).to_set().contains(k));
                let i = choose|i: int| 0 <= i < keys_of(d).len() && keys_of(d)[i] == k;
                assert(keys_of(s)[i] == k);
            }
        }
        assert(to_map(s).dom() =~= keys_of(s).to_set());
    } else {
        assert(keys_of(s).to_set() =~= Set::empty());
        assert(to_map(s).dom() =~= Set::empty());
    }
}

/// With distinct keys, the map gives each entry's value for its key.
pub proof fn lemma_to_map_index<V>(s: Seq<(String, V)>, i: int)
    requires
        distinct(keys_of(s)),
        0 <= i < s.len(),
    ensures
        to_map(s).dom().contains(s[i].0@),
        to_map(s)[s[i].0@] == s[i].1,
    decreases s.len(),
{
    lemma_to_map_dom(s);
    assert(keys_of(s)[i] == s[i].0@);
    if i < s.len() - 1 {
        let d = s.drop_last();
        assert(keys_of(d) =~= keys_of(s).drop_last());
        lemma_to_map_index(d, i);
        assert(keys_of(s)[i] != keys_of(s)[s.len() - 1]);
    }
}

/// Replacing the value of an entry replaces the value of its key.
pub proof fn lemma_to_map_update<V>(s: Seq<(String, V)>, i: int, e: (String, V))
    requires
        distinct(keys_of(s)),
        0 <= i < s.len(),
        e.0@ == s[i].0@,
    ensures
        to_map(s.update(i, e)) == to_map(s).insert(e.0@, e.1),
        distinct(keys_of(s.update(i, e))),
    decreases s.len(),
{
    let t = s.update(i, e);
    assert(keys_of(t) =~= keys_of(s));
    if i == s.len() - 1 {
        assert(t.drop_last() =~= s.drop_last());
        assert(to_map(t) =~= to_map(s).insert(e.0@, e.1));
    } else {
        let d = s.drop_last();
        assert(keys_of(d) =~= keys_of(s).drop_last());
        lemma_to_map_update(d, i, e);
        assert(t.drop_last() =~= d.update(i, e));
        assert(keys_of(s)[i] != keys_of(s)[s.len() - 1]);
        assert(to_map(t) =~= to_map(s).insert(e.0@, e.1));
    }
}

/// A map keyed by strings.
pub struct Table<V> {
    entries: Vec<(String, V)>,
}

impl<V> Table<V> {
    /// No two entries share a key.
    #[verifier::type_invariant]
    closed spec fn wf(&self) -> bool {
        distinct(keys_of(self.entries@))
    }

    /// The map this table holds.
    pub closed spec fn contents(&self) -> Map<Seq<char>, V> {
        to_map(self.entries@)
    }

    /// The keys of the table in the order they were first inserted.
    pub closed spec fn key_order(&self) -> Seq<Seq<char>> {
        keys_of(self.entries@)
    }

    /// An empty table.
    pub fn new() -> (t: Self)
        ensures
            t.contents() == Map::<Seq<char>, V>::empty(),
            t.key_order() == Seq::<Seq<char>>::empty(),
    {
        Table { entries: Vec::new() }
    }

    /// The entries of the table, each key once.
    pub fn entries(&self) -> (r: &Vec<(String, V)>)
        ensures
            distinct(keys_of(r@)),
            to_map(r@) == self.contents(),
            keys_of(r@) == self.key_order(),
    {
        proof {
            use_type_invariant(self);
        }
        &self.entries
    }

    /// The position of the entry for `key`, if there is one.
    fn find(&self, key: &str) -> (r: Option<usize>)
        ensures
            match r {
                Some(i) => i < self.entries@.len() && self.entries@[i as int].0@ == key@ && self.contents().dom().contains(key@)
                    && self.contents()[key@] == self.entries@[i as int].1,
                None => !self.contents().dom().contains(key@),
            },
    {
        proof {
            use_type_invariant(self);
        }
        let mut i: usize = 0;
        while i < self.entries.len()
            invariant
                distinct(keys_of(self.entries@)),
                i <= self.entries@.len(),
                forall|j: int| 0 <= j < i ==> self.entries@[j].0@ != key@,
            decreases self.entries@.len() - i,
        {
            if str_eq(self.entries[i].0.as_str(), key) {
                proof {
                    lemma_to_map_index(self.entries@, i as int);
                }
                return Some(i);
            }
            i += 1;
        }
        proof {
            lemma_to_map_dom(self.entries@);
            if self.contents().dom().contains(key@) {
                let j = choose|j: int| 0 <= j < keys_of(self.entries@).len() && keys_of(self.entries@)[j] == key@;
                assert(self.entries@[j].0@ == key@);
            }
        }
        None
    }

    /// The value of `key`, if there is one.
    pub fn get(&self, key: &str) -> (r: Option<&V>)
        ensures
            match r {
                Some(v) => self.contents().dom().contains(key@) && self.contents()[key@] == *v,
                None => !self.contents().dom().contains(key@),
            },
    {
        match self.find(key) {
            Some(i) => Some(&self.entries[i].1),
            None => None,
        }
    }

    /// Whether the table holds no entry.
    pub fn is_empty(&self) -> (r: bool)
        ensures
            r == (self.contents().dom() == Set::<Seq<char>>::empty()),
    {
        proof {
            use_type_invariant(self);
            lemma_to_map_dom(self.entries@);
            if self.entries@.len() == 0 {
                assert(keys_of(self.entries@).to_set() =~= Set::empty());
            } else {
                assert(keys_of(self.entries@).to_set().contains(keys_of(self.entries@)[0]));
            }
        }
        self.entries.len() == 0
    }

    /// This table with `key` set to `value`.
    pub fn inserted(self, key: String, value: V) -> (t: Self)
        ensures
            t.contents() == self.contents().insert(key@, value),
            t.key_order() == if self.key_order().contains(key@) {
                self.key_order()
            } else {
                self.key_order().push(key@)
            },
    {
        proof {
            use_type_invariant(&self);
        }
        let found = self.find(key.as_str());
        let Table { mut entries } = self;
        let ghost old_entries = entries@;
        match found {
            Some(i) => {
                proof {
                    lemma_to_map_update(entries@, i as int, (key, value));
                    assert(keys_of(entries@)[i as int] == key@);
                }
                entries.set(i, (key, value));
                assert(keys_of(entries@) =~= keys_of(old_entries));
            },
            None => {
                proof {
                    lemma_to_map_dom(entries@);
                    assert(!keys_of(entries@).contains(key@)) by {
                        if keys_of(entries@).contains(key@) {
                            let j = choose|j: int| 0 <= j < keys_of(entries@).len() && keys_of(entries@)[j] == key@;
                            assert(keys_of(entries@).to_set().contains(key@));
                        }
                    }
                    assert(keys_of(entries@.push((key, value))) =~= keys_of(entries@).push(key@));
                    assert forall|a: int, b: int| 0 <= a < b < keys_of(entries@).len() + 1
                        implies #[trigger] keys_of(entries@).push(key@)[a] != #[trigger] keys_of(entries@).push(key@)[b] by {
                        if b == keys_of(entries@).len() {
                            assert(keys_of(entries@).to_set().contains(keys_of(entries@)[a]));
                        }
                    }
                    assert(entries@.push((key, value)).drop_last() =~= entries@);
                }
                entries.push((key, value));
            },
        }
        Table { entries }
    }

    /// Sets the value of `key` in place.
    pub fn insert(&mut self, key: String, value: V)
        ensures
            final(self).contents() == old(self).contents().insert(key@, value),
            final(self).key_order() == if old(self).key_order().contains(key@) {
                old(self).key_order()
            } else {
                old(self).key_order().push(key@)
            },
    {
        let mut t = Table::new();
        core::mem::swap(&mut t, self);
        *self = t.inserted(key, value);
    }
}

} // verus!
