//! A map with text keys.
use vstd::prelude::*;
use vstd::string::*;

use crate::text::same_text;

verus! {

/// A map from texts to values, in which a key occurs once.
pub struct StringMap<V> {
    entries: Vec<(String, V)>,
}

/// Whether the entry at `i` has the key.
pub open spec fn key_at<V>(entries: Seq<(String, V)>, i: int, key: Seq<char>) -> bool {
    0 <= i < entries.len() && entries[i].0@ == key
}

pub open spec fn distinct_keys<V>(entries: Seq<(String, V)>) -> bool {
    forall|i: int, j: int|
        0 <= i < j < entries.len() ==> (#[trigger] entries[i]).0@ != (#[trigger] entries[j]).0@
}

/// The map that a list of entries with distinct keys holds.
pub open spec fn entries_map<V>(entries: Seq<(String, V)>) -> Map<Seq<char>, V> {
    Map::new(
        |key: Seq<char>| exists|i: int| key_at(entries, i, key),
        |key: Seq<char>| entries[choose|i: int| key_at(entries, i, key)].1,
    )
}

proof fn lemma_entry<V>(entries: Seq<(String, V)>, i: int)
    requires
        distinct_keys(entries),
        0 <= i < entries.len(),
    ensures
        entries_map(entries).dom().contains(entries[i].0@),
        entries_map(entries)[entries[i].0@] == entries[i].1,
{
    let key = entries[i].0@;
    assert(key_at(entries, i, key));
    let j = choose|j: int| key_at(entries, j, key);
    assert(key_at(entries, j, key));
    if i < j {
        assert(entries[i].0@ != entries[j].0@);
    } else if j < i {
        assert(entries[j].0@ != entries[i].0@);
    }
}

proof fn lemma_push<V>(entries: Seq<(String, V)>, key: String, value: V)
    requires
        distinct_keys(entries),
        !entries_map(entries).dom().contains(key@),
    ensures
        distinct_keys(entries.push((key, value))),
        entries_map(entries.push((key, value))) == entries_map(entries).insert(key@, value),
{
    let more = entries.push((key, value));
    assert forall|i: int, j: int| 0 <= i < j < more.len() implies (#[trigger] more[i]).0@ != (
    #[trigger] more[j]).0@ by {
        if j == entries.len() {
            if more[i].0@ == key@ {
                assert(key_at(entries, i, key@));
            }
        } else {
            assert(entries[i].0@ != entries[j].0@);
        }
    }
    let a = entries_map(more);
    let b = entries_map(entries).insert(key@, value);
    assert forall|k: Seq<char>| a.dom().contains(k) <==> b.dom().contains(k) by {
        if b.dom().contains(k) {
            if k == key@ {
                assert(key_at(more, entries.len() as int, k));
            } else {
                let i = choose|i: int| key_at(entries, i, k);
                assert(key_at(more, i, k));
            }
        }
        if a.dom().contains(k) {
            let i = choose|i: int| key_at(more, i, k);
            if i < entries.len() {
                assert(key_at(entries, i, k));
            }
        }
    }
    assert forall|k: Seq<char>| a.dom().contains(k) implies a[k] == b[k] by {
        let i = choose|i: int| key_at(more, i, k);
        lemma_entry(more, i);
        if i < entries.len() {
            lemma_entry(entries, i);
            assert(key_at(entries, i, k));
        }
    }
    assert(a =~= b);
}

proof fn lemma_update<V>(entries: Seq<(String, V)>, at: int, value: V)
    requires
        distinct_keys(entries),
        0 <= at < entries.len(),
    ensures
        distinct_keys(entries.update(at, (entries[at].0, value))),
        entries_map(entries.update(at, (entries[at].0, value))) == entries_map(entries).insert(
            entries[at].0@,
            value,
        ),
{
    let key = entries[at].0;
    let other = entries.update(at, (key, value));
    assert forall|i: int, j: int| 0 <= i < j < other.len() implies (#[trigger] other[i]).0@ != (
    #[trigger] other[j]).0@ by {
        assert(entries[i].0@ != entries[j].0@);
    }
    let a = entries_map(other);
    let b = entries_map(entries).insert(key@, value);
    assert forall|k: Seq<char>| a.dom().contains(k) <==> b.dom().contains(k) by {
        if b.dom().contains(k) {
            if k == key@ {
                assert(key_at(other, at, k));
            } else {
                let i = choose|i: int| key_at(entries, i, k);
                assert(key_at(other, i, k));
            }
        }
        if a.dom().contains(k) {
            let i = choose|i: int| key_at(other, i, k);
            assert(key_at(entries, i, k));
        }
    }
    assert forall|k: Seq<char>| a.dom().contains(k) implies a[k] == b[k] by {
        let i = choose|i: int| key_at(other, i, k);
        lemma_entry(other, i);
        lemma_entry(entries, i);
        if i != at && k == key@ {
            if i < at {
                assert(other[i].0@ != other[at].0@);
            } else {
                assert(other[at].0@ != other[i].0@);
            }
        }
    }
    assert(a =~= b);
}

proof fn lemma_remove<V>(entries: Seq<(String, V)>, at: int)
    requires
        distinct_keys(entries),
        0 <= at < entries.len(),
    ensures
        distinct_keys(entries.remove(at)),
        entries_map(entries.remove(at)) == entries_map(entries).remove(entries[at].0@),
{
    let key = entries[at].0;
    let less = entries.remove(at);
    assert forall|i: int, j: int| 0 <= i < j < less.len() implies (#[trigger] less[i]).0@ != (
    #[trigger] less[j]).0@ by {
        let i2 = if i < at {
            i
        } else {
            i + 1
        };
        let j2 = if j < at {
            j
        } else {
            j + 1
        };
        assert(entries[i2].0@ != entries[j2].0@);
    }
    let a = entries_map(less);
    let b = entries_map(entries).remove(key@);
    assert forall|k: Seq<char>| a.dom().contains(k) <==> b.dom().contains(k) by {
        if b.dom().contains(k) {
            let i = choose|i: int| key_at(entries, i, k);
            assert(key_at(
                less,
                if i < at {
                    i
                } else {
                    i - 1
                },
                k,
            ));
        }
        if a.dom().contains(k) {
            let i = choose|i: int| key_at(less, i, k);
            let i2 = if i < at {
                i
            } else {
                i + 1
            };
            assert(key_at(entries, i2, k));
            if i2 < at {
                assert(entries[i2].0@ != entries[at].0@);
            } else {
                assert(entries[at].0@ != entries[i2].0@);
            }
        }
    }
    assert forall|k: Seq<char>| a.dom().contains(k) implies a[k] == b[k] by {
        let i = choose|i: int| key_at(less, i, k);
        lemma_entry(less, i);
        lemma_entry(
            entries,
            if i < at {
                i
            } else {
                i + 1
            },
        );
    }
    assert(a =~= b);
}

impl<V> View for StringMap<V> {
    type V = Map<Seq<char>, V>;

    closed spec fn view(&self) -> Map<Seq<char>, V> {
        entries_map(self.entries@)
    }
}

impl<V> StringMap<V> {
    #[verifier::type_invariant]
    spec fn keys_are_distinct(self) -> bool {
        distinct_keys(self.entries@)
    }

    pub fn new() -> (map: Self)
        ensures
            map@ == Map::<Seq<char>, V>::empty(),
    {
        let map = StringMap { entries: Vec::new() };
        assert(map@ =~= Map::<Seq<char>, V>::empty());
        map
    }

    /// Where the entry with the key stands.
    fn position(&self, key: &str) -> (position: Option<usize>)
        ensures
            match position {
                Some(i) => key_at(self.entries@, i as int, key@),
                None => !self@.dom().contains(key@),
            },
    {
        let mut i: usize = 0;
        while i < self.entries.len()
            invariant
                i <= self.entries.len(),
                forall|j: int| 0 <= j < i ==> !key_at(self.entries@, j, key@),
            decreases self.entries.len() - i,
        {
            if same_text(self.entries[i].0.as_str(), key) {
                return Some(i);
            }
            i = i + 1;
        }
        None
    }

    /// The value at a key.
    pub fn get(&self, key: &str) -> (value: Option<&V>)
        ensures
            match value {
                Some(value) => self@.dom().contains(key@) && *value == self@[key@],
                None => !self@.dom().contains(key@),
            },
    {
        proof {
            use_type_invariant(self);
        }
        match self.position(key) {
            Some(i) => {
                proof {
                    lemma_entry(self.entries@, i as int);
                }
                Some(&self.entries[i].1)
            },
            None => None,
        }
    }

    /// Whether there is an entry with the key.
    pub fn contains_key(&self, key: &str) -> (found: bool)
        ensures
            found == self@.dom().contains(key@),
    {
        self.get(key).is_some()
    }

    /// Whether there is no entry.
    pub fn is_empty(&self) -> (empty: bool)
        ensures
            empty == (self@ == Map::<Seq<char>, V>::empty()),
    {
        proof {
            use_type_invariant(self);
            if self.entries@.len() == 0 {
                assert(self@ =~= Map::<Seq<char>, V>::empty());
            } else {
                lemma_entry(self.entries@, 0);
            }
        }
        self.entries.len() == 0
    }

    /// Sets the value at a key, and gives back the value that stood there.
    pub fn insert(&mut self, key: String, value: V) -> (previous: Option<V>)
        ensures
            final(self)@ == old(self)@.insert(key@, value),
            match previous {
                Some(previous) => old(self)@.dom().contains(key@) && previous == old(self)@[key@],
                None => !old(self)@.dom().contains(key@),
            },
    {
        proof {
            use_type_invariant(&*self);
        }
        let position = self.position(key.as_str());
        let mut entries: Vec<(String, V)> = Vec::new();
        std::mem::swap(&mut entries, &mut self.entries);
        match position {
            Some(i) => {
                let (stored, previous) = entries.remove(i);
                proof {
                    lemma_entry(old(self).entries@, i as int);
                    lemma_update(old(self).entries@, i as int, value);
                }
                entries.insert(i, (stored, value));
                assert(entries@ =~= old(self).entries@.update(i as int, (stored, value)));
                self.entries = entries;
                Some(previous)
            },
            None => {
                proof {
                    lemma_push(entries@, key, value);
                }
                entries.push((key, value));
                self.entries = entries;
                None
            },
        }
    }

    /// Removes a key, and gives back the value that stood there.
    pub fn remove(&mut self, key: &str) -> (removed: Option<V>)
        ensures
            final(self)@ == old(self)@.remove(key@),
            match removed {
                Some(removed) => old(self)@.dom().contains(key@) && removed == old(self)@[key@],
                None => !old(self)@.dom().contains(key@),
            },
    {
        proof {
            use_type_invariant(&*self);
        }
        match self.position(key) {
            Some(i) => {
                let mut entries: Vec<(String, V)> = Vec::new();
                std::mem::swap(&mut entries, &mut self.entries);
                proof {
                    lemma_entry(entries@, i as int);
                    lemma_remove(entries@, i as int);
                }
                let (_, removed) = entries.remove(i);
                self.entries = entries;
                Some(removed)
            },
            None => {
                assert(self@ =~= old(self)@.remove(key@));
                None
            },
        }
    }

    /// Adds all entries of another map, which win over those here.
    pub fn extend(&mut self, other: StringMap<V>)
        ensures
            final(self)@ == old(self)@.union_prefer_right(other@),
    {
        let mut other = other;
        let ghost added = other@;
        let ghost start = self@;
        loop
            invariant
                self@ == start.union_prefer_right(added.remove_keys(other@.dom())),
                other@.dom().subset_of(added.dom()),
                forall|key: Seq<char>| #[trigger]
                    other@.dom().contains(key) ==> other@[key] == added[key],
            ensures
                self@ == start.union_prefer_right(added),
            decreases other.entries.len(),
        {
            proof {
                use_type_invariant(&other);
                use_type_invariant(&*self);
            }
            let ghost before = other@;
            let mut entries: Vec<(String, V)> = Vec::new();
            std::mem::swap(&mut entries, &mut other.entries);
            let ghost all = entries@;
            match entries.pop() {
                Some((key, value)) => {
                    proof {
                        lemma_entry(all, entries@.len() as int);
                        lemma_remove(all, entries@.len() as int);
                        assert(all.remove(entries@.len() as int) =~= entries@);
                    }
                    other.entries = entries;
                    let ghost sum = self@;
                    let _ = self.insert(key, value);
                    proof {
                        assert(other@ == before.remove(key@));
                        assert(self@ =~= start.union_prefer_right(
                            added.remove_keys(other@.dom()),
                        ));
                    }
                },
                None => {
                    proof {
                        assert(before =~= Map::<Seq<char>, V>::empty()) by {
                            assert(all.len() == 0);
                        }
                        assert(added.remove_keys(before.dom()) =~= added);
                    }
                    break;
                },
            }
        }
    }
}

impl<V: Copy> StringMap<V> {
    /// A map with the same entries.
    pub fn copied(&self) -> (copy: StringMap<V>)
        ensures
            copy@ == self@,
    {
        proof {
            use_type_invariant(self);
        }
        let mut entries: Vec<(String, V)> = Vec::new();
        let mut i: usize = 0;
        while i < self.entries.len()
            invariant
                i <= self.entries.len(),
                entries@.len() == i,
                forall|k: int|
                    0 <= k < i ==> (#[trigger] entries@[k]).0@ == self.entries@[k].0@
                        && entries@[k].1 == self.entries@[k].1,
            decreases self.entries.len() - i,
        {
            entries.push((self.entries[i].0.clone(), self.entries[i].1));
            i = i + 1;
        }
        proof {
            assert forall|a: int, b: int| 0 <= a < b < entries@.len() implies (
            #[trigger] entries@[a]).0@ != (#[trigger] entries@[b]).0@ by {
                assert(self.entries@[a].0@ != self.entries@[b].0@);
            }
            assert forall|key: Seq<char>|
                entries_map(entries@).dom().contains(key) == self@.dom().contains(key) by {
                if entries_map(entries@).dom().contains(key) {
                    let k = choose|k: int| key_at(entries@, k, key);
                    assert(key_at(self.entries@, k, key));
                }
                if self@.dom().contains(key) {
                    let k = choose|k: int| key_at(self.entries@, k, key);
                    assert(key_at(entries@, k, key));
                }
            }
            assert forall|key: Seq<char>| self@.dom().contains(key) implies entries_map(
                entries@,
            )[key] == self@[key] by {
                let k = choose|k: int| key_at(self.entries@, k, key);
                assert(entries@[k].0@ == key);
                lemma_entry(self.entries@, k);
                lemma_entry(entries@, k);
            }
            assert(entries_map(entries@) =~= self@);
        }
        StringMap { entries }
    }
}

} // verus!
