//! A small map keyed by text, kept as an association list without repeated keys.

use vstd::prelude::*;

use crate::text::same_text;

verus! {

/// No key occurs twice.
pub open spec fn distinct_keys<V>(e: Seq<(String, V)>) -> bool {
    forall|i: int, j: int| 0 <= i < j < e.len() ==> (#[trigger] e[i]).0@ != (#[trigger] e[j]).0@
}

/// Some entry carries the key `k`.
pub open spec fn has_key<V>(e: Seq<(String, V)>, k: Seq<char>) -> bool {
    exists|i: int| 0 <= i < e.len() && (#[trigger] e[i]).0@ == k
}

/// The place of the entry with the key `k`.
pub open spec fn place<V>(e: Seq<(String, V)>, k: Seq<char>) -> int {
    choose|i: int| 0 <= i < e.len() && (#[trigger] e[i]).0@ == k
}

/// The map that a list of entries stands for.
pub open spec fn entries_map<V>(e: Seq<(String, V)>) -> Map<Seq<char>, V> {
    Map::new(|k: Seq<char>| has_key(e, k), |k: Seq<char>| e[place(e, k)].1)
}

/// A map from texts to values.
pub struct TextMap<V> {
    entries: Vec<(String, V)>,
}

impl<V> View for TextMap<V> {
    type V = Map<Seq<char>, V>;

    closed spec fn view(&self) -> Map<Seq<char>, V> {
        entries_map(self.entries@)
    }
}

impl<V> TextMap<V> {
    #[verifier::type_invariant]
    spec fn well_formed(self) -> bool {
        distinct_keys(self.entries@)
    }

    pub fn new() -> (m: Self)
        ensures
            m@ == Map::<Seq<char>, V>::empty(),
    {
        let m = TextMap { entries: Vec::new() };
        proof {
            assert(m@ =~= Map::<Seq<char>, V>::empty());
        }
        m
    }

    fn find(entries: &Vec<(String, V)>, k: &str) -> (r: Option<usize>)
        ensures
            match r {
                Some(i) => i < entries@.len() && entries@[i as int].0@ == k@,
                None => !has_key(entries@, k@),
            },
    {
        let mut i: usize = 0;
        while i < entries.len()
            invariant
                i <= entries@.len(),
                forall|j: int| 0 <= j < i ==> (#[trigger] entries@[j]).0@ != k@,
            decreases entries.len() - i,
        {
            if same_text(entries[i].0.as_str(), k) {
                return Some(i);
            }
            i = i + 1;
        }
        None
    }

    /// The value stored under `k`.
    pub fn get(&self, k: &str) -> (r: Option<&V>)
        ensures
            match r {
                Some(v) => self@.dom().contains(k@) && *v == self@[k@],
                None => !self@.dom().contains(k@),
            },
    {
        proof {
            use_type_invariant(self);
        }
        match Self::find(&self.entries, k) {
            Some(i) => {
                proof {
                    assert(has_key(self.entries@, k@));
                }
                Some(&self.entries[i].1)
            },
            None => None,
        }
    }

    pub fn contains_key(&self, k: &str) -> (r: bool)
        ensures
            r == self@.dom().contains(k@),
    {
        self.get(k).is_some()
    }

    /// Stores `v` under `k`, in place of what was there.
    pub fn insert(&mut self, k: String, v: V)
        ensures
            final(self)@ == old(self)@.insert(k@, v),
    {
        proof {
            use_type_invariant(&*self);
        }
        let ghost e0 = self.entries@;
        let mut entries: Vec<(String, V)> = Vec::new();
        std::mem::swap(&mut entries, &mut self.entries);
        match Self::find(&entries, k.as_str()) {
            Some(i) => {
                proof {
                    lemma_insert_at(e0, i as int, (k, v));
                }
                entries.set(i, (k, v));
            },
            None => {
                proof {
                    lemma_insert_new(e0, (k, v));
                }
                entries.push((k, v));
            },
        }
        self.entries = entries;
    }

    /// Drops the entry stored under `k`.
    pub fn remove(&mut self, k: &str)
        ensures
            final(self)@ == old(self)@.remove(k@),
    {
        proof {
            use_type_invariant(&*self);
        }
        let ghost e0 = self.entries@;
        let mut entries: Vec<(String, V)> = Vec::new();
        std::mem::swap(&mut entries, &mut self.entries);
        match Self::find(&entries, k) {
            Some(i) => {
                proof {
                    lemma_remove_at(e0, i as int);
                }
                let _ = entries.remove(i);
            },
            None => {
                proof {
                    assert(entries_map(e0) =~= entries_map(e0).remove(k@));
                }
            },
        }
        self.entries = entries;
    }

    /// The number of entries.
    pub fn len(&self) -> (n: usize)
        ensures
            self@.dom().finite(),
            n == self@.dom().len(),
    {
        proof {
            use_type_invariant(self);
            lemma_entry_count(self.entries@);
        }
        self.entries.len()
    }

    /// The entries.
    pub fn entries(&self) -> (e: &Vec<(String, V)>)
        ensures
            distinct_keys(e@),
            entries_map(e@) == self@,
    {
        proof {
            use_type_invariant(self);
        }
        &self.entries
    }

    /// The entries themselves.
    pub fn into_entries(self) -> (e: Vec<(String, V)>)
        ensures
            distinct_keys(e@),
            entries_map(e@) == self@,
    {
        proof {
            use_type_invariant(&self);
        }
        self.entries
    }
}

/// The entry at `i` is the one that the map shows under its key.
pub proof fn lemma_entry<V>(e: Seq<(String, V)>, i: int)
    requires
        distinct_keys(e),
        0 <= i < e.len(),
    ensures
        has_key(e, e[i].0@),
        place(e, e[i].0@) == i,
        entries_map(e).dom().contains(e[i].0@),
        entries_map(e)[e[i].0@] == e[i].1,
{
    let k = e[i].0@;
    assert(has_key(e, k));
    let p = place(e, k);
    if p < i {
        assert(e[p].0@ != e[i].0@);
    } else if p > i {
        assert(e[i].0@ != e[p].0@);
    }
}

proof fn lemma_entry_count<V>(e: Seq<(String, V)>)
    requires
        distinct_keys(e),
    ensures
        entries_map(e).dom().finite(),
        entries_map(e).dom().len() == e.len(),
{
    let keys = e.map_values(|entry: (String, V)| entry.0@);
    assert(keys.no_duplicates()) by {
        assert forall|i: int, j: int| 0 <= i < keys.len() && 0 <= j < keys.len() && i
            != j implies keys[i] != keys[j] by {
            if i < j {
                assert(e[i].0@ != e[j].0@);
            } else {
                assert(e[j].0@ != e[i].0@);
            }
        }
    }
    keys.unique_seq_to_set();
    assert(entries_map(e).dom() =~= keys.to_set()) by {
        assert forall|k: Seq<char>| has_key(e, k) == keys.to_set().contains(k) by {
            if has_key(e, k) {
                assert(keys[place(e, k)] == k);
            }
            if keys.contains(k) {
                let i = choose|i: int| 0 <= i < keys.len() && keys[i] == k;
                assert(e[i].0@ == k);
            }
        }
    }
}

proof fn lemma_insert_at<V>(e: Seq<(String, V)>, i: int, entry: (String, V))
    requires
        distinct_keys(e),
        0 <= i < e.len(),
        e[i].0@ == entry.0@,
    ensures
        distinct_keys(e.update(i, entry)),
        entries_map(e.update(i, entry)) == entries_map(e).insert(entry.0@, entry.1),
{
    let f = e.update(i, entry);
    assert forall|a: int, b: int| 0 <= a < b < f.len() implies (#[trigger] f[a]).0@ != (
    #[trigger] f[b]).0@ by {
        assert(f[a].0@ == e[a].0@);
        assert(f[b].0@ == e[b].0@);
    }
    let m = entries_map(e).insert(entry.0@, entry.1);
    assert forall|k: Seq<char>| has_key(f, k) == m.dom().contains(k) by {
        if has_key(f, k) {
            let p = place(f, k);
            assert(e[p].0@ == k);
            assert(has_key(e, k));
        }
        if has_key(e, k) {
            let p = place(e, k);
            assert(f[p].0@ == k);
        }
        if k == entry.0@ {
            assert(f[i].0@ == k);
        }
    }
    assert forall|k: Seq<char>| has_key(f, k) implies #[trigger] entries_map(f)[k] == m[k] by {
        let p = place(f, k);
        lemma_entry(f, p);
        if p == i {
        } else {
            lemma_entry(e, p);
            assert(e[p].0@ == k);
            assert(e[p].0@ != e[i].0@);
        }
    }
    assert(entries_map(f) =~= m);
}

proof fn lemma_insert_new<V>(e: Seq<(String, V)>, entry: (String, V))
    requires
        distinct_keys(e),
        !has_key(e, entry.0@),
    ensures
        distinct_keys(e.push(entry)),
        entries_map(e.push(entry)) == entries_map(e).insert(entry.0@, entry.1),
{
    let f = e.push(entry);
    assert forall|a: int, b: int| 0 <= a < b < f.len() implies (#[trigger] f[a]).0@ != (
    #[trigger] f[b]).0@ by {
        assert(f[a] == e[a]);
        if b < e.len() {
            assert(f[b] == e[b]);
        }
    }
    let m = entries_map(e).insert(entry.0@, entry.1);
    assert forall|k: Seq<char>| has_key(f, k) == m.dom().contains(k) by {
        if has_key(f, k) {
            let p = place(f, k);
            if p < e.len() {
                assert(e[p].0@ == k);
            }
        }
        if has_key(e, k) {
            let p = place(e, k);
            assert(f[p].0@ == k);
        }
        if k == entry.0@ {
            assert(f[e.len() as int].0@ == k);
        }
    }
    assert forall|k: Seq<char>| has_key(f, k) implies #[trigger] entries_map(f)[k] == m[k] by {
        let p = place(f, k);
        lemma_entry(f, p);
        if p < e.len() {
            assert(f[p] == e[p]);
            lemma_entry(e, p);
        }
    }
    assert(entries_map(f) =~= m);
}

proof fn lemma_remove_at<V>(e: Seq<(String, V)>, i: int)
    requires
        distinct_keys(e),
        0 <= i < e.len(),
    ensures
        distinct_keys(e.remove(i)),
        entries_map(e.remove(i)) == entries_map(e).remove(e[i].0@),
{
    let f = e.remove(i);
    let gone = e[i].0@;
    assert forall|a: int, b: int| 0 <= a < b < f.len() implies (#[trigger] f[a]).0@ != (
    #[trigger] f[b]).0@ by {
        let a2 = if a < i {
            a
        } else {
            a + 1
        };
        let b2 = if b < i {
            b
        } else {
            b + 1
        };
        assert(f[a] == e[a2]);
        assert(f[b] == e[b2]);
    }
    let m = entries_map(e).remove(gone);
    assert forall|k: Seq<char>| has_key(f, k) == m.dom().contains(k) by {
        if has_key(f, k) {
            let p = place(f, k);
            let p2 = if p < i {
                p
            } else {
                p + 1
            };
            assert(f[p] == e[p2]);
            assert(has_key(e, k));
            lemma_entry(e, p2);
            lemma_entry(e, i);
        }
        if has_key(e, k) && k != gone {
            let p = place(e, k);
            let p2 = if p < i {
                p
            } else {
                p - 1
            };
            assert(f[p2] == e[p]);
        }
    }
    assert forall|k: Seq<char>| has_key(f, k) implies #[trigger] entries_map(f)[k] == m[k] by {
        let p = place(f, k);
        let p2 = if p < i {
            p
        } else {
            p + 1
        };
        lemma_entry(f, p);
        assert(f[p] == e[p2]);
        lemma_entry(e, p2);
    }
    assert(entries_map(f) =~= m);
}

} // verus!
