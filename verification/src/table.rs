//! A table from text keys to values.

use vstd::prelude::*;

verus! {

/// A table from text keys to values, each key at most once.
#[derive(Debug)]
pub struct Table<V> {
    entries: Vec<(String, V)>,
}

/// `key` stands at `index`.
spec fn key_at<V>(entries: Seq<(String, V)>, key: Seq<char>, index: int) -> bool {
    0 <= index < entries.len() && entries[index].0@ == key
}

/// No key occurs twice.
spec fn distinct_keys<V>(entries: Seq<(String, V)>) -> bool {
    forall|i: int, j: int|
        0 <= i < j < entries.len() ==> (#[trigger] entries[i]).0@ != (#[trigger] entries[j]).0@
}

/// The map that a list of entries stands for.
spec fn entry_map<V: View>(entries: Seq<(String, V)>) -> Map<Seq<char>, V::V> {
    Map::new(
        |key: Seq<char>| exists|i: int| key_at(entries, key, i),
        |key: Seq<char>| entries[choose|i: int| key_at(entries, key, i)].1@,
    )
}

/// An entry is in the map.
proof fn lemma_entry<V: View>(entries: Seq<(String, V)>, index: int)
    requires
        distinct_keys(entries),
        0 <= index < entries.len(),
    ensures
        entry_map(entries).contains_key(entries[index].0@),
        entry_map(entries)[entries[index].0@] == entries[index].1@,
{
    let key = entries[index].0@;
    assert(key_at(entries, key, index));
    let chosen = choose|i: int| key_at(entries, key, i);
    assert(key_at(entries, key, chosen));
    if chosen < index {
        assert(entries[chosen].0@ != entries[index].0@);
    }
    if index < chosen {
        assert(entries[index].0@ != entries[chosen].0@);
    }
}

/// A new key at the end extends the map.
proof fn lemma_push<V: View>(entries: Seq<(String, V)>, entry: (String, V))
    requires
        distinct_keys(entries),
        forall|i: int| 0 <= i < entries.len() ==> (#[trigger] entries[i]).0@ != entry.0@,
    ensures
        distinct_keys(entries.push(entry)),
        !entry_map(entries).contains_key(entry.0@),
        entry_map(entries.push(entry)) == entry_map(entries).insert(entry.0@, entry.1@),
{
    let longer = entries.push(entry);
    let map = entry_map(entries).insert(entry.0@, entry.1@);
    assert forall|key: Seq<char>| #[trigger]
        entry_map(longer).contains_key(key) == map.contains_key(key) by {
        if entry_map(longer).contains_key(key) {
            let i = choose|i: int| key_at(longer, key, i);
            if i < entries.len() {
                assert(key_at(entries, key, i));
            }
        }
        if map.contains_key(key) {
            if key == entry.0@ {
                assert(key_at(longer, key, entries.len() as int));
            } else {
                let i = choose|i: int| key_at(entries, key, i);
                assert(key_at(longer, key, i));
            }
        }
    }
    assert forall|key: Seq<char>| #[trigger] entry_map(longer).contains_key(key) implies entry_map(
        longer,
    )[key] == map[key] by {
        let i = choose|i: int| key_at(longer, key, i);
        lemma_entry(longer, i);
        if i < entries.len() {
            assert(entries[i].0@ != entry.0@);
            lemma_entry(entries, i);
        }
    }
    assert(entry_map(longer) =~= map);
}

/// Taking an entry out takes its key out of the map.
proof fn lemma_remove<V: View>(entries: Seq<(String, V)>, index: int)
    requires
        distinct_keys(entries),
        0 <= index < entries.len(),
    ensures
        distinct_keys(entries.remove(index)),
        entry_map(entries.remove(index)) == entry_map(entries).remove(entries[index].0@),
{
    let shorter = entries.remove(index);
    let map = entry_map(entries).remove(entries[index].0@);
    assert(distinct_keys(shorter)) by {
        assert forall|i: int, j: int| 0 <= i < j < shorter.len() implies (
        #[trigger] shorter[i]).0@ != (#[trigger] shorter[j]).0@ by {
            let p = if i < index { i } else { i + 1 };
            let q = if j < index { j } else { j + 1 };
            assert(entries[p].0@ != entries[q].0@);
        }
    }
    assert forall|key: Seq<char>| #[trigger]
        entry_map(shorter).contains_key(key) == map.contains_key(key) by {
        if entry_map(shorter).contains_key(key) {
            let i = choose|i: int| key_at(shorter, key, i);
            let p = if i < index { i } else { i + 1 };
            assert(key_at(entries, key, p));
            if p < index {
                assert(entries[p].0@ != entries[index].0@);
            } else {
                assert(entries[index].0@ != entries[p].0@);
            }
        }
        if map.contains_key(key) {
            let p = choose|p: int| key_at(entries, key, p);
            let i = if p < index { p } else { p - 1 };
            assert(key_at(shorter, key, i));
        }
    }
    assert forall|key: Seq<char>| #[trigger] entry_map(shorter).contains_key(key) implies entry_map(
        shorter,
    )[key] == map[key] by {
        let i = choose|i: int| key_at(shorter, key, i);
        let p = if i < index { i } else { i + 1 };
        lemma_entry(shorter, i);
        lemma_entry(entries, p);
    }
    assert(entry_map(shorter) =~= map);
}

impl<V: View> View for Table<V> {
    type V = Map<Seq<char>, V::V>;

    closed spec fn view(&self) -> Map<Seq<char>, V::V> {
        entry_map(self.entries@)
    }
}

impl<V> Table<V> {
    #[verifier::type_invariant]
    spec fn well_formed(self) -> bool {
        distinct_keys(self.entries@)
    }
}

impl<V: View> Table<V> {
    /// A table without entries.
    pub fn new() -> (table: Self)
        ensures
            table@ == Map::<Seq<char>, V::V>::empty(),
    {
        let table = Table { entries: Vec::new() };
        assert(table@ =~= Map::<Seq<char>, V::V>::empty());
        table
    }

    /// Where `key` stands among the entries.
    fn find(&self, key: &str) -> (index: Option<usize>)
        ensures
            match index {
                Some(index) => key_at(self.entries@, key@, index as int),
                None => forall|i: int|
                    0 <= i < self.entries@.len() ==> (#[trigger] self.entries@[i]).0@ != key@,
            },
            index is Some <==> self@.contains_key(key@),
    {
        let mut i: usize = 0;
        while i < self.entries.len()
            invariant
                i <= self.entries@.len(),
                forall|j: int| 0 <= j < i ==> (#[trigger] self.entries@[j]).0@ != key@,
            decreases self.entries@.len() - i,
        {
            if self.entries[i].0.as_str().eq(key) {
                assert(key_at(self.entries@, key@, i as int));
                return Some(i);
            }
            i = i + 1;
        }
        None
    }

    /// The value of `key`.
    pub fn get(&self, key: &str) -> (value: Option<&V>)
        ensures
            match value {
                Some(value) => self@.contains_key(key@) && value@ == self@[key@],
                None => !self@.contains_key(key@),
            },
    {
        proof {
            use_type_invariant(self);
        }
        match self.find(key) {
            Some(index) => {
                proof {
                    lemma_entry(self.entries@, index as int);
                }
                Some(&self.entries[index].1)
            },
            None => None,
        }
    }

    /// Takes the value of `key` out of the table.
    pub fn remove(&mut self, key: &str) -> (value: Option<V>)
        ensures
            final(self)@ == old(self)@.remove(key@),
            match value {
                Some(value) => old(self)@.contains_key(key@) && value@ == old(self)@[key@],
                None => !old(self)@.contains_key(key@),
            },
    {
        proof {
            use_type_invariant(&*self);
        }
        match self.find(key) {
            Some(index) => {
                proof {
                    lemma_entry(self.entries@, index as int);
                    lemma_remove(self.entries@, index as int);
                }
                let mut entries: Vec<(String, V)> = Vec::new();
                std::mem::swap(&mut entries, &mut self.entries);
                let (_, value) = entries.remove(index);
                self.entries = entries;
                Some(value)
            },
            None => {
                assert(self@ =~= self@.remove(key@));
                None
            },
        }
    }

    /// Sets the value of `key`, in place of the value that it had.
    pub fn insert(&mut self, key: String, value: V)
        ensures
            final(self)@ == old(self)@.insert(key@, value@),
    {
        let ghost before = self@;
        let _ = self.remove(key.as_str());
        proof {
            use_type_invariant(&*self);
        }
        let mut entries: Vec<(String, V)> = Vec::new();
        std::mem::swap(&mut entries, &mut self.entries);
        proof {
            assert forall|i: int| 0 <= i < entries@.len() implies (#[trigger] entries@[i]).0@
                != key@ by {
                lemma_entry(entries@, i);
            }
            lemma_push(entries@, (key, value));
            assert(before.remove(key@).insert(key@, value@) =~= before.insert(key@, value@));
        }
        entries.push((key, value));
        self.entries = entries;
    }

    /// Takes some entry out of the table, if there is one.
    pub fn pop(&mut self) -> (entry: Option<(String, V)>)
        ensures
            match entry {
                Some((key, value)) => {
                    &&& old(self)@.contains_key(key@)
                    &&& value@ == old(self)@[key@]
                    &&& final(self)@ == old(self)@.remove(key@)
                },
                None => {
                    &&& old(self)@ == Map::<Seq<char>, V::V>::empty()
                    &&& final(self)@ == old(self)@
                },
            },
            entry is Some ==> final(self).size() < old(self).size(),
    {
        proof {
            use_type_invariant(&*self);
        }
        let mut entries: Vec<(String, V)> = Vec::new();
        std::mem::swap(&mut entries, &mut self.entries);
        let ghost before = entries@;
        let entry = entries.pop();
        proof {
            if entry is Some {
                let last = before.len() - 1;
                lemma_entry(before, last);
                lemma_remove(before, last);
                assert(before.remove(last) =~= entries@);
            } else {
                assert(entry_map(before) =~= Map::<Seq<char>, V::V>::empty());
            }
        }
        self.entries = entries;
        entry
    }

    /// How many entries the table has.
    pub closed spec fn size(self) -> nat {
        self.entries@.len()
    }
}

} // verus!
