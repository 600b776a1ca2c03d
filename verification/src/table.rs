//! A small table from text keys to values, kept in insertion order.

use vstd::prelude::*;

verus! {

/// A table that holds at most one value under each key.
pub struct Table<V> {
    entries: Vec<(String, V)>,
}

/// `key` is the key of one of the first `n` of `entries`.
pub open spec fn key_among<V>(entries: Seq<(String, V)>, n: int, key: Seq<char>) -> bool {
    exists|i: int| 0 <= i < n && (#[trigger] entries[i]).0@ == key
}

/// The position of `key` among `entries`.
pub open spec fn key_index<V>(entries: Seq<(String, V)>, key: Seq<char>) -> int {
    choose|i: int| 0 <= i < entries.len() && (#[trigger] entries[i]).0@ == key
}

/// No key occurs twice among `entries`.
pub open spec fn distinct_keys<V>(entries: Seq<(String, V)>) -> bool {
    forall|i: int, j: int|
        0 <= i < j < entries.len() ==> (#[trigger] entries[i]).0@ != (#[trigger] entries[j]).0@
}

/// The map that `entries` stand for.
pub open spec fn as_map<V>(entries: Seq<(String, V)>) -> Map<Seq<char>, V> {
    Map::new(
        |key: Seq<char>| key_among(entries, entries.len() as int, key),
        |key: Seq<char>| entries[key_index(entries, key)].1,
    )
}

proof fn lemma_key_at<V>(entries: Seq<(String, V)>, i: int)
    requires
        distinct_keys(entries),
        0 <= i < entries.len(),
    ensures
        key_among(entries, entries.len() as int, entries[i].0@),
        key_index(entries, entries[i].0@) == i,
        as_map(entries).contains_key(entries[i].0@),
        as_map(entries)[entries[i].0@] == entries[i].1,
{
    let key = entries[i].0@;
    assert(key_among(entries, entries.len() as int, key));
    let j = key_index(entries, key);
    if j < i {
        assert(entries[j].0@ != entries[i].0@);
    } else if i < j {
        assert(entries[i].0@ != entries[j].0@);
    }
}

proof fn lemma_remove<V>(entries: Seq<(String, V)>, i: int)
    requires
        distinct_keys(entries),
        0 <= i < entries.len(),
    ensures
        distinct_keys(entries.remove(i)),
        as_map(entries.remove(i)) == as_map(entries).remove(entries[i].0@),
{
    let rest = entries.remove(i);
    let key = entries[i].0@;
    assert forall|a: int, b: int| 0 <= a < b < rest.len() implies (#[trigger] rest[a]).0@ != (
    #[trigger] rest[b]).0@ by {
        let a0 = if a < i { a } else { a + 1 };
        let b0 = if b < i { b } else { b + 1 };
        assert(rest[a] == entries[a0]);
        assert(rest[b] == entries[b0]);
    }
    assert forall|k: Seq<char>| #[trigger]
        as_map(rest).contains_key(k) <==> as_map(entries).remove(key).contains_key(k) by {
        if as_map(rest).contains_key(k) {
            let a = key_index(rest, k);
            let a0 = if a < i { a } else { a + 1 };
            assert(rest[a] == entries[a0]);
            lemma_key_at(entries, a0);
            if a0 < i {
                assert(entries[a0].0@ != entries[i].0@);
            } else {
                assert(entries[i].0@ != entries[a0].0@);
            }
        }
        if as_map(entries).remove(key).contains_key(k) {
            let a0 = key_index(entries, k);
            let a = if a0 < i { a0 } else { a0 - 1 };
            assert(rest[a] == entries[a0]);
        }
    }
    assert forall|k: Seq<char>| #[trigger] as_map(rest).contains_key(k) implies as_map(rest)[k]
        == as_map(entries).remove(key)[k] by {
        let a = key_index(rest, k);
        let a0 = if a < i { a } else { a + 1 };
        assert(rest[a] == entries[a0]);
        lemma_key_at(entries, a0);
    }
    assert(as_map(rest) =~= as_map(entries).remove(key));
}

proof fn lemma_push<V>(entries: Seq<(String, V)>, entry: (String, V))
    requires
        distinct_keys(entries),
        !as_map(entries).contains_key(entry.0@),
    ensures
        distinct_keys(entries.push(entry)),
        as_map(entries.push(entry)) == as_map(entries).insert(entry.0@, entry.1),
{
    let more = entries.push(entry);
    let n = entries.len() as int;
    assert forall|a: int, b: int| 0 <= a < b < more.len() implies (#[trigger] more[a]).0@ != (
    #[trigger] more[b]).0@ by {
        assert(more[a] == entries[a]);
        if b < n {
            assert(more[b] == entries[b]);
        } else {
            assert(key_among(entries, n, entries[a].0@));
        }
    }
    assert(more[n] == entry);
    lemma_key_at(more, n);
    assert forall|k: Seq<char>| #[trigger]
        as_map(more).contains_key(k) <==> as_map(entries).insert(entry.0@, entry.1).contains_key(
            k,
        ) by {
        if as_map(more).contains_key(k) {
            let a = key_index(more, k);
            if a < n {
                assert(more[a] == entries[a]);
                assert(key_among(entries, n, k));
            }
        }
        if as_map(entries).contains_key(k) {
            let a = key_index(entries, k);
            assert(more[a] == entries[a]);
        }
    }
    assert forall|k: Seq<char>| #[trigger] as_map(more).contains_key(k) implies as_map(more)[k]
        == as_map(entries).insert(entry.0@, entry.1)[k] by {
        let a = key_index(more, k);
        lemma_key_at(more, a);
        if a < n {
            assert(more[a] == entries[a]);
            lemma_key_at(entries, a);
        }
    }
    assert(as_map(more) =~= as_map(entries).insert(entry.0@, entry.1));
}

impl<V> View for Table<V> {
    type V = Map<Seq<char>, V>;

    closed spec fn view(&self) -> Map<Seq<char>, V> {
        as_map(self.entries@)
    }
}

impl<V> Table<V> {
    #[verifier::type_invariant]
    spec fn well_formed(&self) -> bool {
        distinct_keys(self.entries@)
    }

    /// A table without entries.
    pub fn new() -> (table: Table<V>)
        ensures
            table@ == Map::<Seq<char>, V>::empty(),
    {
        let table = Table { entries: Vec::new() };
        assert(table@ =~= Map::<Seq<char>, V>::empty());
        table
    }

    fn find(&self, key: &String) -> (found: Option<usize>)
        ensures
            match found {
                Some(i) => i < self.entries@.len() && self.entries@[i as int].0@ == key@,
                None => !self@.contains_key(key@),
            },
    {
        let mut i: usize = 0;
        while i < self.entries.len()
            invariant
                i <= self.entries@.len(),
                !key_among(self.entries@, i as int, key@),
            decreases self.entries@.len() - i,
        {
            if self.entries[i].0 == *key {
                return Some(i);
            }
            i += 1;
        }
        None
    }

    /// The value under `key`, if there is one.
    pub fn get(&self, key: &String) -> (found: Option<&V>)
        ensures
            match found {
                Some(item) => self@.contains_key(key@) && *item == self@[key@],
                None => !self@.contains_key(key@),
            },
    {
        proof {
            use_type_invariant(self);
        }
        match self.find(key) {
            Some(i) => {
                proof {
                    lemma_key_at(self.entries@, i as int);
                }
                Some(&self.entries[i].1)
            },
            None => None,
        }
    }

    /// Takes the value under `key` out of the table.
    pub fn take(&mut self, key: &String) -> (taken: Option<V>)
        ensures
            final(self)@ == old(self)@.remove(key@),
            match taken {
                Some(item) => old(self)@.contains_key(key@) && item == old(self)@[key@],
                None => !old(self)@.contains_key(key@),
            },
    {
        proof {
            use_type_invariant(&*self);
        }
        match self.find(key) {
            Some(i) => {
                proof {
                    lemma_key_at(self.entries@, i as int);
                    lemma_remove(self.entries@, i as int);
                }
                let mut entries: Vec<(String, V)> = Vec::new();
                core::mem::swap(&mut self.entries, &mut entries);
                let entry = entries.remove(i);
                self.entries = entries;
                Some(entry.1)
            },
            None => {
                assert(self@ =~= old(self)@.remove(key@));
                None
            },
        }
    }

    /// Puts `item` under `key`, in place of what was there.
    pub fn put(&mut self, key: String, item: V)
        ensures
            final(self)@ == old(self)@.insert(key@, item),
    {
        let _ = self.take(&key);
        proof {
            use_type_invariant(&*self);
            lemma_push(self.entries@, (key, item));
            assert(old(self)@.remove(key@).insert(key@, item) =~= old(self)@.insert(key@, item));
        }
        let mut entries: Vec<(String, V)> = Vec::new();
        core::mem::swap(&mut self.entries, &mut entries);
        entries.push((key, item));
        self.entries = entries;
    }
}

} // verus!
