//! A small string-keyed table: the storage primitive under the in-memory
//! object store and under a transaction's write set.

use vstd::prelude::*;
use vstd::string::*;

verus! {

/// One key with its value.
#[derive(Debug, PartialEq, Eq)]
pub struct Entry {
    pub key: String,
    pub value: String,
}

/// Whether some entry of `entries` is stored under `k`.
pub open spec fn holds_key(entries: Seq<Entry>, k: Seq<char>) -> bool {
    exists|i: int| 0 <= i < entries.len() && (#[trigger] entries[i]).key@ == k
}

/// The position of an entry stored under `k`.
pub open spec fn key_index(entries: Seq<Entry>, k: Seq<char>) -> int {
    choose|i: int| 0 <= i < entries.len() && (#[trigger] entries[i]).key@ == k
}

/// No two entries share a key.
pub open spec fn distinct_keys(entries: Seq<Entry>) -> bool {
    forall|i: int, j: int|
        0 <= i < j < entries.len() ==> (#[trigger] entries[i]).key@ != (#[trigger] entries[j]).key@
}

/// The map that a sequence of entries stands for.
pub open spec fn entries_map(entries: Seq<Entry>) -> Map<Seq<char>, Seq<char>> {
    Map::new(|k: Seq<char>| holds_key(entries, k), |k: Seq<char>| entries[key_index(entries, k)].value@)
}

/// What `m` holds under `k`, if anything.
pub open spec fn lookup(m: Map<Seq<char>, Seq<char>>, k: Seq<char>) -> Option<Seq<char>> {
    if m.contains_key(k) {
        Some(m[k])
    } else {
        None
    }
}

/// The view of an optional string.
pub open spec fn text_of(r: Option<String>) -> Option<Seq<char>> {
    match r {
        Some(s) => Some(s@),
        None => None,
    }
}

/// With distinct keys, the entry at `i` is the one found under its key.
pub proof fn lemma_entry_found(entries: Seq<Entry>, i: int)
    requires
        distinct_keys(entries),
        0 <= i < entries.len(),
    ensures
        holds_key(entries, entries[i].key@),
        key_index(entries, entries[i].key@) == i,
        entries_map(entries).contains_key(entries[i].key@),
        entries_map(entries)[entries[i].key@] == entries[i].value@,
{
    let k = entries[i].key@;
    let j = key_index(entries, k);
    assert(0 <= j < entries.len() && entries[j].key@ == k);
    if j < i {
        assert(entries[j].key@ != entries[i].key@);
    }
    if i < j {
        assert(entries[i].key@ != entries[j].key@);
    }
}

/// Replacing the value of the entry at `i` updates the map at its key.
pub proof fn lemma_replace(entries: Seq<Entry>, i: int, e: Entry)
    requires
        distinct_keys(entries),
        0 <= i < entries.len(),
        e.key@ == entries[i].key@,
    ensures
        distinct_keys(entries.update(i, e)),
        entries_map(entries.update(i, e)) == entries_map(entries).insert(e.key@, e.value@),
{
    let after = entries.update(i, e);
    assert forall|a: int| 0 <= a < entries.len() implies (#[trigger] after[a]).key@
        == entries[a].key@ by {}
    assert(distinct_keys(after)) by {
        assert forall|a: int, b: int| 0 <= a < b < after.len() implies (#[trigger] after[a]).key@
            != (#[trigger] after[b]).key@ by {
            assert(entries[a].key@ != entries[b].key@);
        }
    }
    let lhs = entries_map(after);
    let rhs = entries_map(entries).insert(e.key@, e.value@);
    assert forall|k: Seq<char>| lhs.contains_key(k) <==> rhs.contains_key(k) by {
        if lhs.contains_key(k) {
            let a = key_index(after, k);
            assert(entries[a].key@ == k);
        }
        if rhs.contains_key(k) {
            if k == e.key@ {
                assert(after[i].key@ == k);
            } else {
                let a = key_index(entries, k);
                assert(after[a].key@ == k);
            }
        }
    }
    assert forall|k: Seq<char>| lhs.contains_key(k) implies lhs[k] == rhs[k] by {
        let a = key_index(after, k);
        lemma_entry_found(after, a);
        lemma_entry_found(entries, a);
    }
    assert(lhs =~= rhs);
}

/// Appending an entry under a key that is not yet held adds it to the map.
pub proof fn lemma_append(entries: Seq<Entry>, e: Entry)
    requires
        distinct_keys(entries),
        !holds_key(entries, e.key@),
    ensures
        distinct_keys(entries.push(e)),
        entries_map(entries.push(e)) == entries_map(entries).insert(e.key@, e.value@),
{
    let after = entries.push(e);
    assert(distinct_keys(after)) by {
        assert forall|a: int, b: int| 0 <= a < b < after.len() implies (#[trigger] after[a]).key@
            != (#[trigger] after[b]).key@ by {
            if b < entries.len() {
                assert(entries[a].key@ != entries[b].key@);
            } else {
                assert(entries[a].key@ == after[a].key@);
            }
        }
    }
    let lhs = entries_map(after);
    let rhs = entries_map(entries).insert(e.key@, e.value@);
    assert forall|k: Seq<char>| lhs.contains_key(k) <==> rhs.contains_key(k) by {
        if lhs.contains_key(k) {
            let a = key_index(after, k);
            if a < entries.len() {
                assert(entries[a].key@ == k);
            }
        }
        if rhs.contains_key(k) {
            if k == e.key@ {
                assert(after[entries.len() as int].key@ == k);
            } else {
                let a = key_index(entries, k);
                assert(after[a].key@ == k);
            }
        }
    }
    assert forall|k: Seq<char>| lhs.contains_key(k) implies lhs[k] == rhs[k] by {
        let a = key_index(after, k);
        lemma_entry_found(after, a);
        if a < entries.len() {
            assert(entries[a].key@ == k);
            lemma_entry_found(entries, a);
        }
    }
    assert(lhs =~= rhs);
}

/// A table from string keys to string values, kept as a list of entries
/// with distinct keys.
pub struct Table {
    entries: Vec<Entry>,
}

impl Table {
    /// The entries, in the order in which their keys first arrived.
    pub closed spec fn entries(&self) -> Seq<Entry> {
        self.entries@
    }

    /// The table's invariant: no key occurs twice.
    #[verifier::type_invariant]
    pub open spec fn wf(&self) -> bool {
        distinct_keys(self.entries())
    }

    /// The map that the table stands for.
    pub open spec fn view(&self) -> Map<Seq<char>, Seq<char>> {
        entries_map(self.entries())
    }

    /// An empty table.
    pub fn new() -> (t: Table)
        ensures
            t.entries() == Seq::<Entry>::empty(),
            t@ == Map::<Seq<char>, Seq<char>>::empty(),
    {
        let t = Table { entries: Vec::new() };
        assert(t@ =~= Map::<Seq<char>, Seq<char>>::empty());
        t
    }

    /// The number of keys held.
    pub fn len(&self) -> (n: usize)
        ensures
            n == self.entries().len(),
    {
        self.entries.len()
    }

    /// The key at position `i`.
    pub fn key_at(&self, i: usize) -> (k: String)
        requires
            i < self.entries().len(),
        ensures
            k@ == self.entries()[i as int].key@,
    {
        self.entries[i].key.clone()
    }

    /// The value at position `i`.
    pub fn value_at(&self, i: usize) -> (v: String)
        requires
            i < self.entries().len(),
        ensures
            v@ == self.entries()[i as int].value@,
    {
        self.entries[i].value.clone()
    }

    /// The position of `key`, if the table holds it.
    fn find(&self, key: &String) -> (r: Option<usize>)
        ensures
            match r {
                Some(i) => i < self.entries().len() && self.entries()[i as int].key@ == key@,
                None => !holds_key(self.entries(), key@),
            },
    {
        let n: usize = self.entries.len();
        let mut i: usize = 0;
        while i < n
            invariant
                n == self.entries@.len(),
                i <= n,
                forall|j: int| 0 <= j < i ==> (#[trigger] self.entries@[j]).key@ != key@,
            decreases n - i,
        {
            if self.entries[i].key == *key {
                return Some(i);
            }
            i += 1;
        }
        None
    }

    /// The value stored under `key`, or `None` where there is none.
    pub fn get(&self, key: &str) -> (r: Option<String>)
        ensures
            text_of(r) == lookup(self@, key@),
    {
        proof {
            use_type_invariant(self);
        }
        let owned = String::from_str(key);
        match self.find(&owned) {
            Some(i) => {
                proof {
                    lemma_entry_found(self.entries@, i as int);
                }
                Some(self.entries[i].value.clone())
            },
            None => None,
        }
    }

    /// Stores `value` under `key`, replacing what was there.
    pub fn put(&mut self, key: String, value: String)
        ensures
            final(self)@ == old(self)@.insert(key@, value@),
    {
        proof {
            use_type_invariant(&*self);
        }
        let found = self.find(&key);
        let e = Entry { key, value };
        let mut entries: Vec<Entry> = Vec::new();
        core::mem::swap(&mut self.entries, &mut entries);
        match found {
            Some(i) => {
                proof {
                    lemma_replace(entries@, i as int, e);
                }
                entries.set(i, e);
            },
            None => {
                proof {
                    lemma_append(entries@, e);
                }
                entries.push(e);
            },
        }
        self.entries = entries;
    }
}

} // verus!
