//! The object store: a transactional key-value store for objects and roots.
//!
//! `MemoryStore` is the volatile backend. A `Txn` collects writes and reads
//! through them to the store; nothing reaches the store before `commit`,
//! which applies the whole write set at once. A durable backend lives
//! outside this library and follows the same key layout; `StoreError` is
//! what such a backend reports.

use vstd::prelude::*;
use vstd::string::*;
use crate::keys::{object_key, object_key_spec, root_key, root_key_spec};
use crate::table::{distinct_keys, entries_map, lemma_append, lookup, text_of, Entry, Table};

verus! {

/// Why a store operation failed.
#[derive(Clone, Copy, Debug, PartialEq, Eq, Structural)]
pub enum StoreError {
    /// The backend cannot be reached.
    Unreachable,
    /// The transaction could not be committed.
    CommitFailed,
}

/// What a backend is asked to do in one transaction of its own.
#[derive(Debug, PartialEq, Eq)]
pub enum Command {
    /// Return what is stored under `key`.
    Read { key: String },
    /// Store `value` under `key`, replacing what was there.
    Write { key: String, value: String },
}

impl Command {
    /// Whether this command reads `key`.
    pub open spec fn reads(&self, key: Seq<char>) -> bool {
        match self {
            Command::Read { key: k } => k@ == key,
            Command::Write { .. } => false,
        }
    }

    /// Whether this command writes `value` under `key`.
    pub open spec fn writes(&self, key: Seq<char>, value: Seq<char>) -> bool {
        match self {
            Command::Read { .. } => false,
            Command::Write { key: k, value: v } => k@ == key && v@ == value,
        }
    }
}

/// What a reader sees who looks at `base` through the write set `writes`.
pub open spec fn overlay(
    base: Map<Seq<char>, Seq<char>>,
    writes: Map<Seq<char>, Seq<char>>,
) -> Map<Seq<char>, Seq<char>> {
    base.union_prefer_right(writes)
}

/// The volatile object store.
pub struct MemoryStore {
    table: Table,
}

/// A transaction: the writes made so far, not yet applied.
pub struct Txn {
    writes: Table,
}

impl Txn {
    /// The write set: each key written so far with its last value.
    pub closed spec fn view(&self) -> Map<Seq<char>, Seq<char>> {
        self.writes@
    }

    /// The payload of object `id` in `namespace`, as this transaction sees
    /// it: its own last write, else what `store` holds, else `None`.
    pub fn get(&self, store: &MemoryStore, namespace: &str, id: &str) -> (r: Option<String>)
        ensures
            text_of(r) == lookup(overlay(store@, self@), object_key_spec(namespace@, id@)),
    {
        let key = object_key(namespace, id);
        self.read(store, key.as_str())
    }

    /// Writes `value` as the payload of object `id` in `namespace`.
    pub fn put(&mut self, namespace: &str, id: &str, value: &str)
        ensures
            final(self)@ == old(self)@.insert(object_key_spec(namespace@, id@), value@),
    {
        let key = object_key(namespace, id);
        self.writes.put(key, String::from_str(value));
    }

    /// The object id bound to root `alias` in `namespace`, as this
    /// transaction sees it.
    pub fn get_root(&self, store: &MemoryStore, namespace: &str, alias: &str) -> (r: Option<String>)
        ensures
            text_of(r) == lookup(overlay(store@, self@), root_key_spec(namespace@, alias@)),
    {
        let key = root_key(namespace, alias);
        self.read(store, key.as_str())
    }

    /// Binds root `alias` in `namespace` to object `id`.
    pub fn put_root(&mut self, namespace: &str, alias: &str, id: &str)
        ensures
            final(self)@ == old(self)@.insert(root_key_spec(namespace@, alias@), id@),
    {
        let key = root_key(namespace, alias);
        self.writes.put(key, String::from_str(id));
    }

    fn read(&self, store: &MemoryStore, key: &str) -> (r: Option<String>)
        ensures
            text_of(r) == lookup(overlay(store@, self@), key@),
    {
        match self.writes.get(key) {
            Some(v) => Some(v),
            None => store.table.get(key),
        }
    }
}

impl MemoryStore {
    /// What the store holds: each key with its value.
    pub closed spec fn view(&self) -> Map<Seq<char>, Seq<char>> {
        self.table@
    }

    /// An empty store.
    pub fn new() -> (s: MemoryStore)
        ensures
            s@ == Map::<Seq<char>, Seq<char>>::empty(),
    {
        MemoryStore { table: Table::new() }
    }

    /// Starts a transaction with an empty write set.
    pub fn begin_transaction(&self) -> (txn: Txn)
        ensures
            txn@ == Map::<Seq<char>, Seq<char>>::empty(),
    {
        Txn { writes: Table::new() }
    }

    /// Applies the write set of `txn` to the store, all of it at once. The
    /// volatile store always commits.
    pub fn commit(&mut self, txn: Txn) -> (r: Result<(), StoreError>)
        ensures
            r is Ok,
            final(self)@ == overlay(old(self)@, txn@),
    {
        let n: usize = txn.writes.len();
        let mut i: usize = 0;
        proof {
            use_type_invariant(&txn.writes);
        }
        assert(self.table@ =~= overlay(
            old(self).table@,
            entries_map(txn.writes.entries().subrange(0, 0)),
        ));
        while i < n
            invariant
                n == txn.writes.entries().len(),
                i <= n,
                distinct_keys(txn.writes.entries()),
                self.table@ == overlay(
                    old(self).table@,
                    entries_map(txn.writes.entries().subrange(0, i as int)),
                ),
            decreases n - i,
        {
            let key = txn.writes.key_at(i);
            let value = txn.writes.value_at(i);
            proof {
                lemma_prefix_step(txn.writes.entries(), i as int);
                assert(overlay(
                    old(self).table@,
                    entries_map(txn.writes.entries().subrange(0, i as int)).insert(key@, value@),
                ) =~= overlay(
                    old(self).table@,
                    entries_map(txn.writes.entries().subrange(0, i as int)),
                ).insert(key@, value@));
            }
            self.table.put(key, value);
            i += 1;
        }
        assert(txn.writes.entries().subrange(0, n as int) =~= txn.writes.entries());
        Ok(())
    }

    /// Runs `command` as one transaction: a write is committed and gives
    /// nothing back, a read gives back what is stored under its key and
    /// leaves the store as it was.
    pub fn execute(&mut self, command: Command) -> (r: Result<Option<String>, StoreError>)
        ensures
            match command {
                Command::Read { key } => final(self)@ == old(self)@ && match r {
                    Ok(found) => text_of(found) == lookup(old(self)@, key@),
                    Err(_) => false,
                },
                Command::Write { key, value } => final(self)@ == old(self)@.insert(key@, value@)
                    && r == Ok::<Option<String>, StoreError>(None),
            },
    {
        let mut txn = self.begin_transaction();
        match command {
            Command::Read { key } => {
                let found = txn.read(self, key.as_str());
                assert(overlay(self@, txn@) =~= self@);
                match self.commit(txn) {
                    Ok(_) => {
                        assert(self@ =~= old(self)@);
                        Ok(found)
                    },
                    Err(e) => Err(e),
                }
            },
            Command::Write { key, value } => {
                txn.writes.put(key, value);
                match self.commit(txn) {
                    Ok(_) => {
                        assert(self@ =~= old(self)@.insert(key@, value@));
                        Ok(None)
                    },
                    Err(e) => Err(e),
                }
            },
        }
    }

    /// The number of keys held, objects and roots together.
    pub fn len(&self) -> (n: usize)
        ensures
            n == self@.dom().len(),
            self@.dom().finite(),
    {
        proof {
            use_type_invariant(&self.table);
            lemma_entries_count(self.table.entries());
        }
        self.table.len()
    }
}

/// The first `i + 1` entries stand for the map of the first `i` with the
/// entry at `i` inserted.
proof fn lemma_prefix_step(entries: Seq<Entry>, i: int)
    requires
        distinct_keys(entries),
        0 <= i < entries.len(),
    ensures
        entries_map(entries.subrange(0, i + 1)) == entries_map(entries.subrange(0, i)).insert(
            entries[i].key@,
            entries[i].value@,
        ),
{
    let before = entries.subrange(0, i);
    assert(distinct_keys(before)) by {
        assert forall|a: int, b: int| 0 <= a < b < before.len() implies (#[trigger] before[a]).key@
            != (#[trigger] before[b]).key@ by {
            assert(entries[a].key@ != entries[b].key@);
        }
    }
    assert forall|a: int| 0 <= a < before.len() implies (#[trigger] before[a]).key@
        != entries[i].key@ by {
        assert(entries[a].key@ != entries[i].key@);
    }
    lemma_append(before, entries[i]);
    assert(before.push(entries[i]) =~= entries.subrange(0, i + 1));
}

/// A list of entries with distinct keys stands for a finite map with as
/// many keys as there are entries.
proof fn lemma_entries_count(entries: Seq<Entry>)
    requires
        distinct_keys(entries),
    ensures
        entries_map(entries).dom().finite(),
        entries_map(entries).dom().len() == entries.len(),
    decreases entries.len(),
{
    if entries.len() == 0 {
        assert(entries_map(entries).dom() =~= Set::<Seq<char>>::empty());
    } else {
        let i = entries.len() - 1;
        let before = entries.subrange(0, i);
        lemma_prefix_step(entries, i);
        assert(entries.subrange(0, i + 1) =~= entries);
        assert(distinct_keys(before)) by {
            assert forall|a: int, b: int| 0 <= a < b < before.len() implies (
            #[trigger] before[a]).key@ != (#[trigger] before[b]).key@ by {
                assert(entries[a].key@ != entries[b].key@);
            }
        }
        lemma_entries_count(before);
        assert(!entries_map(before).dom().contains(entries[i].key@)) by {
            if entries_map(before).dom().contains(entries[i].key@) {
                let a = crate::table::key_index(before, entries[i].key@);
                assert(before[a].key@ == entries[i].key@);
                assert(entries[a].key@ != entries[i].key@);
            }
        }
        assert(entries_map(entries).dom() =~= entries_map(before).dom().insert(entries[i].key@));
    }
}

} // verus!
