//! A key-value store of byte strings: the persistence the ledger is built on.

use vstd::prelude::*;

verus! {

/// One stored pair, as mathematics sees it: key bytes and value bytes.
pub type Record = (Seq<u8>, Seq<u8>);

/// The position of `key` among `records`, if it is stored.
pub open spec fn position(records: Seq<Record>, key: Seq<u8>) -> Option<int> {
    if exists|i: int| 0 <= i < records.len() && records[i].0 == key {
        Some(choose|i: int| 0 <= i < records.len() && records[i].0 == key)
    } else {
        None
    }
}

/// The value stored under `key`, if any.
pub open spec fn lookup(records: Seq<Record>, key: Seq<u8>) -> Option<Seq<u8>> {
    match position(records, key) {
        Some(i) => Some(records[i].1),
        None => None,
    }
}

/// No key is stored twice.
pub open spec fn distinct_keys(records: Seq<Record>) -> bool {
    forall|i: int, j: int|
        0 <= i < j < records.len() ==> (#[trigger] records[i]).0 != (#[trigger] records[j]).0
}

/// What `records` holds after `value` is written under `key`: the pair
/// replaces the one with that key, or is added behind the others.
pub open spec fn written(records: Seq<Record>, key: Seq<u8>, value: Seq<u8>) -> Seq<Record> {
    match position(records, key) {
        Some(i) => records.update(i, (key, value)),
        None => records.push((key, value)),
    }
}

/// With distinct keys, a key sits at the one position that holds it.
pub proof fn lemma_position_unique(records: Seq<Record>, key: Seq<u8>, i: int)
    requires
        distinct_keys(records),
        0 <= i < records.len(),
        records[i].0 == key,
    ensures
        position(records, key) == Some(i),
        lookup(records, key) == Some(records[i].1),
{
    let j = choose|j: int| 0 <= j < records.len() && records[j].0 == key;
    if j < i {
        assert(records[j].0 != records[i].0);
    } else if i < j {
        assert(records[i].0 != records[j].0);
    }
}

/// A write keeps keys distinct, is read back under its key and leaves
/// every other key as it was.
pub proof fn lemma_written(records: Seq<Record>, key: Seq<u8>, value: Seq<u8>)
    requires
        distinct_keys(records),
    ensures
        distinct_keys(written(records, key, value)),
        lookup(written(records, key, value), key) == Some(value),
        forall|other: Seq<u8>|
            other != key ==> #[trigger] lookup(written(records, key, value), other) == lookup(
                records,
                other,
            ),
{
    let after = written(records, key, value);
    match position(records, key) {
        Some(i) => {
            assert forall|a: int, b: int| 0 <= a < b < after.len() implies (#[trigger] after[a]).0
                != (#[trigger] after[b]).0 by {
                assert(records[a].0 != records[b].0);
            }
            lemma_position_unique(after, key, i);
            assert forall|other: Seq<u8>| other != key implies #[trigger] lookup(after, other)
                == lookup(records, other) by {
                lemma_lookup_same_elsewhere(records, after, other);
            }
        },
        None => {
            let n = records.len() as int;
            assert forall|a: int, b: int| 0 <= a < b < after.len() implies (#[trigger] after[a]).0
                != (#[trigger] after[b]).0 by {
                if b < n {
                    assert(records[a].0 != records[b].0);
                } else {
                    assert(after[a] == records[a]);
                }
            }
            lemma_position_unique(after, key, n);
            assert forall|other: Seq<u8>| other != key implies #[trigger] lookup(after, other)
                == lookup(records, other) by {
                lemma_lookup_same_elsewhere(records, after, other);
            }
        },
    }
}

/// Two record lists that agree wherever the key is `key` give the same
/// answer for `key`.
proof fn lemma_lookup_same_elsewhere(before: Seq<Record>, after: Seq<Record>, key: Seq<u8>)
    requires
        distinct_keys(before),
        distinct_keys(after),
        before.len() <= after.len(),
        forall|i: int| 0 <= i < before.len() && before[i].0 == key ==> after[i] == before[i],
        forall|i: int|
            0 <= i < after.len() && after[i].0 == key ==> i < before.len() && before[i]
                == after[i],
    ensures
        lookup(after, key) == lookup(before, key),
{
    if exists|i: int| 0 <= i < before.len() && before[i].0 == key {
        let i = choose|i: int| 0 <= i < before.len() && before[i].0 == key;
        lemma_position_unique(before, key, i);
        lemma_position_unique(after, key, i);
    } else if exists|i: int| 0 <= i < after.len() && after[i].0 == key {
        let i = choose|i: int| 0 <= i < after.len() && after[i].0 == key;
        assert(before[i].0 == key);
    }
}

/// Whether two byte strings are the same.
pub fn bytes_equal(a: &[u8], b: &[u8]) -> (same: bool)
    ensures
        same == (a@ == b@),
{
    if a.len() != b.len() {
        return false;
    }
    let mut i: usize = 0;
    while i < a.len()
        invariant
            a@.len() == b@.len(),
            i <= a@.len(),
            forall|k: int| 0 <= k < i ==> a@[k] == b@[k],
        decreases a@.len() - i,
    {
        if a[i] != b[i] {
            return false;
        }
        i += 1;
    }
    assert(a@ =~= b@);
    true
}

/// One stored pair.
#[derive(Debug)]
pub struct Entry {
    pub key: Vec<u8>,
    pub value: Vec<u8>,
}

/// A store of byte strings under byte-string keys. A key holds at most one
/// value; writing replaces it.
#[derive(Debug)]
pub struct LedgerStore {
    entries: Vec<Entry>,
}

impl View for LedgerStore {
    type V = Seq<Record>;

    closed spec fn view(&self) -> Seq<Record> {
        Seq::new(self.entries@.len(), |i: int| (self.entries@[i].key@, self.entries@[i].value@))
    }
}

impl LedgerStore {
    /// The store's invariant: no key is stored twice.
    pub open spec fn wf(&self) -> bool {
        distinct_keys(self@)
    }

    /// An empty store.
    pub fn new() -> (store: LedgerStore)
        ensures
            store@ == Seq::<Record>::empty(),
            store.wf(),
    {
        let store = LedgerStore { entries: Vec::new() };
        assert(store@ =~= Seq::<Record>::empty());
        store
    }

    /// Number of stored pairs.
    pub fn len(&self) -> (n: usize)
        ensures
            n == self@.len(),
    {
        self.entries.len()
    }

    /// The key of the pair at position `i`.
    pub fn key_at(&self, i: usize) -> (key: &Vec<u8>)
        requires
            i < self@.len(),
        ensures
            key@ == self@[i as int].0,
    {
        &self.entries[i].key
    }

    /// The value of the pair at position `i`.
    pub fn value_at(&self, i: usize) -> (value: &Vec<u8>)
        requires
            i < self@.len(),
        ensures
            value@ == self@[i as int].1,
    {
        &self.entries[i].value
    }

    fn find(&self, key: &[u8]) -> (found: Option<usize>)
        requires
            self.wf(),
        ensures
            match found {
                Some(i) => position(self@, key@) == Some(i as int) && i < self.entries@.len(),
                None => position(self@, key@).is_none(),
            },
    {
        let mut i: usize = 0;
        while i < self.entries.len()
            invariant
                self.wf(),
                i <= self.entries@.len(),
                forall|k: int| 0 <= k < i ==> self@[k].0 != key@,
            decreases self.entries@.len() - i,
        {
            if bytes_equal(self.entries[i].key.as_slice(), key) {
                proof {
                    assert(self@[i as int].0 == key@);
                    lemma_position_unique(self@, key@, i as int);
                }
                return Some(i);
            }
            i += 1;
        }
        None
    }

    /// Reads the value stored under `key`.
    pub fn get(&self, key: &[u8]) -> (value: Option<&Vec<u8>>)
        requires
            self.wf(),
        ensures
            match value {
                Some(v) => lookup(self@, key@) == Some(v@),
                None => lookup(self@, key@).is_none(),
            },
    {
        match self.find(key) {
            Some(i) => Some(&self.entries[i].value),
            None => None,
        }
    }

    /// Writes `value` under `key`, replacing what was there.
    pub fn set(&mut self, key: Vec<u8>, value: Vec<u8>)
        requires
            old(self).wf(),
        ensures
            final(self).wf(),
            final(self)@ == written(old(self)@, key@, value@),
            lookup(final(self)@, key@) == Some(value@),
            forall|other: Seq<u8>|
                other != key@ ==> #[trigger] lookup(final(self)@, other) == lookup(
                    old(self)@,
                    other,
                ),
    {
        let ghost before = self@;
        let ghost k = key@;
        let ghost v = value@;
        match self.find(key.as_slice()) {
            Some(i) => {
                self.entries.set(i, Entry { key, value });
                assert(self@ =~= before.update(i as int, (k, v)));
            },
            None => {
                self.entries.push(Entry { key, value });
                assert(self@ =~= before.push((k, v)));
            },
        }
        proof {
            lemma_written(before, k, v);
        }
    }
}

} // verus!
