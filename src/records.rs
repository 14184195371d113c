//! The metadata store: one record per live identifier, holding the content
//! hash of the blob and the moment it expires.
use vstd::prelude::*;

verus! {

/// What is recorded of one stored blob.
#[derive(Debug)]
pub struct FileRecord {
    /// Hex digest of the blob's bytes.
    pub content_hash: String,
    /// Seconds since the Unix epoch after which the blob may be collected.
    pub expiry: i64,
}

/// The mathematical content of a [`FileRecord`].
pub struct RecordView {
    pub content_hash: Seq<char>,
    pub expiry: int,
}

impl View for FileRecord {
    type V = RecordView;

    open spec fn view(&self) -> RecordView {
        RecordView { content_hash: self.content_hash@, expiry: self.expiry as int }
    }
}

impl FileRecord {
    /// Whether the record has expired at `now`.
    pub fn is_expired(&self, now: i64) -> (r: bool)
        ensures
            r == (now >= self.expiry),
    {
        now >= self.expiry
    }
}

/// A table from identifier to [`FileRecord`], with each identifier at most
/// once.
pub struct MetadataStore {
    entries: Vec<(String, FileRecord)>,
    model: Ghost<Map<Seq<char>, RecordView>>,
}

impl View for MetadataStore {
    type V = Map<Seq<char>, RecordView>;

    closed spec fn view(&self) -> Map<Seq<char>, RecordView> {
        self.model@
    }
}

impl MetadataStore {
    /// The table holds each identifier once, and the model maps exactly the
    /// identifiers of the table to their records.
    pub closed spec fn wf(&self) -> bool {
        &&& forall|i: int, j: int|
            0 <= i < j < self.entries@.len() ==> #[trigger] self.entries@[i].0@
                != #[trigger] self.entries@[j].0@
        &&& forall|i: int|
            0 <= i < self.entries@.len() ==> {
                &&& self.model@.contains_key(#[trigger] self.entries@[i].0@)
                &&& self.model@[self.entries@[i].0@] == self.entries@[i].1@
            }
        &&& forall|k: Seq<char>|
            #[trigger] self.model@.contains_key(k) ==> exists|i: int|
                0 <= i < self.entries@.len() && #[trigger] self.entries@[i].0@ == k
        &&& self.model@.dom().finite()
    }

    /// An empty store.
    pub fn new() -> (s: MetadataStore)
        ensures
            s.wf(),
            s@ == Map::<Seq<char>, RecordView>::empty(),
    {
        MetadataStore { entries: Vec::new(), model: Ghost(Map::empty()) }
    }

    /// Number of records.
    pub fn len(&self) -> (n: usize)
        requires
            self.wf(),
        ensures
            n == self@.len(),
    {
        proof { self.lemma_len(); }
        self.entries.len()
    }

    proof fn lemma_len(&self)
        requires
            self.wf(),
        ensures
            self.entries@.len() == self@.len(),
        decreases self.entries@.len(),
    {
        let keys = self.entries@.map_values(|e: (String, FileRecord)| e.0@);
        assert forall|i: int, j: int| 0 <= i < j < keys.len() implies keys[i] != keys[j] by {
            assert(keys[i] == self.entries@[i].0@);
            assert(keys[j] == self.entries@[j].0@);
        }
        keys.unique_seq_to_set();
        assert(keys.to_set() =~= self@.dom()) by {
            assert forall|k: Seq<char>| keys.to_set().contains(k) implies self@.dom().contains(
                k,
            ) by {
                let i = choose|i: int| 0 <= i < keys.len() && keys[i] == k;
                assert(self.entries@[i].0@ == k);
            }
            assert forall|k: Seq<char>| self@.dom().contains(k) implies keys.to_set().contains(
                k,
            ) by {
                assert(self.model@.contains_key(k));
                let i = choose|i: int| 0 <= i < self.entries@.len() && self.entries@[i].0@ == k;
                assert(keys[i] == k);
            }
        }
    }

    /// Position of `id` in the table.
    fn position(&self, id: &String) -> (r: Option<usize>)
        requires
            self.wf(),
        ensures
            r matches Some(i) ==> i < self.entries@.len() && self.entries@[i as int].0@ == id@,
            r is None ==> !self@.contains_key(id@),
    {
        let mut i: usize = 0;
        while i < self.entries.len()
            invariant
                self.wf(),
                i <= self.entries@.len(),
                forall|j: int| 0 <= j < i ==> self.entries@[j].0@ != id@,
            decreases self.entries@.len() - i,
        {
            if self.entries[i].0 == *id {
                return Some(i);
            }
            i = i + 1;
        }
        None
    }

    /// Whether a record is stored under `id`.
    pub fn contains(&self, id: &String) -> (r: bool)
        requires
            self.wf(),
        ensures
            r == self@.contains_key(id@),
    {
        self.position(id).is_some()
    }

    /// The record stored under `id`, if any.
    pub fn get(&self, id: &String) -> (r: Option<&FileRecord>)
        requires
            self.wf(),
        ensures
            r is Some <==> self@.contains_key(id@),
            r matches Some(rec) ==> rec@ == self@[id@],
    {
        match self.position(id) {
            Some(i) => Some(&self.entries[i].1),
            None => None,
        }
    }

    /// Removes the record stored under `id`, returning it.
    pub fn delete(&mut self, id: &String) -> (r: Option<FileRecord>)
        requires
            old(self).wf(),
        ensures
            final(self).wf(),
            final(self)@ == old(self)@.remove(id@),
            r is Some <==> old(self)@.contains_key(id@),
            r matches Some(rec) ==> rec@ == old(self)@[id@],
    {
        match self.position(id) {
            Some(i) => {
                let ghost before = self.entries@;
                let (_, rec) = self.entries.remove(i);
                self.model = Ghost(self.model@.remove(id@));
                assert forall|j: int| 0 <= j < self.entries@.len() implies
                    self.entries@[j] == (if j < i { before[j] } else { before[j + 1] }) by {}
                assert forall|k: Seq<char>| #[trigger] self.model@.contains_key(k) implies exists|
                    j: int,
                | 0 <= j < self.entries@.len() && #[trigger] self.entries@[j].0@ == k by {
                    let m = choose|m: int| 0 <= m < before.len() && #[trigger] before[m].0@ == k;
                    if m < i {
                        assert(self.entries@[m].0@ == k);
                    } else {
                        assert(self.entries@[m - 1].0@ == k);
                    }
                }
                Some(rec)
            },
            None => {
                assert(self.model@.remove(id@) =~= self.model@);
                None
            },
        }
    }

    /// Stores `record` under `id`, replacing any record stored there.
    pub fn put(&mut self, id: String, record: FileRecord)
        requires
            old(self).wf(),
        ensures
            final(self).wf(),
            final(self)@ == old(self)@.insert(id@, record@),
    {
        let _ = self.delete(&id);
        let ghost before = self.entries@;
        let ghost key = id@;
        let ghost rec = record@;
        self.entries.push((id, record));
        self.model = Ghost(self.model@.insert(key, rec));
        assert(self.entries@.last().0@ == key);
        assert forall|k: Seq<char>| #[trigger] self.model@.contains_key(k) implies exists|j: int|
            0 <= j < self.entries@.len() && #[trigger] self.entries@[j].0@ == k by {
            if k == key {
                assert(self.entries@[before.len() as int].0@ == k);
            } else {
                let m = choose|m: int| 0 <= m < before.len() && #[trigger] before[m].0@ == k;
                assert(self.entries@[m].0@ == k);
            }
        }
    }

    /// Every identifier that holds a record, each once.
    pub fn identifiers(&self) -> (r: Vec<String>)
        requires
            self.wf(),
        ensures
            r@.map_values(|s: String| s@).no_duplicates(),
            r@.map_values(|s: String| s@).to_set() == self@.dom(),
    {
        let ghost keys = self.entries@.map_values(|e: (String, FileRecord)| e.0@);
        let mut r: Vec<String> = Vec::new();
        let mut i: usize = 0;
        while i < self.entries.len()
            invariant
                self.wf(),
                i <= self.entries@.len(),
                keys == self.entries@.map_values(|e: (String, FileRecord)| e.0@),
                r@.map_values(|s: String| s@) == keys.take(i as int),
            decreases self.entries@.len() - i,
        {
            let ghost before = r@;
            let id = self.entries[i].0.clone();
            assert(id@ == keys[i as int]);
            r.push(id);
            proof {
                assert(r@ == before.push(id));
                assert(r@.map_values(|s: String| s@) =~= before.map_values(|s: String| s@).push(
                    id@,
                ));
                assert(r@.map_values(|s: String| s@) =~= keys.take(i + 1));
            }
            i = i + 1;
        }
        proof {
            assert(keys.take(self.entries@.len() as int) =~= keys);
            assert forall|a: int, b: int| 0 <= a < b < keys.len() implies keys[a] != keys[b] by {
                assert(keys[a] == self.entries@[a].0@);
                assert(keys[b] == self.entries@[b].0@);
            }
            assert(keys.to_set() =~= self@.dom()) by {
                assert forall|k: Seq<char>| keys.to_set().contains(k) implies self@.dom().contains(
                    k,
                ) by {
                    let j = choose|j: int| 0 <= j < keys.len() && keys[j] == k;
                    assert(self.entries@[j].0@ == k);
                }
                assert forall|k: Seq<char>| self@.dom().contains(k) implies keys.to_set().contains(
                    k,
                ) by {
                    assert(self.model@.contains_key(k));
                    let j = choose|j: int| 0 <= j < self.entries@.len() && self.entries@[j].0@ == k;
                    assert(keys[j] == k);
                }
            }
        }
        r
    }
}

} // verus!
