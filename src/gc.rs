//! Garbage collection: reconciling the blobs in storage against the
//! metadata store.
use vstd::prelude::*;
use crate::records::{MetadataStore, RecordView};

verus! {

/// What the collector does with one stored blob.
#[derive(Clone, Copy, Debug, PartialEq, Eq, Structural)]
pub enum GcVerdict {
    /// No record holds the blob: delete the blob.
    Orphan,
    /// Its record has expired: delete the blob, then the record.
    Expired,
    /// Its record is still live: keep both.
    Live,
}

/// Whether `id` has a record that has not expired at `now`.
pub open spec fn is_live(m: Map<Seq<char>, RecordView>, id: Seq<char>, now: int) -> bool {
    m.contains_key(id) && now < m[id].expiry
}

/// The verdict on the blob stored as `id`.
pub open spec fn verdict_of(m: Map<Seq<char>, RecordView>, id: Seq<char>, now: int) -> GcVerdict {
    if !m.contains_key(id) {
        GcVerdict::Orphan
    } else if now >= m[id].expiry {
        GcVerdict::Expired
    } else {
        GcVerdict::Live
    }
}

/// The store after the collector has judged the blob stored as `id`.
pub open spec fn collect_spec(m: Map<Seq<char>, RecordView>, id: Seq<char>, now: int) -> Map<
    Seq<char>,
    RecordView,
> {
    if verdict_of(m, id, now) == GcVerdict::Expired {
        m.remove(id)
    } else {
        m
    }
}

/// The identifiers among `ids` whose records have expired at `now`.
pub open spec fn expired_among(m: Map<Seq<char>, RecordView>, ids: Seq<Seq<char>>, now: int) -> Set<
    Seq<char>,
> {
    Set::new(|k: Seq<char>| ids.contains(k) && m.contains_key(k) && now >= m[k].expiry)
}

/// The records left after a sweep over the blobs `ids` at `now`.
pub open spec fn sweep_records(m: Map<Seq<char>, RecordView>, ids: Seq<Seq<char>>, now: int) -> Map<
    Seq<char>,
    RecordView,
> {
    m.remove_keys(expired_among(m, ids, now))
}

/// The blobs that a sweep over `ids` at `now` deletes.
pub open spec fn sweep_deletes(m: Map<Seq<char>, RecordView>, ids: Seq<Seq<char>>, now: int) -> Set<
    Seq<char>,
> {
    Set::new(|k: Seq<char>| ids.contains(k) && !is_live(m, k, now))
}

/// The blobs left after a sweep over `ids` at `now`.
pub open spec fn sweep_keeps(m: Map<Seq<char>, RecordView>, ids: Seq<Seq<char>>, now: int) -> Set<
    Seq<char>,
> {
    Set::new(|k: Seq<char>| ids.contains(k) && is_live(m, k, now))
}

/// The characters of each string.
pub open spec fn views_of(v: Seq<String>) -> Seq<Seq<char>> {
    v.map_values(|s: String| s@)
}

impl MetadataStore {
    /// Decides the fate of the blob stored as `id` at `now`, and removes its
    /// record when that has expired. Unless the blob is still live, the
    /// caller then deletes it.
    pub fn collect(&mut self, id: &String, now: i64) -> (r: GcVerdict)
        requires
            old(self).wf(),
        ensures
            final(self).wf(),
            r == verdict_of(old(self)@, id@, now as int),
            final(self)@ == collect_spec(old(self)@, id@, now as int),
    {
        let verdict = match self.get(id) {
            None => GcVerdict::Orphan,
            Some(rec) => if rec.is_expired(now) {
                GcVerdict::Expired
            } else {
                GcVerdict::Live
            },
        };
        if let GcVerdict::Expired = verdict {
            let _ = self.delete(id);
        }
        verdict
    }

    /// Sweeps the blobs `listed` at `now`: removes the records of those that
    /// have expired, and returns the blobs to delete, those with no record
    /// and those whose record has expired.
    pub fn sweep(&mut self, listed: &Vec<String>, now: i64) -> (doomed: Vec<String>)
        requires
            old(self).wf(),
        ensures
            final(self).wf(),
            final(self)@ == sweep_records(old(self)@, views_of(listed@), now as int),
            views_of(doomed@).to_set() == sweep_deletes(old(self)@, views_of(listed@), now as int),
    {
        let ghost m0 = self@;
        let ghost ids = views_of(listed@);
        let mut doomed: Vec<String> = Vec::new();
        let mut i: usize = 0;
        while i < listed.len()
            invariant
                self.wf(),
                i <= listed@.len(),
                ids == views_of(listed@),
                self@ == sweep_records(m0, ids.take(i as int), now as int),
                views_of(doomed@).to_set() == sweep_deletes(m0, ids.take(i as int), now as int),
            decreases listed@.len() - i,
        {
            let ghost before = self@;
            let ghost before_doomed = doomed@;
            let id = &listed[i];
            let verdict = self.collect(id, now);
            if verdict != GcVerdict::Live {
                doomed.push(id.clone());
            }
            proof {
                let pre = ids.take(i as int);
                let post = ids.take(i + 1);
                assert(post =~= pre.push(id@));
                assert forall|k: Seq<char>| #[trigger] post.contains(k) <==> pre.contains(k) || k
                    == id@ by {
                    if post.contains(k) {
                        let j = choose|j: int| 0 <= j < post.len() && post[j] == k;
                        if j < pre.len() {
                            assert(pre[j] == k);
                        }
                    }
                    if pre.contains(k) {
                        let j = choose|j: int| 0 <= j < pre.len() && pre[j] == k;
                        assert(post[j] == k);
                    }
                    if k == id@ {
                        assert(post[i as int] == k);
                    }
                }
                assert(self@ =~= sweep_records(m0, post, now as int));
                if before.contains_key(id@) {
                    assert(m0.contains_key(id@) && before[id@] == m0[id@]);
                } else if m0.contains_key(id@) {
                    assert(expired_among(m0, pre, now as int).contains(id@));
                }
                assert((verdict != GcVerdict::Live) == !is_live(m0, id@, now as int));
                assert(views_of(doomed@).to_set() =~= sweep_deletes(m0, post, now as int)) by {
                    if verdict != GcVerdict::Live {
                        assert(views_of(doomed@) =~= views_of(before_doomed).push(id@));
                    } else {
                        assert(views_of(doomed@) =~= views_of(before_doomed));
                    }
                    assert forall|k: Seq<char>| #[trigger] views_of(doomed@).contains(k) <==> (
                    views_of(before_doomed).contains(k) || (k == id@ && verdict
                        != GcVerdict::Live)) by {
                        if verdict != GcVerdict::Live && k == id@ {
                            assert(views_of(doomed@)[before_doomed.len() as int] == k);
                        }
                        if views_of(before_doomed).contains(k) {
                            let j = choose|j: int|
                                0 <= j < before_doomed.len() && views_of(before_doomed)[j] == k;
                            assert(views_of(doomed@)[j] == k);
                        }
                    }
                    assert forall|k: Seq<char>| #[trigger] views_of(doomed@).to_set().contains(k)
                        <==> sweep_deletes(m0, post, now as int).contains(k) by {
                        assert(views_of(before_doomed).to_set().contains(k)
                            == sweep_deletes(m0, pre, now as int).contains(k));
                    }
                }
            }
            i = i + 1;
        }
        proof {
            assert(ids.take(listed@.len() as int) =~= ids);
        }
        doomed
    }
}

/// A blob whose record has expired is deleted by a sweep together with its
/// record: afterwards neither the records nor the blobs hold its identifier.
pub proof fn lemma_sweep_removes_expired(
    m: Map<Seq<char>, RecordView>,
    ids: Seq<Seq<char>>,
    now: int,
    id: Seq<char>,
)
    requires
        ids.contains(id),
        m.contains_key(id),
        m[id].expiry <= now,
    ensures
        !sweep_records(m, ids, now).contains_key(id),
        sweep_deletes(m, ids, now).contains(id),
        !sweep_keeps(m, ids, now).contains(id),
{
    assert(expired_among(m, ids, now).contains(id));
}

/// A blob that no record holds is deleted by a sweep, and its presence
/// changes nothing in what becomes of the records.
pub proof fn lemma_sweep_removes_orphan(
    m: Map<Seq<char>, RecordView>,
    ids: Seq<Seq<char>>,
    now: int,
    id: Seq<char>,
)
    requires
        ids.contains(id),
        !m.contains_key(id),
    ensures
        sweep_deletes(m, ids, now).contains(id),
        !sweep_keeps(m, ids, now).contains(id),
        sweep_records(m, ids, now) == sweep_records(m, ids.filter(|k: Seq<char>| k != id), now),
{
    let others = ids.filter(|k: Seq<char>| k != id);
    assert forall|k: Seq<char>| #[trigger] others.contains(k) <==> ids.contains(k) && k != id by {
        if others.contains(k) {
            ids.lemma_filter_contains_rev(|k: Seq<char>| k != id, k);
        }
        if ids.contains(k) && k != id {
            let j = choose|j: int| 0 <= j < ids.len() && ids[j] == k;
            ids.lemma_filter_contains(|k: Seq<char>| k != id, j);
        }
    }
    assert(expired_among(m, ids, now) =~= expired_among(m, others, now));
}

/// A blob whose record is live at `now` keeps both its blob and its record
/// through a sweep.
pub proof fn lemma_sweep_keeps_live(
    m: Map<Seq<char>, RecordView>,
    ids: Seq<Seq<char>>,
    now: int,
    id: Seq<char>,
)
    requires
        ids.contains(id),
        m.contains_key(id),
        m[id].expiry > now,
    ensures
        sweep_records(m, ids, now).contains_key(id),
        sweep_records(m, ids, now)[id] == m[id],
        !sweep_deletes(m, ids, now).contains(id),
        sweep_keeps(m, ids, now).contains(id),
{
}

} // verus!
