//! The concurrent-read-optimized cache of one object kind: a keyed
//! collection of the latest known version of each object, plus the
//! last-applied synchronization cursor.
//!
//! The cache is a vector of records whose keys are pairwise distinct;
//! its mathematical view is the mapping from key to record together
//! with the cursor. All mutators state how that mapping changes.

use vstd::prelude::*;
use crate::obj::{ObjectKey, ObjectRecord, WatchEvent, KeyView, RecordView, EventView, key_eq};

verus! {

/// The views of a sequence of records.
pub open spec fn rec_views(s: Seq<ObjectRecord>) -> Seq<RecordView> {
    s.map_values(|r: ObjectRecord| r@)
}

/// No two records in the sequence share a key.
pub open spec fn keys_unique(s: Seq<RecordView>) -> bool {
    forall|i: int, j: int| 0 <= i < j < s.len() ==> s[i].key != s[j].key
}

/// The mapping from key to record that a sequence of records denotes;
/// on duplicate keys the later record wins.
pub open spec fn map_of(s: Seq<RecordView>) -> Map<KeyView, RecordView>
    decreases s.len(),
{
    if s.len() == 0 {
        Map::empty()
    } else {
        map_of(s.drop_last()).insert(s.last().key, s.last())
    }
}

/// A key is in the mapping exactly when some record of the sequence
/// carries it, and the mapping is finite.
pub proof fn lemma_map_of_dom(s: Seq<RecordView>)
    ensures
        forall|k: KeyView|
            map_of(s).contains_key(k) <==> exists|i: int| 0 <= i < s.len() && s[i].key == k,
        map_of(s).dom().finite(),
    decreases s.len(),
{
    if s.len() == 0 {
    } else {
        lemma_map_of_dom(s.drop_last());
        assert forall|k: KeyView| map_of(s).contains_key(k) implies exists|i: int|
            0 <= i < s.len() && s[i].key == k by {
            if k == s.last().key {
                assert(s[s.len() - 1].key == k);
            } else {
                let i = choose|i: int| 0 <= i < s.drop_last().len() && s.drop_last()[i].key == k;
                assert(s[i].key == k);
            }
        }
        assert forall|k: KeyView| (exists|i: int| 0 <= i < s.len() && s[i].key == k)
            implies map_of(s).contains_key(k) by {
            let i = choose|i: int| 0 <= i < s.len() && s[i].key == k;
            if i < s.len() - 1 {
                assert(s.drop_last()[i].key == k);
            }
        }
    }
}

/// With pairwise-distinct keys, the mapping has one entry per record.
pub proof fn lemma_map_of_len(s: Seq<RecordView>)
    requires
        keys_unique(s),
    ensures
        map_of(s).len() == s.len(),
    decreases s.len(),
{
    if s.len() == 0 {
        assert(map_of(s).dom() =~= Set::<KeyView>::empty());
    } else {
        let dl = s.drop_last();
        assert(keys_unique(dl)) by {
            assert(forall|a: int, b: int| 0 <= a < b < dl.len() ==> dl[a].key != dl[b].key);
        }
        lemma_map_of_len(dl);
        lemma_map_of_dom(dl);
        assert(!map_of(dl).contains_key(s.last().key)) by {
            if map_of(dl).contains_key(s.last().key) {
                let i = choose|i: int| 0 <= i < dl.len() && dl[i].key == s.last().key;
                assert(s[i].key == s[s.len() - 1].key);
            }
        }
        assert(map_of(s).dom() =~= map_of(dl).dom().insert(s.last().key));
    }
}

/// Removing an element keeps the remaining keys pairwise distinct.
pub proof fn lemma_keys_unique_remove(s: Seq<RecordView>, i: int)
    requires
        keys_unique(s),
        0 <= i < s.len(),
    ensures
        keys_unique(s.remove(i)),
{
    s.remove_ensures(i);
    assert forall|a: int, b: int| 0 <= a < b < s.remove(i).len() implies s.remove(i)[a].key
        != s.remove(i)[b].key by {
        if a < i {
            assert(s.remove(i)[a] == s[a]);
        } else {
            assert(s.remove(i)[a] == s[a + 1]);
        }
        if b < i {
            assert(s.remove(i)[b] == s[b]);
        } else {
            assert(s.remove(i)[b] == s[b + 1]);
        }
    }
}

/// Appending a record inserts it into the mapping.
pub proof fn lemma_map_of_push(s: Seq<RecordView>, r: RecordView)
    ensures
        map_of(s.push(r)) == map_of(s).insert(r.key, r),
{
    assert(s.push(r).drop_last() =~= s);
    assert(s.push(r).last() == r);
}

/// Removing the record at one index removes its key from the mapping,
/// provided keys are pairwise distinct.
pub proof fn lemma_map_of_remove(s: Seq<RecordView>, i: int)
    requires
        keys_unique(s),
        0 <= i < s.len(),
    ensures
        map_of(s.remove(i)) == map_of(s).remove(s[i].key),
    decreases s.len(),
{
    let k = s[i].key;
    let dl = s.drop_last();
    assert(keys_unique(dl)) by {
        assert(forall|a: int, b: int| 0 <= a < b < dl.len() ==> dl[a].key != dl[b].key);
    }
    if i == s.len() - 1 {
        assert(s.remove(i) =~= dl);
        lemma_map_of_dom(dl);
        assert(!map_of(dl).contains_key(k)) by {
            if map_of(dl).contains_key(k) {
                let j = choose|j: int| 0 <= j < dl.len() && dl[j].key == k;
                assert(s[j].key == s[i].key);
            }
        }
        assert(map_of(dl).insert(k, s.last()).remove(k) =~= map_of(dl));
    } else {
        assert(dl[i] == s[i]);
        lemma_map_of_remove(dl, i);
        let lk = s.last().key;
        assert(lk != k);
        assert(s.remove(i).drop_last() =~= dl.remove(i));
        assert(s.remove(i).last() == s.last());
        assert(s.remove(i).len() == s.len() - 1);
        assert(map_of(s.remove(i)) == map_of(dl.remove(i)).insert(lk, s.last()));
        assert(map_of(dl).remove(k).insert(lk, s.last()) =~= map_of(dl).insert(
            lk,
            s.last(),
        ).remove(k));
    }
}

/// Mathematical view of a [`Store`]: the cached objects as a mapping
/// keyed by [`KeyView`], and the last-applied resource version.
#[verifier::ext_equal]
pub struct StoreView {
    pub objects: Map<KeyView, RecordView>,
    pub resource_version: Seq<char>,
}

/// The cache of one object kind. Exactly one reflector writes it;
/// readers take point-in-time copies through [`Store::snapshot`].
pub struct Store {
    records: Vec<ObjectRecord>,
    resource_version: String,
}

impl View for Store {
    type V = StoreView;

    closed spec fn view(&self) -> StoreView {
        StoreView {
            objects: map_of(rec_views(self.records@)),
            resource_version: self.resource_version@,
        }
    }
}

impl Store {
    #[verifier::type_invariant]
    spec fn inv(self) -> bool {
        keys_unique(rec_views(self.records@))
    }

    /// An empty cache with an empty cursor.
    pub fn new() -> (s: Store)
        ensures
            s@.objects == Map::<KeyView, RecordView>::empty(),
            s@.resource_version == Seq::<char>::empty(),
    {
        let s = Store { records: Vec::new(), resource_version: String::new() };
        proof {
            assert(rec_views(s.records@).len() == 0);
        }
        s
    }

    /// Index of the record under `key`, if the cache holds one.
    fn find_index(&self, key: &ObjectKey) -> (r: Option<usize>)
        ensures
            match r {
                Some(i) => i < self.records@.len() && self.records@[i as int]@.key == key@,
                None => forall|i: int|
                    0 <= i < self.records@.len() ==> self.records@[i]@.key != key@,
            },
    {
        let mut i: usize = 0;
        while i < self.records.len()
            invariant
                i <= self.records@.len(),
                forall|j: int| 0 <= j < i ==> self.records@[j]@.key != key@,
            decreases self.records@.len() - i,
        {
            if key_eq(&self.records[i].key, key) {
                return Some(i);
            }
            i = i + 1;
        }
        None
    }

    /// Stores `record` under its key, replacing any record the cache
    /// already held there, and makes the record's resource version the
    /// cache's last-applied one.
    pub fn upsert(&mut self, record: ObjectRecord)
        ensures
            final(self)@.objects == old(self)@.objects.insert(record@.key, record@),
            final(self)@.resource_version == record@.resource_version,
    {
        proof {
            use_type_invariant(&*self);
        }
        let ghost pre = rec_views(self.records@);
        let rv = record.resource_version.clone();
        let idx = self.find_index(&record.key);
        let mut recs: Vec<ObjectRecord> = Vec::new();
        core::mem::swap(&mut recs, &mut self.records);
        match idx {
            Some(i) => {
                proof {
                    assert(pre[i as int].key == record@.key);
                    lemma_keys_unique_remove(pre, i as int);
                    lemma_map_of_remove(pre, i as int);
                    pre.remove_ensures(i as int);
                    assert forall|j: int| 0 <= j < pre.remove(i as int).len()
                        implies pre.remove(i as int)[j].key != record@.key by {
                        if j < i {
                            assert(pre.remove(i as int)[j] == pre[j]);
                        } else {
                            assert(pre.remove(i as int)[j] == pre[j + 1]);
                        }
                    }
                    lemma_map_of_push(pre.remove(i as int), record@);
                }
                recs.remove(i);
                proof {
                    assert(rec_views(recs@) =~= pre.remove(i as int));
                }
                recs.push(record);
                proof {
                    assert(rec_views(recs@) =~= pre.remove(i as int).push(record@));
                    assert(keys_unique(rec_views(recs@)));
                    assert(map_of(rec_views(recs@)) =~= map_of(pre).insert(record@.key, record@));
                }
            },
            None => {
                proof {
                    lemma_map_of_push(pre, record@);
                }
                recs.push(record);
                proof {
                    assert(rec_views(recs@) =~= pre.push(record@));
                    assert(keys_unique(rec_views(recs@)));
                }
            },
        }
        self.records = recs;
        self.resource_version = rv;
    }

    /// Drops the record under `key`; removing an absent key is a
    /// no-op. The last-applied resource version is unchanged.
    pub fn remove(&mut self, key: &ObjectKey)
        ensures
            final(self)@.objects == old(self)@.objects.remove(key@),
            final(self)@.resource_version == old(self)@.resource_version,
    {
        proof {
            use_type_invariant(&*self);
        }
        let ghost pre = rec_views(self.records@);
        let idx = self.find_index(key);
        match idx {
            Some(i) => {
                proof {
                    assert(pre[i as int].key == key@);
                    lemma_keys_unique_remove(pre, i as int);
                    lemma_map_of_remove(pre, i as int);
                }
                let mut recs: Vec<ObjectRecord> = Vec::new();
                core::mem::swap(&mut recs, &mut self.records);
                recs.remove(i);
                proof {
                    assert(rec_views(recs@) =~= pre.remove(i as int));
                }
                self.records = recs;
            },
            None => {
                proof {
                    lemma_map_of_dom(pre);
                    if map_of(pre).contains_key(key@) {
                        let j = choose|j: int| 0 <= j < pre.len() && pre[j].key == key@;
                        assert(self.records@[j]@.key == key@);
                    }
                    assert(map_of(pre).remove(key@) =~= map_of(pre));
                }
            },
        }
    }

    /// Replaces the whole cache at once with the given records and
    /// cursor: afterwards the cache holds exactly the new records, no
    /// matter what it held before.
    pub fn replace_all(&mut self, records: Vec<ObjectRecord>, resource_version: String)
        requires
            keys_unique(rec_views(records@)),
        ensures
            final(self)@.objects == map_of(rec_views(records@)),
            final(self)@.resource_version == resource_version@,
    {
        self.records = records;
        self.resource_version = resource_version;
    }

    /// A point-in-time copy of the cached records; order unspecified.
    /// The copy maps to exactly the cache's current contents and stays
    /// untouched by later writes.
    pub fn snapshot(&self) -> (r: Vec<ObjectRecord>)
        ensures
            keys_unique(rec_views(r@)),
            map_of(rec_views(r@)) == self@.objects,
            r@.len() == self@.objects.len(),
    {
        proof {
            use_type_invariant(&*self);
        }
        let mut out: Vec<ObjectRecord> = Vec::new();
        let mut i: usize = 0;
        while i < self.records.len()
            invariant
                i <= self.records@.len(),
                out@.len() == i,
                forall|j: int| 0 <= j < i ==> out@[j] == self.records@[j],
            decreases self.records@.len() - i,
        {
            out.push(self.records[i].clone());
            i = i + 1;
        }
        proof {
            assert(out@ =~= self.records@);
            lemma_map_of_len(rec_views(self.records@));
        }
        out
    }

    /// The cache's last-applied resource version.
    pub fn resource_version(&self) -> (r: &String)
        ensures
            r@ == self@.resource_version,
    {
        &self.resource_version
    }

    /// Number of objects in the cache.
    pub fn len(&self) -> (n: usize)
        ensures
            n == self@.objects.len(),
    {
        proof {
            use_type_invariant(&*self);
            lemma_map_of_len(rec_views(self.records@));
        }
        self.records.len()
    }

    /// How one event changes the cache: an addition or modification
    /// stores the record and adopts its resource version, a deletion
    /// drops the key, a bookmark advances only the cursor, and a
    /// stream error leaves the cache untouched.
    pub open spec fn apply_event_spec(s: StoreView, e: EventView) -> StoreView {
        match e {
            EventView::Added(r) => StoreView {
                objects: s.objects.insert(r.key, r),
                resource_version: r.resource_version,
            },
            EventView::Modified(r) => StoreView {
                objects: s.objects.insert(r.key, r),
                resource_version: r.resource_version,
            },
            EventView::Deleted(k) => StoreView {
                objects: s.objects.remove(k),
                resource_version: s.resource_version,
            },
            EventView::Bookmark(v) => StoreView { objects: s.objects, resource_version: v },
            EventView::Error(_) => s,
        }
    }

    /// Applies one watch event to the cache.
    pub fn apply_event(&mut self, event: &WatchEvent)
        ensures
            final(self)@ == Self::apply_event_spec(old(self)@, event@),
    {
        match event {
            WatchEvent::Added(r) => {
                self.upsert(r.clone());
                proof {
                    assert(self@ =~= Self::apply_event_spec(old(self)@, event@));
                }
            },
            WatchEvent::Modified(r) => {
                self.upsert(r.clone());
                proof {
                    assert(self@ =~= Self::apply_event_spec(old(self)@, event@));
                }
            },
            WatchEvent::Deleted(k) => {
                self.remove(k);
                proof {
                    assert(self@ =~= Self::apply_event_spec(old(self)@, event@));
                }
            },
            WatchEvent::Bookmark(v) => {
                proof {
                    use_type_invariant(&*self);
                }
                self.resource_version = v.clone();
                proof {
                    assert(self@ =~= Self::apply_event_spec(old(self)@, event@));
                }
            },
            WatchEvent::Error(_) => {
                proof {
                    assert(self@ =~= Self::apply_event_spec(old(self)@, event@));
                }
            },
        }
    }
}

/// The views of a sequence of watch events.
pub open spec fn event_views(s: Seq<WatchEvent>) -> Seq<EventView> {
    s.map_values(|e: WatchEvent| e@)
}

/// Folds a sequence of events left-to-right into a cache state.
pub open spec fn fold_events(s: StoreView, evs: Seq<EventView>) -> StoreView
    decreases evs.len(),
{
    if evs.len() == 0 {
        s
    } else {
        fold_events(Store::apply_event_spec(s, evs[0]), evs.drop_first())
    }
}

/// Folding one more event applies it to the folded prefix.
pub proof fn lemma_fold_events_snoc(s: StoreView, evs: Seq<EventView>, i: int)
    requires
        0 <= i < evs.len(),
    ensures
        fold_events(s, evs.take(i + 1)) == Store::apply_event_spec(
            fold_events(s, evs.take(i)),
            evs[i],
        ),
    decreases i,
{
    let s1 = Store::apply_event_spec(s, evs[0]);
    if i == 0 {
        assert(evs.take(1).len() == 1);
        assert(evs.take(1)[0] == evs[0]);
        assert(evs.take(1).drop_first() =~= evs.take(0));
        assert(evs.take(0).len() == 0);
        assert(fold_events(s, evs.take(1)) == fold_events(s1, evs.take(1).drop_first()));
        assert(fold_events(s1, evs.take(1).drop_first()) == s1);
        assert(fold_events(s, evs.take(0)) == s);
    } else {
        let rest = evs.drop_first();
        assert(evs.take(i + 1)[0] == evs[0]);
        assert(evs.take(i + 1).drop_first() =~= rest.take(i));
        assert(fold_events(s, evs.take(i + 1)) == fold_events(s1, rest.take(i)));
        assert(evs.take(i)[0] == evs[0]);
        assert(evs.take(i).drop_first() =~= rest.take(i - 1));
        assert(fold_events(s, evs.take(i)) == fold_events(s1, rest.take(i - 1)));
        lemma_fold_events_snoc(s1, rest, i - 1);
        assert(rest[i - 1] == evs[i]);
    }
}

impl Store {
    /// Applies a whole sequence of events in order; afterwards the
    /// cache equals the left-to-right fold of the events into its old
    /// state (per key the last event wins, a deletion drops the key).
    pub fn apply_events(&mut self, events: &Vec<WatchEvent>)
        ensures
            final(self)@ == fold_events(old(self)@, event_views(events@)),
    {
        let ghost evs = event_views(events@);
        let mut i: usize = 0;
        proof {
            assert(evs.take(0) =~= Seq::<EventView>::empty());
        }
        while i < events.len()
            invariant
                i <= events@.len(),
                evs == event_views(events@),
                self@ == fold_events(old(self)@, evs.take(i as int)),
            decreases events@.len() - i,
        {
            proof {
                lemma_fold_events_snoc(old(self)@, evs, i as int);
            }
            self.apply_event(&events[i]);
            i = i + 1;
        }
        proof {
            assert(evs.take(events@.len() as int) =~= evs);
        }
    }
}

/// Applying the same modification twice in a row leaves the cache as
/// after the first application.
pub proof fn lemma_modified_idempotent(s: StoreView, r: RecordView)
    ensures
        Store::apply_event_spec(
            Store::apply_event_spec(s, EventView::Modified(r)),
            EventView::Modified(r),
        ) == Store::apply_event_spec(s, EventView::Modified(r)),
{
    let once = Store::apply_event_spec(s, EventView::Modified(r));
    assert(once.objects.insert(r.key, r) =~= once.objects);
    assert(Store::apply_event_spec(once, EventView::Modified(r)) =~= once);
}

/// The cache never holds an object whose last event was a deletion:
/// after a deletion event the key is absent.
pub proof fn lemma_deleted_key_absent(s: StoreView, k: KeyView)
    ensures
        !Store::apply_event_spec(s, EventView::Deleted(k)).objects.contains_key(k),
{
}

/// After a full replacement the cache holds no key that the new list
/// does not name: no key leaks across generations.
pub proof fn lemma_relist_discards_stale_keys(records: Seq<RecordView>, k: KeyView)
    requires
        forall|i: int| 0 <= i < records.len() ==> records[i].key != k,
    ensures
        !map_of(records).contains_key(k),
{
    lemma_map_of_dom(records);
    if map_of(records).contains_key(k) {
        let i = choose|i: int| 0 <= i < records.len() && records[i].key == k;
    }
}

} // verus!
