//! The bounded log of fragments: one entry for each fragment that the node
//! remembers, the least recently used entry leaving when a new one needs its
//! place.

use super::cache::{
    cache_capacity, cache_contains, cache_entries, cache_get, cache_get_mut, cache_new, cache_peek,
    cache_put, cache_values, has_key, index_of, moved_to_front, pushed_front,
};
use super::log::{FragmentId, FragmentLog, FragmentLogView, FragmentOrigin, FragmentStatus};
use super::model::{
    admitted, distinct_ids, inserted, inserted_all, lemma_admitted, lemma_moved, modified,
    modified_all, position, present, registered_count, touched, touched_all, well_formed,
};
use lru::LruCache;
use vstd::prelude::*;

verus! {

/// The bounded log of fragments.
pub struct Logs {
    entries: LruCache<[u8; 32], FragmentLog>,
}

/// What the entries of a cache say, in the same order.
spec fn views(entries: Seq<([u8; 32], FragmentLog)>) -> Seq<FragmentLogView> {
    Seq::new(entries.len(), |i: int| entries[i].1@)
}

/// Each entry is kept under the bytes of its own fragment id.
spec fn aligned(entries: Seq<([u8; 32], FragmentLog)>) -> bool {
    forall|i: int|
        0 <= i < entries.len() ==> (#[trigger] entries[i]).0 == entries[i].1@.fragment_id.bytes
}

/// What a sequence of logs says, in the same order.
pub open spec fn log_views(logs: Seq<FragmentLog>) -> Seq<FragmentLogView> {
    Seq::new(logs.len(), |i: int| logs[i]@)
}

/// The fragments of `ids` that have an entry, each with what its entry says.
pub open spec fn found_by_ids(entries: Seq<FragmentLogView>, ids: Seq<FragmentId>) -> Map<
    FragmentId,
    FragmentLogView,
> {
    Map::new(
        |id: FragmentId| ids.contains(id) && present(entries, id),
        |id: FragmentId| entries[position(entries, id)],
    )
}

/// A list of pairs read as a mapping: the ids that occur in it, each with
/// what the log beside it says.
pub open spec fn pairs_as_map(pairs: Seq<(FragmentId, &FragmentLog)>) -> Map<
    FragmentId,
    FragmentLogView,
> {
    Map::new(
        |id: FragmentId| exists|i: int| 0 <= i < pairs.len() && (#[trigger] pairs[i]).0 == id,
        |id: FragmentId|
            pairs[choose|i: int| 0 <= i < pairs.len() && (#[trigger] pairs[i]).0 == id].1@,
    )
}

/// No id occurs twice in a list of pairs.
pub open spec fn distinct_pairs(pairs: Seq<(FragmentId, &FragmentLog)>) -> bool {
    forall|i: int, j: int|
        0 <= i < j < pairs.len() ==> (#[trigger] pairs[i]).0 != (#[trigger] pairs[j]).0
}

/// The id stands among the first `upto` of the ids.
spec fn among(ids: Seq<FragmentId>, upto: int, id: FragmentId) -> bool {
    exists|i: int| 0 <= i < upto && #[trigger] ids[i] == id
}

/// The id stands in the list of pairs.
spec fn paired(pairs: Seq<(FragmentId, &FragmentLog)>, id: FragmentId) -> bool {
    exists|i: int| 0 <= i < pairs.len() && (#[trigger] pairs[i]).0 == id
}

proof fn lemma_presence(entries: Seq<([u8; 32], FragmentLog)>, id: FragmentId)
    requires
        aligned(entries),
    ensures
        has_key(entries, id.bytes) == present(views(entries), id),
{
    if has_key(entries, id.bytes) {
        let i = index_of(entries, id.bytes);
        assert(views(entries)[i].fragment_id == id);
    }
    if present(views(entries), id) {
        let i = position(views(entries), id);
        assert(entries[i].0 == id.bytes);
    }
}

proof fn lemma_position(entries: Seq<([u8; 32], FragmentLog)>, id: FragmentId)
    requires
        aligned(entries),
        distinct_ids(views(entries)),
        present(views(entries), id),
    ensures
        has_key(entries, id.bytes),
        index_of(entries, id.bytes) == position(views(entries), id),
        0 <= position(views(entries), id) < entries.len(),
        views(entries)[position(views(entries), id)] == entries[position(views(entries), id)].1@,
        views(entries)[position(views(entries), id)].fragment_id == id,
{
    lemma_presence(entries, id);
    let i = index_of(entries, id.bytes);
    let j = position(views(entries), id);
    assert(views(entries)[i].fragment_id == id);
    if i < j {
        assert(views(entries)[i].fragment_id != views(entries)[j].fragment_id);
    }
    if j < i {
        assert(views(entries)[j].fragment_id != views(entries)[i].fragment_id);
    }
}

proof fn lemma_pushed_front(entries: Seq<([u8; 32], FragmentLog)>, capacity: nat, value: FragmentLog)
    requires
        aligned(entries),
        well_formed(views(entries), capacity),
    ensures
        views(pushed_front(entries, capacity, value@.fragment_id.bytes, value)) == admitted(
            views(entries),
            capacity,
            value@,
        ),
        aligned(pushed_front(entries, capacity, value@.fragment_id.bytes, value)),
{
    let after = pushed_front(entries, capacity, value@.fragment_id.bytes, value);
    assert(views(after) =~= admitted(views(entries), capacity, value@));
}

proof fn lemma_moved_to_front(entries: Seq<([u8; 32], FragmentLog)>, value: FragmentLog)
    requires
        aligned(entries),
        distinct_ids(views(entries)),
        present(views(entries), value@.fragment_id),
    ensures
        views(moved_to_front(entries, value@.fragment_id.bytes, value)) == seq![value@] + views(
            entries,
        ).remove(position(views(entries), value@.fragment_id)),
        aligned(moved_to_front(entries, value@.fragment_id.bytes, value)),
{
    let id = value@.fragment_id;
    lemma_position(entries, id);
    let after = moved_to_front(entries, id.bytes, value);
    assert(views(after) =~= seq![value@] + views(entries).remove(position(views(entries), id)));
}

impl View for Logs {
    type V = Seq<FragmentLogView>;

    /// The entries, the most recently used first.
    closed spec fn view(&self) -> Seq<FragmentLogView> {
        views(cache_entries(self.entries))
    }
}

impl Logs {
    /// The number of entries that the store was made to hold.
    pub closed spec fn capacity(&self) -> nat {
        cache_capacity(self.entries)
    }

    /// The store is in order: what it holds is well formed, and each entry is
    /// kept under the bytes of its own fragment id.
    pub closed spec fn wf(&self) -> bool {
        &&& well_formed(self@, self.capacity())
        &&& aligned(cache_entries(self.entries))
    }

    /// A store in order holds well-formed entries.
    pub proof fn lemma_wf(&self)
        requires
            self.wf(),
        ensures
            well_formed(self@, self.capacity()),
    {
    }

    /// An empty store that holds at most `max_entries` entries.
    pub fn new(max_entries: usize) -> (logs: Logs)
        requires
            max_entries > 0,
        ensures
            logs.wf(),
            logs@ == Seq::<FragmentLogView>::empty(),
            logs.capacity() == max_entries,
    {
        Logs { entries: cache_new(max_entries) }
    }

    /// Whether the fragment has an entry. Looking counts as a use: the entry
    /// becomes the most recently used.
    pub fn exist(&mut self, fragment_id: FragmentId) -> (found: bool)
        requires
            old(self).wf(),
        ensures
            final(self).wf(),
            final(self).capacity() == old(self).capacity(),
            found == present(old(self)@, fragment_id),
            final(self)@ == touched(old(self)@, fragment_id),
    {
        let ghost before = cache_entries(self.entries);
        proof {
            lemma_presence(before, fragment_id);
        }
        let found = match cache_get(&mut self.entries, &fragment_id.bytes) {
            Some(log) => {
                proof {
                    lemma_position(before, fragment_id);
                    lemma_moved_to_front(before, *log);
                    lemma_moved(views(before), self.capacity(), log@);
                }
                true
            },
            None => false,
        };
        found
    }

    /// For each id, in the order given, whether the fragment has an entry.
    /// Each one that has is used in its turn.
    pub fn exist_all(&mut self, fragment_ids: Vec<FragmentId>) -> (found: Vec<bool>)
        requires
            old(self).wf(),
        ensures
            final(self).wf(),
            final(self).capacity() == old(self).capacity(),
            found@.len() == fragment_ids@.len(),
            forall|i: int|
                0 <= i < found@.len() ==> found@[i] == present(old(self)@, #[trigger] fragment_ids@[i]),
            final(self)@ == touched_all(old(self)@, fragment_ids@),
    {
        let mut found: Vec<bool> = Vec::new();
        let mut i: usize = 0;
        while i < fragment_ids.len()
            invariant
                self.wf(),
                self.capacity() == old(self).capacity(),
                i <= fragment_ids@.len(),
                found@.len() == i,
                forall|k: int|
                    0 <= k < i ==> found@[k] == present(old(self)@, #[trigger] fragment_ids@[k]),
                forall|id: FragmentId| present(self@, id) == present(old(self)@, id),
                self@ == touched_all(old(self)@, fragment_ids@.take(i as int)),
            decreases fragment_ids@.len() - i,
        {
            let ghost before = self@;
            let id = fragment_ids[i];
            proof {
                assert(fragment_ids@.take(i + 1).drop_last() =~= fragment_ids@.take(i as int));
                if present(before, id) {
                    lemma_moved(before, self.capacity(), before[position(before, id)]);
                }
            }
            let there = self.exist(id);
            found.push(there);
            i += 1;
        }
        proof {
            assert(fragment_ids@.take(i as int) =~= fragment_ids@);
        }
        found
    }

    /// Registers a log for a fragment that has none, and says whether it did.
    /// A fragment that has an entry keeps it, and nothing changes.
    pub fn insert(&mut self, log: FragmentLog) -> (registered: bool)
        requires
            old(self).wf(),
        ensures
            final(self).wf(),
            final(self).capacity() == old(self).capacity(),
            registered == !present(old(self)@, log@.fragment_id),
            final(self)@ == inserted(old(self)@, old(self).capacity(), log@),
    {
        let fragment_id = *log.fragment_id();
        proof {
            lemma_presence(cache_entries(self.entries), fragment_id);
        }
        if cache_contains(&self.entries, &fragment_id.bytes) {
            false
        } else {
            proof {
                lemma_pushed_front(cache_entries(self.entries), self.capacity(), log);
                lemma_admitted(self@, self.capacity(), log@);
            }
            cache_put(&mut self.entries, fragment_id.bytes, log);
            true
        }
    }

    /// Inserts each log in the order given and returns how many were
    /// registered. A log whose fragment has an entry by then is passed over.
    pub fn insert_all(&mut self, logs: Vec<FragmentLog>) -> (registered: usize)
        requires
            old(self).wf(),
        ensures
            final(self).wf(),
            final(self).capacity() == old(self).capacity(),
            registered == registered_count(old(self)@, old(self).capacity(), log_views(logs@)),
            final(self)@ == inserted_all(old(self)@, old(self).capacity(), log_views(logs@)),
    {
        let ghost all = log_views(logs@);
        let mut registered: usize = 0;
        let mut i: usize = 0;
        while i < logs.len()
            invariant
                self.wf(),
                self.capacity() == old(self).capacity(),
                all == log_views(logs@),
                i <= logs@.len(),
                registered <= i,
                registered == registered_count(old(self)@, old(self).capacity(), all.take(i as int)),
                self@ == inserted_all(old(self)@, old(self).capacity(), all.take(i as int)),
            decreases logs@.len() - i,
        {
            proof {
                assert(all.take(i + 1).drop_last() =~= all.take(i as int));
                assert(all.take(i + 1).last() == logs@[i as int]@);
            }
            let log = logs[i].clone();
            if self.insert(log) {
                registered += 1;
            }
            i += 1;
        }
        proof {
            assert(all.take(i as int) =~= all);
        }
        registered
    }

    /// Records what became of a fragment. An entry of the fragment takes the
    /// status and becomes the most recently used. Where the fragment has no
    /// entry, the node has learnt of it from the network: an entry with that
    /// origin and the status is registered.
    pub fn modify(&mut self, fragment_id: FragmentId, status: FragmentStatus)
        requires
            old(self).wf(),
        ensures
            final(self).wf(),
            final(self).capacity() == old(self).capacity(),
            final(self)@ == modified(old(self)@, old(self).capacity(), fragment_id, status),
    {
        let ghost before = cache_entries(self.entries);
        let ghost capacity = self.capacity();
        proof {
            lemma_presence(before, fragment_id);
        }
        match cache_get_mut(&mut self.entries, &fragment_id.bytes) {
            Some(entry) => {
                proof {
                    lemma_position(before, fragment_id);
                }
                entry.modify(status);
                proof {
                    lemma_moved_to_front(before, *entry);
                    lemma_moved(views(before), capacity, entry@);
                }
            },
            None => {
                let mut log = FragmentLog::new(fragment_id, FragmentOrigin::Network);
                log.modify(status);
                proof {
                    lemma_pushed_front(before, capacity, log);
                    lemma_admitted(views(before), capacity, log@);
                }
                cache_put(&mut self.entries, fragment_id.bytes, log);
            },
        }
    }

    /// Records the same status for each of the fragments, in the order given.
    pub fn modify_all(&mut self, fragment_ids: Vec<FragmentId>, status: FragmentStatus)
        requires
            old(self).wf(),
        ensures
            final(self).wf(),
            final(self).capacity() == old(self).capacity(),
            final(self)@ == modified_all(old(self)@, old(self).capacity(), fragment_ids@, status),
    {
        let mut i: usize = 0;
        while i < fragment_ids.len()
            invariant
                self.wf(),
                self.capacity() == old(self).capacity(),
                i <= fragment_ids@.len(),
                self@ == modified_all(
                    old(self)@,
                    old(self).capacity(),
                    fragment_ids@.take(i as int),
                    status,
                ),
            decreases fragment_ids@.len() - i,
        {
            proof {
                assert(fragment_ids@.take(i + 1).drop_last() =~= fragment_ids@.take(i as int));
            }
            self.modify(fragment_ids[i], status.clone());
            i += 1;
        }
        proof {
            assert(fragment_ids@.take(i as int) =~= fragment_ids@);
        }
    }

    /// The logs of those of the fragments that have an entry, each id once,
    /// beside its log. A fragment without an entry is left out. Nothing is
    /// used by this: the order of use stays as it is.
    pub fn logs_by_ids<'a>(&'a self, fragment_ids: Vec<FragmentId>) -> (found: Vec<
        (FragmentId, &'a FragmentLog),
    >)
        requires
            self.wf(),
        ensures
            distinct_pairs(found@),
            pairs_as_map(found@) == found_by_ids(self@, fragment_ids@),
    {
        let mut found: Vec<(FragmentId, &'a FragmentLog)> = Vec::new();
        let ghost entries = cache_entries(self.entries);
        let mut i: usize = 0;
        while i < fragment_ids.len()
            invariant
                self.wf(),
                entries == cache_entries(self.entries),
                i <= fragment_ids@.len(),
                distinct_pairs(found@),
                forall|k: int|
                    0 <= k < found@.len() ==> among(fragment_ids@, i as int, (#[trigger] found@[k]).0)
                        && present(self@, found@[k].0) && found@[k].1@ == self@[position(
                        self@,
                        found@[k].0,
                    )],
                forall|k: int|
                    0 <= k < i && present(self@, #[trigger] fragment_ids@[k]) ==> paired(
                        found@,
                        fragment_ids@[k],
                    ),
            decreases fragment_ids@.len() - i,
        {
            let id = fragment_ids[i];
            let ghost earlier = found@;
            proof {
                lemma_presence(entries, id);
            }
            if !Self::listed(&found, &id) {
                match cache_peek(&self.entries, &id.bytes) {
                    Some(log) => {
                        proof {
                            lemma_position(entries, id);
                        }
                        found.push((id, log));
                        assert(found@[found@.len() - 1].0 == id);
                    },
                    None => {},
                }
            }
            i += 1;
            proof {
                assert forall|k: int| 0 <= k < found@.len() implies among(
                    fragment_ids@,
                    i as int,
                    (#[trigger] found@[k]).0,
                ) by {
                    if k < earlier.len() {
                        assert(among(fragment_ids@, i - 1, earlier[k].0));
                        let at = choose|at: int|
                            0 <= at < i - 1 && #[trigger] fragment_ids@[at] == earlier[k].0;
                        assert(fragment_ids@[at] == found@[k].0);
                    } else {
                        assert(fragment_ids@[i - 1] == id);
                    }
                }
                assert forall|k: int|
                    0 <= k < i && present(self@, #[trigger] fragment_ids@[k]) implies paired(
                    found@,
                    fragment_ids@[k],
                ) by {
                    if k < i - 1 {
                        assert(paired(earlier, fragment_ids@[k]));
                        let m = choose|m: int|
                            0 <= m < earlier.len() && (#[trigger] earlier[m]).0 == fragment_ids@[k];
                        assert(found@[m].0 == fragment_ids@[k]);
                    }
                }
            }
        }
        proof {
            let got = pairs_as_map(found@);
            let want = found_by_ids(self@, fragment_ids@);
            assert forall|id: FragmentId| got.dom().contains(id) <==> want.dom().contains(id) by {
                if want.dom().contains(id) {
                    let k = choose|k: int| 0 <= k < fragment_ids@.len() && fragment_ids@[k] == id;
                    assert(present(self@, fragment_ids@[k]));
                    assert(paired(found@, id));
                }
                if got.dom().contains(id) {
                    let m = choose|m: int| 0 <= m < found@.len() && (#[trigger] found@[m]).0 == id;
                    assert(among(fragment_ids@, i as int, found@[m].0));
                    let at = choose|at: int| 0 <= at < i && #[trigger] fragment_ids@[at] == id;
                    assert(fragment_ids@[at] == id);
                }
            }
            assert(got =~= want);
        }
        found
    }

    /// Whether the id stands in the list of pairs.
    fn listed(pairs: &Vec<(FragmentId, &FragmentLog)>, id: &FragmentId) -> (there: bool)
        ensures
            there == exists|i: int| 0 <= i < pairs@.len() && (#[trigger] pairs@[i]).0 == *id,
    {
        let mut i: usize = 0;
        while i < pairs.len()
            invariant
                i <= pairs@.len(),
                forall|k: int| 0 <= k < i ==> (#[trigger] pairs@[k]).0 != *id,
            decreases pairs@.len() - i,
        {
            if pairs[i].0 == *id {
                return true;
            }
            i += 1;
        }
        false
    }

    /// All the logs, the most recently used first.
    pub fn logs<'a>(&'a self) -> (logs: Vec<&'a FragmentLog>)
        requires
            self.wf(),
        ensures
            logs@.len() == self@.len(),
            forall|i: int| 0 <= i < logs@.len() ==> (#[trigger] logs@[i])@ == self@[i],
    {
        cache_values(&self.entries)
    }
}

} // verus!
