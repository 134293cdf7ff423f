//! What the fragment log holds, as a sequence of entries with the most
//! recently used first, and what each operation makes of it.

use super::log::{FragmentId, FragmentLogView, FragmentOrigin, FragmentStatus};
use vstd::prelude::*;

verus! {

/// Whether some entry is about the given fragment.
pub open spec fn present(entries: Seq<FragmentLogView>, id: FragmentId) -> bool {
    exists|i: int| 0 <= i < entries.len() && (#[trigger] entries[i]).fragment_id == id
}

/// The index of the entry about the given fragment, where there is one.
pub open spec fn position(entries: Seq<FragmentLogView>, id: FragmentId) -> int {
    choose|i: int| 0 <= i < entries.len() && (#[trigger] entries[i]).fragment_id == id
}

/// No two entries are about the same fragment.
pub open spec fn distinct_ids(entries: Seq<FragmentLogView>) -> bool {
    forall|i: int, j: int|
        0 <= i < j < entries.len() ==> (#[trigger] entries[i]).fragment_id != (
        #[trigger] entries[j]).fragment_id
}

/// What a store of the given capacity may hold: at least one entry fits, no
/// more entries than fit, and one entry at most for each fragment.
pub open spec fn well_formed(entries: Seq<FragmentLogView>, capacity: nat) -> bool {
    &&& 0 < capacity
    &&& entries.len() <= capacity
    &&& distinct_ids(entries)
}

/// The entries after a new entry came in: it is the most recently used, and
/// where the store was full the least recently used entry has left.
pub open spec fn admitted(entries: Seq<FragmentLogView>, capacity: nat, log: FragmentLogView) -> Seq<
    FragmentLogView,
> {
    if entries.len() >= capacity {
        seq![log] + entries.drop_last()
    } else {
        seq![log] + entries
    }
}

/// The entries after the fragment was looked for: its entry, if there is one,
/// has become the most recently used.
pub open spec fn touched(entries: Seq<FragmentLogView>, id: FragmentId) -> Seq<FragmentLogView> {
    if present(entries, id) {
        seq![entries[position(entries, id)]] + entries.remove(position(entries, id))
    } else {
        entries
    }
}

/// The entries after `insert`: unchanged where the fragment has an entry, and
/// with the log admitted where it has none.
pub open spec fn inserted(entries: Seq<FragmentLogView>, capacity: nat, log: FragmentLogView) -> Seq<
    FragmentLogView,
> {
    if present(entries, log.fragment_id) {
        entries
    } else {
        admitted(entries, capacity, log)
    }
}

/// The entries after `modify`. An entry of the fragment takes the status,
/// keeps its origin and becomes the most recently used. Where there is none,
/// an entry that came from the network is admitted with the status.
pub open spec fn modified(
    entries: Seq<FragmentLogView>,
    capacity: nat,
    id: FragmentId,
    status: FragmentStatus,
) -> Seq<FragmentLogView> {
    if present(entries, id) {
        seq![FragmentLogView { status, ..entries[position(entries, id)] }] + entries.remove(
            position(entries, id),
        )
    } else {
        admitted(
            entries,
            capacity,
            FragmentLogView { fragment_id: id, received_from: FragmentOrigin::Network, status },
        )
    }
}

/// The entries after each of the ids was looked for, in their order.
pub open spec fn touched_all(entries: Seq<FragmentLogView>, ids: Seq<FragmentId>) -> Seq<
    FragmentLogView,
>
    decreases ids.len(),
{
    if ids.len() == 0 {
        entries
    } else {
        touched(touched_all(entries, ids.drop_last()), ids.last())
    }
}

/// The entries after `insert` of each of the logs, in their order.
pub open spec fn inserted_all(
    entries: Seq<FragmentLogView>,
    capacity: nat,
    logs: Seq<FragmentLogView>,
) -> Seq<FragmentLogView>
    decreases logs.len(),
{
    if logs.len() == 0 {
        entries
    } else {
        inserted(inserted_all(entries, capacity, logs.drop_last()), capacity, logs.last())
    }
}

/// How many of the logs `insert` registers when it takes them in their order:
/// those whose fragment has no entry when their turn comes.
pub open spec fn registered_count(
    entries: Seq<FragmentLogView>,
    capacity: nat,
    logs: Seq<FragmentLogView>,
) -> nat
    decreases logs.len(),
{
    if logs.len() == 0 {
        0
    } else {
        let before = inserted_all(entries, capacity, logs.drop_last());
        let earlier = registered_count(entries, capacity, logs.drop_last());
        if present(before, logs.last().fragment_id) {
            earlier
        } else {
            earlier + 1
        }
    }
}

/// The entries after `modify` of each of the ids with the same status, in
/// their order.
pub open spec fn modified_all(
    entries: Seq<FragmentLogView>,
    capacity: nat,
    ids: Seq<FragmentId>,
    status: FragmentStatus,
) -> Seq<FragmentLogView>
    decreases ids.len(),
{
    if ids.len() == 0 {
        entries
    } else {
        modified(modified_all(entries, capacity, ids.drop_last(), status), capacity, ids.last(), status)
    }
}

/// In a sequence with distinct ids the entry of a fragment stands where
/// `position` says, and nowhere else.
pub proof fn lemma_position_unique(entries: Seq<FragmentLogView>, at: int)
    requires
        distinct_ids(entries),
        0 <= at < entries.len(),
    ensures
        present(entries, entries[at].fragment_id),
        position(entries, entries[at].fragment_id) == at,
{
    let id = entries[at].fragment_id;
    let found = position(entries, id);
    if found < at {
        assert(entries[found].fragment_id != entries[at].fragment_id);
    }
    if at < found {
        assert(entries[at].fragment_id != entries[found].fragment_id);
    }
}

/// Admitting a log for a fragment that has no entry keeps the store well
/// formed; the new entry is there, and of the others all but the least
/// recently used one of a full store.
pub proof fn lemma_admitted(entries: Seq<FragmentLogView>, capacity: nat, log: FragmentLogView)
    requires
        well_formed(entries, capacity),
        !present(entries, log.fragment_id),
    ensures
        well_formed(admitted(entries, capacity, log), capacity),
        admitted(entries, capacity, log)[0] == log,
        forall|id: FragmentId|
            present(admitted(entries, capacity, log), id) <==> id == log.fragment_id || (present(
                entries,
                id,
            ) && !(entries.len() == capacity && id == entries.last().fragment_id)),
{
    let after = admitted(entries, capacity, log);
    assert forall|i: int, j: int| 0 <= i < j < after.len() implies (#[trigger] after[i]).fragment_id
        != (#[trigger] after[j]).fragment_id by {
        assert(after[j] == entries[j - 1]);
        if i > 0 {
            assert(after[i] == entries[i - 1]);
        }
    }
    assert forall|id: FragmentId|
        present(after, id) <==> id == log.fragment_id || (present(entries, id) && !(entries.len()
            == capacity && id == entries.last().fragment_id)) by {
        if present(after, id) {
            let i = position(after, id);
            if i > 0 {
                assert(entries[i - 1].fragment_id == id);
                if entries.len() == capacity {
                    assert(i - 1 < entries.len() - 1);
                    assert(entries[i - 1].fragment_id != entries[entries.len() - 1].fragment_id);
                }
            }
        }
        if id == log.fragment_id {
            assert(after[0].fragment_id == id);
        } else if present(entries, id) && !(entries.len() == capacity && id
            == entries.last().fragment_id) {
            let i = position(entries, id);
            assert(after[i + 1].fragment_id == id);
        }
    }
}

/// Moving the entry of a fragment to the front, with whatever status, keeps
/// the store well formed and the same fragments in it.
pub proof fn lemma_moved(entries: Seq<FragmentLogView>, capacity: nat, log: FragmentLogView)
    requires
        well_formed(entries, capacity),
        present(entries, log.fragment_id),
    ensures
        well_formed(seq![log] + entries.remove(position(entries, log.fragment_id)), capacity),
        forall|id: FragmentId|
            present(seq![log] + entries.remove(position(entries, log.fragment_id)), id)
                <==> present(entries, id),
{
    let at = position(entries, log.fragment_id);
    let after = seq![log] + entries.remove(at);
    assert forall|i: int, j: int| 0 <= i < j < after.len() implies (#[trigger] after[i]).fragment_id
        != (#[trigger] after[j]).fragment_id by {
        let jj = if j - 1 < at { j - 1 } else { j };
        assert(after[j] == entries[jj]);
        if i == 0 {
            if jj < at {
                assert(entries[jj].fragment_id != entries[at].fragment_id);
            } else {
                assert(entries[at].fragment_id != entries[jj].fragment_id);
            }
        } else {
            let ii = if i - 1 < at { i - 1 } else { i };
            assert(after[i] == entries[ii]);
            assert(entries[ii].fragment_id != entries[jj].fragment_id);
        }
    }
    assert forall|id: FragmentId| present(after, id) <==> present(entries, id) by {
        if present(after, id) {
            let i = position(after, id);
            if i > 0 {
                let ii = if i - 1 < at { i - 1 } else { i };
                assert(after[i] == entries[ii]);
                assert(entries[ii].fragment_id == id);
            }
        }
        if present(entries, id) {
            let i = position(entries, id);
            if i == at {
                assert(after[0].fragment_id == id);
            } else if i < at {
                assert(after[i + 1] == entries[i]);
                assert(after[i + 1].fragment_id == id);
            } else {
                assert(after[i] == entries[i]);
                assert(after[i].fragment_id == id);
            }
        }
    }
}

} // verus!
