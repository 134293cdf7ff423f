//! What holds of the fragment log whatever it is given: what stays when logs
//! come in, which entries leave when there are too many, and what `insert`
//! and `modify` do to the entry of one fragment.

use super::log::{FragmentId, FragmentLogView, FragmentOrigin, FragmentStatus};
use super::model::{
    admitted, distinct_ids, inserted, inserted_all, lemma_admitted, lemma_moved,
    lemma_position_unique, modified, position, present, registered_count, touched, well_formed,
};
use vstd::prelude::*;

verus! {

/// The smaller of two numbers.
pub open spec fn at_most(limit: nat, count: nat) -> nat {
    if count <= limit {
        count
    } else {
        limit
    }
}

/// Logs of fragments that are new to the store, and distinct among
/// themselves, all get registered. Afterwards the store holds them with the
/// last one first, then what it held before, cut off at its capacity: what
/// does not fit is what was used least recently.
pub proof fn law_insert_all_new(
    entries: Seq<FragmentLogView>,
    capacity: nat,
    logs: Seq<FragmentLogView>,
)
    requires
        well_formed(entries, capacity),
        distinct_ids(logs),
        forall|i: int| 0 <= i < logs.len() ==> !present(entries, (#[trigger] logs[i]).fragment_id),
    ensures
        inserted_all(entries, capacity, logs) == (logs.reverse() + entries).take(
            at_most(capacity, logs.len() + entries.len()) as int,
        ),
        registered_count(entries, capacity, logs) == logs.len(),
        well_formed(inserted_all(entries, capacity, logs), capacity),
    decreases logs.len(),
{
    if logs.len() > 0 {
        let earlier = logs.drop_last();
        let last = logs.last();
        assert forall|i: int| 0 <= i < earlier.len() implies !present(
            entries,
            (#[trigger] earlier[i]).fragment_id,
        ) by {
            assert(earlier[i] == logs[i]);
        }
        assert(distinct_ids(earlier)) by {
            assert forall|i: int, j: int| 0 <= i < j < earlier.len() implies (
            #[trigger] earlier[i]).fragment_id != (#[trigger] earlier[j]).fragment_id by {
                assert(earlier[i] == logs[i]);
                assert(earlier[j] == logs[j]);
            }
        }
        law_insert_all_new(entries, capacity, earlier);
        let before = inserted_all(entries, capacity, earlier);
        let joined = earlier.reverse() + entries;
        assert(!present(before, last.fragment_id)) by {
            if present(before, last.fragment_id) {
                let at = position(before, last.fragment_id);
                assert(before[at] == joined[at]);
                if at < earlier.len() {
                    assert(joined[at] == earlier[earlier.len() - 1 - at]);
                    assert(earlier[earlier.len() - 1 - at] == logs[earlier.len() - 1 - at]);
                    assert(logs[earlier.len() - 1 - at].fragment_id != logs[logs.len()
                        - 1].fragment_id);
                } else {
                    assert(joined[at] == entries[at - earlier.len()]);
                    assert(entries[at - earlier.len()].fragment_id == last.fragment_id);
                }
            }
        }
        lemma_admitted(before, capacity, last);
        let after = inserted_all(entries, capacity, logs);
        let target = (logs.reverse() + entries).take(
            at_most(capacity, logs.len() + entries.len()) as int,
        );
        assert(after == admitted(before, capacity, last));
        assert(after.len() == target.len());
        assert forall|i: int| 0 <= i < after.len() implies after[i] == target[i] by {
            if i > 0 {
                assert(after[i] == before[i - 1]);
                assert(before[i - 1] == joined[i - 1]);
                if i - 1 < earlier.len() {
                    assert(joined[i - 1] == earlier[earlier.len() - 1 - (i - 1)]);
                    assert(target[i] == logs[logs.len() - 1 - i]);
                } else {
                    assert(joined[i - 1] == entries[i - 1 - earlier.len()]);
                    assert(target[i] == entries[i - logs.len()]);
                }
            } else {
                assert(target[0] == logs[logs.len() - 1]);
            }
        }
        assert(after =~= target);
    } else {
        assert(inserted_all(entries, capacity, logs) =~= (logs.reverse() + entries).take(
            at_most(capacity, logs.len() + entries.len()) as int,
        ));
    }
}

/// Logs of distinct fragments, no more of them than an empty store can hold,
/// are all there after they were inserted, and the store holds these logs and
/// no others.
pub proof fn law_insert_within_capacity(capacity: nat, logs: Seq<FragmentLogView>)
    requires
        0 < capacity,
        distinct_ids(logs),
        logs.len() <= capacity,
    ensures
        forall|i: int|
            0 <= i < logs.len() ==> present(
                inserted_all(Seq::empty(), capacity, logs),
                (#[trigger] logs[i]).fragment_id,
            ),
        inserted_all(Seq::empty(), capacity, logs).to_set() == logs.to_set(),
        inserted_all(Seq::empty(), capacity, logs).len() == logs.len(),
{
    let none = Seq::<FragmentLogView>::empty();
    let after = inserted_all(none, capacity, logs);
    assert forall|i: int| 0 <= i < logs.len() implies !present(
        none,
        (#[trigger] logs[i]).fragment_id,
    ) by {}
    law_insert_all_new(none, capacity, logs);
    assert(after =~= logs.reverse());
    assert forall|i: int| 0 <= i < logs.len() implies present(
        after,
        (#[trigger] logs[i]).fragment_id,
    ) by {
        assert(after[logs.len() - 1 - i] == logs[i]);
    }
    assert forall|log: FragmentLogView| after.to_set().contains(log) <==> logs.to_set().contains(
        log,
    ) by {
        if after.contains(log) {
            let i = choose|i: int| 0 <= i < after.len() && after[i] == log;
            assert(logs[logs.len() - 1 - i] == log);
        }
        if logs.contains(log) {
            let i = choose|i: int| 0 <= i < logs.len() && logs[i] == log;
            assert(after[logs.len() - 1 - i] == log);
        }
    }
    assert(after.to_set() =~= logs.to_set());
}

/// When more logs of distinct fragments are inserted into an empty store than
/// it can hold, the store is full afterwards, the logs that came last are
/// there, and those that came first, as many as were too many, are gone.
pub proof fn law_insert_beyond_capacity(capacity: nat, logs: Seq<FragmentLogView>)
    requires
        0 < capacity,
        distinct_ids(logs),
        logs.len() > capacity,
    ensures
        inserted_all(Seq::empty(), capacity, logs).len() == capacity,
        forall|i: int|
            0 <= i < logs.len() ==> (present(
                inserted_all(Seq::empty(), capacity, logs),
                (#[trigger] logs[i]).fragment_id,
            ) <==> i >= logs.len() - capacity),
{
    let none = Seq::<FragmentLogView>::empty();
    let after = inserted_all(none, capacity, logs);
    assert forall|i: int| 0 <= i < logs.len() implies !present(
        none,
        (#[trigger] logs[i]).fragment_id,
    ) by {}
    law_insert_all_new(none, capacity, logs);
    assert(after =~= logs.reverse().take(capacity as int));
    assert forall|i: int| 0 <= i < logs.len() implies (present(
        after,
        (#[trigger] logs[i]).fragment_id,
    ) <==> i >= logs.len() - capacity) by {
        if i >= logs.len() - capacity {
            assert(after[logs.len() - 1 - i] == logs[i]);
        }
        if present(after, logs[i].fragment_id) {
            let at = position(after, logs[i].fragment_id);
            assert(after[at] == logs[logs.len() - 1 - at]);
            lemma_position_unique(logs, i);
            lemma_position_unique(logs, logs.len() - 1 - at);
        }
    }
}

/// When a full store takes in logs of fragments that are new to it, as many
/// of its entries leave as logs come in, and they are those that were used
/// least recently: the ones at the end of the order of use.
pub proof fn law_eviction_takes_least_recently_used(
    entries: Seq<FragmentLogView>,
    capacity: nat,
    logs: Seq<FragmentLogView>,
)
    requires
        well_formed(entries, capacity),
        entries.len() == capacity,
        distinct_ids(logs),
        logs.len() <= capacity,
        forall|i: int| 0 <= i < logs.len() ==> !present(entries, (#[trigger] logs[i]).fragment_id),
    ensures
        forall|i: int|
            0 <= i < entries.len() ==> (present(
                inserted_all(entries, capacity, logs),
                (#[trigger] entries[i]).fragment_id,
            ) <==> i < capacity - logs.len()),
{
    let after = inserted_all(entries, capacity, logs);
    law_insert_all_new(entries, capacity, logs);
    assert forall|i: int| 0 <= i < entries.len() implies (present(
        after,
        (#[trigger] entries[i]).fragment_id,
    ) <==> i < capacity - logs.len()) by {
        if i < capacity - logs.len() {
            assert(after[logs.len() + i] == entries[i]);
        }
        if present(after, entries[i].fragment_id) {
            let at = position(after, entries[i].fragment_id);
            if at < logs.len() {
                assert(after[at] == logs[logs.len() - 1 - at]);
                assert(!present(entries, logs[logs.len() - 1 - at].fragment_id));
            } else {
                assert(after[at] == entries[at - logs.len()]);
                lemma_position_unique(entries, i);
                lemma_position_unique(entries, at - logs.len());
            }
        }
    }
}

/// Inserting a log for a fragment that has an entry changes nothing: the
/// entry keeps its origin and its status, and its place in the order of use.
pub proof fn law_insert_again_changes_nothing(
    entries: Seq<FragmentLogView>,
    capacity: nat,
    log: FragmentLogView,
)
    requires
        present(entries, log.fragment_id),
    ensures
        inserted(entries, capacity, log) == entries,
{
}

/// After `modify` the fragment has an entry with the given status, and it is
/// the most recently used. The origin is the one that the fragment's entry
/// had before, and the network where it had none.
pub proof fn law_modify_sets_status(
    entries: Seq<FragmentLogView>,
    capacity: nat,
    id: FragmentId,
    status: FragmentStatus,
)
    requires
        well_formed(entries, capacity),
    ensures
        well_formed(modified(entries, capacity, id, status), capacity),
        present(modified(entries, capacity, id, status), id),
        position(modified(entries, capacity, id, status), id) == 0,
        modified(entries, capacity, id, status)[0].fragment_id == id,
        modified(entries, capacity, id, status)[0].status == status,
        modified(entries, capacity, id, status)[0].received_from == if present(entries, id) {
            entries[position(entries, id)].received_from
        } else {
            FragmentOrigin::Network
        },
{
    let after = modified(entries, capacity, id, status);
    if present(entries, id) {
        lemma_moved(entries, capacity, FragmentLogView { status, ..entries[position(entries, id)] });
    } else {
        lemma_admitted(
            entries,
            capacity,
            FragmentLogView { fragment_id: id, received_from: FragmentOrigin::Network, status },
        );
    }
    assert(after[0].fragment_id == id);
    lemma_position_unique(after, 0);
}

/// `modify` leaves the entries of other fragments as they are. They all stay
/// but for one case: where the fragment had no entry and the store was full,
/// the least recently used entry leaves.
pub proof fn law_modify_keeps_others(
    entries: Seq<FragmentLogView>,
    capacity: nat,
    id: FragmentId,
    status: FragmentStatus,
    other: FragmentId,
)
    requires
        well_formed(entries, capacity),
        other != id,
        present(entries, other),
        present(entries, id) || entries.len() < capacity || other != entries.last().fragment_id,
    ensures
        present(modified(entries, capacity, id, status), other),
        modified(entries, capacity, id, status)[position(
            modified(entries, capacity, id, status),
            other,
        )] == entries[position(entries, other)],
{
    let after = modified(entries, capacity, id, status);
    law_modify_sets_status(entries, capacity, id, status);
    let was = position(entries, other);
    if present(entries, id) {
        let at = position(entries, id);
        let now = if was < at { was + 1 } else { was };
        assert(after[now] == entries[was]);
        lemma_position_unique(after, now);
    } else {
        assert(after[was + 1] == entries[was]);
        lemma_position_unique(after, was + 1);
    }
}

/// Looking for a fragment neither adds nor removes an entry, and changes
/// none: it only makes the fragment's entry the most recently used.
pub proof fn law_exist_keeps_entries(
    entries: Seq<FragmentLogView>,
    capacity: nat,
    id: FragmentId,
    other: FragmentId,
)
    requires
        well_formed(entries, capacity),
    ensures
        well_formed(touched(entries, id), capacity),
        present(touched(entries, id), other) == present(entries, other),
        present(entries, other) ==> touched(entries, id)[position(touched(entries, id), other)]
            == entries[position(entries, other)],
        present(entries, id) ==> touched(entries, id)[0] == entries[position(entries, id)],
{
    let after = touched(entries, id);
    if present(entries, id) {
        let at = position(entries, id);
        lemma_moved(entries, capacity, entries[at]);
        if present(entries, other) {
            let was = position(entries, other);
            let now = if was == at { 0 } else if was < at { was + 1 } else { was };
            assert(after[now] == entries[was]);
            lemma_position_unique(after, now);
        }
    }
}

} // verus!
