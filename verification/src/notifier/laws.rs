//! What holds of the hub whatever happens to it: removal can be repeated,
//! the report of a pass names the failed sends and no others, and events
//! reach a subscriber in the order in which the hub took them up.

use super::broadcast::{failed_targets, BroadcastView};
use vstd::prelude::*;

verus! {

/// Striking a subscriber off twice leaves the registry as striking it off
/// once does.
pub proof fn law_disconnect_twice<C>(registry: Map<usize, C>, id: usize)
    ensures
        registry.remove(id).remove(id) == registry.remove(id),
        !registry.remove(id).contains_key(id),
{
    assert(registry.remove(id).remove(id) =~= registry.remove(id));
}

/// Striking a subscriber off leaves every other subscriber registered, with
/// its connection.
pub proof fn law_disconnect_keeps_others<C>(registry: Map<usize, C>, id: usize, other: usize)
    requires
        other != id,
    ensures
        registry.remove(id).contains_key(other) == registry.contains_key(other),
        registry.contains_key(other) ==> registry.remove(id)[other] == registry[other],
{
}

/// The report of a pass names a subscriber exactly when the send to it was
/// tried and failed, and names it once.
pub proof fn law_report_names_failed_sends(pass: BroadcastView, id: usize)
    requires
        pass.wf(),
    ensures
        failed_targets(pass.targets, pass.outcomes, pass.outcomes.len() as int).contains(id)
            <==> pass.failed_for(id),
        failed_targets(pass.targets, pass.outcomes, pass.outcomes.len() as int).no_duplicates(),
{
    lemma_failed_targets(pass, pass.outcomes.len() as int);
    let failed = failed_targets(pass.targets, pass.outcomes, pass.outcomes.len() as int);
    if failed.contains(id) {
        let at = choose|at: int| 0 <= at < failed.len() && failed[at] == id;
        let k = choose|k: int|
            0 <= k < pass.outcomes.len() && #[trigger] pass.targets[k] == failed[at]
                && !pass.outcomes[k];
        assert(pass.targets[k] == id);
    }
    if pass.failed_for(id) {
        let k = choose|k: int|
            0 <= k < pass.outcomes.len() && k < pass.targets.len() && #[trigger] pass.targets[k]
                == id && !pass.outcomes[k];
        assert(pass.targets[k] == id);
    }
}

proof fn lemma_failed_targets(pass: BroadcastView, turns: int)
    requires
        pass.wf(),
        0 <= turns <= pass.outcomes.len(),
    ensures
        forall|at: int|
            0 <= at < failed_targets(pass.targets, pass.outcomes, turns).len() ==> exists|k: int|
                0 <= k < turns && #[trigger] pass.targets[k] == #[trigger] failed_targets(
                    pass.targets,
                    pass.outcomes,
                    turns,
                )[at] && !pass.outcomes[k],
        forall|k: int|
            0 <= k < turns && !pass.outcomes[k] ==> failed_targets(
                pass.targets,
                pass.outcomes,
                turns,
            ).contains(#[trigger] pass.targets[k]),
        failed_targets(pass.targets, pass.outcomes, turns).no_duplicates(),
    decreases turns,
{
    if turns > 0 {
        lemma_failed_targets(pass, turns - 1);
        let earlier = failed_targets(pass.targets, pass.outcomes, turns - 1);
        let now = failed_targets(pass.targets, pass.outcomes, turns);
        assert forall|at: int| 0 <= at < now.len() implies exists|k: int|
            0 <= k < turns && #[trigger] pass.targets[k] == #[trigger] now[at]
                && !pass.outcomes[k] by {
            if at < earlier.len() {
                let k = choose|k: int|
                    0 <= k < turns - 1 && #[trigger] pass.targets[k] == earlier[at]
                        && !pass.outcomes[k];
                assert(pass.targets[k] == now[at]);
            } else {
                assert(pass.targets[turns - 1] == now[at]);
            }
        }
        assert forall|k: int| 0 <= k < turns && !pass.outcomes[k] implies now.contains(
            #[trigger] pass.targets[k],
        ) by {
            if k < turns - 1 {
                assert(earlier.contains(pass.targets[k]));
                let at = choose|at: int| 0 <= at < earlier.len() && earlier[at] == pass.targets[k];
                assert(now[at] == pass.targets[k]);
            } else {
                assert(now[now.len() - 1] == pass.targets[k]);
            }
        }
        if !pass.outcomes[turns - 1] {
            assert forall|i: int, j: int| 0 <= i < j < now.len() implies now[i] != now[j] by {
                if j == earlier.len() {
                    let k = choose|k: int|
                        0 <= k < turns - 1 && #[trigger] pass.targets[k] == earlier[i]
                            && !pass.outcomes[k];
                    assert(pass.targets[k] != pass.targets[turns - 1]);
                }
            }
        }
    }
}

/// One send of a pass: to whom, what, and whether it succeeded.
pub struct Attempt {
    pub id: usize,
    pub text: Seq<char>,
    pub delivered: bool,
}

/// The sends of one pass that were tried, in the order of the turns.
pub open spec fn attempts_of(pass: BroadcastView) -> Seq<Attempt> {
    Seq::new(
        pass.outcomes.len(),
        |k: int| Attempt { id: pass.targets[k], text: pass.text, delivered: pass.outcomes[k] },
    )
}

/// The sends of the passes in the order in which they were tried, where the
/// hub runs one pass after the other: those of the first pass, then those of
/// the second, and so on.
pub open spec fn attempts(passes: Seq<BroadcastView>) -> Seq<Attempt>
    decreases passes.len(),
{
    if passes.len() == 0 {
        Seq::empty()
    } else {
        attempts(passes.drop_last()) + attempts_of(passes.last())
    }
}

/// Where the sends of the pass at `index` begin among all the sends.
pub open spec fn first_attempt(passes: Seq<BroadcastView>, index: int) -> int {
    attempts(passes.take(index)).len() as int
}

/// The sends of each pass stand together among all the sends, in the order
/// of the passes.
pub proof fn law_passes_do_not_interleave(passes: Seq<BroadcastView>, index: int, turn: int)
    requires
        0 <= index < passes.len(),
        0 <= turn < passes[index].outcomes.len(),
    ensures
        0 <= first_attempt(passes, index) + turn < attempts(passes).len(),
        attempts(passes)[first_attempt(passes, index) + turn] == attempts_of(passes[index])[turn],
        first_attempt(passes, index) + passes[index].outcomes.len() == first_attempt(
            passes,
            index + 1,
        ),
    decreases passes.len(),
{
    let all_but_last = passes.drop_last();
    assert(passes.take(passes.len() as int) =~= passes);
    assert(passes.take(passes.len() - 1) =~= all_but_last);
    if index < passes.len() - 1 {
        assert(all_but_last.take(index) =~= passes.take(index));
        assert(all_but_last.take(index + 1) =~= passes.take(index + 1));
        law_passes_do_not_interleave(all_but_last, index, turn);
    } else {
        assert(passes.take(index + 1).drop_last() =~= passes.take(index));
    }
}

/// A subscriber that receives the events of two passes receives that of the
/// earlier pass first: among all the sends, the one that brought it the
/// earlier event stands before the one that brought it the later event.
pub proof fn law_events_arrive_in_order(
    passes: Seq<BroadcastView>,
    earlier: int,
    later: int,
    id: usize,
)
    requires
        0 <= earlier < later < passes.len(),
        forall|i: int| 0 <= i < passes.len() ==> (#[trigger] passes[i]).wf(),
        passes[earlier].delivered_to(id),
        passes[later].delivered_to(id),
    ensures
        exists|first: int, second: int|
            0 <= first < second < attempts(passes).len() && (#[trigger] attempts(passes)[first])
                == (Attempt { id, text: passes[earlier].text, delivered: true }) && (
            #[trigger] attempts(passes)[second]) == (Attempt {
                id,
                text: passes[later].text,
                delivered: true,
            }),
{
    let pass_a = passes[earlier];
    let pass_b = passes[later];
    let turn_a = choose|k: int|
        0 <= k < pass_a.outcomes.len() && k < pass_a.targets.len() && #[trigger] pass_a.targets[k]
            == id && pass_a.outcomes[k];
    let turn_b = choose|k: int|
        0 <= k < pass_b.outcomes.len() && k < pass_b.targets.len() && #[trigger] pass_b.targets[k]
            == id && pass_b.outcomes[k];
    law_passes_do_not_interleave(passes, earlier, turn_a);
    law_passes_do_not_interleave(passes, later, turn_b);
    lemma_starts_grow(passes, earlier + 1, later);
    let first = first_attempt(passes, earlier) + turn_a;
    let second = first_attempt(passes, later) + turn_b;
    assert(attempts(passes)[first] == (Attempt { id, text: pass_a.text, delivered: true }));
    assert(attempts(passes)[second] == (Attempt { id, text: pass_b.text, delivered: true }));
}

proof fn lemma_starts_grow(passes: Seq<BroadcastView>, from: int, to: int)
    requires
        0 <= from <= to <= passes.len(),
    ensures
        first_attempt(passes, from) <= first_attempt(passes, to),
    decreases to - from,
{
    if from < to {
        lemma_starts_grow(passes, from, to - 1);
        assert(passes.take(to).drop_last() =~= passes.take(to - 1));
    }
}

} // verus!
