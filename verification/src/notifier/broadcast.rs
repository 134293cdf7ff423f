//! One pass over the subscribers for one event: whom to send to next, and
//! whom to report once the sends were tried.

use super::message::{message_text, Message};
use super::registry::Notifier;
use vstd::prelude::*;

verus! {

/// One pass over the subscribers for one event. The one who runs the pass
/// asks for the next subscriber, sends the text on its connection and records
/// how the send ended, until no subscriber is left.
pub struct Broadcast {
    text: String,
    targets: Vec<usize>,
    outcomes: Vec<bool>,
}

/// What a pass holds: the text, the subscribers in the order of their turn,
/// and for those whose turn is over whether the send succeeded.
pub struct BroadcastView {
    pub text: Seq<char>,
    pub targets: Seq<usize>,
    pub outcomes: Seq<bool>,
}

impl BroadcastView {
    /// Each subscriber has one turn, and no more outcomes are recorded than
    /// there are subscribers.
    pub open spec fn wf(self) -> bool {
        &&& self.targets.no_duplicates()
        &&& self.outcomes.len() <= self.targets.len()
    }

    /// Every subscriber has had its turn.
    pub open spec fn complete(self) -> bool {
        self.outcomes.len() >= self.targets.len()
    }

    /// The pass after one more send ended as `delivered` says. A complete pass
    /// stays as it is.
    pub open spec fn recorded(self, delivered: bool) -> BroadcastView {
        if self.complete() {
            self
        } else {
            BroadcastView { outcomes: self.outcomes.push(delivered), ..self }
        }
    }

    /// The send to the subscriber was tried in this pass and succeeded.
    pub open spec fn delivered_to(self, id: usize) -> bool {
        exists|k: int|
            0 <= k < self.outcomes.len() && k < self.targets.len() && #[trigger] self.targets[k]
                == id && self.outcomes[k]
    }

    /// The send to the subscriber was tried in this pass and failed.
    pub open spec fn failed_for(self, id: usize) -> bool {
        exists|k: int|
            0 <= k < self.outcomes.len() && k < self.targets.len() && #[trigger] self.targets[k]
                == id && !self.outcomes[k]
    }
}

/// The subscribers among the first `turns` whose send failed, in the order of
/// their turn.
pub open spec fn failed_targets(targets: Seq<usize>, outcomes: Seq<bool>, turns: int) -> Seq<usize>
    decreases turns,
{
    if turns <= 0 || turns > targets.len() || turns > outcomes.len() {
        Seq::empty()
    } else if outcomes[turns - 1] {
        failed_targets(targets, outcomes, turns - 1)
    } else {
        failed_targets(targets, outcomes, turns - 1).push(targets[turns - 1])
    }
}

impl View for Broadcast {
    type V = BroadcastView;

    closed spec fn view(&self) -> BroadcastView {
        BroadcastView { text: self.text@, targets: self.targets@, outcomes: self.outcomes@ }
    }
}

impl<C> Notifier<C> {
    /// Begins the pass for an event: the text to send, and as subscribers
    /// those that are registered now, each once. No send was tried yet.
    pub fn process_message(&self, message: &Message) -> (pass: Broadcast)
        requires
            self.wf(),
        ensures
            pass@.wf(),
            pass@.text == message_text(*message),
            pass@.targets.to_set() == self@.dom(),
            pass@.outcomes == Seq::<bool>::empty(),
    {
        Broadcast { text: message.text(), targets: self.subscribers(), outcomes: Vec::new() }
    }
}

impl Broadcast {
    /// The text to send to each subscriber.
    pub fn text(&self) -> (text: &String)
        ensures
            text@ == self@.text,
    {
        &self.text
    }

    /// The subscriber whose turn it is, or nothing when all had theirs.
    pub fn next_target(&self) -> (target: Option<usize>)
        requires
            self@.wf(),
        ensures
            target == if self@.complete() {
                None
            } else {
                Some(self@.targets[self@.outcomes.len() as int])
            },
    {
        if self.outcomes.len() < self.targets.len() {
            Some(self.targets[self.outcomes.len()])
        } else {
            None
        }
    }

    /// Records how the send to the subscriber whose turn it is has ended, and
    /// passes the turn on. Once every subscriber had its turn, nothing is
    /// recorded.
    pub fn record(&mut self, delivered: bool)
        requires
            old(self)@.wf(),
        ensures
            final(self)@.wf(),
            final(self)@ == old(self)@.recorded(delivered),
    {
        if self.outcomes.len() < self.targets.len() {
            self.outcomes.push(delivered);
        }
    }

    /// The subscribers whose send was tried and failed, in the order of
    /// their turn: those to report as disconnected.
    pub fn disconnected(&self) -> (failed: Vec<usize>)
        requires
            self@.wf(),
        ensures
            failed@ == failed_targets(self@.targets, self@.outcomes, self@.outcomes.len() as int),
    {
        let mut failed: Vec<usize> = Vec::new();
        let mut turn: usize = 0;
        while turn < self.outcomes.len()
            invariant
                self@.wf(),
                turn <= self.outcomes@.len(),
                failed@ == failed_targets(self@.targets, self@.outcomes, turn as int),
            decreases self.outcomes@.len() - turn,
        {
            if !self.outcomes[turn] {
                failed.push(self.targets[turn]);
            }
            turn += 1;
        }
        failed
    }
}

} // verus!
