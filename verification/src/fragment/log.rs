//! One entry of the fragment log: which fragment, where it came from, and
//! what became of it.

use crate::header::HeaderId;
use vstd::prelude::*;

verus! {

/// Content hash that identifies a fragment. Two ids are the same fragment
/// exactly when their bytes are equal.
#[derive(Clone, Copy, Debug, Eq, PartialOrd, Ord, Hash)]
pub struct FragmentId {
    pub bytes: [u8; 32],
}

impl PartialEq for FragmentId {
    fn eq(&self, other: &FragmentId) -> (equal: bool) {
        let mut i: usize = 0;
        while i < 32
            invariant
                i <= 32,
                forall|j: int| 0 <= j < i ==> self.bytes[j] == other.bytes[j],
            decreases 32 - i,
        {
            if self.bytes[i] != other.bytes[i] {
                return false;
            }
            i += 1;
        }
        assert(self.bytes =~= other.bytes);
        true
    }
}

impl vstd::std_specs::cmp::PartialEqSpecImpl for FragmentId {
    open spec fn obeys_eq_spec() -> bool {
        true
    }

    open spec fn eq_spec(&self, other: &FragmentId) -> bool {
        *self == *other
    }
}

impl FragmentId {
    pub fn from_bytes(bytes: [u8; 32]) -> (id: FragmentId)
        ensures
            id.bytes == bytes,
    {
        FragmentId { bytes }
    }

    pub fn as_bytes(&self) -> (bytes: &[u8; 32])
        ensures
            *bytes == self.bytes,
    {
        &self.bytes
    }
}

/// How the node came to know a fragment.
#[derive(Clone, Copy, Debug, PartialEq, Eq, Hash)]
pub enum FragmentOrigin {
    /// Learnt from the network, from a peer or from a block.
    Network,
    /// Submitted by a client through the REST interface.
    Rest,
}

/// What became of a fragment.
#[derive(Debug, PartialEq, Eq)]
pub enum FragmentStatus {
    /// Received, and neither included nor rejected so far.
    Pending,
    /// Refused, with the reason.
    Rejected { reason: String },
    /// Included in the block with the given id.
    InABlock { block: HeaderId },
}

impl Clone for FragmentStatus {
    fn clone(&self) -> (copy: Self)
        ensures
            copy == *self,
    {
        match self {
            FragmentStatus::Pending => FragmentStatus::Pending,
            FragmentStatus::Rejected { reason } => FragmentStatus::Rejected { reason: reason.clone() },
            FragmentStatus::InABlock { block } => FragmentStatus::InABlock { block: *block },
        }
    }
}

/// The log of one fragment.
#[derive(Debug, PartialEq, Eq)]
pub struct FragmentLog {
    fragment_id: FragmentId,
    received_from: FragmentOrigin,
    status: FragmentStatus,
}

/// What a fragment log says: the fragment, its origin and its status.
pub struct FragmentLogView {
    pub fragment_id: FragmentId,
    pub received_from: FragmentOrigin,
    pub status: FragmentStatus,
}

impl View for FragmentLog {
    type V = FragmentLogView;

    closed spec fn view(&self) -> FragmentLogView {
        FragmentLogView {
            fragment_id: self.fragment_id,
            received_from: self.received_from,
            status: self.status,
        }
    }
}

impl Clone for FragmentLog {
    fn clone(&self) -> (copy: Self)
        ensures
            copy == *self,
    {
        FragmentLog {
            fragment_id: self.fragment_id,
            received_from: self.received_from,
            status: self.status.clone(),
        }
    }
}

impl FragmentLog {
    /// A log for a fragment that was just received: its status is pending.
    pub fn new(fragment_id: FragmentId, received_from: FragmentOrigin) -> (log: FragmentLog)
        ensures
            log@ == (FragmentLogView { fragment_id, received_from, status: FragmentStatus::Pending }),
    {
        FragmentLog { fragment_id, received_from, status: FragmentStatus::Pending }
    }

    pub fn fragment_id(&self) -> (id: &FragmentId)
        ensures
            *id == self@.fragment_id,
    {
        &self.fragment_id
    }

    pub fn received_from(&self) -> (origin: &FragmentOrigin)
        ensures
            *origin == self@.received_from,
    {
        &self.received_from
    }

    pub fn status(&self) -> (status: &FragmentStatus)
        ensures
            *status == self@.status,
    {
        &self.status
    }

    /// Overwrites the status. The fragment and its origin stay as they are.
    pub fn modify(&mut self, new_status: FragmentStatus)
        ensures
            final(self)@ == (FragmentLogView { status: new_status, ..old(self)@ }),
    {
        self.status = new_status;
    }
}

} // verus!
