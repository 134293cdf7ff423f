//! The registry of subscribers and the rules of admission and removal.

use std::collections::hash_map::Entry;
use std::collections::HashMap;
use vstd::prelude::*;
use vstd::std_specs::iter::IteratorSpec;

verus! {

broadcast use vstd::std_specs::hash::group_hash_axioms;

/// How many subscribers a hub admits where no limit is given.
pub const MAX_CONNECTIONS_DEFAULT: usize = 255;

/// The close code sent to a connection that is turned away because the hub
/// is full. It lies in the range that the protocol leaves to applications.
pub const MAX_CONNECTIONS_ERROR_CLOSE_CODE: u16 = 4000;

/// The reason sent along with that close code.
pub const MAX_CONNECTIONS_ERROR_REASON: &'static str = "MAX CONNECTIONS reached";

/// The registry of subscribers of one hub. `C` is the connection to a
/// subscriber; the hub keeps it and hands it back, and never looks inside.
pub struct Notifier<C> {
    next_user_id: usize,
    clients: HashMap<usize, C>,
    max_connections: usize,
}

/// What became of a connection that asked to be admitted.
#[derive(Debug, PartialEq, Eq)]
pub enum Admission<C> {
    /// It was registered under this id.
    Admitted { id: usize },
    /// The hub was full. The connection comes back, to be closed with the
    /// given code and reason.
    Rejected { connection: C, close_code: u16, reason: &'static str },
}

impl<C> View for Notifier<C> {
    type V = Map<usize, C>;

    /// The registered connections, each under its id.
    closed spec fn view(&self) -> Map<usize, C> {
        self.clients@
    }
}

impl<C> Notifier<C> {
    /// The id that the next connection will be given.
    pub closed spec fn next_id(&self) -> usize {
        self.next_user_id
    }

    /// The greatest number of subscribers that the hub admits.
    pub closed spec fn limit(&self) -> usize {
        self.max_connections
    }

    /// The hub is in order: it holds no more subscribers than it admits.
    pub closed spec fn wf(&self) -> bool {
        &&& self@.dom().finite()
        &&& self@.len() <= self.max_connections
    }

    /// A hub in order holds no more subscribers than it admits.
    pub proof fn lemma_wf(&self)
        requires
            self.wf(),
        ensures
            self@.dom().finite(),
            self@.len() <= self.limit(),
    {
    }

    /// A hub without subscribers that admits `max_connections` of them, or
    /// the default number where none is given. The first id is 1.
    pub fn new(max_connections: Option<usize>) -> (notifier: Notifier<C>)
        ensures
            notifier.wf(),
            notifier@ == Map::<usize, C>::empty(),
            notifier.next_id() == 1,
            notifier.limit() == match max_connections {
                Some(limit) => limit,
                None => MAX_CONNECTIONS_DEFAULT,
            },
    {
        let max_connections = match max_connections {
            Some(limit) => limit,
            None => MAX_CONNECTIONS_DEFAULT,
        };
        Notifier { next_user_id: 1, clients: HashMap::new(), max_connections }
    }

    /// The number of registered subscribers.
    pub fn connections(&self) -> (count: usize)
        requires
            self.wf(),
        ensures
            count == self@.len(),
            count <= self.limit(),
    {
        self.clients.len()
    }

    /// Whether a subscriber is registered under the id.
    pub fn is_connected(&self, id: usize) -> (connected: bool)
        ensures
            connected == self@.contains_key(id),
    {
        self.clients.contains_key(&id)
    }

    /// Takes the next id for the connection, whether it is admitted or not.
    /// While the hub holds fewer subscribers than it admits, the connection
    /// is registered under that id. Otherwise it comes back with the close
    /// code and the reason to send before closing it, and the registry is
    /// left as it was.
    pub fn new_connection(&mut self, ws: C) -> (admission: Admission<C>)
        requires
            old(self).wf(),
        ensures
            final(self).wf(),
            final(self).limit() == old(self).limit(),
            final(self).next_id() == if old(self).next_id() == usize::MAX {
                0
            } else {
                old(self).next_id() + 1
            },
            old(self)@.len() < old(self).limit() ==> admission == (Admission::Admitted::<C> {
                id: old(self).next_id(),
            }) && final(self)@ == old(self)@.insert(old(self).next_id(), ws),
            old(self)@.len() >= old(self).limit() ==> admission == (Admission::Rejected {
                connection: ws,
                close_code: MAX_CONNECTIONS_ERROR_CLOSE_CODE,
                reason: MAX_CONNECTIONS_ERROR_REASON,
            }) && final(self)@ == old(self)@,
    {
        let id = self.next_user_id;
        self.next_user_id = id.wrapping_add(1);
        if self.clients.len() < self.max_connections {
            self.clients.insert(id, ws);
            Admission::Admitted { id }
        } else {
            Admission::Rejected {
                connection: ws,
                close_code: MAX_CONNECTIONS_ERROR_CLOSE_CODE,
                reason: MAX_CONNECTIONS_ERROR_REASON,
            }
        }
    }

    /// The ids of the registered subscribers, each once.
    pub fn subscribers(&self) -> (ids: Vec<usize>)
        requires
            self.wf(),
        ensures
            ids@.no_duplicates(),
            ids@.to_set() == self@.dom(),
    {
        let mut ids: Vec<usize> = Vec::new();
        let keys = self.clients.keys();
        let ghost all = keys.remaining();
        for id in iter: keys
            invariant
                iter.seq() == all,
                ids@ == all.take(iter.index() as int).unref(),
        {
            ids.push(*id);
            assert(ids@ =~= all.take(iter.index() + 1).unref());
        }
        proof {
            assert(all.take(all.len() as int) =~= all);
            assert(ids@ =~= all.unref());
        }
        ids
    }

    /// The connection of a subscriber, to send on it. Whatever the caller does
    /// to the connection, the same ids stay registered.
    pub fn connection_mut(&mut self, id: usize) -> (connection: Option<&mut C>)
        requires
            old(self).wf(),
        ensures
            final(self).wf(),
            final(self).limit() == old(self).limit(),
            final(self).next_id() == old(self).next_id(),
            connection.is_some() == old(self)@.contains_key(id),
            connection.is_some() ==> *connection.unwrap() == old(self)@[id] && final(self)@ == old(
                self,
            )@.insert(id, *final(connection.unwrap())),
            connection.is_none() ==> final(self)@ == old(self)@,
    {
        match self.clients.entry(id) {
            Entry::Occupied(entry) => Some(entry.into_mut()),
            Entry::Vacant(_) => None,
        }
    }

    /// Strikes the subscriber off, if it is registered, and hands back its
    /// connection. An id that is not registered changes nothing.
    pub fn handle_disconnected(&mut self, id: usize) -> (removed: Option<C>)
        requires
            old(self).wf(),
        ensures
            final(self).wf(),
            final(self).limit() == old(self).limit(),
            final(self).next_id() == old(self).next_id(),
            final(self)@ == old(self)@.remove(id),
            removed == if old(self)@.contains_key(id) {
                Some(old(self)@[id])
            } else {
                None
            },
    {
        self.clients.remove(&id)
    }
}

} // verus!
