//! The registry of reply destinations, one per caller.

use crate::error::DispatchError;
use std::collections::HashMap;
use vstd::prelude::*;

verus! {

broadcast use vstd::std_specs::hash::group_hash_axioms;

/// Whether no caller occurs twice in a list of registrations.
pub open spec fn distinct_callers<S>(callers: Seq<(i32, S)>) -> bool {
    forall|i: int, j: int|
        0 <= i < j < callers.len() ==> (#[trigger] callers[i]).0 != (#[trigger] callers[j]).0
}

/// Whether position `j` of a list of registrations is the first that names a
/// caller that an earlier position has named.
pub open spec fn first_repeat<S>(callers: Seq<(i32, S)>, j: int) -> bool {
    &&& 0 <= j < callers.len()
    &&& distinct_callers(callers.take(j))
    &&& exists|i: int| 0 <= i < j && (#[trigger] callers[i]).0 == callers[j].0
}

/// Maps a caller to the one destination on which its result is delivered.
///
/// The type `S` of a destination is the send end of that caller's private
/// reply channel. An entry is handed out once, by [`ReplyRegistry::take`],
/// and is gone afterwards: a caller can have one request answered.
pub struct ReplyRegistry<S> {
    senders: HashMap<i32, S>,
}

impl<S> View for ReplyRegistry<S> {
    type V = Map<i32, S>;

    closed spec fn view(&self) -> Map<i32, S> {
        self.senders@
    }
}

impl<S> ReplyRegistry<S> {
    /// A registry without callers.
    pub fn new() -> (registry: Self)
        ensures
            registry@ == Map::<i32, S>::empty(),
    {
        ReplyRegistry { senders: HashMap::new() }
    }

    /// Builds the registry of a session from its callers, in the order given.
    ///
    /// Succeeds when no caller is named twice, and then holds each caller's
    /// destination and nothing else. Otherwise it fails with the caller at
    /// the first position that repeats an earlier one.
    pub fn from_callers(callers: Vec<(i32, S)>) -> (outcome: Result<Self, DispatchError>)
        ensures
            distinct_callers(callers@) ==> {
                &&& outcome matches Ok(registry)
                &&& forall|id: i32|
                    registry@.contains_key(id) <==> exists|i: int|
                        0 <= i < callers.len() && (#[trigger] callers[i]).0 == id
                &&& forall|i: int|
                    0 <= i < callers.len() ==> registry@[(#[trigger] callers[i]).0] == callers[i].1
            },
            !distinct_callers(callers@) ==> {
                &&& outcome matches Err(DispatchError::DuplicateCaller { caller_id })
                &&& exists|j: int| first_repeat(callers@, j) && (#[trigger] callers[j]).0 == caller_id
            },
    {
        let mut registry = ReplyRegistry::new();
        let ghost all = callers@;
        for entry in iter: callers
            invariant
                all == iter.seq(),
                distinct_callers(all.take(iter.index() as int)),
                forall|id: i32|
                    registry@.contains_key(id) <==> exists|i: int|
                        0 <= i < iter.index() && (#[trigger] all[i]).0 == id,
                forall|i: int|
                    0 <= i < iter.index() ==> registry@[(#[trigger] all[i]).0] == all[i].1,
        {
            let (caller_id, reply_sender) = entry;
            match registry.register(caller_id, reply_sender) {
                Ok(()) => {},
                Err(e) => {
                    return Err(e);
                },
            }
        }
        assert(all.take(all.len() as int) =~= all);
        Ok(registry)
    }

    /// Adds the destination of a caller that has none yet.
    ///
    /// Registering a caller twice is refused, and leaves the first entry in
    /// place.
    pub fn register(&mut self, caller_id: i32, reply_sender: S) -> (outcome: Result<(), DispatchError>)
        ensures
            old(self)@.contains_key(caller_id) ==> {
                &&& outcome == Err::<(), DispatchError>(DispatchError::DuplicateCaller { caller_id })
                &&& final(self)@ == old(self)@
            },
            !old(self)@.contains_key(caller_id) ==> {
                &&& outcome == Ok::<(), DispatchError>(())
                &&& final(self)@ == old(self)@.insert(caller_id, reply_sender)
            },
    {
        if self.senders.contains_key(&caller_id) {
            Err(DispatchError::DuplicateCaller { caller_id })
        } else {
            self.senders.insert(caller_id, reply_sender);
            Ok(())
        }
    }

    /// Removes and returns the destination of a caller.
    ///
    /// Fails for a caller without an entry, whether it was never registered
    /// or its entry was taken before.
    pub fn take(&mut self, caller_id: i32) -> (outcome: Result<S, DispatchError>)
        ensures
            final(self)@ == old(self)@.remove(caller_id),
            old(self)@.contains_key(caller_id) ==> outcome == Ok::<S, DispatchError>(
                old(self)@[caller_id],
            ),
            !old(self)@.contains_key(caller_id) ==> outcome == Err::<S, DispatchError>(
                DispatchError::UnknownCaller { caller_id },
            ),
    {
        match self.senders.remove(&caller_id) {
            Some(reply_sender) => Ok(reply_sender),
            None => Err(DispatchError::UnknownCaller { caller_id }),
        }
    }

    /// Whether the caller has an entry.
    pub fn contains(&self, caller_id: i32) -> (found: bool)
        ensures
            found == self@.contains_key(caller_id),
    {
        self.senders.contains_key(&caller_id)
    }

    /// The number of callers that have an entry. There are finitely many.
    pub fn len(&self) -> (count: usize)
        ensures
            self@.dom().finite(),
            count == self@.len(),
    {
        self.senders.len()
    }

    /// Whether no caller has an entry.
    pub fn is_empty(&self) -> (empty: bool)
        ensures
            empty == self@.is_empty(),
    {
        self.senders.is_empty()
    }
}

} // verus!
