//! The dispatch loop: one coordinator that takes items off the inbound queue
//! in order, resolves where each reply goes, and says what to do with the
//! item. It never waits for a task to finish.

use crate::error::DispatchError;
use crate::registry::ReplyRegistry;
use crate::work_item::WorkItem;
use vstd::prelude::*;

verus! {

/// Where the loop stands.
#[derive(Clone, Copy, Debug, PartialEq, Eq, Structural)]
pub enum LoopState {
    /// Waiting for the next inbound item.
    Idle,
    /// An item was received and its reply destination resolved; the task is
    /// being handed to the worker pool.
    Dispatching,
    /// The inbound queue was closed. Nothing follows.
    Terminated,
}

/// What the loop asks of the program that runs it.
#[derive(Debug, PartialEq, Eq)]
pub enum Action<S> {
    /// Hand `item` to the worker pool without waiting for it, and arrange
    /// that the finished item is sent on `reply_to`.
    Submit { item: WorkItem, reply_to: S },
    /// Drop `item`, which cannot be answered, and log `error`.
    Reject { item: WorkItem, error: DispatchError },
    /// Stop: no caller will ever send again.
    Terminate,
}

/// The callers named by the first `n` items of `inbound`.
pub open spec fn callers_seen(inbound: Seq<WorkItem>, n: int) -> Set<i32> {
    Set::new(
        |id: i32|
            exists|k: int|
                0 <= k < n && k < inbound.len() && (#[trigger] inbound[k]).caller_id() == id,
    )
}

/// The entries left of `clients` once the first `n` items of `inbound` have
/// been received: those of the callers that none of these items names.
pub open spec fn pending_after<S>(clients: Map<i32, S>, inbound: Seq<WorkItem>, n: int) -> Map<
    i32,
    S,
> {
    clients.remove_keys(callers_seen(inbound, n))
}

/// What becomes of `item` when `pending` holds the entries not yet consumed.
pub open spec fn action_for<S>(pending: Map<i32, S>, item: WorkItem) -> Action<S> {
    if pending.contains_key(item.caller_id()) {
        Action::Submit { item, reply_to: pending[item.caller_id()] }
    } else {
        Action::Reject {
            item,
            error: DispatchError::UnknownCaller { caller_id: item.caller_id() },
        }
    }
}

/// The action of an idle loop on what the inbound queue yields: an item, or
/// nothing because the queue is closed.
pub open spec fn next_action<S>(pending: Map<i32, S>, received: Option<WorkItem>) -> Action<S> {
    match received {
        Some(item) => action_for(pending, item),
        None => Action::Terminate,
    }
}

/// The entries left after that step. The entry of the item's caller is
/// consumed; a closed queue consumes nothing.
pub open spec fn next_pending<S>(pending: Map<i32, S>, received: Option<WorkItem>) -> Map<i32, S> {
    match received {
        Some(item) => pending.remove(item.caller_id()),
        None => pending,
    }
}

/// The state after that step.
pub open spec fn next_state<S>(pending: Map<i32, S>, received: Option<WorkItem>) -> LoopState {
    match received {
        Some(item) => if pending.contains_key(item.caller_id()) {
            LoopState::Dispatching
        } else {
            LoopState::Idle
        },
        None => LoopState::Terminated,
    }
}

/// The actions of a loop that starts with the entries `clients` and receives
/// the items of `inbound` one after the other: one action per item, in the
/// order of arrival.
pub open spec fn trace<S>(clients: Map<i32, S>, inbound: Seq<WorkItem>) -> Seq<Action<S>> {
    Seq::new(inbound.len(), |i: int| action_for(pending_after(clients, inbound, i), inbound[i]))
}

/// Receiving item `n` consumes the entry of its caller and no other.
pub proof fn lemma_pending_step<S>(clients: Map<i32, S>, inbound: Seq<WorkItem>, n: int)
    requires
        0 <= n < inbound.len(),
    ensures
        pending_after(clients, inbound, n + 1) == pending_after(clients, inbound, n).remove(
            inbound[n].caller_id(),
        ),
{
    let id = inbound[n].caller_id();
    assert forall|c: i32| callers_seen(inbound, n + 1).contains(c) <==> (callers_seen(
        inbound,
        n,
    ).contains(c) || c == id) by {
        if callers_seen(inbound, n + 1).contains(c) {
            let k = choose|k: int|
                0 <= k < n + 1 && k < inbound.len() && (#[trigger] inbound[k]).caller_id() == c;
            if k < n {
                assert(callers_seen(inbound, n).contains(c));
            }
        }
        if callers_seen(inbound, n).contains(c) {
            let k = choose|k: int|
                0 <= k < n && k < inbound.len() && (#[trigger] inbound[k]).caller_id() == c;
            assert(0 <= k < n + 1 && inbound[k].caller_id() == c);
        }
        if c == id {
            assert(0 <= n < n + 1 && inbound[n].caller_id() == c);
        }
    }
    assert(pending_after(clients, inbound, n + 1) =~= pending_after(clients, inbound, n).remove(
        id,
    ));
}

/// Before anything is received, every entry is pending.
pub proof fn lemma_pending_start<S>(clients: Map<i32, S>, inbound: Seq<WorkItem>)
    ensures
        pending_after(clients, inbound, 0) == clients,
{
    assert(pending_after(clients, inbound, 0) =~= clients);
}

/// The coordinator. It owns the registry: nothing else can add or take an
/// entry, and no caller can join once the loop exists.
pub struct DispatchLoop<S> {
    registry: ReplyRegistry<S>,
    state: LoopState,
}

impl<S> DispatchLoop<S> {
    /// The reply destinations that no item has consumed yet.
    pub closed spec fn pending(&self) -> Map<i32, S> {
        self.registry@
    }

    /// Where the loop stands.
    pub closed spec fn spec_state(&self) -> LoopState {
        self.state
    }

    /// An idle loop over the callers of `registry`.
    pub fn new(registry: ReplyRegistry<S>) -> (dispatcher: Self)
        ensures
            dispatcher.state() == LoopState::Idle,
            dispatcher.pending() == registry@,
    {
        DispatchLoop { registry, state: LoopState::Idle }
    }

    /// Where the loop stands.
    #[verifier::when_used_as_spec(spec_state)]
    pub fn state(&self) -> (state: LoopState)
        ensures
            state == self.state(),
    {
        self.state
    }

    /// Whether `caller_id` can still have a request answered.
    pub fn is_pending(&self, caller_id: i32) -> (found: bool)
        ensures
            found == self.pending().contains_key(caller_id),
    {
        self.registry.contains(caller_id)
    }

    /// The number of callers that can still have a request answered.
    pub fn pending_callers(&self) -> (count: usize)
        ensures
            self.pending().dom().finite(),
            count == self.pending().len(),
    {
        self.registry.len()
    }

    /// One step of an idle loop, on what the inbound queue yielded.
    ///
    /// An item of a caller with a pending entry consumes that entry and is to
    /// be submitted; the loop is then dispatching until
    /// [`DispatchLoop::submitted`] is called. An item of any other caller is
    /// to be rejected, and the loop stays idle: one item's failure touches no
    /// other. `None` stands for the closed queue and terminates the loop,
    /// leaving every pending entry where it is.
    pub fn receive(&mut self, received: Option<WorkItem>) -> (action: Action<S>)
        requires
            old(self).state() == LoopState::Idle,
        ensures
            action == next_action(old(self).pending(), received),
            final(self).pending() == next_pending(old(self).pending(), received),
            final(self).state() == next_state(old(self).pending(), received),
    {
        match received {
            Some(item) => {
                match self.registry.take(item.caller_id()) {
                    Ok(reply_to) => {
                        self.state = LoopState::Dispatching;
                        Action::Submit { item, reply_to }
                    },
                    Err(error) => {
                        assert(old(self).pending().remove(item.caller_id()) =~= old(
                            self,
                        ).pending());
                        Action::Reject { item, error }
                    },
                }
            },
            None => {
                self.state = LoopState::Terminated;
                Action::Terminate
            },
        }
    }

    /// Acknowledges that the task of the last `Submit` is with the worker
    /// pool. The loop is idle again and may receive the next item.
    pub fn submitted(&mut self)
        requires
            old(self).state() == LoopState::Dispatching,
        ensures
            final(self).state() == LoopState::Idle,
            final(self).pending() == old(self).pending(),
    {
        self.state = LoopState::Idle;
    }

    /// Runs an idle loop over a queue that yields the items of `inbound` and
    /// is then closed.
    ///
    /// Returns the actions in the order in which the loop takes them: one per
    /// item, then `Terminate`. Each `Submit` is acknowledged before the next
    /// item is received.
    pub fn run(&mut self, inbound: Vec<WorkItem>) -> (actions: Vec<Action<S>>)
        requires
            old(self).state() == LoopState::Idle,
        ensures
            actions@ == trace(old(self).pending(), inbound@).push(Action::Terminate),
            final(self).pending() == pending_after(
                old(self).pending(),
                inbound@,
                inbound@.len() as int,
            ),
            final(self).state() == LoopState::Terminated,
    {
        let ghost clients = self.pending();
        let ghost all = inbound@;
        let mut actions: Vec<Action<S>> = Vec::new();
        proof {
            lemma_pending_start(clients, all);
        }
        for item in iter: inbound
            invariant
                all == iter.seq(),
                self.state() == LoopState::Idle,
                self.pending() == pending_after(clients, all, iter.index() as int),
                actions@.len() == iter.index(),
                forall|k: int|
                    0 <= k < iter.index() ==> #[trigger] actions@[k] == action_for(
                        pending_after(clients, all, k),
                        all[k],
                    ),
        {
            proof {
                lemma_pending_step(clients, all, iter.index() as int);
            }
            let action = self.receive(Some(item));
            if self.state() == LoopState::Dispatching {
                self.submitted();
            }
            actions.push(action);
        }
        let last = self.receive(None);
        actions.push(last);
        assert(actions@ =~= trace(clients, all).push(Action::Terminate));
        actions
    }
}

} // verus!
