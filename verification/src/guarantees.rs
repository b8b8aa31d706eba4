//! What holds of every run of the dispatcher, proved from the definitions of
//! the loop, the compute task and the completion.

use crate::caller::faithful;
use crate::dispatch::callers_seen;
use crate::dispatch::next_action;
use crate::dispatch::next_pending;
use crate::dispatch::next_state;
use crate::dispatch::pending_after;
use crate::dispatch::trace;
use crate::dispatch::Action;
use crate::dispatch::LoopState;
use crate::error::DispatchError;
use crate::reply::reply_of;
use crate::work_item::task_run;
use crate::work_item::WorkItem;
use vstd::prelude::*;

verus! {

/// The item that an action hands to the worker pool, if it hands one.
pub open spec fn submitted_item<S>(action: Action<S>) -> Option<WorkItem> {
    match action {
        Action::Submit { item, .. } => Some(item),
        _ => None,
    }
}

/// [`submitted_item`] as a function value.
pub open spec fn submitted_item_fn<S>() -> spec_fn(Action<S>) -> Option<WorkItem> {
    |action: Action<S>| submitted_item(action)
}

/// The items that a sequence of actions hands to the worker pool, in the
/// order in which it hands them.
pub open spec fn submissions<S>(actions: Seq<Action<S>>) -> Seq<WorkItem> {
    actions.filter_map(submitted_item_fn())
}

/// Where an action leads when the task it submits succeeds: the destination
/// that the reply is sent on, and the reply. An action that submits nothing
/// leads to no reply.
pub open spec fn answer<S>(action: Action<S>) -> Option<(S, WorkItem)> {
    match action {
        Action::Submit { item, reply_to } => match reply_of(Ok(task_run(item).output)) {
            Ok(reply) => Some((reply_to, reply)),
            Err(_) => None,
        },
        _ => None,
    }
}

/// No item is lost on the way through the loop: each gets one action, at
/// its own place in the order of arrival, and that action either submits or
/// rejects this very item.
pub proof fn lemma_every_item_accounted<S>(clients: Map<i32, S>, inbound: Seq<WorkItem>)
    ensures
        trace(clients, inbound).len() == inbound.len(),
        forall|i: int|
            0 <= i < inbound.len() ==> match #[trigger] trace(clients, inbound)[i] {
                Action::Submit { item, .. } => item == inbound[i],
                Action::Reject { item, .. } => item == inbound[i],
                Action::Terminate => false,
            },
{
}

/// The callers of a session are fixed when the loop starts: whatever is
/// received, the pending entries are entries that were there at the start,
/// with the destinations they had then.
pub proof fn lemma_no_caller_joins<S>(clients: Map<i32, S>, inbound: Seq<WorkItem>, n: int)
    ensures
        pending_after(clients, inbound, n).dom().subset_of(clients.dom()),
        forall|id: i32| #[trigger]
            pending_after(clients, inbound, n).contains_key(id) ==> pending_after(
                clients,
                inbound,
                n,
            )[id] == clients[id],
{
}

/// Whether item `i` of `inbound` names a caller that is registered in
/// `clients` and that no earlier item names.
pub open spec fn first_request_of_client<S>(
    clients: Map<i32, S>,
    inbound: Seq<WorkItem>,
    i: int,
) -> bool {
    &&& 0 <= i < inbound.len()
    &&& clients.contains_key(inbound[i].caller_id())
    &&& forall|k: int| 0 <= k < i ==> (#[trigger] inbound[k]).caller_id() != inbound[i].caller_id()
}

/// The first request of a registered caller is submitted with that caller's
/// own destination, whatever else is on the queue. Its task keeps a worker
/// busy for as many seconds as the payload says, and the reply that is sent
/// back is the very item that the caller sent: the one reply that the caller
/// judges faithful, once that many seconds have passed.
pub proof fn lemma_reply_is_the_request<S>(clients: Map<i32, S>, inbound: Seq<WorkItem>, i: int)
    requires
        first_request_of_client(clients, inbound, i),
    ensures
        trace(clients, inbound)[i] == (Action::Submit {
            item: inbound[i],
            reply_to: clients[inbound[i].caller_id()],
        }),
        task_run(inbound[i]).busy_secs == inbound[i].payload(),
        answer(trace(clients, inbound)[i]) == Some((clients[inbound[i].caller_id()], inbound[i])),
        forall|reply: WorkItem, elapsed_secs: u64|
            faithful(inbound[i].caller_id(), inbound[i].payload(), reply, elapsed_secs) <==> (reply
                == inbound[i] && elapsed_secs >= inbound[i].payload()),
{
    let id = inbound[i].caller_id();
    assert forall|reply: WorkItem, elapsed_secs: u64|
        faithful(id, inbound[i].payload(), reply, elapsed_secs) implies reply == inbound[i] by {
        WorkItem::lemma_equal_by_fields(reply, inbound[i]);
    }
    if callers_seen(inbound, i).contains(id) {
        let k = choose|k: int|
            0 <= k < i && k < inbound.len() && (#[trigger] inbound[k]).caller_id() == id;
        assert(false);
    }
    assert(pending_after(clients, inbound, i).contains_key(id));
    assert(pending_after(clients, inbound, i)[id] == clients[id]);
}

/// When every item comes from a registered caller and no two come from the
/// same one, every item is submitted, each reply goes to the destination of
/// the caller that sent the item and carries that item, and no entry of
/// these callers is left.
pub proof fn lemma_one_request_each<S>(clients: Map<i32, S>, inbound: Seq<WorkItem>)
    requires
        forall|i: int|
            0 <= i < inbound.len() ==> clients.contains_key((#[trigger] inbound[i]).caller_id()),
        forall|i: int, j: int|
            0 <= i < j < inbound.len() ==> (#[trigger] inbound[i]).caller_id() != (
            #[trigger] inbound[j]).caller_id(),
    ensures
        trace(clients, inbound).len() == inbound.len(),
        forall|i: int|
            0 <= i < inbound.len() ==> #[trigger] trace(clients, inbound)[i] == (Action::Submit {
                item: inbound[i],
                reply_to: clients[inbound[i].caller_id()],
            }),
        forall|i: int|
            0 <= i < inbound.len() ==> answer(#[trigger] trace(clients, inbound)[i]) == Some(
                (clients[inbound[i].caller_id()], inbound[i]),
            ),
        forall|i: int|
            0 <= i < inbound.len() ==> !pending_after(
                clients,
                inbound,
                inbound.len() as int,
            ).contains_key((#[trigger] inbound[i]).caller_id()),
        submissions(trace(clients, inbound)) == inbound,
{
    let actions = trace(clients, inbound);
    assert forall|i: int| 0 <= i < inbound.len() implies #[trigger] actions[i] == (Action::Submit {
        item: inbound[i],
        reply_to: clients[inbound[i].caller_id()],
    }) && answer(actions[i]) == Some((clients[inbound[i].caller_id()], inbound[i])) by {
        assert(first_request_of_client(clients, inbound, i));
        lemma_reply_is_the_request(clients, inbound, i);
    }
    assert forall|i: int| 0 <= i < inbound.len() implies !pending_after(
        clients,
        inbound,
        inbound.len() as int,
    ).contains_key((#[trigger] inbound[i]).caller_id()) by {
        assert(callers_seen(inbound, inbound.len() as int).contains(inbound[i].caller_id()));
    }
    lemma_all_submitted(actions, inbound, inbound.len() as int);
    assert(actions.take(inbound.len() as int) =~= actions);
    assert(inbound.take(inbound.len() as int) =~= inbound);
}

/// A prefix of actions that submits every item hands exactly these items to
/// the pool.
proof fn lemma_all_submitted<S>(actions: Seq<Action<S>>, items: Seq<WorkItem>, n: int)
    requires
        actions.len() == items.len(),
        0 <= n <= actions.len(),
        forall|i: int| 0 <= i < n ==> submitted_item(#[trigger] actions[i]) == Some(items[i]),
    ensures
        submissions(actions.take(n)) == items.take(n),
    decreases n,
{
    if n == 0 {
        assert(actions.take(0).len() == 0);
        assert(submissions(actions.take(0)) =~= items.take(0));
    } else {
        lemma_all_submitted(actions, items, n - 1);
        actions.lemma_filter_map_take_succ(submitted_item_fn(), n - 1);
        assert(submitted_item_fn::<S>()(actions[n - 1]) == submitted_item(actions[n - 1]));
        assert(items.take(n) =~= items.take(n - 1) + seq![items[n - 1]]);
    }
}

/// The submissions of a prefix of actions open the submissions of every
/// longer prefix.
proof fn lemma_submissions_grow<S>(actions: Seq<Action<S>>, n: int, m: int)
    requires
        0 <= n <= m <= actions.len(),
    ensures
        submissions(actions.take(n)).len() <= submissions(actions.take(m)).len(),
        forall|k: int|
            0 <= k < submissions(actions.take(n)).len() ==> submissions(actions.take(m))[k]
                == submissions(actions.take(n))[k],
    decreases m - n,
{
    if n < m {
        lemma_submissions_grow(actions, n, m - 1);
        actions.lemma_filter_map_take_succ(submitted_item_fn(), m - 1);
    }
}

/// Tasks reach the worker pool in the order in which their items arrived: of
/// two submitted items, the one received first is handed to the pool first.
pub proof fn lemma_dispatch_order<S>(clients: Map<i32, S>, inbound: Seq<WorkItem>, i: int, j: int)
    requires
        0 <= i < j < inbound.len(),
        trace(clients, inbound)[i] is Submit,
        trace(clients, inbound)[j] is Submit,
    ensures
        exists|p: int, q: int|
            0 <= p < q < submissions(trace(clients, inbound)).len() && #[trigger] submissions(
                trace(clients, inbound),
            )[p] == inbound[i] && #[trigger] submissions(trace(clients, inbound))[q] == inbound[j],
{
    let actions = trace(clients, inbound);
    let all = submissions(actions);
    let len = actions.len() as int;
    let p = submissions(actions.take(i)).len() as int;
    let q = submissions(actions.take(j)).len() as int;
    assert(actions.take(len) =~= actions);
    assert(submitted_item_fn::<S>()(actions[i]) == Some(inbound[i]));
    assert(submitted_item_fn::<S>()(actions[j]) == Some(inbound[j]));
    actions.lemma_filter_map_take_succ(submitted_item_fn(), i);
    actions.lemma_filter_map_take_succ(submitted_item_fn(), j);
    lemma_submissions_grow(actions, i + 1, j);
    lemma_submissions_grow(actions, i + 1, len);
    lemma_submissions_grow(actions, j + 1, len);
    assert(submissions(actions.take(i + 1))[p] == inbound[i]);
    assert(submissions(actions.take(j + 1))[q] == inbound[j]);
    assert(all[p] == inbound[i]);
    assert(all[q] == inbound[j]);
    assert(p < q < all.len());
}

/// A caller whose entry was consumed is unknown from then on: a later item
/// of the same caller is rejected and leads to no reply.
pub proof fn lemma_second_request_rejected<S>(
    clients: Map<i32, S>,
    inbound: Seq<WorkItem>,
    i: int,
    j: int,
)
    requires
        0 <= i < j < inbound.len(),
        inbound[i].caller_id() == inbound[j].caller_id(),
    ensures
        trace(clients, inbound)[j] == (Action::<S>::Reject {
            item: inbound[j],
            error: DispatchError::UnknownCaller { caller_id: inbound[j].caller_id() },
        }),
        answer(trace(clients, inbound)[j]) is None,
{
    assert(callers_seen(inbound, j).contains(inbound[i].caller_id()));
}

/// A repeated request changes nothing for anyone else: the actions for the
/// other items, and the entries left at the end, are what they would be had
/// the repeated request never been sent.
pub proof fn lemma_repeat_leaves_others<S>(
    clients: Map<i32, S>,
    inbound: Seq<WorkItem>,
    i: int,
    j: int,
)
    requires
        0 <= i < j < inbound.len(),
        inbound[i].caller_id() == inbound[j].caller_id(),
    ensures
        trace(clients, inbound.remove(j)) == trace(clients, inbound).remove(j),
        pending_after(clients, inbound.remove(j), inbound.len() - 1) == pending_after(
            clients,
            inbound,
            inbound.len() as int,
        ),
{
    let without = inbound.remove(j);
    inbound.remove_ensures(j);
    assert forall|k: int| 0 <= k <= without.len() implies callers_seen(without, k)
        == callers_seen(inbound, if k <= j { k } else { k + 1 }) by {
        let n = if k <= j { k } else { k + 1 };
        assert forall|c: i32| callers_seen(without, k).contains(c) <==> callers_seen(
            inbound,
            n,
        ).contains(c) by {
            if callers_seen(without, k).contains(c) {
                let m = choose|m: int|
                    0 <= m < k && m < without.len() && (#[trigger] without[m]).caller_id() == c;
                if m < j {
                    assert(inbound[m].caller_id() == c);
                } else {
                    assert(inbound[m + 1].caller_id() == c);
                }
            }
            if callers_seen(inbound, n).contains(c) {
                let m = choose|m: int|
                    0 <= m < n && m < inbound.len() && (#[trigger] inbound[m]).caller_id() == c;
                if m < j {
                    assert(without[m].caller_id() == c);
                } else if m == j {
                    assert(without[i].caller_id() == c);
                } else {
                    assert(without[m - 1].caller_id() == c);
                }
            }
        }
        assert(callers_seen(without, k) =~= callers_seen(inbound, n));
    }
    assert(trace(clients, without) =~= trace(clients, inbound).remove(j));
}

/// One step consumes the entry of the item's caller only: the same caller
/// is refused next, and the step for any other caller is what it would have
/// been without the first.
pub proof fn lemma_step_consumes_one<S>(pending: Map<i32, S>, first: WorkItem, next: WorkItem)
    ensures
        next.caller_id() == first.caller_id() ==> next_action(
            next_pending(pending, Some(first)),
            Some(next),
        ) == (Action::<S>::Reject {
            item: next,
            error: DispatchError::UnknownCaller { caller_id: next.caller_id() },
        }),
        next.caller_id() != first.caller_id() ==> next_action(
            next_pending(pending, Some(first)),
            Some(next),
        ) == next_action(pending, Some(next)),
        next_pending(pending, Some(first)).dom().subset_of(pending.dom()),
{
}

/// Closing the queue ends the loop and leaves things as they are: the loop
/// terminates whatever is pending, no entry is consumed, and a queue that
/// was closed before it yielded an item leads to no submission, so that no
/// reply is owed to anyone.
pub proof fn lemma_shutdown<S>(pending: Map<i32, S>)
    ensures
        next_action(pending, None) == Action::<S>::Terminate,
        next_pending(pending, None) == pending,
        next_state(pending, None) == LoopState::Terminated,
        trace(pending, Seq::<WorkItem>::empty()) == Seq::<Action<S>>::empty(),
        submissions(trace(pending, Seq::<WorkItem>::empty()).push(Action::Terminate)).len() == 0,
        pending_after(pending, Seq::<WorkItem>::empty(), 0) == pending,
{
    let closed = trace(pending, Seq::<WorkItem>::empty()).push(Action::Terminate);
    assert(trace(pending, Seq::<WorkItem>::empty()) =~= Seq::<Action<S>>::empty());
    assert(closed =~= seq![Action::<S>::Terminate]);
    Seq::lemma_filter_map_singleton(Action::<S>::Terminate, submitted_item_fn());
    assert(pending_after(pending, Seq::<WorkItem>::empty(), 0) =~= pending);
}

} // verus!
