//! The unit of work that flows from a caller, through the dispatch loop and a
//! worker, back to the caller.

use vstd::prelude::*;

verus! {

/// A tagged request: who sent it, and how much work it asks for.
///
/// The payload doubles as the number of seconds a worker is kept busy by the
/// item. An item is never changed after it is made and is handed on by move,
/// so it has one owner at any time. Two items are equal when both fields are.
#[derive(Debug, PartialEq, Eq, Structural)]
pub struct WorkItem {
    caller_id: i32,
    payload: u64,
}

/// What running the compute task for one item amounts to.
#[derive(Debug, PartialEq, Eq, Structural)]
pub struct TaskRun {
    /// Whole seconds for which the task occupies its worker.
    pub busy_secs: u64,
    /// The item that the task yields when it is done.
    pub output: WorkItem,
}

impl WorkItem {
    /// The caller that submitted the item.
    pub closed spec fn spec_caller_id(&self) -> i32 {
        self.caller_id
    }

    /// The magnitude of the work asked for.
    pub closed spec fn spec_payload(&self) -> u64 {
        self.payload
    }

    /// The item of caller `caller_id` that asks for `payload`.
    pub fn new(caller_id: i32, payload: u64) -> (item: WorkItem)
        ensures
            item.caller_id() == caller_id,
            item.payload() == payload,
    {
        WorkItem { caller_id, payload }
    }

    /// The caller that submitted the item.
    #[verifier::when_used_as_spec(spec_caller_id)]
    pub fn caller_id(&self) -> (id: i32)
        ensures
            id == self.caller_id(),
    {
        self.caller_id
    }

    /// The magnitude of the work asked for.
    #[verifier::when_used_as_spec(spec_payload)]
    pub fn payload(&self) -> (payload: u64)
        ensures
            payload == self.payload(),
    {
        self.payload
    }

    /// An item is determined by its two fields.
    pub proof fn lemma_equal_by_fields(a: WorkItem, b: WorkItem)
        requires
            a.caller_id() == b.caller_id(),
            a.payload() == b.payload(),
        ensures
            a == b,
    {
    }
}

/// The run of the compute task for `request`: it keeps a worker busy for as
/// many seconds as the payload says and yields the request unchanged.
pub open spec fn task_run(request: WorkItem) -> TaskRun {
    TaskRun { busy_secs: request.payload(), output: request }
}

/// The compute task for `request`.
///
/// The blocking itself is done by whoever runs the task; this function fixes
/// for how long, and what comes out.
pub fn compute_task(request: WorkItem) -> (run: TaskRun)
    ensures
        run == task_run(request),
{
    TaskRun { busy_secs: request.payload(), output: request }
}

} // verus!
