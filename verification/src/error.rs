//! The failures that the dispatcher distinguishes, and what is done about each.

use vstd::prelude::*;

verus! {

/// A failure of one registration or of the handling of one item.
///
/// That the inbound queue was closed is no failure: it ends the loop, and is
/// an action of the loop, not an error.
#[derive(Clone, Copy, Debug, PartialEq, Eq, Structural)]
pub enum DispatchError {
    /// An item names a caller with no registry entry: never registered, or
    /// already consumed by an earlier item. The two cannot be told apart.
    UnknownCaller { caller_id: i32 },
    /// A caller was registered twice.
    DuplicateCaller { caller_id: i32 },
    /// The compute task failed, so there is nothing to reply with.
    WorkerTaskFailure,
    /// The receiving end of the reply channel is gone.
    ReplyDeliveryFailure,
}

/// How a failure is dealt with.
#[derive(Clone, Copy, Debug, PartialEq, Eq, Structural)]
pub enum Recovery {
    /// The process must not start.
    AbortStartup,
    /// The item, or its reply, is dropped and the failure is logged.
    DropAndLog,
    /// The reply is dropped without a trace: the caller has gone away.
    DropSilently,
}

impl DispatchError {
    /// The policy for this failure.
    ///
    /// Only a duplicate registration is fatal, and only at startup. Every
    /// other failure is confined to the item it concerns.
    pub open spec fn spec_recovery(&self) -> Recovery {
        match *self {
            DispatchError::DuplicateCaller { .. } => Recovery::AbortStartup,
            DispatchError::UnknownCaller { .. } => Recovery::DropAndLog,
            DispatchError::WorkerTaskFailure => Recovery::DropAndLog,
            DispatchError::ReplyDeliveryFailure => Recovery::DropSilently,
        }
    }

    #[verifier::when_used_as_spec(spec_recovery)]
    pub fn recovery(&self) -> (policy: Recovery)
        ensures
            policy == self.recovery(),
    {
        match *self {
            DispatchError::DuplicateCaller { .. } => Recovery::AbortStartup,
            DispatchError::UnknownCaller { .. } => Recovery::DropAndLog,
            DispatchError::WorkerTaskFailure => Recovery::DropAndLog,
            DispatchError::ReplyDeliveryFailure => Recovery::DropSilently,
        }
    }
}

} // verus!
