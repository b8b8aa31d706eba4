//! The completion side: what is sent back when a task is done, and what
//! becomes of a reply that cannot be delivered.
//!
//! A completion runs apart from the dispatch loop. It touches the one reply
//! destination that was resolved for its item and nothing else.

use crate::error::DispatchError;
use crate::work_item::WorkItem;
use std::sync::mpsc::SendError;
use std::sync::mpsc::Sender;
use vstd::prelude::*;

verus! {

/// The send end of a channel of the standard library. Nothing is known of
/// what is inside.
#[verifier::external_type_specification]
#[verifier::external_body]
#[verifier::reject_recursive_types(T)]
pub struct ExSender<T>(std::sync::mpsc::Sender<T>);

/// The error of a send that found no receiver. It is only ever told apart
/// from success.
#[verifier::external_type_specification]
#[verifier::external_body]
#[verifier::reject_recursive_types(T)]
pub struct ExSendError<T>(std::sync::mpsc::SendError<T>);

/// `std::sync::mpsc::Sender::send` puts a value on the channel without ever
/// blocking, and fails when the receiver is gone. Which of the two happens
/// depends on the receiver, so nothing is claimed of the result.
pub assume_specification<T>[ Sender::<T>::send ](sender: &Sender<T>, value: T) -> (sent: Result<
    (),
    SendError<T>,
>)
;

/// What a completion replies with: the item that a successful task yielded.
/// A failed task leaves nothing to send.
pub open spec fn reply_of(outcome: Result<WorkItem, ()>) -> Result<WorkItem, DispatchError> {
    match outcome {
        Ok(item) => Ok(item),
        Err(_) => Err(DispatchError::WorkerTaskFailure),
    }
}

/// How a send attempt is accounted for.
pub open spec fn status_of<T>(sent: Result<(), SendError<T>>) -> Result<(), DispatchError> {
    match sent {
        Ok(_) => Ok(()),
        Err(_) => Err(DispatchError::ReplyDeliveryFailure),
    }
}

/// Decides what to reply with, given how the task ended.
pub fn reply_for(outcome: Result<WorkItem, ()>) -> (reply: Result<WorkItem, DispatchError>)
    ensures
        reply == reply_of(outcome),
{
    match outcome {
        Ok(item) => Ok(item),
        Err(_) => Err(DispatchError::WorkerTaskFailure),
    }
}

/// Accounts for a send attempt: a reply whose receiver is gone is a delivery
/// failure, and the undelivered item is dropped.
pub fn delivery_status<T>(sent: Result<(), SendError<T>>) -> (status: Result<(), DispatchError>)
    ensures
        status == status_of(sent),
{
    match sent {
        Ok(_) => Ok(()),
        Err(_) => Err(DispatchError::ReplyDeliveryFailure),
    }
}

/// The whole completion for one task: sends the item of a successful task on
/// `reply_to`, once, and reports what happened.
///
/// A failed task sends nothing and is reported as such. For a successful one
/// the receiver decides: the reply is delivered, or the receiver is gone.
pub fn deliver(reply_to: &Sender<WorkItem>, outcome: Result<WorkItem, ()>) -> (status: Result<
    (),
    DispatchError,
>)
    ensures
        outcome is Err ==> status == Err::<(), DispatchError>(DispatchError::WorkerTaskFailure),
        outcome is Ok ==> status == Ok::<(), DispatchError>(()) || status == Err::<
            (),
            DispatchError,
        >(DispatchError::ReplyDeliveryFailure),
{
    match reply_for(outcome) {
        Ok(item) => delivery_status(reply_to.send(item)),
        Err(error) => Err(error),
    }
}

} // verus!
