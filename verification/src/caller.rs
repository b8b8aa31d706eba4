//! The caller's side of an exchange: making a request, timing the wait for
//! the reply, and judging the reply.

use crate::work_item::WorkItem;
use rand::Rng;
use rand::ThreadRng;
use std::time::Duration;
use std::time::Instant;
use vstd::prelude::*;

verus! {

/// A caller waits less than this many seconds before it sends.
pub const START_DELAY_LIMIT_SECS: u64 = 5;

/// The least payload that a caller asks for.
pub const PAYLOAD_MIN: u64 = 1;

/// Every payload that a caller asks for is below this.
pub const PAYLOAD_LIMIT: u64 = 10;

/// The thread-local generator of the `rand` crate.
#[verifier::external_type_specification]
#[verifier::external_body]
pub struct ExThreadRng(rand::ThreadRng);

/// A point in time of the monotonic clock.
#[verifier::external_type_specification]
#[verifier::external_body]
pub struct ExInstant(std::time::Instant);

/// `rand::thread_rng` hands out the calling thread's generator.
pub assume_specification[ rand::thread_rng ]() -> (rng: ThreadRng)
;

/// `std::time::Instant::now` reads the clock.
pub assume_specification[ Instant::now ]() -> (now: Instant)
;

/// `std::time::Instant::elapsed` gives the time that has passed since the
/// instant was taken.
pub assume_specification[ Instant::elapsed ](start: &Instant) -> (elapsed: Duration)
;

/// `rand::Rng::gen_range` draws a value that is at least `low` and below
/// `high`. It panics unless `low < high`. Which value comes is up to the
/// generator.
#[verifier::external_body]
fn gen_range(rng: &mut ThreadRng, low: u64, high: u64) -> (drawn: u64)
    requires
        low < high,
    ensures
        low <= drawn < high,
{
    rng.gen_range(low, high)
}

/// What a caller does before it waits for its reply.
#[derive(Debug, PartialEq, Eq, Structural)]
pub struct Opening {
    /// Whole seconds that the caller lets pass before it sends.
    pub start_delay_secs: u64,
    /// The one request that the caller sends.
    pub request: WorkItem,
}

/// Whether an opening is one that caller `caller_id` may make: the delay is
/// below `START_DELAY_LIMIT_SECS`, the request carries the caller's own id,
/// and its payload lies from `PAYLOAD_MIN` up to, and not including,
/// `PAYLOAD_LIMIT`.
pub open spec fn opening_of(caller_id: i32, opening: Opening) -> bool {
    &&& opening.start_delay_secs < START_DELAY_LIMIT_SECS
    &&& opening.request.caller_id() == caller_id
    &&& PAYLOAD_MIN <= opening.request.payload() < PAYLOAD_LIMIT
}

/// Puts an opening together from a delay and a payload that were drawn.
pub fn opening_with(caller_id: i32, start_delay_secs: u64, payload: u64) -> (opening: Opening)
    ensures
        opening.start_delay_secs == start_delay_secs,
        opening.request.caller_id() == caller_id,
        opening.request.payload() == payload,
{
    Opening { start_delay_secs, request: WorkItem::new(caller_id, payload) }
}

/// Draws the opening of caller `caller_id` from the thread's random number
/// generator: first the delay, then the payload.
pub fn prepare_request(caller_id: i32) -> (opening: Opening)
    ensures
        opening_of(caller_id, opening),
{
    let mut rng = rand::thread_rng();
    let start_delay_secs: u64 = gen_range(&mut rng, 0, START_DELAY_LIMIT_SECS);
    let payload: u64 = gen_range(&mut rng, PAYLOAD_MIN, PAYLOAD_LIMIT);
    opening_with(caller_id, start_delay_secs, payload)
}

/// Whether a reply is the answer to the request that a caller sent: it is
/// the very item, and it came no sooner than the work takes.
pub open spec fn faithful(
    caller_id: i32,
    sent_payload: u64,
    reply: WorkItem,
    elapsed_secs: u64,
) -> bool {
    &&& reply.caller_id() == caller_id
    &&& reply.payload() == sent_payload
    &&& elapsed_secs >= sent_payload
}

/// Judges the reply that caller `caller_id` received `elapsed_secs` whole
/// seconds after it sent a request with `sent_payload`.
pub fn reply_is_faithful(
    caller_id: i32,
    sent_payload: u64,
    reply: &WorkItem,
    elapsed_secs: u64,
) -> (ok: bool)
    ensures
        ok == faithful(caller_id, sent_payload, *reply, elapsed_secs),
{
    reply.caller_id() == caller_id && reply.payload() == sent_payload && elapsed_secs
        >= sent_payload
}

/// Runs `closure` once and returns what it yields together with the time
/// that the call took.
pub fn stopwatch<F: Fn() -> WorkItem>(closure: F) -> (timed: (WorkItem, Duration))
    requires
        closure.requires(()),
    ensures
        closure.ensures((), timed.0),
{
    let start = Instant::now();
    let data = closure();
    let elapsed = start.elapsed();
    (data, elapsed)
}

} // verus!
