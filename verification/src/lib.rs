//! A request/response dispatcher core.
//!
//! Callers submit tagged work items on one inbound queue. A single dispatch
//! loop resolves, for each item, the reply destination registered for its
//! caller, hands the item to a worker pool, and routes the finished item back
//! to the caller that sent it. This crate holds the decisions of that loop
//! and the data they work on; running the reactor, the pool threads and the
//! channels is left to the program around it.

pub mod caller;
pub mod config;
pub mod dispatch;
pub mod error;
pub mod guarantees;
pub mod registry;
pub mod reply;
pub mod work_item;
