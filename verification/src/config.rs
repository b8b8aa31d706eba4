//! The two settings of a session. Nothing else is tunable.

use vstd::prelude::*;

verus! {

/// The number of workers of a session that asks for no other.
pub const DEFAULT_POOL_SIZE: usize = 4;

/// How many workers run tasks side by side, and how many items the inbound
/// queue holds before a sending caller has to wait.
///
/// A pool has at least one worker: with none, no task would ever finish.
#[derive(Clone, Copy, Debug, PartialEq, Eq, Structural)]
pub struct Settings {
    pool_size: usize,
    inbound_capacity: usize,
}

impl Settings {
    /// The number of workers.
    pub closed spec fn spec_pool_size(&self) -> usize {
        self.pool_size
    }

    /// The capacity of the inbound queue.
    pub closed spec fn spec_inbound_capacity(&self) -> usize {
        self.inbound_capacity
    }

    /// Every value of the type has a worker.
    #[verifier::type_invariant]
    closed spec fn has_a_worker(&self) -> bool {
        self.pool_size >= 1
    }

    /// The settings with the given values, unless the pool would be empty.
    pub fn new(pool_size: usize, inbound_capacity: usize) -> (settings: Option<Settings>)
        ensures
            pool_size == 0 ==> settings is None,
            pool_size >= 1 ==> {
                &&& settings matches Some(made)
                &&& made.pool_size() == pool_size
                &&& made.inbound_capacity() == inbound_capacity
            },
    {
        if pool_size == 0 {
            None
        } else {
            Some(Settings { pool_size, inbound_capacity })
        }
    }

    /// The settings for a session of `callers` callers: the default pool, and
    /// an inbound queue with one place for each caller.
    pub fn for_callers(callers: usize) -> (settings: Settings)
        ensures
            settings.pool_size() == DEFAULT_POOL_SIZE,
            settings.inbound_capacity() == callers,
    {
        Settings { pool_size: DEFAULT_POOL_SIZE, inbound_capacity: callers }
    }

    /// The number of workers, which is never zero.
    #[verifier::when_used_as_spec(spec_pool_size)]
    pub fn pool_size(&self) -> (size: usize)
        ensures
            size == self.pool_size(),
            size >= 1,
    {
        proof {
            use_type_invariant(self);
        }
        self.pool_size
    }

    /// The capacity of the inbound queue.
    #[verifier::when_used_as_spec(spec_inbound_capacity)]
    pub fn inbound_capacity(&self) -> (capacity: usize)
        ensures
            capacity == self.inbound_capacity(),
    {
        self.inbound_capacity
    }
}

} // verus!
