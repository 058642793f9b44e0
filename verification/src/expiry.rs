//! Periodic purge of expired outbox and inbox rows.
use vstd::prelude::*;

verus! {

/// Background task that purges expired outbox/inbox entries from `store`
/// every `interval_secs` seconds.
pub struct ExpiryScheduler<S> {
    pub store: S,
    pub interval_secs: u64,
}

impl<S> ExpiryScheduler<S> {
    pub fn new(store: S, interval_secs: u64) -> (r: Self)
        ensures
            r.store == store,
            r.interval_secs == interval_secs,
    {
        ExpiryScheduler { store, interval_secs }
    }
}

} // verus!
