//! Counts behind a lock, which several holders share.
use crate::application::metrics::MetricsSnapshot;
use std::sync::Arc;
use vstd::prelude::*;
use vstd::rwlock::{RwLock, RwLockPredicate};

verus! {

/// Any counts may be shared.
pub struct AnyCounts;

impl RwLockPredicate<MetricsSnapshot> for AnyCounts {
    open spec fn inv(self, counts: MetricsSnapshot) -> bool {
        true
    }
}

/// Counts behind a lock. Clones share them.
pub struct SharedCounts {
    lock: Arc<RwLock<MetricsSnapshot, AnyCounts>>,
}

impl Clone for SharedCounts {
    /// One more holder of the same counts.
    fn clone(&self) -> (r: Self)
        ensures
            r == *self,
    {
        SharedCounts { lock: self.lock.clone() }
    }
}

impl SharedCounts {
    /// Whether the counts may have been these at some time. They may have been any, but only of
    /// those that were read or written is that known.
    pub closed spec fn held(&self, counts: MetricsSnapshot) -> bool {
        true
    }

    /// Counts that nobody shares yet.
    pub fn new(counts: MetricsSnapshot) -> (r: Self)
        ensures
            r.held(counts),
    {
        SharedCounts { lock: Arc::new(RwLock::new(counts, Ghost(AnyCounts))) }
    }

    /// The counts at this moment.
    pub fn read(&self) -> (counts: MetricsSnapshot)
        ensures
            self.held(counts),
    {
        let reader = self.lock.acquire_read();
        let counts: MetricsSnapshot = *reader.borrow();
        reader.release_read();
        counts
    }

    /// Puts others in the place of the counts, which nobody can change meanwhile.
    pub fn update<F: FnOnce(MetricsSnapshot) -> MetricsSnapshot>(&self, f: F)
        requires
            forall|counts: MetricsSnapshot| #[trigger] f.requires((counts,)),
        ensures
            exists|before: MetricsSnapshot, after: MetricsSnapshot|
                self.held(before) && self.held(after) && #[trigger] f.ensures((before,), after),
    {
        let (before, writer) = self.lock.acquire_write();
        let after: MetricsSnapshot = f(before);
        writer.release_write(after);
    }
}

} // verus!
