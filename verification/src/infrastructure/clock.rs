//! Clocks.
use crate::application::ports::Clock;
use crate::time::{Epoch, Instant};
use std::sync::Arc;
use vstd::prelude::*;

verus! {

/// The clock of the system. It counts from the moment it was made, and never runs backwards.
#[derive(Debug, Clone, Copy)]
pub struct SystemClock {
    epoch: Epoch,
}

impl SystemClock {
    /// A clock that starts now. Which moment that is depends on the machine alone, so nothing can
    /// be said of it.
    pub fn new() -> SystemClock {
        SystemClock { epoch: Epoch::start() }
    }
}

impl Default for SystemClock {
    fn default() -> SystemClock {
        SystemClock::new()
    }
}

impl Clock for SystemClock {
    /// What the clock of the machine shows, counted from the moment the clock was made.
    closed spec fn tells(&self, now: nat) -> bool {
        self.epoch.shows(now)
    }

    /// The time since the clock was made. How much that is depends on the machine alone.
    fn now(&self) -> (now: Instant) {
        self.epoch.now()
    }
}

/// A clock that is chosen at run time.
pub enum AnyClock {
    /// The clock of the system.
    System(SystemClock),
    /// A clock of the user's own.
    Custom(Arc<Box<dyn Clock>>),
}

impl Clone for AnyClock {
    fn clone(&self) -> (r: Self)
        ensures
            r == *self,
    {
        match self {
            AnyClock::System(c) => AnyClock::System(*c),
            AnyClock::Custom(c) => AnyClock::Custom(c.clone()),
        }
    }
}

impl Clock for AnyClock {
    /// What the chosen clock tells.
    open spec fn tells(&self, now: nat) -> bool {
        match self {
            AnyClock::System(c) => c.tells(now),
            AnyClock::Custom(c) => c.tells(now),
        }
    }

    fn now(&self) -> (now: Instant) {
        match self {
            AnyClock::System(c) => c.now(),
            AnyClock::Custom(c) => c.now(),
        }
    }
}

} // verus!
