//! The clock seam. Every time comparison in the token pipeline routes
//! through this trait, never through a wall clock read of its own, so
//! that expiry behaviour is deterministic under test.

use vstd::prelude::*;

verus! {

/// Supplies the current instant as a Unix timestamp in seconds.
pub trait Time {
    /// Which readings this clock can produce in its current state.
    spec fn time_ok(&self, t: i64) -> bool;

    fn now(&self) -> (t: i64)
        ensures
            self.time_ok(t),
    ;
}

/// Relies on chrono::Utc::now for the wall-clock reading, in seconds
/// since the Unix epoch; nothing is assumed of the value.
#[verifier::external_body]
fn wall_clock_now() -> i64 {
    chrono::Utc::now().timestamp()
}

/// The process-wide wall clock.
#[derive(Clone, Copy, Debug)]
pub struct SystemTime;

impl Time for SystemTime {
    open spec fn time_ok(&self, t: i64) -> bool {
        true
    }

    fn now(&self) -> (t: i64)
        ensures
            self.time_ok(t),
    {
        wall_clock_now()
    }
}

/// A clock pinned to one instant, for deterministic tests.
#[derive(Clone, Copy, Debug)]
pub struct FixedTime {
    pub instant: i64,
}

impl Time for FixedTime {
    open spec fn time_ok(&self, t: i64) -> bool {
        t == self.instant
    }

    fn now(&self) -> (t: i64)
        ensures
            self.time_ok(t),
    {
        self.instant
    }
}

} // verus!
