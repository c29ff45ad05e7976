//! Time as the runtime counts it: nanoseconds on a clock that only its owner
//! can move.

use vstd::prelude::*;

verus! {

/// A span of robot time in nanoseconds.
#[derive(Debug, Clone, Copy, PartialEq, Eq, Structural)]
pub struct CuDuration(pub u64);

/// A point in robot time: the nanoseconds since the clock started.
pub type CuTime = CuDuration;

impl CuDuration {
    /// The span from `earlier` to this point in time.
    pub fn elapsed_since(self, earlier: CuTime) -> (r: CuDuration)
        requires
            earlier.0 <= self.0,
        ensures
            r.0 == self.0 - earlier.0,
    {
        CuDuration(self.0 - earlier.0)
    }

    /// The span in nanoseconds.
    pub fn as_nanos(self) -> (r: u64)
        ensures
            r == self.0,
    {
        self.0
    }
}

/// A clock for tests: it shows the time that it was set to, and moves only
/// when it is told to.
#[derive(Debug)]
pub struct RobotClockMock {
    nanos: u64,
}

impl View for RobotClockMock {
    type V = int;

    closed spec fn view(&self) -> int {
        self.nanos as int
    }
}

impl RobotClockMock {
    /// A clock that shows the time zero.
    pub fn new() -> (r: Self)
        ensures
            r@ == 0,
    {
        RobotClockMock { nanos: 0 }
    }

    /// The time that the clock shows.
    pub fn now(&self) -> (t: CuTime)
        ensures
            t.0 == self@,
    {
        CuDuration(self.nanos)
    }

    /// Sets the clock to the time `t`.
    pub fn set(&mut self, t: CuTime)
        ensures
            final(self)@ == t.0,
    {
        self.nanos = t.0;
    }

    /// Moves the clock forward by `d`.
    pub fn increment(&mut self, d: CuDuration)
        requires
            old(self)@ + d.0 <= u64::MAX,
        ensures
            final(self)@ == old(self)@ + d.0,
    {
        self.nanos = self.nanos + d.0;
    }
}

} // verus!
