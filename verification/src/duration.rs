//! Wait durations, in milliseconds, and their conversion to ticks.

use vstd::prelude::*;

verus! {

/// How long a blocking call may wait, in milliseconds. Two values are
/// special: zero never waits and the largest value sets no deadline.
#[derive(Clone, Copy, Debug, PartialEq, Eq, Structural)]
pub struct Duration(u32);

impl Duration {
    /// The duration that sets no deadline.
    pub fn forever_wait() -> (d: Duration)
        ensures
            d == Duration::spec_forever(),
            d.millis() == u32::MAX,
            d.forever(),
    {
        Duration(u32::MAX)
    }

    /// The duration that does not wait at all.
    pub fn no_delay() -> (d: Duration)
        ensures
            d.millis() == 0,
    {
        Duration(0)
    }

    /// The duration in milliseconds.
    pub closed spec fn millis(self) -> nat {
        self.0 as nat
    }

    /// The duration that sets no deadline.
    pub closed spec fn spec_forever() -> Duration {
        Duration(u32::MAX)
    }

    /// Whether this is the duration that sets no deadline.
    pub open spec fn forever(self) -> bool {
        self.millis() == u32::MAX
    }

    /// The number of whole ticks of `period_us` microseconds that fit in the
    /// duration.
    pub open spec fn ticks(self, period_us: nat) -> nat {
        self.millis() * 1000 / period_us
    }

    /// A duration is at most the largest number of milliseconds.
    pub proof fn lemma_millis_fit(self)
        ensures
            self.millis() <= u32::MAX,
    {
    }

    /// A duration of `millis` milliseconds.
    pub fn from_millis(millis: u32) -> (d: Duration)
        ensures
            d.millis() == millis,
    {
        Duration(millis)
    }

    /// A duration of `micros` microseconds, rounded down to whole milliseconds.
    pub fn from_micros(micros: u32) -> (d: Duration)
        ensures
            d.millis() == micros / 1000,
    {
        Duration(micros / 1000)
    }

    /// A duration of `secs` seconds.
    pub fn from_secs(secs: u32) -> (d: Duration)
        requires
            secs * 1000 <= u32::MAX,
        ensures
            d.millis() == secs * 1000,
    {
        Duration(secs * 1000)
    }

    /// The duration in milliseconds.
    pub fn as_millis(&self) -> (millis: u32)
        ensures
            millis == self.millis(),
    {
        self.0
    }

    /// Whether the duration sets no deadline.
    pub fn is_forever(&self) -> (b: bool)
        ensures
            b == self.forever(),
    {
        self.0 == u32::MAX
    }

    /// The duration in ticks of `period_us` microseconds each, rounded down.
    pub fn as_ticks(&self, period_us: u32) -> (ticks: u64)
        requires
            period_us > 0,
        ensures
            ticks == self.ticks(period_us as nat),
            ticks <= 1000 * u32::MAX,
    {
        let micros: u64 = self.0 as u64 * 1000;
        let ticks: u64 = micros / period_us as u64;
        proof {
            assert(micros / (period_us as u64) <= micros) by (nonlinear_arith)
                requires
                    period_us > 0,
            ;
        }
        ticks
    }
}

} // verus!
