//! Reconnection delays with backoff.

use vstd::prelude::*;
use std::time::Duration;

verus! {

/// `Duration::from_millis`: the duration of `ms` milliseconds.
pub uninterp spec fn duration_from_millis(ms: u64) -> Duration;

/// `Duration::from_millis`.
#[verifier::external_body]
pub(crate) fn millis(ms: u64) -> (r: Duration)
    ensures
        r == duration_from_millis(ms),
{
    Duration::from_millis(ms)
}

/// Timer for reconnection logic with backoff: the n-th delay is the n-th
/// interval, and the last interval once they run out.
pub struct Timer {
    attempts: u32,
    intervals: Vec<u64>,
}

/// The mathematical value of a `Timer`.
pub struct TimerView {
    pub attempts: nat,
    pub intervals: Seq<u64>,
}

impl View for Timer {
    type V = TimerView;

    closed spec fn view(&self) -> TimerView {
        TimerView { attempts: self.attempts as nat, intervals: self.intervals@ }
    }
}

/// The delay (milliseconds) before attempt number `attempts`: the interval
/// of that index, else the last interval, else 10 seconds.
pub open spec fn delay_for(intervals: Seq<u64>, attempts: nat) -> u64 {
    if attempts < intervals.len() {
        intervals[attempts as int]
    } else if intervals.len() > 0 {
        intervals.last()
    } else {
        10000
    }
}

/// The intervals never decrease.
pub open spec fn non_decreasing(intervals: Seq<u64>) -> bool {
    forall|i: int, j: int| 0 <= i <= j < intervals.len() ==> intervals[i] <= intervals[j]
}

impl Timer {
    /// A timer at its first attempt.
    pub fn new(intervals: Vec<u64>) -> (r: Timer)
        ensures
            r@.attempts == 0,
            r@.intervals == intervals@,
    {
        Timer { attempts: 0, intervals }
    }

    /// The next delay; counts one more attempt.
    pub fn next_delay(&mut self) -> (r: Duration)
        requires
            old(self)@.attempts < u32::MAX,
        ensures
            r == duration_from_millis(delay_for(old(self)@.intervals, old(self)@.attempts)),
            final(self)@.attempts == old(self)@.attempts + 1,
            final(self)@.intervals == old(self)@.intervals,
    {
        let n = self.intervals.len();
        let delay = if (self.attempts as usize) < n {
            self.intervals[self.attempts as usize]
        } else if n > 0 {
            self.intervals[n - 1]
        } else {
            10000
        };
        self.attempts = self.attempts + 1;
        millis(delay)
    }

    /// The number of attempts counted so far.
    pub fn attempts(&self) -> (r: u32)
        ensures
            r == self@.attempts,
    {
        self.attempts
    }

    /// Back to the first attempt.
    pub fn reset(&mut self)
        ensures
            final(self)@.attempts == 0,
            final(self)@.intervals == old(self)@.intervals,
    {
        self.attempts = 0;
    }
}

impl Default for Timer {
    /// The timer with the intervals 1, 2, 5 and 10 seconds.
    fn default() -> (r: Timer)
        ensures
            r@.attempts == 0,
            r@.intervals == seq![1000u64, 2000, 5000, 10000],
    {
        let r = Timer::new(vec![1000, 2000, 5000, 10000]);
        assert(r@.intervals =~= seq![1000u64, 2000, 5000, 10000]);
        r
    }
}

/// With non-decreasing intervals, the delays never decrease from one attempt
/// to the next.
pub proof fn lemma_backoff_never_shrinks(intervals: Seq<u64>, attempts: nat)
    requires
        non_decreasing(intervals),
    ensures
        delay_for(intervals, attempts) <= delay_for(intervals, attempts + 1),
{
}

/// Once the intervals run out, every delay is the last interval.
pub proof fn lemma_backoff_levels_off(intervals: Seq<u64>, attempts: nat)
    requires
        intervals.len() > 0,
        attempts >= intervals.len(),
    ensures
        delay_for(intervals, attempts) == intervals.last(),
{
}

} // verus!
