//! The repeating timer that paces the periodic position broadcast.

use vstd::prelude::*;

verus! {

/// Ten milliseconds, in nanoseconds: at most a hundred broadcasts a second.
pub const BROADCAST_PERIOD_NANOS: u64 = 10_000_000;

/// A repeating timer over nanoseconds. It finishes whenever a full period
/// has gone by since it last finished and keeps what is left over.
#[derive(Clone, Copy, Debug, PartialEq, Eq, Structural)]
pub struct BroadcastTimer {
    pub period: u64,
    pub elapsed: u64,
}

impl BroadcastTimer {
    /// The time on the timer once `delta` more nanoseconds have passed.
    pub open spec fn total(self, delta: u64) -> int {
        self.elapsed + delta
    }

    /// Whether a tick of `delta` nanoseconds completes a period.
    pub open spec fn finishes(self, delta: u64) -> bool {
        self.total(delta) >= self.period
    }

    /// The timer after a tick of `delta` nanoseconds: a completed period is
    /// taken off, as often as it fits.
    pub open spec fn ticked(self, delta: u64) -> BroadcastTimer {
        BroadcastTimer {
            period: self.period,
            elapsed: if self.period == 0 {
                0
            } else if self.finishes(delta) {
                (self.total(delta) % (self.period as int)) as u64
            } else {
                self.total(delta) as u64
            },
        }
    }

    /// A timer is in order when it holds less than one period.
    pub open spec fn wf(self) -> bool {
        self.elapsed < self.period || (self.period == 0 && self.elapsed == 0)
    }

    /// A timer of the given period with nothing elapsed.
    pub fn new(period: u64) -> (t: BroadcastTimer)
        ensures
            t == (BroadcastTimer { period, elapsed: 0 }),
            t.wf(),
    {
        BroadcastTimer { period, elapsed: 0 }
    }

    /// Advances the timer and says whether it finished.
    pub fn tick(&mut self, delta: u64) -> (finished: bool)
        ensures
            finished == old(self).finishes(delta),
            *final(self) == old(self).ticked(delta),
            old(self).wf() ==> final(self).wf(),
    {
        if self.period == 0 {
            self.elapsed = 0;
            return true;
        }
        let total: u128 = self.elapsed as u128 + delta as u128;
        let period: u128 = self.period as u128;
        if total >= period {
            let rest: u128 = total % period;
            self.elapsed = rest as u64;
            true
        } else {
            self.elapsed = total as u64;
            false
        }
    }
}

/// A timer that is in order stays in order, and a tick that finishes
/// leaves less than a period on it.
pub proof fn lemma_tick_keeps_wf(t: BroadcastTimer, delta: u64)
    requires
        t.wf(),
    ensures
        t.ticked(delta).wf(),
        t.ticked(delta).period == t.period,
{
}

} // verus!
