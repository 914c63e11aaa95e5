//! Debouncing: a callback runs only when enough time has passed since the
//! last one that ran.
use vstd::prelude::*;

verus! {

/// The time between `last` and `now`, or zero when `now` is earlier.
pub open spec fn elapsed(last: u64, now: u64) -> int {
    if now >= last {
        now - last
    } else {
        0
    }
}

/// Whether a callback offered at `now` runs under debounce state `d`.
pub open spec fn runs(d: Debounce, now: u64) -> bool {
    match d.last_called {
        None => true,
        Some(last) => elapsed(last, now) >= d.wait_period,
    }
}

/// The state of a debounce: its waiting period and when a callback last
/// ran, in nanoseconds from a fixed starting instant.
pub struct Debounce {
    pub wait_period: u64,
    pub last_called: Option<u64>,
}

impl Debounce {
    /// A debounce that has not run anything yet.
    pub fn new(wait_period: u64) -> (res: Self)
        ensures
            res.wait_period == wait_period,
            res.last_called is None,
    {
        Debounce { wait_period, last_called: None }
    }

    /// Decides whether a callback offered at `now` runs: the first one
    /// always does, a later one when at least the waiting period has passed
    /// since the last that ran. A callback that runs becomes the last.
    pub fn offer(&mut self, now: u64) -> (res: bool)
        ensures
            final(self).wait_period == old(self).wait_period,
            res == runs(*old(self), now),
            final(self).last_called == if res {
                Some(now)
            } else {
                old(self).last_called
            },
    {
        let run = match self.last_called {
            None => true,
            Some(last) => {
                let gap = if now >= last {
                    now - last
                } else {
                    0
                };
                gap >= self.wait_period
            },
        };
        if run {
            self.last_called = Some(now);
        }
        run
    }
}

/// The first callback offered runs; once one has run at `ran_at`, a later
/// one offered before the waiting period has passed does not, and one
/// offered after it has passed does.
pub proof fn lemma_debounce_spacing(d: Debounce, ran_at: u64, now: u64)
    ensures
        d.last_called is None ==> runs(d, now),
        d.last_called == Some(ran_at) ==> (runs(d, now) <==> elapsed(ran_at, now)
            >= d.wait_period),
{
}

/// Once a callback has run at `last`, one offered at a later or equal
/// `now` runs exactly when at least the waiting period has passed, the time
/// passed being `now - last`; one offered at an earlier `now` counts as no
/// time passed, so it runs only with a zero waiting period.
pub proof fn lemma_debounce_gap(d: Debounce, last: u64, now: u64)
    requires
        d.last_called == Some(last),
    ensures
        now >= last ==> (runs(d, now) <==> now - last >= d.wait_period),
        now < last ==> (runs(d, now) <==> d.wait_period == 0),
{
}

/// A debounce that has run nothing yet runs the first callback offered,
/// whenever it comes.
pub proof fn lemma_debounce_first_runs(d: Debounce, now: u64)
    requires
        d.last_called is None,
    ensures
        runs(d, now),
{
}

} // verus!
