use vstd::prelude::*;

verus! {

/// What the sweeper should do when its timer fires.
#[derive(Clone, Copy, Debug, PartialEq, Eq, Structural)]
pub enum SweepAction {
    /// Run one delete-expired pass against the store.
    Sweep,
    /// Finish the current iteration and exit.
    Stop,
}

/// The recurring reclaim task, as its decision state. On every tick it asks
/// for one sweep; a failed sweep is reported and the next tick retries
/// independently. Cancellation is cooperative: once the owner has asked it
/// to stop, no later tick sweeps again.
pub struct Sweeper {
    cancelled: bool,
    sweeps: u64,
}

impl Sweeper {
    /// Whether the owner has asked the task to stop.
    pub closed spec fn is_cancelled(self) -> bool {
        self.cancelled
    }

    /// How many sweeps have been asked for so far.
    pub closed spec fn sweep_count(self) -> u64 {
        self.sweeps
    }

    pub fn new() -> (r: Sweeper)
        ensures
            !r.is_cancelled(),
            r.sweep_count() == 0,
    {
        Sweeper { cancelled: false, sweeps: 0 }
    }

    /// The decision on a timer tick: sweep while running, stop once
    /// cancelled — cancellation is never forgotten.
    pub fn on_tick(&mut self) -> (r: SweepAction)
        ensures
            final(self).is_cancelled() == old(self).is_cancelled(),
            old(self).is_cancelled() ==> r == SweepAction::Stop,
            !old(self).is_cancelled() ==> r == SweepAction::Sweep,
            r == SweepAction::Stop ==> final(self).sweep_count() == old(self).sweep_count(),
            r == SweepAction::Sweep && old(self).sweep_count() < u64::MAX
                ==> final(self).sweep_count() == old(self).sweep_count() + 1,
    {
        if self.cancelled {
            SweepAction::Stop
        } else {
            if self.sweeps < u64::MAX {
                self.sweeps = self.sweeps + 1;
            }
            SweepAction::Sweep
        }
    }

    /// The owner's stop signal. The in-flight iteration still finishes; the
    /// next tick observes the flag and stops.
    pub fn cancel(&mut self)
        ensures
            final(self).is_cancelled(),
            final(self).sweep_count() == old(self).sweep_count(),
    {
        self.cancelled = true;
    }
}

} // verus!
