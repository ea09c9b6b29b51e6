use vstd::prelude::*;

verus! {

/// Seconds between two ticks of the periodic task.
pub const TICK_SECONDS: u64 = 50;

/// Whether the periodic task runs. The task itself is held by the caller:
/// `start` says when to launch it and `stop` when to cancel it.
#[derive(Debug)]
pub struct Scheduler {
    active: bool,
}

impl View for Scheduler {
    type V = bool;

    closed spec fn view(&self) -> bool {
        self.active
    }
}

impl Scheduler {
    /// An inactive scheduler.
    pub fn new() -> (r: Scheduler)
        ensures
            !r@,
    {
        Scheduler { active: false }
    }

    /// Whether the periodic task runs.
    pub fn is_active(&self) -> (r: bool)
        ensures
            r == self@,
    {
        self.active
    }

    /// Marks the scheduler active. Returns whether it was inactive, that is
    /// whether the caller is to launch the periodic task; starting an active
    /// scheduler changes nothing.
    pub fn start(&mut self) -> (r: bool)
        ensures
            final(self)@,
            r == !old(self)@,
    {
        if self.active {
            return false;
        }
        self.active = true;
        true
    }

    /// Marks the scheduler inactive, so that no further tick starts. Returns
    /// whether it was active; the caller cancels the periodic task either way.
    pub fn stop(&mut self) -> (r: bool)
        ensures
            !final(self)@,
            r == old(self)@,
    {
        let was = self.active;
        self.active = false;
        was
    }
}

} // verus!
