use vstd::prelude::*;

verus! {

/// Outcome of one non-blocking check of a timer.
#[derive(Clone, Copy, Debug, PartialEq, Eq, Structural)]
pub enum TimerPoll {
    Pending,
    Ready,
}

/// A timer with one armed deadline that, once fired, stays fired until it is
/// rearmed to a new deadline.
#[derive(Clone, Copy, Debug)]
pub struct RearmableTimer {
    deadline: u64,
    fired: bool,
}

impl RearmableTimer {
    /// The deadline currently armed.
    pub closed spec fn deadline_spec(self) -> u64 {
        self.deadline
    }

    /// Whether the timer has been observed to fire since it was last armed.
    pub closed spec fn fired_spec(self) -> bool {
        self.fired
    }

    /// What a poll at time `now` reports.
    pub open spec fn outcome(self, now: u64) -> TimerPoll {
        if self.fired_spec() || now >= self.deadline_spec() {
            TimerPoll::Ready
        } else {
            TimerPoll::Pending
        }
    }

    /// The timer after a poll at time `now`: same deadline, fired exactly
    /// when the poll reports `Ready`.
    pub open spec fn polled(self, now: u64, next: Self) -> bool {
        next.deadline_spec() == self.deadline_spec()
            && next.fired_spec() == (self.outcome(now) == TimerPoll::Ready)
    }

    /// A timer armed for `deadline`, not yet fired.
    pub fn new(deadline: u64) -> (t: Self)
        ensures
            t.deadline_spec() == deadline,
            !t.fired_spec(),
    {
        RearmableTimer { deadline, fired: false }
    }

    /// The deadline currently armed.
    pub fn deadline(&self) -> (d: u64)
        ensures
            d == self.deadline_spec(),
    {
        self.deadline
    }

    /// Whether the timer has fired since it was last armed.
    pub fn has_fired(&self) -> (b: bool)
        ensures
            b == self.fired_spec(),
    {
        self.fired
    }

    /// Checks, at time `now`, whether the deadline has passed. Once this
    /// reports `Ready` it keeps doing so until `rearm` is called.
    pub fn poll(&mut self, now: u64) -> (r: TimerPoll)
        ensures
            r == old(self).outcome(now),
            old(self).polled(now, *final(self)),
            r == TimerPoll::Pending ==> *final(self) == *old(self),
    {
        if self.fired || now >= self.deadline {
            self.fired = true;
            TimerPoll::Ready
        } else {
            TimerPoll::Pending
        }
    }

    /// Arms the timer for `deadline`. Only meant to follow a `Ready` poll.
    pub fn rearm(&mut self, deadline: u64)
        requires
            old(self).fired_spec(),
        ensures
            final(self).deadline_spec() == deadline,
            !final(self).fired_spec(),
    {
        self.deadline = deadline;
        self.fired = false;
    }
}

/// Once a poll has reported `Ready`, every later poll reports `Ready` and
/// leaves the timer as it was, whatever the time, until the timer is rearmed.
pub proof fn lemma_fired_timer_stays_ready(
    t: RearmableTimer,
    now: u64,
    fired: RearmableTimer,
    later: u64,
    next: RearmableTimer,
)
    requires
        t.outcome(now) == TimerPoll::Ready,
        t.polled(now, fired),
        fired.polled(later, next),
    ensures
        fired.outcome(later) == TimerPoll::Ready,
        next == fired,
{
}

} // verus!
