use vstd::prelude::*;

use crate::timer::{RearmableTimer, TimerPoll};

verus! {

/// A byte source wrapped so that read attempts on it are let through at most
/// once per `interval` ticks.
///
/// The wrapper never reads by itself: `poll_read` decides, from the embedded
/// timer, whether a read attempt may start now, and if so lends out the source
/// for exactly that one attempt, whose outcome the caller passes on unchanged.
pub struct ThrottledReader<R> {
    source: R,
    timer: RearmableTimer,
    interval: u64,
    starts: Ghost<Seq<u64>>,
}

/// Consecutive entries of `starts` lie at least `interval` ticks apart.
pub open spec fn spaced(starts: Seq<u64>, interval: u64) -> bool {
    forall|i: int|
        0 <= i < starts.len() - 1 ==> #[trigger] starts[i] + interval <= starts[i + 1]
}

impl<R> ThrottledReader<R> {
    /// The wrapped source.
    pub closed spec fn source_spec(self) -> R {
        self.source
    }

    /// The embedded timer.
    pub closed spec fn timer_spec(self) -> RearmableTimer {
        self.timer
    }

    /// The fixed interval between read attempts, in ticks.
    pub closed spec fn interval_spec(self) -> u64 {
        self.interval
    }

    /// The times at which read attempts on the source were let through, oldest
    /// first.
    pub closed spec fn starts(self) -> Seq<u64> {
        self.starts@
    }

    /// Between polls the timer is armed and not fired; after the first read
    /// attempt it is armed for one interval after the latest one; and the
    /// attempts so far are spaced by at least the interval.
    pub open spec fn wf(self) -> bool {
        &&& !self.timer_spec().fired_spec()
        &&& self.starts().len() > 0 ==> self.timer_spec().deadline_spec() == self.starts().last()
            + self.interval_spec()
        &&& spaced(self.starts(), self.interval_spec())
    }

    /// `next` is this wrapper after a poll at `now` that let a read attempt
    /// through: the attempt is logged at `now` and the timer is armed for one
    /// interval later. The source is whatever the attempt left.
    pub open spec fn admits(self, now: u64, next: Self) -> bool {
        &&& next.interval_spec() == self.interval_spec()
        &&& next.timer_spec().deadline_spec() == now + self.interval_spec()
        &&& !next.timer_spec().fired_spec()
        &&& next.starts() == self.starts().push(now)
    }

    /// `next` is this wrapper after one poll at `now`: unchanged while the
    /// timer is pending, else with one read attempt let through.
    pub open spec fn polled(self, now: u64, next: Self) -> bool {
        if self.timer_spec().outcome(now) == TimerPoll::Pending {
            next == self
        } else {
            self.admits(now, next)
        }
    }

    /// Wraps `source`; the first read attempt may start at once.
    pub fn wrap(source: R, interval: u64) -> (r: Self)
        ensures
            r.wf(),
            r.source_spec() == source,
            r.interval_spec() == interval,
            r.timer_spec().deadline_spec() == 0,
            r.starts() == Seq::<u64>::empty(),
    {
        Self::with_deadline(source, interval, 0)
    }

    /// Wraps `source`; the first read attempt may start at `first` or later.
    pub fn with_deadline(source: R, interval: u64, first: u64) -> (r: Self)
        ensures
            r.wf(),
            r.source_spec() == source,
            r.interval_spec() == interval,
            r.timer_spec().deadline_spec() == first,
            r.starts() == Seq::<u64>::empty(),
    {
        ThrottledReader {
            source,
            timer: RearmableTimer::new(first),
            interval,
            starts: Ghost(Seq::empty()),
        }
    }

    /// The fixed interval between read attempts, in ticks.
    pub fn interval(&self) -> (i: u64)
        ensures
            i == self.interval_spec(),
    {
        self.interval
    }

    /// The earliest time at which the next read attempt may start.
    pub fn deadline(&self) -> (d: u64)
        ensures
            d == self.timer_spec().deadline_spec(),
    {
        self.timer.deadline()
    }

    /// The wrapped source, for inspection.
    pub fn source(&self) -> (s: &R)
        ensures
            *s == self.source_spec(),
    {
        &self.source
    }

    /// Unwraps the source.
    pub fn into_source(self) -> (s: R)
        ensures
            s == self.source_spec(),
    {
        self.source
    }

    /// One poll at time `now`.
    ///
    /// While the timer has not fired this returns `None` and changes nothing:
    /// the source is not touched. Once it has fired, the timer is rearmed for
    /// `now + interval` and the source is lent out for exactly one read
    /// attempt; what that attempt leaves behind is what the wrapper holds.
    pub fn poll_read(&mut self, now: u64) -> (r: Option<&mut R>)
        requires
            old(self).wf(),
            now + old(self).interval_spec() <= u64::MAX,
        ensures
            final(self).wf(),
            r is None <==> old(self).timer_spec().outcome(now) == TimerPoll::Pending,
            old(self).polled(now, *final(self)),
            r is Some ==> {
                &&& *r->0 == old(self).source_spec()
                &&& final(self).source_spec() == *final(r->0)
                &&& old(self).admits(now, *final(self))
            },
    {
        match self.timer.poll(now) {
            TimerPoll::Pending => None,
            TimerPoll::Ready => {
                self.timer.rearm(now + self.interval);
                self.starts = Ghost(self.starts@.push(now));
                Some(&mut self.source)
            },
        }
    }
}

/// `states` is a run of polls at `times`: each state follows the one before it
/// by one poll at the matching time.
pub open spec fn is_run<R>(states: Seq<ThrottledReader<R>>, times: Seq<u64>) -> bool {
    &&& states.len() == times.len() + 1
    &&& forall|i: int| 0 <= i < times.len() ==> #[trigger] states[i].polled(times[i], states[i + 1])
}

/// Read attempts are serialised: over any run of polls, each poll lets through
/// at most one attempt, the attempts of the run are appended to those before
/// it, and each is logged at the time of the poll that let it through.
pub proof fn lemma_one_attempt_per_poll<R>(states: Seq<ThrottledReader<R>>, times: Seq<u64>)
    requires
        is_run(states, times),
    ensures
        states.last().starts().len() <= states[0].starts().len() + times.len(),
        states[0].starts().is_prefix_of(states.last().starts()),
        forall|j: int|
            states[0].starts().len() <= j < states.last().starts().len() ==> exists|i: int|
                0 <= i < times.len() && #[trigger] states.last().starts()[j] == times[i],
    decreases times.len(),
{
    if times.len() > 0 {
        let n = times.len() - 1;
        let pre = states.subrange(0, n + 1);
        let pt = times.subrange(0, n);
        assert forall|i: int| 0 <= i < pt.len() implies #[trigger] pre[i].polled(
            pt[i],
            pre[i + 1],
        ) by {
            assert(states[i].polled(times[i], states[i + 1]));
        }
        lemma_one_attempt_per_poll(pre, pt);
        assert(states[n].polled(times[n], states[n + 1]));
        assert(pre.last() == states[n]);
        let s0 = states[0].starts();
        let sm = states[n].starts();
        let sl = states.last().starts();
        assert forall|j: int| s0.len() <= j < sl.len() implies exists|i: int|
            0 <= i < times.len() && #[trigger] sl[j] == times[i] by {
            if j < sm.len() {
                let i = choose|i: int| 0 <= i < pt.len() && #[trigger] sm[j] == pt[i];
                assert(sl[j] == times[i]);
            } else {
                assert(sl[j] == times[n]);
            }
        }
    }
}

/// Read attempts keep their spacing: over any run of polls from a well-formed
/// wrapper, any two consecutive read attempts started at least one interval
/// apart.
pub proof fn lemma_attempts_spaced<R>(states: Seq<ThrottledReader<R>>, times: Seq<u64>)
    requires
        is_run(states, times),
        states[0].wf(),
    ensures
        states.last().wf(),
        forall|i: int|
            0 <= i < states.last().starts().len() - 1 ==> #[trigger] states.last().starts()[i]
                + states.last().interval_spec() <= states.last().starts()[i + 1],
    decreases times.len(),
{
    if times.len() > 0 {
        let n = times.len() - 1;
        let pre = states.subrange(0, n + 1);
        let pt = times.subrange(0, n);
        assert forall|i: int| 0 <= i < pt.len() implies #[trigger] pre[i].polled(
            pt[i],
            pre[i + 1],
        ) by {
            assert(states[i].polled(times[i], states[i + 1]));
        }
        lemma_attempts_spaced(pre, pt);
        assert(pre.last() == states[n]);
        assert(states[n].polled(times[n], states[n + 1]));
    }
    assert(spaced(states.last().starts(), states.last().interval_spec()));
}

} // verus!
