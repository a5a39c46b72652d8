//! Plugin-registered timers, ticked from the host thread's run loop.

use vstd::prelude::*;

use crate::time::{Duration, Instant};

verus! {

/// The shortest interval of a timer, in nanoseconds: anything faster is
/// slowed down to it.
pub const MIN_INTERVAL_NANOS: u64 = 30_000_000;

/// One timer.
#[derive(Debug, Clone, Copy, PartialEq, Eq, Structural)]
pub struct Timer {
    pub id: u32,
    pub interval: Duration,
    pub last_triggered_at: Option<Instant>,
}

/// Whether a timer is due: it never was, or its interval has passed since.
pub open spec fn is_due(timer: Timer, now: Instant) -> bool {
    match timer.last_triggered_at {
        None => true,
        Some(last) => crate::time::nanos_between(last, now) > timer.interval.nanos,
    }
}

/// A timer after a tick.
pub open spec fn timer_ticked(timer: Timer, now: Instant) -> Timer {
    if is_due(timer, now) {
        Timer { last_triggered_at: Some(now), ..timer }
    } else {
        timer
    }
}

/// The ids of the timers that are due, in the order of registration.
pub open spec fn due_ids(timers: Seq<Timer>, now: Instant) -> Seq<u32>
    decreases timers.len(),
{
    if timers.len() == 0 {
        Seq::empty()
    } else {
        let front = due_ids(timers.drop_last(), now);
        if is_due(timers.last(), now) {
            front.push(timers.last().id)
        } else {
            front
        }
    }
}

/// The state of [`Timers`].
#[verifier::ext_equal]
pub struct TimersView {
    pub timers: Seq<Timer>,
    pub latest_id: u32,
}

impl TimersView {
    /// Every timer has an id of its own, and all ids were given out.
    pub open spec fn valid(self) -> bool {
        &&& forall|i: int, j: int|
            0 <= i < j < self.timers.len() ==> (#[trigger] self.timers[i]).id != (
            #[trigger] self.timers[j]).id
        &&& forall|i: int|
            0 <= i < self.timers.len() ==> 0 < (#[trigger] self.timers[i]).id <= self.latest_id
    }

    /// Whether a timer is registered.
    pub open spec fn knows(self, id: u32) -> bool {
        exists|i: int| 0 <= i < self.timers.len() && (#[trigger] self.timers[i]).id == id
    }
}

/// The timers that a plugin has registered.
pub struct Timers {
    timers: Vec<Timer>,
    latest_id: u32,
}

impl View for Timers {
    type V = TimersView;

    closed spec fn view(&self) -> TimersView {
        TimersView { timers: self.timers@, latest_id: self.latest_id }
    }
}

impl Timers {
    /// No timers.
    pub fn new() -> (t: Self)
        ensures
            t@.valid(),
            t@ == (TimersView { timers: Seq::empty(), latest_id: 0 }),
    {
        Timers { timers: Vec::new(), latest_id: 0 }
    }

    /// The id that was given out last.
    pub fn latest_id(&self) -> (id: u32)
        ensures
            id == self@.latest_id,
    {
        self.latest_id
    }

    /// Registers a timer under the next id.
    pub fn register_new(&mut self, interval: Duration) -> (id: u32)
        requires
            old(self)@.valid(),
            old(self)@.latest_id < u32::MAX,
        ensures
            final(self)@.valid(),
            id == old(self)@.latest_id + 1,
            !old(self)@.knows(id),
            final(self)@ == (TimersView {
                timers: old(self)@.timers.push(
                    Timer {
                        id,
                        interval: Duration {
                            nanos: if interval.nanos < MIN_INTERVAL_NANOS {
                                MIN_INTERVAL_NANOS
                            } else {
                                interval.nanos
                            },
                        },
                        last_triggered_at: None,
                    },
                ),
                latest_id: id,
            }),
    {
        let nanos: u64 = if interval.nanos < MIN_INTERVAL_NANOS {
            MIN_INTERVAL_NANOS
        } else {
            interval.nanos
        };
        let id: u32 = self.latest_id + 1;
        self.latest_id = id;
        self.timers.push(Timer { id, interval: Duration { nanos }, last_triggered_at: None });
        id
    }

    /// Drops a timer; false where there is none of that id.
    pub fn unregister(&mut self, id: u32) -> (known: bool)
        requires
            old(self)@.valid(),
        ensures
            final(self)@.valid(),
            known == old(self)@.knows(id),
            !final(self)@.knows(id),
            final(self)@.latest_id == old(self)@.latest_id,
            known ==> exists|i: int|
                0 <= i < old(self)@.timers.len() && (#[trigger] old(self)@.timers[i]).id == id
                    && final(self)@.timers == old(self)@.timers.remove(i),
            !known ==> final(self)@ == old(self)@,
    {
        let mut i: usize = 0;
        while i < self.timers.len()
            invariant
                i <= self.timers@.len(),
                *self == *old(self),
                old(self)@.valid(),
                forall|j: int| 0 <= j < i ==> (#[trigger] self.timers@[j]).id != id,
            decreases self.timers@.len() - i,
        {
            if self.timers[i].id == id {
                assert(old(self)@.timers[i as int].id == id);
                let _ = self.timers.remove(i);
                proof {
                    let before = old(self)@.timers;
                    let after = self@.timers;
                    assert(after == before.remove(i as int));
                    assert forall|a: int| 0 <= a < after.len() implies (#[trigger] after[a]).id
                        != id && after[a] == before[if a < i {
                        a
                    } else {
                        a + 1
                    }] by {
                        if a < i {
                            assert(before[a].id != before[i as int].id);
                        } else {
                            assert(before[i as int].id != before[a + 1].id);
                        }
                    }
                    assert forall|a: int, b: int| 0 <= a < b < after.len() implies (
                    #[trigger] after[a]).id != (#[trigger] after[b]).id by {
                        let x = if a < i {
                            a
                        } else {
                            a + 1
                        };
                        let y = if b < i {
                            b
                        } else {
                            b + 1
                        };
                        assert(before[x].id != before[y].id);
                    }
                }
                return true;
            }
            i += 1;
        }
        false
    }

    /// Ticks all timers; returns the ids of those that are due.
    pub fn tick(&mut self, now: Instant) -> (due: Vec<u32>)
        requires
            old(self)@.valid(),
        ensures
            final(self)@.valid(),
            due@ == due_ids(old(self)@.timers, now),
            final(self)@ == (TimersView {
                timers: old(self)@.timers.map_values(|t: Timer| timer_ticked(t, now)),
                ..old(self)@
            }),
    {
        let mut due: Vec<u32> = Vec::new();
        let size: usize = self.timers.len();
        let mut i: usize = 0;
        while i < size
            invariant
                i <= size,
                size == self.timers@.len(),
                size == old(self).timers@.len(),
                self.latest_id == old(self).latest_id,
                due@ == due_ids(old(self).timers@.take(i as int), now),
                forall|j: int|
                    0 <= j < i ==> #[trigger] self.timers@[j] == timer_ticked(
                        old(self).timers@[j],
                        now,
                    ),
                forall|j: int|
                    i <= j < size ==> #[trigger] self.timers@[j] == old(self).timers@[j],
            decreases size - i,
        {
            let timer = self.timers[i];
            assert(old(self).timers@.take(i + 1).drop_last() =~= old(self).timers@.take(i as int));
            let triggered = match timer.last_triggered_at {
                Some(last) => now.duration_since(last).nanos > timer.interval.nanos,
                None => true,
            };
            if triggered {
                self.timers.set(
                    i,
                    Timer {
                        id: timer.id,
                        interval: timer.interval,
                        last_triggered_at: Some(now),
                    },
                );
                due.push(timer.id);
            }
            i += 1;
        }
        assert(old(self).timers@.take(i as int) =~= old(self).timers@);
        assert(self.timers@ =~= old(self).timers@.map_values(|t: Timer| timer_ticked(t, now)));
        assert forall|a: int, b: int| 0 <= a < b < self@.timers.len() implies (
        #[trigger] self@.timers[a]).id != (#[trigger] self@.timers[b]).id by {
            assert(old(self)@.timers[a].id != old(self)@.timers[b].id);
        }
        assert forall|a: int| 0 <= a < self@.timers.len() implies 0 < (
        #[trigger] self@.timers[a]).id <= self@.latest_id by {
            assert(0 < old(self)@.timers[a].id <= old(self)@.latest_id);
        }
        due
    }
}

/// A timer that was just triggered is not due again before its interval
/// has passed.
pub proof fn law_timers_keep_their_interval(timer: Timer, now: Instant, later: Instant)
    requires
        is_due(timer, now),
        crate::time::nanos_between(now, later) <= timer.interval.nanos,
    ensures
        !is_due(timer_ticked(timer, now), later),
{
}

/// A timer is due at once, and then each time more than its interval has
/// passed; being due is what restarts it, and nothing else of it changes.
pub proof fn law_timers_come_due_after_their_interval(timer: Timer, now: Instant)
    requires
        timer.last_triggered_at matches Some(last) ==> last.nanos <= now.nanos,
    ensures
        timer.last_triggered_at is None ==> is_due(timer, now),
        timer.last_triggered_at matches Some(last) ==> (is_due(timer, now) <==> last.nanos
            + timer.interval.nanos < now.nanos),
        is_due(timer, now) ==> timer_ticked(timer, now) == (Timer {
            last_triggered_at: Some(now),
            ..timer
        }),
        !is_due(timer, now) ==> timer_ticked(timer, now) == timer,
        MIN_INTERVAL_NANOS == 30_000_000,
{
}

/// A tick names exactly the timers that are due, in the order in which they
/// were registered.
pub proof fn law_a_tick_names_the_due_timers(timers: Seq<Timer>, more: Timer, now: Instant)
    ensures
        due_ids(Seq::empty(), now).len() == 0,
        due_ids(timers.push(more), now) == if is_due(more, now) {
            due_ids(timers, now).push(more.id)
        } else {
            due_ids(timers, now)
        },
{
    assert(timers.push(more).drop_last() =~= timers);
}

} // verus!
