//! The audio stall watchdog: when to report on the stream, when to take it
//! for dead and rebuild it, and when to give up.

use vstd::prelude::*;

use crate::time::{Duration, Instant};

verus! {

/// Reports without a new callback after which a stream counts as dead.
pub const STALLED_REPORTS: u32 = 3;

/// Failed rebuilds after which no more are tried.
pub const MAX_REBUILDS: u32 = 5;

/// Nanoseconds between two reports.
pub const REPORT_NANOS: u64 = 1_000_000_000;

/// Seconds before a failed stream is tried again.
pub const RETRY_SECS: u64 = 5;

/// What the audio callback has counted so far.
#[derive(Debug, Clone, Copy, PartialEq, Eq, Structural)]
pub struct Counters {
    pub callbacks: u64,
    pub busy_ns: u64,
    pub budget_ns: u64,
}

/// The time spent processing since the previous report, and the time there
/// was for it.
#[derive(Debug, Clone, Copy, PartialEq, Eq, Structural)]
pub struct Load {
    pub busy_ns: u64,
    pub budget_ns: u64,
}

/// What a tick of the watchdog asks for.
#[derive(Debug, Clone, Copy, PartialEq, Eq, Structural)]
pub struct Tick {
    /// The load to report, when a report is due.
    pub load: Option<Load>,
    /// Whether to rebuild the stream.
    pub rebuild: bool,
}

/// Watches one audio stream.
#[derive(Debug, Clone, Copy)]
pub struct Watchdog {
    /// Whether there is a stream.
    pub running: bool,
    /// When to try again where there is none.
    pub retry_at: Option<Instant>,
    pub last_report: Instant,
    pub last: Counters,
    /// Reports in a row without a new callback.
    pub stalled_for: u32,
    /// Failed rebuilds since the last callback.
    pub failures: u32,
}

/// How much a counter grew; nothing where it shrank.
pub open spec fn grown(before: u64, now: u64) -> u64 {
    if now > before {
        (now - before) as u64
    } else {
        0
    }
}

impl Watchdog {
    /// A stream that is up still has rebuilds left, and has not stalled
    /// long enough for one.
    pub open spec fn valid(self) -> bool {
        &&& self.stalled_for < STALLED_REPORTS
        &&& self.failures <= MAX_REBUILDS
        &&& self.running ==> self.failures < MAX_REBUILDS
    }

    /// Whether a report is due.
    pub open spec fn report_due(self, now: Instant) -> bool {
        self.running && crate::time::nanos_between(self.last_report, now) >= REPORT_NANOS
    }

    /// The watchdog after a report.
    pub open spec fn reported(self, now: Instant, counters: Counters) -> Watchdog {
        let stalled = counters.callbacks == self.last.callbacks;
        Watchdog {
            last_report: now,
            last: counters,
            stalled_for: if stalled {
                (self.stalled_for + 1) as u32
            } else {
                0
            },
            failures: if stalled {
                self.failures
            } else {
                0
            },
            ..self
        }
    }

    /// Whether the stream has to be rebuilt.
    pub open spec fn rebuild_due(self, now: Instant) -> bool {
        let retry_due = !self.running && (self.retry_at matches Some(at) && now.nanos >= at.nanos);
        (self.stalled_for >= STALLED_REPORTS || retry_due) && self.failures < MAX_REBUILDS
    }

    /// The watchdog while the stream is rebuilt.
    pub open spec fn rebuilding(self) -> Watchdog {
        Watchdog {
            running: false,
            retry_at: None,
            last: Counters { callbacks: 0, busy_ns: 0, budget_ns: 0 },
            stalled_for: 0,
            ..self
        }
    }

    /// The watchdog after a tick, and what the tick asks for.
    pub open spec fn ticked(self, now: Instant, counters: Counters) -> (Watchdog, Tick) {
        let load = if self.report_due(now) {
            Some(
                Load {
                    busy_ns: grown(self.last.busy_ns, counters.busy_ns),
                    budget_ns: grown(self.last.budget_ns, counters.budget_ns),
                },
            )
        } else {
            None
        };
        let next = if self.report_due(now) {
            self.reported(now, counters)
        } else {
            self
        };
        if next.rebuild_due(now) {
            (next.rebuilding(), Tick { load, rebuild: true })
        } else {
            (next, Tick { load, rebuild: false })
        }
    }

    /// The watchdog after a rebuild that succeeded or failed.
    pub open spec fn rebuilt(self, ok: bool, now: Instant) -> Watchdog {
        if ok {
            Watchdog { running: true, ..self }
        } else {
            let failures = (self.failures + 1) as u32;
            Watchdog {
                failures,
                retry_at: if failures < MAX_REBUILDS {
                    Some(crate::time::instant_after(now, retry_wait()))
                } else {
                    self.retry_at
                },
                ..self
            }
        }
    }

    /// Starts watching. `activated` says how the first activation went, and
    /// is `None` where there is no engine to activate.
    pub fn new(activated: Option<bool>, now: Instant) -> (watchdog: Watchdog)
        ensures
            watchdog.valid(),
            watchdog == (Watchdog {
                running: activated == Some(true),
                retry_at: if activated == Some(false) {
                    Some(crate::time::instant_after(now, retry_wait()))
                } else {
                    None
                },
                last_report: now,
                last: Counters { callbacks: 0, busy_ns: 0, budget_ns: 0 },
                stalled_for: 0,
                failures: 0,
            }),
    {
        let (running, retry_at) = match activated {
            Some(true) => (true, None),
            Some(false) => (false, Some(now.after(Duration::from_secs(RETRY_SECS)))),
            None => (false, None),
        };
        Watchdog {
            running,
            retry_at,
            last_report: now,
            last: Counters { callbacks: 0, busy_ns: 0, budget_ns: 0 },
            stalled_for: 0,
            failures: 0,
        }
    }

    /// Looks at the stream: whether to report on it, and whether to rebuild
    /// it. A stream whose callback counter stops advancing (or never
    /// starts) has died.
    pub fn tick(&mut self, now: Instant, counters: Counters) -> (tick: Tick)
        requires
            old(self).valid(),
        ensures
            (*final(self), tick) == old(self).ticked(now, counters),
            final(self).valid(),
            tick.rebuild ==> !final(self).running && final(self).failures < MAX_REBUILDS,
    {
        let mut load: Option<Load> = None;
        if self.running && now.duration_since(self.last_report).nanos >= REPORT_NANOS {
            load =
            Some(
                Load {
                    busy_ns: growth(self.last.busy_ns, counters.busy_ns),
                    budget_ns: growth(self.last.budget_ns, counters.budget_ns),
                },
            );
            self.last_report = now;
            if counters.callbacks == self.last.callbacks {
                self.stalled_for = self.stalled_for + 1;
            } else {
                self.stalled_for = 0;
                self.failures = 0;
            }
            self.last = counters;
        }
        let retry_due: bool = match self.retry_at {
            Some(at) => !self.running && now.nanos >= at.nanos,
            None => false,
        };
        let rebuild: bool = (self.stalled_for >= STALLED_REPORTS || retry_due) && self.failures
            < MAX_REBUILDS;
        if rebuild {
            self.running = false;
            self.retry_at = None;
            self.last = Counters { callbacks: 0, busy_ns: 0, budget_ns: 0 };
            self.stalled_for = 0;
        }
        Tick { load, rebuild }
    }

    /// Takes note of how a rebuild went.
    pub fn on_rebuilt(&mut self, ok: bool, now: Instant)
        requires
            old(self).valid(),
            !old(self).running,
            old(self).failures < MAX_REBUILDS,
        ensures
            *final(self) == old(self).rebuilt(ok, now),
            final(self).valid(),
    {
        if ok {
            self.running = true;
        } else {
            self.failures = self.failures + 1;
            if self.failures < MAX_REBUILDS {
                self.retry_at = Some(now.after(Duration::from_secs(RETRY_SECS)));
            }
        }
    }
}

/// The wait before a retry.
pub open spec fn retry_wait() -> Duration {
    Duration { nanos: (RETRY_SECS * 1_000_000_000) as u64 }
}

fn growth(before: u64, now: u64) -> (n: u64)
    ensures
        n == grown(before, now),
{
    if now > before {
        now - before
    } else {
        0
    }
}

/// A stream whose callbacks advance is left alone.
pub proof fn law_a_live_stream_is_left_alone(watchdog: Watchdog, now: Instant, counters: Counters)
    requires
        watchdog.valid(),
        watchdog.running,
        counters.callbacks != watchdog.last.callbacks,
    ensures
        !watchdog.ticked(now, counters).1.rebuild,
        watchdog.ticked(now, counters).0.running,
{
}

/// A stream that makes no callback between reports is rebuilt with the
/// third of them.
pub proof fn law_a_dead_stream_is_rebuilt(
    watchdog: Watchdog,
    counters: Counters,
    first: Instant,
    second: Instant,
    third: Instant,
)
    requires
        watchdog.valid(),
        watchdog.running,
        watchdog.stalled_for == 0,
        counters.callbacks == watchdog.last.callbacks,
        watchdog.report_due(first),
        crate::time::nanos_between(first, second) >= REPORT_NANOS,
        crate::time::nanos_between(second, third) >= REPORT_NANOS,
    ensures
        ({
            let (one, tick1) = watchdog.ticked(first, counters);
            let (two, tick2) = one.ticked(second, counters);
            let (three, tick3) = two.ticked(third, counters);
            &&& !tick1.rebuild
            &&& !tick2.rebuild
            &&& tick3.rebuild
            &&& !three.running
        }),
{
}

/// A stream that could not be rebuilt often enough is given up for good.
pub proof fn law_rebuilds_end(watchdog: Watchdog, now: Instant, counters: Counters)
    requires
        watchdog.valid(),
        watchdog.failures == MAX_REBUILDS,
    ensures
        watchdog.ticked(now, counters) == (watchdog, Tick { load: None, rebuild: false }),
{
}

/// A failed rebuild is tried again once the wait is over, as long as there
/// are tries left.
pub proof fn law_a_failed_rebuild_is_retried(
    watchdog: Watchdog,
    failed: Instant,
    now: Instant,
    counters: Counters,
)
    requires
        watchdog.valid(),
        !watchdog.running,
        watchdog.failures + 1 < MAX_REBUILDS,
        now.nanos >= crate::time::instant_after(failed, retry_wait()).nanos,
    ensures
        watchdog.rebuilt(false, failed).ticked(now, counters).1.rebuild,
{
}

/// A running stream is reported on once a second: the time spent and the
/// time there was since the report before. Whether it made a callback since
/// then decides whether it counts as stalled.
pub proof fn law_reports_come_every_second(watchdog: Watchdog, now: Instant, counters: Counters)
    requires
        watchdog.valid(),
        watchdog.last_report.nanos <= now.nanos,
        watchdog.last.busy_ns <= counters.busy_ns && watchdog.last.budget_ns <= counters.budget_ns,
    ensures
        ({
            let (next, tick) = watchdog.ticked(now, counters);
            let due = watchdog.running && now.nanos - watchdog.last_report.nanos >= 1_000_000_000;
            let stalled = counters.callbacks == watchdog.last.callbacks;
            &&& tick.load is Some <==> due
            &&& tick.load matches Some(load) ==> load.busy_ns == counters.busy_ns
                - watchdog.last.busy_ns && load.budget_ns == counters.budget_ns
                - watchdog.last.budget_ns
            &&& due ==> next.last_report == now
            &&& due && !tick.rebuild ==> next.last == counters && next.stalled_for == if stalled {
                watchdog.stalled_for + 1
            } else {
                0
            }
            &&& due && !stalled ==> next.failures == 0
            &&& !due && !tick.rebuild ==> next == watchdog
        }),
{
}

/// A stream is rebuilt exactly where it has stalled through its third report
/// in a row, or where there is none and its time to be tried again has come,
/// and only while fewer than five tries have failed.
pub proof fn law_rebuilds_have_a_reason(watchdog: Watchdog, now: Instant, counters: Counters)
    requires
        watchdog.valid(),
        watchdog.last_report.nanos <= now.nanos,
    ensures
        ({
            let (next, tick) = watchdog.ticked(now, counters);
            let stalls_out = watchdog.running && now.nanos - watchdog.last_report.nanos
                >= 1_000_000_000 && counters.callbacks == watchdog.last.callbacks
                && watchdog.stalled_for == 2;
            let retry = !watchdog.running && watchdog.retry_at is Some
                && watchdog.retry_at->0.nanos <= now.nanos;
            &&& tick.rebuild <==> (stalls_out || retry) && watchdog.failures < 5
            &&& tick.rebuild ==> !next.running && next.retry_at is None && next.stalled_for == 0
                && next.last.callbacks == 0 && next.failures == watchdog.failures
            &&& !tick.rebuild ==> next.running == watchdog.running && next.retry_at
                == watchdog.retry_at
        }),
{
}

/// A rebuild that worked has the stream run again; one that failed counts,
/// and is tried again five seconds later unless it was the fifth.
pub proof fn law_rebuilds_are_counted(watchdog: Watchdog, now: Instant)
    requires
        watchdog.valid(),
        !watchdog.running,
        watchdog.failures < 5,
        now.nanos <= u64::MAX - 5_000_000_000,
    ensures
        watchdog.rebuilt(true, now) == (Watchdog { running: true, ..watchdog }),
        ({
            let next = watchdog.rebuilt(false, now);
            &&& !next.running && next.failures == watchdog.failures + 1
            &&& next.failures < 5 ==> (next.retry_at matches Some(at) && at.nanos == now.nanos
                + 5_000_000_000)
            &&& next.failures == 5 ==> next.retry_at == watchdog.retry_at
        }),
        retry_wait().nanos == 5_000_000_000,
{
}

} // verus!
