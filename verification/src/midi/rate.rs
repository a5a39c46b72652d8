//! Coalescing rate limiter for device feedback.
//!
//! Knob sweeps produce hundreds of display updates per second; the device
//! only needs the newest one at a bounded rate (about 30/s). [`Coalescer`]
//! keeps the latest pending item and releases it no faster than the
//! configured interval. Time is an argument.

use vstd::prelude::*;

use crate::time::{Duration, Instant};

verus! {

/// Holds back all but the newest item until an interval has passed.
#[derive(Debug)]
pub struct Coalescer<T> {
    min_interval: Duration,
    last_release: Option<Instant>,
    pending: Option<T>,
}

/// What a [`Coalescer`] holds.
pub struct CoalescerView<T> {
    pub min_interval: Duration,
    pub last_release: Option<Instant>,
    pub pending: Option<T>,
}

impl<T> View for Coalescer<T> {
    type V = CoalescerView<T>;

    closed spec fn view(&self) -> CoalescerView<T> {
        CoalescerView {
            min_interval: self.min_interval,
            last_release: self.last_release,
            pending: self.pending,
        }
    }
}

impl<T> CoalescerView<T> {
    /// Whether an item may be released at `now`: nothing was released yet,
    /// or the interval has passed since.
    pub open spec fn ready(self, now: Instant) -> bool {
        match self.last_release {
            None => true,
            Some(last) => crate::time::nanos_between(last, now) >= self.min_interval.nanos,
        }
    }

    /// The state after `item` was offered at `now`, and what is released.
    pub open spec fn offered(self, item: T, now: Instant) -> (CoalescerView<T>, Option<T>) {
        if self.ready(now) {
            (
                CoalescerView {
                    last_release: Some(now),
                    pending: None,
                    min_interval: self.min_interval,
                },
                Some(item),
            )
        } else {
            (CoalescerView { pending: Some(item), ..self }, None)
        }
    }

    /// The state after a poll at `now`, and what is released.
    pub open spec fn polled(self, now: Instant) -> (CoalescerView<T>, Option<T>) {
        if self.pending is Some && self.ready(now) {
            (
                CoalescerView {
                    last_release: Some(now),
                    pending: None,
                    min_interval: self.min_interval,
                },
                self.pending,
            )
        } else {
            (self, None)
        }
    }
}

impl<T> Coalescer<T> {
    /// A limiter that has released nothing yet.
    pub fn new(min_interval: Duration) -> (c: Self)
        ensures
            c@ == (CoalescerView { min_interval, last_release: None, pending: None::<T> }),
    {
        Coalescer { min_interval, last_release: None, pending: None }
    }

    /// Offers a new item. It comes back at once when the interval has
    /// passed (or nothing was released yet), and what was pending is
    /// dropped; otherwise it is kept, in place of any older pending item.
    pub fn offer(&mut self, item: T, now: Instant) -> (released: Option<T>)
        ensures
            (final(self)@, released) == old(self)@.offered(item, now),
    {
        if self.ready(now) {
            self.last_release = Some(now);
            self.pending = None;
            Some(item)
        } else {
            self.pending = Some(item);
            None
        }
    }

    /// Releases the pending item if the interval has passed. Call
    /// periodically (e.g. on the event-loop tick).
    pub fn poll(&mut self, now: Instant) -> (released: Option<T>)
        ensures
            (final(self)@, released) == old(self)@.polled(now),
    {
        if self.pending.is_some() && self.ready(now) {
            self.last_release = Some(now);
            self.pending.take()
        } else {
            None
        }
    }

    fn ready(&self, now: Instant) -> (r: bool)
        ensures
            r == self@.ready(now),
    {
        match self.last_release {
            None => true,
            Some(last) => now.duration_since(last).nanos >= self.min_interval.nanos,
        }
    }
}

/// One call on a [`Coalescer`].
pub enum Call<T> {
    Offer(T, Instant),
    Poll(Instant),
}

/// The state after one call, and what it released, with the time.
pub open spec fn called<T>(c: CoalescerView<T>, call: Call<T>) -> (
    CoalescerView<T>,
    Option<(Instant, T)>,
) {
    match call {
        Call::Offer(item, now) => {
            let (next, out) = c.offered(item, now);
            (
                next,
                match out {
                    Some(x) => Some((now, x)),
                    None => None,
                },
            )
        },
        Call::Poll(now) => {
            let (next, out) = c.polled(now);
            (
                next,
                match out {
                    Some(x) => Some((now, x)),
                    None => None,
                },
            )
        },
    }
}

/// The state after a run of calls, and all that was released, in order.
pub open spec fn run<T>(c: CoalescerView<T>, calls: Seq<Call<T>>) -> (
    CoalescerView<T>,
    Seq<(Instant, T)>,
)
    decreases calls.len(),
{
    if calls.len() == 0 {
        (c, Seq::empty())
    } else {
        let (before, released) = run(c, calls.drop_last());
        let (after, out) = called(before, calls.last());
        match out {
            Some(r) => (after, released.push(r)),
            None => (after, released),
        }
    }
}

/// However it is called, two releases in a row lie at least the interval
/// apart, and the state remembers the last one.
pub proof fn law_releases_keep_their_distance<T>(min_interval: Duration, calls: Seq<Call<T>>)
    ensures
        ({
            let start = CoalescerView { min_interval, last_release: None, pending: None::<T> };
            let (end, released) = run(start, calls);
            &&& end.min_interval == min_interval
            &&& end.last_release == if released.len() == 0 {
                None::<Instant>
            } else {
                Some(released.last().0)
            }
            &&& forall|i: int|
                0 < i < released.len() ==> crate::time::nanos_between(
                    released[i - 1].0,
                    (#[trigger] released[i]).0,
                ) >= min_interval.nanos
        }),
    decreases calls.len(),
{
    if calls.len() > 0 {
        law_releases_keep_their_distance(min_interval, calls.drop_last());
    }
}

/// The index of the call that made the newest offer, or -1.
pub open spec fn newest_offer<T>(calls: Seq<Call<T>>) -> int
    decreases calls.len(),
{
    if calls.len() == 0 {
        -1
    } else if calls.last() is Offer {
        calls.len() - 1
    } else {
        newest_offer(calls.drop_last())
    }
}

/// For each release of a run, the index of the call that offered the item:
/// the newest offer at the time.
pub open spec fn sources<T>(c: CoalescerView<T>, calls: Seq<Call<T>>) -> Seq<int>
    decreases calls.len(),
{
    if calls.len() == 0 {
        Seq::empty()
    } else {
        let front = sources(c, calls.drop_last());
        if called(run(c, calls.drop_last()).0, calls.last()).1 is Some {
            front.push(newest_offer(calls))
        } else {
            front
        }
    }
}

/// Whether a call offered an item.
pub open spec fn offers<T>(call: Call<T>, item: T) -> bool {
    call matches Call::Offer(x, _) && x == item
}

proof fn lemma_newest_offer<T>(calls: Seq<Call<T>>)
    ensures
        -1 <= newest_offer(calls) < calls.len(),
        newest_offer(calls) >= 0 ==> calls[newest_offer(calls)] is Offer,
        forall|j: int| newest_offer(calls) < j < calls.len() ==> (#[trigger] calls[j]) is Poll,
    decreases calls.len(),
{
    if calls.len() > 0 && !(calls.last() is Offer) {
        let front = calls.drop_last();
        lemma_newest_offer(front);
        assert forall|j: int| newest_offer(calls) < j < calls.len() implies (
        #[trigger] calls[j]) is Poll by {
            if j < front.len() {
                assert(front[j] is Poll);
            }
        }
    }
}

proof fn lemma_run<T>(min_interval: Duration, calls: Seq<Call<T>>)
    ensures
        ({
            let start = CoalescerView { min_interval, last_release: None, pending: None::<T> };
            let (end, released) = run(start, calls);
            let from = sources(start, calls);
            &&& from.len() == released.len()
            &&& forall|k: int|
                0 <= k < from.len() ==> 0 <= (#[trigger] from[k]) < calls.len() && offers(
                    calls[from[k]],
                    released[k].1,
                )
            &&& forall|j: int, k: int|
                0 <= j < k < from.len() ==> (#[trigger] from[j]) < (#[trigger] from[k])
            &&& end.pending matches Some(item) ==> {
                &&& newest_offer(calls) >= 0
                &&& offers(calls[newest_offer(calls)], item)
                &&& from.len() > 0 ==> from.last() < newest_offer(calls)
            }
        }),
    decreases calls.len(),
{
    if calls.len() > 0 {
        let start = CoalescerView { min_interval, last_release: None, pending: None::<T> };
        let front = calls.drop_last();
        lemma_run(min_interval, front);
        lemma_newest_offer(front);
        let (before, released) = run(start, front);
        let (from, all) = (sources(start, front), sources(start, calls));
        let out = called(before, calls.last()).1;
        assert forall|k: int| 0 <= k < all.len() implies 0 <= (#[trigger] all[k]) < calls.len()
            && offers(calls[all[k]], run(start, calls).1[k].1) by {
            if k < from.len() {
                assert(all[k] == from[k]);
                assert(calls[from[k]] == front[from[k]]);
            }
        }
        assert forall|j: int, k: int| 0 <= j < k < all.len() implies (#[trigger] all[j]) < (
        #[trigger] all[k]) by {
            assert(all[j] == from[j]);
            if k < from.len() {
                assert(all[k] == from[k]);
            } else if j < from.len() - 1 {
                assert(from[j] < from[from.len() - 1]);
            }
        }
    }
}

/// Over any run of calls each offered item comes out at most once, and the
/// items come out in the order they were offered in: the releases come from
/// different offers, each later than the one before.
pub proof fn law_each_item_comes_out_at_most_once<T>(min_interval: Duration, calls: Seq<Call<T>>)
    ensures
        ({
            let start = CoalescerView { min_interval, last_release: None, pending: None::<T> };
            let released = run(start, calls).1;
            let from = sources(start, calls);
            &&& from.len() == released.len()
            &&& forall|k: int|
                0 <= k < from.len() ==> 0 <= (#[trigger] from[k]) < calls.len() && offers(
                    calls[from[k]],
                    released[k].1,
                )
            &&& forall|j: int, k: int|
                0 <= j < k < from.len() ==> (#[trigger] from[j]) < (#[trigger] from[k])
        }),
{
    lemma_run(min_interval, calls);
}

/// After any run of calls, an item that a poll gives is the newest one
/// offered before it, and was not given before.
pub proof fn law_a_poll_gives_the_newest_item<T>(
    min_interval: Duration,
    calls: Seq<Call<T>>,
    now: Instant,
    item: T,
)
    requires
        run(
            CoalescerView { min_interval, last_release: None, pending: None::<T> },
            calls,
        ).0.polled(now).1 == Some(item),
    ensures
        ({
            let start = CoalescerView { min_interval, last_release: None, pending: None::<T> };
            let newest = newest_offer(calls);
            &&& 0 <= newest < calls.len()
            &&& offers(calls[newest], item)
            &&& forall|j: int| newest < j < calls.len() ==> (#[trigger] calls[j]) is Poll
            &&& !sources(start, calls).contains(newest)
        }),
{
    lemma_run(min_interval, calls);
    lemma_newest_offer(calls);
    let start = CoalescerView { min_interval, last_release: None, pending: None::<T> };
    let from = sources(start, calls);
    assert forall|k: int| 0 <= k < from.len() implies (#[trigger] from[k]) < newest_offer(
        calls,
    ) by {
        if k < from.len() - 1 {
            assert(from[k] < from[from.len() - 1]);
        }
    }
}

/// What is held back is never lost to an older item: right after an offer,
/// the item offered is either out or the one pending.
pub proof fn law_newest_item_wins<T>(c: CoalescerView<T>, item: T, now: Instant)
    ensures
        ({
            let (next, out) = c.offered(item, now);
            ||| out == Some(item) && next.pending is None
            ||| out is None && next.pending == Some(item)
        }),
{
}

/// A pending item comes out at the first poll after the interval, once.
pub proof fn law_pending_item_comes_out_once<T>(c: CoalescerView<T>, now: Instant, later: Instant)
    requires
        c.pending is Some,
        c.ready(now),
    ensures
        c.polled(now).1 == c.pending,
        c.polled(now).0.polled(later).1 is None,
{
}

/// An item that is offered comes out at once where nothing was released yet
/// or the interval has passed; else the newest waits, and a poll gives it as
/// soon as the interval has passed, not before.
pub proof fn law_items_come_out_in_time<T>(c: CoalescerView<T>, item: T, now: Instant)
    ensures
        ({
            let due = c.last_release matches Some(last) ==> last.nanos + c.min_interval.nanos
                <= now.nanos || (c.min_interval.nanos == 0);
            let (after, out) = c.offered(item, now);
            let (polled, given) = c.polled(now);
            &&& due ==> out == Some(item) && after.pending is None && after.last_release == Some(
                now,
            )
            &&& !due ==> out is None && after.pending == Some(item) && after.last_release
                == c.last_release
            &&& due ==> given == c.pending && polled.pending is None
            &&& !due ==> given is None && polled.pending == c.pending
            &&& given is Some ==> polled.last_release == Some(now)
            &&& given is None ==> polled.last_release == c.last_release
            &&& after.min_interval == c.min_interval && polled.min_interval == c.min_interval
        }),
{
}

} // verus!
