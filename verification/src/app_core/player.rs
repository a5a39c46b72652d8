//! Playback of captured loops.
//!
//! [`Playback`] replays one loop: commands and the time in, MIDI messages
//! out. [`Player`] runs the loop slots side by side and says which ring
//! buffer each message goes to.

use vstd::prelude::*;

use crate::app_core::looper::{CommandView, LoopEvent, LooperCommand, SLOTS};
use crate::engine::events::{RtMidi, RtView};
use crate::time::{Duration, Instant};

verus! {

// ---------------------------------------------------------------------
// Order of events
// ---------------------------------------------------------------------

/// The index of the first event later than `nanos`, or the number of
/// events.
pub open spec fn first_after(events: Seq<LoopEvent>, nanos: int) -> int
    decreases events.len(),
{
    if events.len() == 0 {
        0
    } else if events[0].offset.nanos > nanos {
        0
    } else {
        1 + first_after(events.drop_first(), nanos)
    }
}

proof fn lemma_first_after_is(events: Seq<LoopEvent>, nanos: int, n: int)
    requires
        0 <= n <= events.len(),
        forall|i: int| 0 <= i < n ==> (#[trigger] events[i]).offset.nanos <= nanos,
        n < events.len() ==> events[n].offset.nanos > nanos,
    ensures
        first_after(events, nanos) == n,
    decreases n,
{
    if n > 0 {
        let rest = events.drop_first();
        assert forall|i: int| 0 <= i < n - 1 implies (#[trigger] rest[i]).offset.nanos <= nanos by {
            assert(rest[i] == events[i + 1]);
        }
        lemma_first_after_is(rest, nanos, n - 1);
    }
}

proof fn lemma_first_after(events: Seq<LoopEvent>, nanos: int)
    ensures
        0 <= first_after(events, nanos) <= events.len(),
        forall|i: int|
            0 <= i < first_after(events, nanos) ==> (#[trigger] events[i]).offset.nanos <= nanos,
        first_after(events, nanos) < events.len() ==> events[first_after(
            events,
            nanos,
        )].offset.nanos > nanos,
    decreases events.len(),
{
    if events.len() > 0 && events[0].offset.nanos <= nanos {
        let rest = events.drop_first();
        lemma_first_after(rest, nanos);
        assert forall|i: int| 0 <= i < first_after(events, nanos) implies (
        #[trigger] events[i]).offset.nanos <= nanos by {
            if i > 0 {
                assert(events[i] == rest[i - 1]);
            }
        }
    }
}

/// Events by offset; events with the same offset keep their order.
pub open spec fn by_offset(events: Seq<LoopEvent>) -> Seq<LoopEvent>
    decreases events.len(),
{
    if events.len() == 0 {
        events
    } else {
        let front = by_offset(events.drop_last());
        front.insert(first_after(front, events.last().offset.nanos as int), events.last())
    }
}

/// Ordering by offset gives a sorted list of the same events.
pub proof fn law_by_offset_sorts(events: Seq<LoopEvent>)
    ensures
        by_offset(events).len() == events.len(),
        by_offset(events).to_multiset() == events.to_multiset(),
        forall|i: int, j: int|
            0 <= i <= j < events.len() ==> (#[trigger] by_offset(events)[i]).offset.nanos <= (
            #[trigger] by_offset(events)[j]).offset.nanos,
    decreases events.len(),
{
    if events.len() > 0 {
        let rest = events.drop_last();
        law_by_offset_sorts(rest);
        let front = by_offset(rest);
        let last = events.last();
        let at = first_after(front, last.offset.nanos as int);
        lemma_first_after(front, last.offset.nanos as int);
        let all = by_offset(events);
        assert(all == front.insert(at, last));
        vstd::seq_lib::to_multiset_insert(front, at, last);
        assert(events =~= rest.push(last));
        vstd::seq_lib::to_multiset_build(rest, last);
        assert forall|i: int, j: int| 0 <= i <= j < events.len() implies (
        #[trigger] all[i]).offset.nanos <= (#[trigger] all[j]).offset.nanos by {
            if j < at {
                assert(all[i] == front[i] && all[j] == front[j]);
            } else if j == at {
                if i < at {
                    assert(all[i] == front[i]);
                }
            } else {
                assert(all[j] == front[j - 1]);
                assert(front[at].offset.nanos <= front[j - 1].offset.nanos);
                if i < at {
                    assert(all[i] == front[i]);
                } else if i > at {
                    assert(all[i] == front[i - 1]);
                }
            }
        }
    }
}

/// The index of the first event later than `nanos`.
fn position_after(events: &Vec<LoopEvent>, nanos: u64) -> (at: usize)
    ensures
        at == first_after(events@, nanos as int),
        at <= events@.len(),
{
    let mut at: usize = 0;
    while at < events.len() && events[at].offset.nanos <= nanos
        invariant
            at <= events@.len(),
            forall|i: int| 0 <= i < at ==> (#[trigger] events@[i]).offset.nanos <= nanos,
        decreases events@.len() - at,
    {
        at += 1;
    }
    proof {
        lemma_first_after_is(events@, nanos as int, at as int);
    }
    at
}

/// Orders events by offset.
fn sort_events(events: &Vec<LoopEvent>) -> (sorted: Vec<LoopEvent>)
    ensures
        sorted@ == by_offset(events@),
{
    let mut sorted: Vec<LoopEvent> = Vec::new();
    let mut i: usize = 0;
    while i < events.len()
        invariant
            i <= events@.len(),
            sorted@ == by_offset(events@.take(i as int)),
        decreases events@.len() - i,
    {
        let event = events[i];
        let at = position_after(&sorted, event.offset.nanos);
        sorted.insert(at, event);
        assert(events@.take(i + 1).drop_last() =~= events@.take(i as int));
        i += 1;
    }
    assert(events@.take(i as int) =~= events@);
    sorted
}

// ---------------------------------------------------------------------
// Sounding notes
// ---------------------------------------------------------------------

/// The held notes without those of one channel and key.
pub open spec fn without(held: Seq<(u8, u8)>, channel: u8, key: u8) -> Seq<(u8, u8)>
    decreases held.len(),
{
    if held.len() == 0 {
        held
    } else {
        let front = without(held.drop_last(), channel, key);
        if held.last().0 % 16 == channel && held.last().1 == key {
            front
        } else {
            front.push(held.last())
        }
    }
}

/// The notes that sound after a message, as (status, key): a note-on adds
/// one, a note-off (or a note-on of velocity 0) ends those of its channel
/// and key.
pub open spec fn held_after(held: Seq<(u8, u8)>, bytes: Seq<u8>) -> Seq<(u8, u8)> {
    let kind = bytes[0] / 16;
    if kind == 0x9 && bytes[2] > 0 {
        held.push((bytes[0], bytes[1]))
    } else if kind == 0x8 || kind == 0x9 {
        without(held, (bytes[0] % 16) as u8, bytes[1])
    } else {
        held
    }
}

/// The notes that sound after a run of messages.
pub open spec fn sounding(held: Seq<(u8, u8)>, messages: Seq<RtView>) -> Seq<(u8, u8)>
    decreases messages.len(),
{
    if messages.len() == 0 {
        held
    } else {
        held_after(sounding(held, messages.drop_last()), messages.last().bytes)
    }
}

/// The note-off that ends a held note.
pub open spec fn note_off(held: (u8, u8)) -> RtView {
    RtView {
        timestamp_us: 0,
        len: 3,
        bytes: seq![(0x80 + held.0 % 16) as u8, held.1, 0u8],
    }
}

/// The note-offs that end all held notes.
pub open spec fn releases(held: Seq<(u8, u8)>) -> Seq<RtView> {
    held.map_values(|h: (u8, u8)| note_off(h))
}

/// Once all held notes are released, none sounds.
pub proof fn law_releases_end_every_note(held: Seq<(u8, u8)>)
    ensures
        sounding(held, releases(held)) == Seq::<(u8, u8)>::empty(),
{
    lemma_releases(held, held.len());
    assert(releases(held).take(held.len() as int) =~= releases(held));
    assert forall|h: (u8, u8)| sounding(held, releases(held)).contains(h) implies false by {
        let i = choose|i: int| 0 <= i < held.len() && held[i] == h;
        assert(held[i] == h);
    }
    if sounding(held, releases(held)).len() > 0 {
        assert(sounding(held, releases(held)).contains(sounding(held, releases(held))[0]));
    }
    assert(sounding(held, releases(held)) =~= Seq::<(u8, u8)>::empty());
}

proof fn lemma_without(held: Seq<(u8, u8)>, channel: u8, key: u8)
    ensures
        forall|h: (u8, u8)| #[trigger]
            without(held, channel, key).contains(h) ==> held.contains(h) && !(h.0 % 16 == channel
                && h.1 == key),
    decreases held.len(),
{
    if held.len() > 0 {
        lemma_without(held.drop_last(), channel, key);
        let front = without(held.drop_last(), channel, key);
        assert forall|h: (u8, u8)| #[trigger]
            without(held, channel, key).contains(h) implies held.contains(h) && !(h.0 % 16
            == channel && h.1 == key) by {
            if front.contains(h) {
                let i = choose|i: int|
                    0 <= i < held.drop_last().len() && held.drop_last()[i] == h;
                assert(held[i] == h);
            } else {
                let k = choose|k: int|
                    0 <= k < without(held, channel, key).len() && without(held, channel, key)[k]
                        == h;
                if k < front.len() {
                    assert(front[k] == h);
                }
                assert(h == held.last());
                assert(held[held.len() - 1] == h);
            }
        }
    }
}

proof fn lemma_releases(held: Seq<(u8, u8)>, n: nat)
    requires
        n <= held.len(),
    ensures
        forall|h: (u8, u8)| #[trigger]
            sounding(held, releases(held).take(n as int)).contains(h) ==> held.contains(h)
                && forall|i: int| 0 <= i < n ==> #[trigger] held[i] != h,
    decreases n,
{
    if n > 0 {
        let m = (n - 1) as nat;
        lemma_releases(held, m);
        let messages = releases(held).take(n as int);
        assert(messages.drop_last() =~= releases(held).take(m as int));
        let before = sounding(held, messages.drop_last());
        let off = note_off(held[m as int]);
        assert(messages.last() == off);
        let status = off.bytes[0];
        assert(status / 16 == 0x8 && status % 16 == held[m as int].0 % 16);
        lemma_without(before, (status % 16) as u8, held[m as int].1);
        assert(sounding(held, messages) == without(before, (status % 16) as u8, held[m as int].1));
    } else {
        assert(releases(held).take(0) =~= Seq::<RtView>::empty());
    }
}

// ---------------------------------------------------------------------
// Playback of one loop
// ---------------------------------------------------------------------

/// The state of a [`Playback`].
#[verifier::ext_equal]
pub struct PlaybackView {
    pub events: Seq<LoopEvent>,
    pub length: Duration,
    pub playing: bool,
    pub epoch: Instant,
    pub cycle: nat,
    pub next_index: nat,
    pub held: Seq<(u8, u8)>,
}

/// Replays one loop, with events in the order of their offsets.
pub struct Playback {
    events: Vec<LoopEvent>,
    length: Duration,
    playing: bool,
    epoch: Instant,
    cycle: u64,
    next_index: usize,
    /// Notes the loop has switched on, to release on stop (status, key).
    held: Vec<(u8, u8)>,
}

impl View for Playback {
    type V = PlaybackView;

    closed spec fn view(&self) -> PlaybackView {
        PlaybackView {
            events: self.events@,
            length: self.length,
            playing: self.playing,
            epoch: self.epoch,
            cycle: self.cycle as nat,
            next_index: self.next_index as nat,
            held: self.held@,
        }
    }
}

/// The number of passes that are over at `now`, of a loop that started at
/// `epoch`.
pub open spec fn pass_at(epoch: Instant, now: Instant, length: Duration) -> int {
    crate::time::nanos_between(epoch, now) / (if length.nanos == 0 {
        1
    } else {
        length.nanos as int
    })
}

impl PlaybackView {
    /// A loop that has events has a length, and the next event is one of
    /// them or the end of the loop.
    pub open spec fn valid(self) -> bool {
        &&& self.events.len() > 0 ==> self.length.nanos > 0
        &&& self.playing ==> self.next_index <= self.events.len()
    }

    /// Whether a command keeps the loop playable: events need a loop of
    /// some length to lie in.
    pub open spec fn accepts(self, command: CommandView) -> bool {
        match command {
            CommandView::Start { events, length } => events.len() > 0 ==> length.nanos > 0,
            CommandView::Overdub(extra) => extra.len() > 0 ==> self.length.nanos > 0,
            _ => true,
        }
    }

    /// The number of events played since the epoch, counting every pass.
    pub open spec fn position(self) -> int {
        self.cycle as int * self.events.len() as int + self.next_index
    }

    /// When the event at a position is due.
    pub open spec fn due(self, position: int) -> int {
        let n = self.events.len() as int;
        self.epoch.nanos + self.length.nanos * (position / n) + self.events[position
            % n].offset.nanos
    }

    /// The message at a position.
    pub open spec fn message(self, position: int) -> RtView {
        let event = self.events[position % (self.events.len() as int)];
        RtView { timestamp_us: 0, len: event.len, bytes: event.bytes@ }
    }

    /// Playing from the top, with nothing held.
    pub open spec fn restarted(self, now: Instant) -> PlaybackView {
        PlaybackView {
            playing: true,
            epoch: now,
            cycle: 0,
            next_index: 0,
            held: Seq::empty(),
            ..self
        }
    }

    /// At the playhead: in the pass that `now` lies in, with the events
    /// later than it still to come.
    pub open spec fn at_playhead(self, now: Instant) -> PlaybackView {
        PlaybackView {
            cycle: pass_at(self.epoch, now, self.length) as nat,
            next_index: first_after(
                self.events,
                crate::app_core::looper::in_cycle(self.epoch, now, self.length),
            ) as nat,
            ..self
        }
    }

    /// The state after a command, and the messages it sends.
    pub open spec fn commanded(self, command: CommandView, now: Instant) -> (
        PlaybackView,
        Seq<RtView>,
    ) {
        match command {
            CommandView::Start { events, length } => (
                PlaybackView { events: by_offset(events), length, ..self }.restarted(now),
                releases(self.held),
            ),
            CommandView::Overdub(extra) => {
                let added = PlaybackView { events: by_offset(self.events + extra), ..self };
                (
                    // Events at or before the playhead wait for the next
                    // pass.
                    if self.playing {
                        added.at_playhead(now)
                    } else {
                        added
                    },
                    Seq::empty(),
                )
            },
            CommandView::Restart => if self.events.len() > 0 {
                (self.restarted(now), releases(self.held))
            } else {
                (self, Seq::empty())
            },
            CommandView::Stop => (
                PlaybackView { playing: false, held: Seq::empty(), ..self },
                releases(self.held),
            ),
            CommandView::Clear => (
                PlaybackView {
                    playing: false,
                    held: Seq::empty(),
                    events: Seq::empty(),
                    length: Duration { nanos: 0 },
                    ..self
                },
                releases(self.held),
            ),
        }
    }

    /// Whether the loop sounds: it plays and has events.
    pub open spec fn running(self) -> bool {
        self.playing && self.events.len() > 0
    }
}

/// Whether `next` and `out` are what becomes of `state` at `now`: every
/// event that is due is sent, in order, up to the first that is not.
pub open spec fn fires(
    state: PlaybackView,
    now: Instant,
    next: PlaybackView,
    out: Seq<RtView>,
) -> bool {
    if state.running() {
        let from = state.position();
        let to = next.position();
        &&& from <= to
        &&& forall|k: int| from <= k < to ==> #[trigger] state.due(k) <= now.nanos
        &&& now.nanos < state.due(to)
        &&& out == Seq::new((to - from) as nat, |j: int| state.message(from + j))
        &&& next == PlaybackView {
            cycle: next.cycle,
            next_index: next.next_index,
            held: sounding(state.held, out),
            ..state
        }
        &&& next.next_index < next.events.len() || next.next_index == next.events.len()
            && now.nanos < next.epoch.nanos + next.length.nanos * (next.cycle + 1)
        &&& state.cycle <= next.cycle
        &&& state.cycle < next.cycle ==> next.epoch.nanos + next.length.nanos * next.cycle
            <= now.nanos
    } else {
        next == state && out == Seq::<RtView>::empty()
    }
}

/// How long playback may sleep: until the next event or the end of the
/// loop, but at most 20 ms; 50 ms where nothing plays.
pub open spec fn sleep_nanos(state: PlaybackView, now: Instant) -> int {
    if state.running() {
        let due = if state.next_index < state.events.len() {
            state.epoch.nanos + state.length.nanos * state.cycle
                + state.events[state.next_index as int].offset.nanos
        } else {
            state.epoch.nanos + state.length.nanos * (state.cycle + 1)
        };
        if due <= now.nanos {
            0
        } else if due - now.nanos <= 20_000_000 {
            due - now.nanos
        } else {
            20_000_000
        }
    } else {
        50_000_000
    }
}

proof fn lemma_position(n: int, cycle: int, index: int)
    requires
        n > 0,
        0 <= index < n,
        cycle >= 0,
    ensures
        (cycle * n + index) / n == cycle,
        (cycle * n + index) % n == index,
{
    vstd::arithmetic::div_mod::lemma_fundamental_div_mod_converse(
        cycle * n + index,
        n,
        cycle,
        index,
    );
}

/// `epoch + length * cycle + offset`, in nanoseconds.
fn due_nanos(epoch: Instant, length: Duration, cycle: u64, offset: u64) -> (due: u128)
    ensures
        due == epoch.nanos + length.nanos * cycle + offset,
{
    let l: u64 = length.nanos;
    assert(0 <= l * cycle <= u64::MAX * u64::MAX) by (nonlinear_arith)
        requires
            0 <= l <= u64::MAX,
            0 <= cycle <= u64::MAX,
    ;
    epoch.nanos as u128 + length.nanos as u128 * cycle as u128 + offset as u128
}

/// `epoch + length * (cycle + 1)`, in nanoseconds.
fn wrap_nanos(epoch: Instant, length: Duration, cycle: u64) -> (at: u128)
    ensures
        at == epoch.nanos + length.nanos * (cycle + 1),
{
    let l: u64 = length.nanos;
    assert(l * (cycle + 1) == l * cycle + l) by (nonlinear_arith);
    due_nanos(epoch, length, cycle, length.nanos)
}

fn copy_held(held: &Vec<(u8, u8)>, channel: u8, key: u8) -> (r: Vec<(u8, u8)>)
    ensures
        r@ == without(held@, channel, key),
{
    let mut r: Vec<(u8, u8)> = Vec::new();
    let mut i: usize = 0;
    while i < held.len()
        invariant
            i <= held@.len(),
            r@ == without(held@.take(i as int), channel, key),
        decreases held@.len() - i,
    {
        assert(held@.take(i + 1).drop_last() =~= held@.take(i as int));
        let h = held[i];
        if !(h.0 % 16 == channel && h.1 == key) {
            r.push(h);
        }
        i += 1;
    }
    assert(held@.take(i as int) =~= held@);
    r
}

impl Playback {
    /// A playback without a loop.
    pub fn new(now: Instant) -> (p: Self)
        ensures
            p@.valid(),
            p@ == (PlaybackView {
                events: Seq::empty(),
                length: Duration { nanos: 0 },
                playing: false,
                epoch: now,
                cycle: 0,
                next_index: 0,
                held: Seq::empty(),
            }),
    {
        Playback {
            events: Vec::new(),
            length: Duration { nanos: 0 },
            playing: false,
            epoch: now,
            cycle: 0,
            next_index: 0,
            held: Vec::new(),
        }
    }

    /// Whether a command keeps the loop playable.
    pub fn accepts(&self, command: &LooperCommand) -> (r: bool)
        ensures
            r == self@.accepts(command@),
    {
        match command {
            LooperCommand::Start { events, length } => events.len() == 0 || length.nanos > 0,
            LooperCommand::Overdub(extra) => extra.len() == 0 || self.length.nanos > 0,
            _ => true,
        }
    }

    /// How long to sleep before the next event is due.
    pub fn timeout(&self, now: Instant) -> (d: Duration)
        requires
            self@.valid(),
        ensures
            d.nanos == sleep_nanos(self@, now),
    {
        if self.playing && self.events.len() > 0 {
            let due: u128 = if self.next_index < self.events.len() {
                due_nanos(
                    self.epoch,
                    self.length,
                    self.cycle,
                    self.events[self.next_index].offset.nanos,
                )
            } else {
                wrap_nanos(self.epoch, self.length, self.cycle)
            };
            let at: u128 = now.nanos as u128;
            if due <= at {
                Duration { nanos: 0 }
            } else if due - at <= 20_000_000 {
                Duration { nanos: (due - at) as u64 }
            } else {
                Duration { nanos: 20_000_000 }
            }
        } else {
            Duration { nanos: 50_000_000 }
        }
    }

    /// Ends every note that the loop holds.
    pub fn release(&mut self) -> (out: Vec<RtMidi>)
        ensures
            crate::engine::events::rt_views(out@) == releases(old(self)@.held),
            final(self)@ == (PlaybackView { held: Seq::empty(), ..old(self)@ }),
    {
        let mut out: Vec<RtMidi> = Vec::new();
        let mut i: usize = 0;
        while i < self.held.len()
            invariant
                i <= self.held@.len(),
                *self == *old(self),
                crate::engine::events::rt_views(out@) == releases(self.held@.take(i as int)),
            decreases self.held@.len() - i,
        {
            let (status, key) = self.held[i];
            let ghost before = out@;
            out.push(RtMidi { timestamp_us: 0, len: 3, bytes: [0x80 + status % 16, key, 0] });
            proof {
                assert(out@.last()@.bytes =~= note_off(self.held@[i as int]).bytes);
                assert(crate::engine::events::rt_views(out@) =~= crate::engine::events::rt_views(
                    before,
                ).push(out@.last()@));
                assert(releases(self.held@.take(i + 1)) =~= releases(
                    self.held@.take(i as int),
                ).push(note_off(self.held@[i as int])));
            }
            i += 1;
        }
        assert(self.held@.take(i as int) =~= self.held@);
        self.held = Vec::new();
        assert(self@ =~= (PlaybackView { held: Seq::empty(), ..old(self)@ }));
        out
    }

    /// Forgets what is held: the ring buffer it was sent to is gone.
    pub fn forget_held(&mut self)
        ensures
            final(self)@ == (PlaybackView { held: Seq::empty(), ..old(self)@ }),
    {
        self.held = Vec::new();
        assert(self@ =~= (PlaybackView { held: Seq::empty(), ..old(self)@ }));
    }

    fn restart(&mut self, now: Instant) -> (out: Vec<RtMidi>)
        ensures
            crate::engine::events::rt_views(out@) == releases(old(self)@.held),
            final(self)@ == old(self)@.restarted(now),
    {
        let out = self.release();
        self.playing = true;
        self.epoch = now;
        self.cycle = 0;
        self.next_index = 0;
        assert(self@ =~= old(self)@.restarted(now));
        out
    }

    /// Carries out a command; returns the messages it sends.
    pub fn command(&mut self, command: LooperCommand, now: Instant) -> (out: Vec<RtMidi>)
        requires
            old(self)@.valid(),
            old(self)@.accepts(command@),
        ensures
            final(self)@.valid(),
            (final(self)@, crate::engine::events::rt_views(out@)) == old(self)@.commanded(
                command@,
                now,
            ),
    {
        let ghost want = self@.commanded(command@, now);
        match command {
            LooperCommand::Start { events, length } => {
                proof {
                    law_by_offset_sorts(events@);
                }
                self.events = sort_events(&events);
                self.length = length;
                let out = self.restart(now);
                assert(self@ =~= want.0);
                out
            },
            LooperCommand::Overdub(extra) => {
                let mut extra = extra;
                let mut all: Vec<LoopEvent> = Vec::new();
                all.append(&mut self.events);
                all.append(&mut extra);
                assert(all@ =~= old(self)@.events + command->Overdub_0@);
                proof {
                    law_by_offset_sorts(all@);
                }
                self.events = sort_events(&all);
                if self.playing {
                    let span: u64 = if self.length.nanos == 0 {
                        1
                    } else {
                        self.length.nanos
                    };
                    let elapsed: u64 = now.duration_since(self.epoch).nanos;
                    self.cycle = elapsed / span;
                    self.next_index = position_after(&self.events, elapsed % span);
                }
                let out: Vec<RtMidi> = Vec::new();
                assert(self@ =~= want.0);
                assert(crate::engine::events::rt_views(out@) =~= want.1);
                out
            },
            LooperCommand::Restart => {
                if self.events.len() > 0 {
                    self.restart(now)
                } else {
                    let out: Vec<RtMidi> = Vec::new();
                    assert(crate::engine::events::rt_views(out@) =~= want.1);
                    out
                }
            },
            LooperCommand::Stop => {
                self.playing = false;
                let out = self.release();
                assert(self@ =~= want.0);
                out
            },
            LooperCommand::Clear => {
                self.playing = false;
                let out = self.release();
                self.events = Vec::new();
                self.length = Duration { nanos: 0 };
                assert(self@ =~= want.0);
                out
            },
        }
    }

    fn track(&mut self, event: &LoopEvent)
        ensures
            final(self)@ == (PlaybackView {
                held: held_after(old(self)@.held, event.bytes@),
                ..old(self)@
            }),
    {
        let kind: u8 = event.bytes[0] / 16;
        if kind == 0x9 && event.bytes[2] > 0 {
            self.held.push((event.bytes[0], event.bytes[1]));
        } else if kind == 0x8 || kind == 0x9 {
            self.held = copy_held(&self.held, event.bytes[0] % 16, event.bytes[1]);
        }
        assert(self@ =~= (PlaybackView {
            held: held_after(old(self)@.held, event.bytes@),
            ..old(self)@
        }));
    }

    /// Sends everything due.
    pub fn fire(&mut self, now: Instant) -> (out: Vec<RtMidi>)
        requires
            old(self)@.valid(),
        ensures
            final(self)@.valid(),
            fires(
                old(self)@,
                now,
                final(self)@,
                crate::engine::events::rt_views(out@),
            ),
    {
        let mut out: Vec<RtMidi> = Vec::new();
        if !self.playing || self.events.len() == 0 {
            assert(crate::engine::events::rt_views(out@) =~= Seq::<RtView>::empty());
            return out;
        }
        let ghost state = self@;
        let ghost n = self.events@.len() as int;
        let ghost from = state.position();
        let size: usize = self.events.len();
        let mut open = true;
        assert(crate::engine::events::rt_views(out@) =~= Seq::new(
            0,
            |j: int| state.message(from + j),
        ));
        while open
            invariant
                size == n,
                n == self.events@.len(),
                n > 0,
                state == old(self)@,
                state.valid(),
                state.running(),
                from == state.position(),
                self@ == (PlaybackView {
                    cycle: self@.cycle,
                    next_index: self@.next_index,
                    held: sounding(state.held, crate::engine::events::rt_views(out@)),
                    ..state
                }),
                self.next_index <= n,
                from <= self@.position(),
                forall|k: int|
                    from <= k < self@.position() ==> #[trigger] state.due(k) <= now.nanos,
                crate::engine::events::rt_views(out@) == Seq::new(
                    (self@.position() - from) as nat,
                    |j: int| state.message(from + j),
                ),
                !open ==> now.nanos < state.due(self@.position()),
                !open ==> self.next_index < n || now.nanos < state.epoch.nanos
                    + state.length.nanos * (self.cycle + 1),
                state.cycle <= self.cycle,
                state.cycle < self.cycle ==> state.epoch.nanos + state.length.nanos * self.cycle
                    <= now.nanos,
            decreases
                    (if open { 1int } else { 0int }),
                    now.nanos - state.epoch.nanos - state.length.nanos * self.cycle,
                    n - self.next_index,
        {
            let ghost cycle = self.cycle as int;
            let ghost length = self.length.nanos as int;
            if self.next_index >= size {
                let wrap_at: u128 = wrap_nanos(self.epoch, self.length, self.cycle);
                proof {
                    assert((cycle + 1) * n == cycle * n + n) by (nonlinear_arith);
                    lemma_position(n, cycle + 1, 0);
                    assert(self@.position() == (cycle + 1) * n + 0);
                }
                if now.nanos as u128 >= wrap_at {
                    assert(length * (cycle + 1) >= cycle + 1) by (nonlinear_arith)
                        requires
                            length >= 1,
                            cycle >= 0,
                    ;
                    assert(length * (cycle + 1) == length * cycle + length) by (nonlinear_arith);
                    self.cycle = self.cycle + 1;
                    self.next_index = 0;
                    assert(self@ =~= (PlaybackView {
                        cycle: self@.cycle,
                        next_index: self@.next_index,
                        held: sounding(state.held, crate::engine::events::rt_views(out@)),
                        ..state
                    }));
                } else {
                    open = false;
                }
            }
            if open {
                let ghost position = self@.position();
                let event = self.events[self.next_index];
                let due: u128 = due_nanos(
                    self.epoch,
                    self.length,
                    self.cycle,
                    event.offset.nanos,
                );
                proof {
                    lemma_position(n, self.cycle as int, self.next_index as int);
                    assert(state.due(position) == due);
                }
                if now.nanos as u128 >= due {
                    let ghost before = crate::engine::events::rt_views(out@);
                    self.track(&event);
                    out.push(RtMidi { timestamp_us: 0, len: event.len, bytes: event.bytes });
                    self.next_index = self.next_index + 1;
                    proof {
                        let after = crate::engine::events::rt_views(out@);
                        assert(after =~= before.push(state.message(position)));
                        assert(after.drop_last() =~= before);
                        assert(after =~= Seq::new(
                            (self@.position() - from) as nat,
                            |j: int| state.message(from + j),
                        ));
                        assert(self@ =~= (PlaybackView {
                            cycle: self@.cycle,
                            next_index: self@.next_index,
                            held: sounding(state.held, after),
                            ..state
                        }));
                    }
                } else {
                    open = false;
                }
            }
        }
        out
    }
}

/// What a loop holds is what sounds of the messages it has sent, and each
/// command that ends or restarts playback ends every note: none hangs.
pub proof fn law_no_note_hangs(state: PlaybackView, command: CommandView, now: Instant)
    ensures
        ({
            let (next, out) = state.commanded(command, now);
            &&& next.held == sounding(state.held, out)
            &&& match command {
                CommandView::Overdub(_) => next.held == state.held,
                CommandView::Restart => state.events.len() > 0 ==> next.held == Seq::<
                    (u8, u8),
                >::empty(),
                _ => next.held == Seq::<(u8, u8)>::empty(),
            }
        }),
{
    law_releases_end_every_note(state.held);
}

/// What a loop holds stays what sounds of the messages it sends while it
/// plays.
pub proof fn law_held_notes_are_those_sounding(
    state: PlaybackView,
    now: Instant,
    next: PlaybackView,
    out: Seq<RtView>,
)
    requires
        fires(state, now, next, out),
    ensures
        next.held == sounding(state.held, out),
{
}

/// A loop played from the top first sends its first event, once it is due.
pub proof fn law_restart_plays_from_the_top(state: PlaybackView, now: Instant)
    requires
        state.valid(),
        state.events.len() > 0,
    ensures
        ({
            let next = state.commanded(CommandView::Restart, now).0;
            &&& next.running()
            &&& next.position() == 0
            &&& next.due(0) == now.nanos + state.events[0].offset.nanos
        }),
{
    let n = state.events.len() as int;
    lemma_position(n, 0, 0);
}

/// An overdub leaves the playback where it is: nothing is due at once, and
/// exactly the events later than the playhead are still to come in this
/// pass.
pub proof fn law_overdub_keeps_the_playhead(
    state: PlaybackView,
    extra: Seq<LoopEvent>,
    now: Instant,
)
    requires
        state.valid(),
        state.playing,
        state.accepts(CommandView::Overdub(extra)),
        state.events.len() + extra.len() > 0,
    ensures
        ({
            let (next, out) = state.commanded(CommandView::Overdub(extra), now);
            let playhead = crate::app_core::looper::in_cycle(state.epoch, now, state.length);
            &&& out == Seq::<RtView>::empty()
            &&& next.running()
            &&& next.epoch == state.epoch && next.length == state.length
            &&& next.held == state.held
            &&& next.cycle == pass_at(state.epoch, now, state.length)
            &&& now.nanos < next.due(next.position())
            &&& forall|i: int|
                0 <= i < next.events.len() ==> (i >= next.next_index <==> (
                #[trigger] next.events[i]).offset.nanos > playhead)
        }),
{
    let next = state.commanded(CommandView::Overdub(extra), now).0;
    let all = state.events + extra;
    law_by_offset_sorts(all);
    let elapsed = crate::time::nanos_between(state.epoch, now);
    let length = state.length.nanos as int;
    let playhead = elapsed % length;
    lemma_first_after(next.events, playhead);
    let n = next.events.len() as int;
    vstd::arithmetic::div_mod::lemma_fundamental_div_mod(elapsed, length);
    vstd::arithmetic::div_mod::lemma_div_pos_is_pos(elapsed, length);
    let cycle = elapsed / length;
    assert(length * (cycle + 1) == length * cycle + length) by (nonlinear_arith);
    if next.next_index < n {
        lemma_position(n, cycle, next.next_index as int);
    } else {
        assert((cycle + 1) * n == cycle * n + n) by (nonlinear_arith);
        lemma_position(n, cycle + 1, 0);
    }
    assert forall|i: int| 0 <= i < next.events.len() implies (i >= next.next_index <==> (
    #[trigger] next.events[i]).offset.nanos > playhead) by {
        if i >= next.next_index {
            assert(next.events[next.next_index as int].offset.nanos > playhead);
            assert(by_offset(all)[next.next_index as int].offset.nanos
                <= by_offset(all)[i].offset.nanos);
        }
    }
}

/// After a stop the same loop plays again from the top; after a clear
/// there is nothing left to play.
pub proof fn law_restart_after_stop_or_clear(state: PlaybackView, now: Instant, later: Instant)
    requires
        state.valid(),
    ensures
        ({
            let stopped = state.commanded(CommandView::Stop, now).0;
            let again = stopped.commanded(CommandView::Restart, later).0;
            &&& !stopped.running()
            &&& state.events.len() > 0 ==> again.running() && again.events == state.events
                && again.length == state.length && again.position() == 0
        }),
        ({
            let cleared = state.commanded(CommandView::Clear, now).0;
            let (again, out) = cleared.commanded(CommandView::Restart, later);
            &&& out == Seq::<RtView>::empty()
            &&& again == cleared
            &&& !again.running()
        }),
{
    let n = state.events.len() as int;
    assert(0 * n == 0) by (nonlinear_arith);
}

// ---------------------------------------------------------------------
// Whole runs
// ---------------------------------------------------------------------

/// One step of a playback.
pub enum PlaybackStep {
    /// A command; one that would leave the loop unplayable is ignored.
    Command(CommandView, Instant),
    /// The passing of time.
    Fire(Instant),
    /// The end: every held note is released.
    Release,
}

/// Whether a step leads from one state to another and sends `out`.
pub open spec fn steps_to(
    state: PlaybackView,
    step: PlaybackStep,
    next: PlaybackView,
    out: Seq<RtView>,
) -> bool {
    match step {
        PlaybackStep::Command(command, now) => if state.accepts(command) {
            (next, out) == state.commanded(command, now)
        } else {
            next == state && out == Seq::<RtView>::empty()
        },
        PlaybackStep::Fire(now) => fires(state, now, next, out),
        PlaybackStep::Release => next == forgetful(state) && out == releases(state.held),
    }
}

/// Whether a playback that holds no note goes through `states` with the
/// `steps`, each sending its entry of `outs`.
pub open spec fn is_run(
    states: Seq<PlaybackView>,
    steps: Seq<PlaybackStep>,
    outs: Seq<Seq<RtView>>,
) -> bool {
    &&& states.len() == steps.len() + 1
    &&& outs.len() == steps.len()
    &&& states[0].held == Seq::<(u8, u8)>::empty()
    &&& forall|k: int|
        0 <= k < steps.len() ==> steps_to(
            states[k],
            #[trigger] steps[k],
            states[k + 1],
            outs[k],
        )
}

/// All that was sent, in order.
pub open spec fn sent_in_all(outs: Seq<Seq<RtView>>) -> Seq<RtView>
    decreases outs.len(),
{
    if outs.len() == 0 {
        Seq::empty()
    } else {
        sent_in_all(outs.drop_last()) + outs.last()
    }
}

/// Whether a step ends every note.
pub open spec fn ends_all_notes(step: PlaybackStep) -> bool {
    match step {
        PlaybackStep::Command(CommandView::Stop, _) => true,
        PlaybackStep::Command(CommandView::Clear, _) => true,
        PlaybackStep::Release => true,
        _ => false,
    }
}

/// Whether a message switches a note on.
pub open spec fn is_note_on(message: RtView) -> bool {
    message.bytes[0] / 16 == 0x9 && message.bytes[2] > 0
}

/// Whether a message ends the note that another one switched on.
pub open spec fn ends_note(message: RtView, on: RtView) -> bool {
    &&& message.bytes[0] / 16 == 0x8 || (message.bytes[0] / 16 == 0x9 && message.bytes[2] == 0)
    &&& message.bytes[0] % 16 == on.bytes[0] % 16
    &&& message.bytes[1] == on.bytes[1]
}

proof fn lemma_sounding_of_two(held: Seq<(u8, u8)>, a: Seq<RtView>, b: Seq<RtView>)
    ensures
        sounding(held, a + b) == sounding(sounding(held, a), b),
    decreases b.len(),
{
    if b.len() == 0 {
        assert(a + b =~= a);
    } else {
        lemma_sounding_of_two(held, a, b.drop_last());
        assert((a + b).drop_last() =~= a + b.drop_last());
        assert((a + b).last() == b.last());
    }
}

proof fn lemma_run_holds_what_sounds(
    states: Seq<PlaybackView>,
    steps: Seq<PlaybackStep>,
    outs: Seq<Seq<RtView>>,
    n: int,
)
    requires
        is_run(states, steps, outs),
        0 <= n <= steps.len(),
    ensures
        states[n].held == sounding(Seq::empty(), sent_in_all(outs.take(n))),
    decreases n,
{
    if n > 0 {
        lemma_run_holds_what_sounds(states, steps, outs, n - 1);
        let before = sent_in_all(outs.take(n - 1));
        let out = outs[n - 1];
        assert(outs.take(n).drop_last() =~= outs.take(n - 1));
        assert(outs.take(n).last() == out);
        lemma_sounding_of_two(Seq::empty(), before, out);
        let state = states[n - 1];
        assert(steps_to(state, steps[n - 1], states[n], out));
        match steps[n - 1] {
            PlaybackStep::Command(command, now) => {
                if state.accepts(command) {
                    law_no_note_hangs(state, command, now);
                }
            },
            PlaybackStep::Fire(now) => {
                law_held_notes_are_those_sounding(state, now, states[n], out);
            },
            PlaybackStep::Release => {
                law_releases_end_every_note(state.held);
            },
        }
    } else {
        assert(outs.take(0) =~= Seq::<Seq<RtView>>::empty());
    }
}

proof fn lemma_kept_while_not_ended(
    held: Seq<(u8, u8)>,
    messages: Seq<RtView>,
    on: RtView,
    note: (u8, u8),
)
    requires
        held.contains(note),
        note.0 == on.bytes[0],
        note.1 == on.bytes[1],
        forall|j: int| 0 <= j < messages.len() ==> !ends_note(#[trigger] messages[j], on),
    ensures
        sounding(held, messages).contains(note),
    decreases messages.len(),
{
    if messages.len() > 0 {
        let front = messages.drop_last();
        assert forall|j: int| 0 <= j < front.len() implies !ends_note(
            #[trigger] front[j],
            on,
        ) by {
            assert(front[j] == messages[j]);
        }
        lemma_kept_while_not_ended(held, front, on, note);
        let before = sounding(held, front);
        let last = messages.last();
        assert(!ends_note(messages[messages.len() - 1], on));
        let k = choose|k: int| 0 <= k < before.len() && before[k] == note;
        if last.bytes[0] / 16 == 0x9 && last.bytes[2] > 0 {
            assert(before.push((last.bytes[0], last.bytes[1]))[k] == note);
        } else if last.bytes[0] / 16 == 0x8 || last.bytes[0] / 16 == 0x9 {
            lemma_without_keeps(before, (last.bytes[0] % 16) as u8, last.bytes[1], note);
        }
    }
}

proof fn lemma_without_keeps(held: Seq<(u8, u8)>, channel: u8, key: u8, note: (u8, u8))
    requires
        held.contains(note),
        !(note.0 % 16 == channel && note.1 == key),
    ensures
        without(held, channel, key).contains(note),
    decreases held.len(),
{
    let front = held.drop_last();
    let rest = without(front, channel, key);
    let k = choose|k: int| 0 <= k < held.len() && held[k] == note;
    if k < front.len() {
        assert(front[k] == note);
        lemma_without_keeps(front, channel, key, note);
        let m = choose|m: int| 0 <= m < rest.len() && rest[m] == note;
        assert(without(held, channel, key)[m] == note);
    } else {
        assert(without(held, channel, key) == rest.push(note));
        assert(rest.push(note)[rest.len() as int] == note);
    }
}

/// However a loop is commanded and played, what it holds is what sounds of
/// all that it has sent.
pub proof fn law_a_run_holds_what_sounds(
    states: Seq<PlaybackView>,
    steps: Seq<PlaybackStep>,
    outs: Seq<Seq<RtView>>,
)
    requires
        is_run(states, steps, outs),
    ensures
        states.last().held == sounding(Seq::empty(), sent_in_all(outs)),
{
    lemma_run_holds_what_sounds(states, steps, outs, steps.len() as int);
    assert(outs.take(steps.len() as int) =~= outs);
}

/// No note is left hanging: after any run that ends with a stop, a clear or
/// the end of the playback, every note-on that was sent at all is followed
/// by a note-off of its channel and key.
pub proof fn law_a_run_leaves_no_note_hanging(
    states: Seq<PlaybackView>,
    steps: Seq<PlaybackStep>,
    outs: Seq<Seq<RtView>>,
    i: int,
)
    requires
        is_run(states, steps, outs),
        steps.len() > 0,
        ends_all_notes(steps.last()),
        0 <= i < sent_in_all(outs).len(),
        is_note_on(sent_in_all(outs)[i]),
    ensures
        exists|j: int|
            i < j < sent_in_all(outs).len() && ends_note(
                #[trigger] sent_in_all(outs)[j],
                sent_in_all(outs)[i],
            ),
{
    let all = sent_in_all(outs);
    let n = steps.len() as int;
    law_a_run_holds_what_sounds(states, steps, outs);
    assert(steps_to(states[n - 1], steps[n - 1], states[n], outs[n - 1]));
    assert(states.last().held =~= Seq::<(u8, u8)>::empty());
    if forall|j: int| i < j < all.len() ==> !ends_note(#[trigger] all[j], all[i]) {
        let (a, b) = (all.take(i + 1), all.skip(i + 1));
        assert(all =~= a + b);
        lemma_sounding_of_two(Seq::empty(), a, b);
        let note = (all[i].bytes[0], all[i].bytes[1]);
        let before = sounding(Seq::empty(), a.drop_last());
        assert(a.last() == all[i]);
        assert(sounding(Seq::empty(), a) == before.push(note));
        assert(before.push(note)[before.len() as int] == note);
        assert forall|j: int| 0 <= j < b.len() implies !ends_note(#[trigger] b[j], all[i]) by {
            assert(b[j] == all[i + 1 + j]);
        }
        lemma_kept_while_not_ended(before.push(note), b, all[i], note);
        assert(sounding(Seq::empty(), all).contains(note));
        assert(false);
    }
}

// ---------------------------------------------------------------------
// All slots
// ---------------------------------------------------------------------

/// Messages to the player. The ring buffers themselves stay with the
/// caller; the player keeps which slots have one of their own.
pub enum PlayerMsg {
    /// A command for one slot.
    Slot(usize, LooperCommand),
    /// A slot has got a ring buffer of its own.
    SlotRing(usize),
    /// A slot's own ring buffer is gone; it falls back to the shared one.
    SlotRingClear(usize),
    /// The shared ring buffer was replaced.
    Ring,
}

/// What a [`PlayerMsg`] says.
pub enum PlayerMsgView {
    Slot(usize, CommandView),
    SlotRing(usize),
    SlotRingClear(usize),
    Ring,
}

impl View for PlayerMsg {
    type V = PlayerMsgView;

    open spec fn view(&self) -> PlayerMsgView {
        match *self {
            PlayerMsg::Slot(slot, command) => PlayerMsgView::Slot(slot, command@),
            PlayerMsg::SlotRing(slot) => PlayerMsgView::SlotRing(slot),
            PlayerMsg::SlotRingClear(slot) => PlayerMsgView::SlotRingClear(slot),
            PlayerMsg::Ring => PlayerMsgView::Ring,
        }
    }
}

/// The state of a [`Player`].
#[verifier::ext_equal]
pub struct PlayerView {
    pub slots: Seq<PlaybackView>,
    /// Whether each slot has a ring buffer of its own.
    pub own: Seq<bool>,
}

/// A playback that has forgotten what it holds.
pub open spec fn forgetful(state: PlaybackView) -> PlaybackView {
    PlaybackView { held: Seq::empty(), ..state }
}

impl PlayerView {
    /// One playback for each slot, all of them valid.
    pub open spec fn valid(self) -> bool {
        &&& self.slots.len() == SLOTS
        &&& self.own.len() == SLOTS
        &&& forall|i: int| 0 <= i < SLOTS ==> (#[trigger] self.slots[i]).valid()
    }

    /// The state after a message, and what is sent to the ring buffer that
    /// the slot had before it. A slot that does not exist, and a command
    /// that would leave a loop unplayable, change nothing.
    pub open spec fn handled(self, msg: PlayerMsgView, now: Instant) -> (PlayerView, Seq<RtView>) {
        match msg {
            PlayerMsgView::Slot(slot, command) => if slot < SLOTS && self.slots[slot as int].accepts(
                command,
            ) {
                let (next, out) = self.slots[slot as int].commanded(command, now);
                (PlayerView { slots: self.slots.update(slot as int, next), ..self }, out)
            } else {
                (self, Seq::empty())
            },
            PlayerMsgView::SlotRing(slot) => if slot < SLOTS {
                (
                    PlayerView {
                        slots: self.slots.update(slot as int, forgetful(self.slots[slot as int])),
                        own: self.own.update(slot as int, true),
                    },
                    releases(self.slots[slot as int].held),
                )
            } else {
                (self, Seq::empty())
            },
            PlayerMsgView::SlotRingClear(slot) => if slot < SLOTS && self.own[slot as int] {
                (
                    PlayerView {
                        slots: self.slots.update(slot as int, forgetful(self.slots[slot as int])),
                        own: self.own.update(slot as int, false),
                    },
                    Seq::empty(),
                )
            } else {
                (self, Seq::empty())
            },
            PlayerMsgView::Ring => (
                PlayerView {
                    slots: Seq::new(
                        self.slots.len(),
                        |i: int|
                            if self.own[i] {
                                self.slots[i]
                            } else {
                                forgetful(self.slots[i])
                            },
                    ),
                    ..self
                },
                Seq::empty(),
            ),
        }
    }
}

/// Plays the loop slots side by side.
pub struct Player {
    slots: Vec<Playback>,
    own: Vec<bool>,
}

/// The views of a list of playbacks.
pub closed spec fn playback_views(slots: Seq<Playback>) -> Seq<PlaybackView> {
    slots.map_values(|p: Playback| p@)
}

impl View for Player {
    type V = PlayerView;

    closed spec fn view(&self) -> PlayerView {
        PlayerView { slots: playback_views(self.slots@), own: self.own@ }
    }
}

impl Player {
    /// All slots empty, on the shared ring buffer.
    pub fn new(now: Instant) -> (player: Self)
        ensures
            player@.valid(),
            forall|i: int|
                0 <= i < SLOTS ==> !player@.own[i] && (#[trigger] player@.slots[i]).events.len()
                    == 0 && !player@.slots[i].playing && player@.slots[i].held.len() == 0,
    {
        let mut slots: Vec<Playback> = Vec::new();
        let mut own: Vec<bool> = Vec::new();
        let mut i: usize = 0;
        while i < SLOTS
            invariant
                i <= SLOTS,
                slots@.len() == i,
                own@.len() == i,
                forall|j: int| 0 <= j < i ==> !(#[trigger] own@[j]),
                forall|j: int|
                    0 <= j < i ==> (#[trigger] slots@[j])@.valid() && slots@[j]@.events.len() == 0
                        && !slots@[j]@.playing && slots@[j]@.held.len() == 0,
            decreases SLOTS - i,
        {
            slots.push(Playback::new(now));
            own.push(false);
            i += 1;
        }
        let player = Player { slots, own };
        assert forall|i: int| 0 <= i < SLOTS implies !player@.own[i] && (
        #[trigger] player@.slots[i]).events.len() == 0 && !player@.slots[i].playing
            && player@.slots[i].held.len() == 0 && player@.slots[i].valid() by {
            assert(player@.slots[i] == player.slots@[i]@);
            assert(player@.own[i] == player.own@[i]);
        }
        player
    }

    /// Whether a slot has a ring buffer of its own.
    pub fn uses_own_ring(&self, slot: usize) -> (r: bool)
        requires
            self@.valid(),
        ensures
            r == (slot < SLOTS && self@.own[slot as int]),
    {
        slot < SLOTS && self.own[slot]
    }

    /// Handles a message; returns what is sent to the ring buffer that the
    /// slot had before.
    pub fn handle(&mut self, msg: PlayerMsg, now: Instant) -> (out: Vec<RtMidi>)
        requires
            old(self)@.valid(),
        ensures
            final(self)@.valid(),
            (final(self)@, crate::engine::events::rt_views(out@)) == old(self)@.handled(msg@, now),
    {
        let ghost want = self@.handled(msg@, now);
        let mut out: Vec<RtMidi> = Vec::new();
        assert(crate::engine::events::rt_views(out@) =~= Seq::<RtView>::empty());
        match msg {
            PlayerMsg::Slot(slot, command) => {
                if slot < SLOTS {
                    assert(self@.slots[slot as int] == self.slots@[slot as int]@);
                    if self.slots[slot].accepts(&command) {
                        out = self.slots[slot].command(command, now);
                        assert(self@ =~= want.0);
                    }
                }
            },
            PlayerMsg::SlotRing(slot) => {
                if slot < SLOTS {
                    assert(self@.slots[slot as int] == self.slots@[slot as int]@);
                    out = self.slots[slot].release();
                    self.own.set(slot, true);
                    assert(self@ =~= want.0);
                }
            },
            PlayerMsg::SlotRingClear(slot) => {
                if slot < SLOTS && self.own[slot] {
                    assert(self@.slots[slot as int] == self.slots@[slot as int]@);
                    self.slots[slot].forget_held();
                    self.own.set(slot, false);
                    assert(self@ =~= want.0);
                }
            },
            PlayerMsg::Ring => {
                let mut i: usize = 0;
                while i < SLOTS
                    invariant
                        i <= SLOTS,
                        old(self)@.valid(),
                        self.slots@.len() == SLOTS,
                        self.own == old(self).own,
                        want == old(self)@.handled(PlayerMsgView::Ring, now),
                        forall|j: int|
                            0 <= j < i ==> (#[trigger] self.slots@[j])@ == want.0.slots[j],
                        forall|j: int|
                            i <= j < SLOTS ==> #[trigger] self.slots@[j] == old(self).slots@[j],
                    decreases SLOTS - i,
                {
                    if !self.own[i] {
                        self.slots[i].forget_held();
                    }
                    assert(self.slots@[i as int]@ == want.0.slots[i as int]) by {
                        assert(old(self)@.slots[i as int] == old(self).slots@[i as int]@);
                    }
                    i += 1;
                }
                assert(self@ =~= want.0);
            },
        }
        assert forall|i: int| 0 <= i < SLOTS implies (#[trigger] self@.slots[i]).valid() by {
            assert(old(self)@.slots[i].valid());
        }
        out
    }

    /// Sends everything due, slot by slot: the messages for each.
    pub fn tick(&mut self, now: Instant) -> (out: Vec<Vec<RtMidi>>)
        requires
            old(self)@.valid(),
        ensures
            final(self)@.valid(),
            final(self)@.own == old(self)@.own,
            out@.len() == SLOTS,
            forall|i: int|
                0 <= i < SLOTS ==> fires(
                    old(self)@.slots[i],
                    now,
                    final(self)@.slots[i],
                    crate::engine::events::rt_views((#[trigger] out@[i])@),
                ),
    {
        let mut out: Vec<Vec<RtMidi>> = Vec::new();
        let mut i: usize = 0;
        while i < SLOTS
            invariant
                i <= SLOTS,
                old(self)@.valid(),
                out@.len() == i,
                self.slots@.len() == SLOTS,
                self.own == old(self).own,
                forall|j: int|
                    0 <= j < i ==> (#[trigger] self.slots@[j])@.valid() && fires(
                        old(self).slots@[j]@,
                        now,
                        self.slots@[j]@,
                        crate::engine::events::rt_views(out@[j]@),
                    ),
                forall|j: int| i <= j < SLOTS ==> #[trigger] self.slots@[j] == old(self).slots@[j],
            decreases SLOTS - i,
        {
            assert(old(self)@.slots[i as int] == old(self).slots@[i as int]@);
            let messages = self.slots[i].fire(now);
            out.push(messages);
            i += 1;
        }
        assert forall|i: int| 0 <= i < SLOTS implies (#[trigger] self@.slots[i]).valid() && fires(
            old(self)@.slots[i],
            now,
            self@.slots[i],
            crate::engine::events::rt_views(out@[i]@),
        ) by {
            assert(self@.slots[i] == self.slots@[i]@);
            assert(old(self)@.slots[i] == old(self).slots@[i]@);
        }
        assert forall|i: int| 0 <= i < SLOTS implies fires(
            old(self)@.slots[i],
            now,
            self@.slots[i],
            crate::engine::events::rt_views((#[trigger] out@[i])@),
        ) by {
            assert(self@.slots[i].valid());
        }
        out
    }

    /// How long to sleep before the next event of any slot is due.
    pub fn timeout(&self, now: Instant) -> (d: Duration)
        requires
            self@.valid(),
        ensures
            forall|i: int| 0 <= i < SLOTS ==> d.nanos <= #[trigger] sleep_nanos(self@.slots[i], now),
            exists|i: int| 0 <= i < SLOTS && d.nanos == #[trigger] sleep_nanos(self@.slots[i], now),
    {
        assert(self@.slots[0] == self.slots@[0]@);
        let mut least = self.slots[0].timeout(now);
        let mut i: usize = 1;
        assert(least.nanos == sleep_nanos(self@.slots[0], now));
        while i < SLOTS
            invariant
                1 <= i <= SLOTS,
                self@.valid(),
                forall|j: int|
                    0 <= j < i ==> least.nanos <= #[trigger] sleep_nanos(self@.slots[j], now),
                exists|j: int|
                    0 <= j < SLOTS && least.nanos == #[trigger] sleep_nanos(self@.slots[j], now),
            decreases SLOTS - i,
        {
            assert(self@.slots[i as int] == self.slots@[i as int]@);
            let d = self.slots[i].timeout(now);
            assert(d.nanos == sleep_nanos(self@.slots[i as int], now));
            if d.nanos < least.nanos {
                least = d;
            }
            i += 1;
        }
        least
    }

    /// Ends every note of every slot: the messages for each.
    pub fn finish(&mut self) -> (out: Vec<Vec<RtMidi>>)
        requires
            old(self)@.valid(),
        ensures
            out@.len() == SLOTS,
            forall|i: int|
                0 <= i < SLOTS ==> crate::engine::events::rt_views((#[trigger] out@[i])@)
                    == releases(old(self)@.slots[i].held),
            forall|i: int|
                0 <= i < SLOTS ==> (#[trigger] final(self)@.slots[i]) == forgetful(
                    old(self)@.slots[i],
                ),
            final(self)@.own == old(self)@.own,
    {
        let mut out: Vec<Vec<RtMidi>> = Vec::new();
        let mut i: usize = 0;
        while i < SLOTS
            invariant
                i <= SLOTS,
                out@.len() == i,
                self.slots@.len() == SLOTS,
                old(self).slots@.len() == SLOTS,
                self.own == old(self).own,
                forall|j: int|
                    0 <= j < i ==> (#[trigger] self.slots@[j])@ == forgetful(
                        old(self).slots@[j]@,
                    ),
                forall|j: int|
                    0 <= j < i ==> crate::engine::events::rt_views((#[trigger] out@[j])@)
                        == releases(old(self).slots@[j]@.held),
                forall|j: int| i <= j < SLOTS ==> #[trigger] self.slots@[j] == old(self).slots@[j],
            decreases SLOTS - i,
        {
            let messages = self.slots[i].release();
            out.push(messages);
            i += 1;
        }
        assert forall|i: int| 0 <= i < SLOTS implies (#[trigger] self@.slots[i]) == forgetful(
            old(self)@.slots[i],
        ) by {
            assert(self@.slots[i] == self.slots@[i]@);
        }
        out
    }
}

/// What one slot does leaves every other slot as it was.
pub proof fn law_slots_are_independent(
    player: PlayerView,
    slot: usize,
    command: CommandView,
    now: Instant,
    other: int,
)
    requires
        player.valid(),
        0 <= other < SLOTS,
        other != slot,
    ensures
        player.handled(PlayerMsgView::Slot(slot, command), now).0.slots[other]
            == player.slots[other],
{
}

proof fn lemma_due_grows(state: PlaybackView, from: int, to: int)
    requires
        state.events.len() > 0,
        0 <= from <= to,
        forall|i: int, j: int|
            0 <= i <= j < state.events.len() ==> (#[trigger] state.events[i]).offset.nanos <= (
            #[trigger] state.events[j]).offset.nanos,
        forall|i: int|
            0 <= i < state.events.len() ==> (#[trigger] state.events[i]).offset.nanos
                <= state.length.nanos,
    ensures
        state.due(from) <= state.due(to),
    decreases to - from,
{
    if from < to {
        let n = state.events.len() as int;
        let k = to - 1;
        lemma_due_grows(state, from, k);
        vstd::arithmetic::div_mod::lemma_fundamental_div_mod(k, n);
        vstd::arithmetic::div_mod::lemma_div_pos_is_pos(k, n);
        let (c, i) = (k / n, k % n);
        assert(n * c == c * n) by (nonlinear_arith);
        let length = state.length.nanos as int;
        if i + 1 < n {
            lemma_position(n, c, i + 1);
            assert(state.events[i].offset.nanos <= state.events[i + 1].offset.nanos);
        } else {
            assert((c + 1) * n == c * n + n) by (nonlinear_arith);
            lemma_position(n, c + 1, 0);
            assert(length * (c + 1) == length * c + length) by (nonlinear_arith);
            assert(state.events[i].offset.nanos <= length);
        }
    }
}

/// A loop that is started plays every event of every pass, at its offset
/// from the start of the pass, in the order of the offsets, and nothing
/// before its time: whenever playback looks, exactly the events that are due
/// have been sent, byte for byte.
pub proof fn law_every_pass_plays_every_event(
    state: PlaybackView,
    events: Seq<LoopEvent>,
    length: Duration,
    start: Instant,
    now: Instant,
    next: PlaybackView,
    out: Seq<RtView>,
    pass: nat,
    i: int,
)
    requires
        length.nanos > 0,
        forall|j: int| 0 <= j < events.len() ==> (#[trigger] events[j]).offset.nanos <= length.nanos,
        fires(state.commanded(CommandView::Start { events, length }, start).0, now, next, out),
        0 <= i < events.len(),
    ensures
        next.events.to_multiset() == events.to_multiset(),
        forall|a: int, b: int|
            0 <= a <= b < events.len() ==> (#[trigger] next.events[a]).offset.nanos <= (
            #[trigger] next.events[b]).offset.nanos,
        ({
            let k = pass * events.len() + i;
            let event = next.events[i];
            &&& k < out.len() <==> start.nanos + pass * length.nanos + event.offset.nanos
                <= now.nanos
            &&& k < out.len() ==> out[k].bytes == event.bytes@ && out[k].len == event.len
        }),
{
    let begun = state.commanded(CommandView::Start { events, length }, start).0;
    law_by_offset_sorts(events);
    let n = events.len() as int;
    let k = pass * n + i;
    lemma_position(n, pass as int, i);
    lemma_position(n, 0, 0);
    assert(0 * n == 0) by (nonlinear_arith);
    assert(k >= 0) by (nonlinear_arith)
        requires
            k == pass * n + i,
            n > 0,
            i >= 0,
    ;
    assert(begun.running());
    assert(begun.position() == 0);
    assert(pass * length.nanos == length.nanos * pass) by (nonlinear_arith);
    assert(begun.due(k) == start.nanos + pass * length.nanos + begun.events[i].offset.nanos);
    let to = next.position();
    assert(out.len() == to);
    assert forall|j: int| 0 <= j < begun.events.len() implies (
    #[trigger] begun.events[j]).offset.nanos <= length.nanos by {
        let e = begun.events[j];
        begun.events.to_multiset_ensures();
        events.to_multiset_ensures();
        assert(begun.events.contains(e));
        assert(events.to_multiset().count(e) > 0);
        assert(events.contains(e));
        let m = choose|m: int| 0 <= m < events.len() && events[m] == e;
        assert(events[m].offset.nanos <= length.nanos);
    }
    if k >= to {
        lemma_due_grows(begun, to, k);
    } else {
        assert(begun.due(k) <= now.nanos);
        assert(out[k] == begun.message(k));
    }
}

/// Whatever plays goes on where it was: between two looks exactly the events
/// that have become due meanwhile are sent, each once.
pub proof fn law_playing_on_sends_the_rest(
    state: PlaybackView,
    now: Instant,
    next: PlaybackView,
    out: Seq<RtView>,
    later: Instant,
    last: PlaybackView,
    more: Seq<RtView>,
)
    requires
        fires(state, now, next, out),
        fires(next, later, last, more),
        now.nanos <= later.nanos,
    ensures
        fires(state, later, last, out + more),
{
    if state.running() {
        let (from, mid, to) = (state.position(), next.position(), last.position());
        assert forall|k: int| from <= k < to implies #[trigger] state.due(k) <= later.nanos by {
            if k >= mid {
                assert(next.due(k) <= later.nanos);
            }
        }
        assert(next.due(to) == state.due(to));
        let all = Seq::new((to - from) as nat, |j: int| state.message(from + j));
        assert forall|j: int| 0 <= j < all.len() implies #[trigger] (out + more)[j] == all[j] by {
            if j >= out.len() {
                let m = j - out.len();
                assert(more[m] == next.message(mid + m));
            }
        }
        assert(out + more =~= all);
        lemma_sounding_of_two(state.held, out, more);
    } else {
        assert(out + more =~= out);
    }
}

/// Playback never sleeps past an event: it wakes when the next event, or the
/// next pass, is due, and at least every 20 ms while it plays; where nothing
/// plays, every 50 ms.
pub proof fn law_playback_wakes_in_time(state: PlaybackView, now: Instant)
    requires
        state.valid(),
    ensures
        ({
            let nap = sleep_nanos(state, now);
            let within = if state.next_index < state.events.len() {
                state.cycle * state.length.nanos + state.events[state.next_index as int].offset.nanos
            } else {
                (state.cycle + 1) * state.length.nanos
            };
            let due = state.epoch.nanos + within;
            if state.playing && state.events.len() > 0 {
                &&& 0 <= nap <= 20_000_000
                &&& nap > 0 ==> now.nanos + nap <= due
                &&& nap < 20_000_000 ==> due <= now.nanos + nap
            } else {
                nap == 50_000_000
            }
        }),
{
    let (l, c) = (state.length.nanos as int, state.cycle as int);
    assert(l * c == c * l) by (nonlinear_arith);
    assert(l * (c + 1) == (c + 1) * l) by (nonlinear_arith);
}

/// An overdub loses nothing: the loop holds its events and the new ones,
/// still in the order of their offsets, and its length stays.
pub proof fn law_overdub_adds_to_the_loop(
    state: PlaybackView,
    extra: Seq<LoopEvent>,
    now: Instant,
)
    ensures
        ({
            let next = state.commanded(CommandView::Overdub(extra), now).0;
            &&& next.events.to_multiset() == state.events.to_multiset().add(extra.to_multiset())
            &&& next.length == state.length && next.playing == state.playing
            &&& forall|a: int, b: int|
                0 <= a <= b < next.events.len() ==> (#[trigger] next.events[a]).offset.nanos <= (
                #[trigger] next.events[b]).offset.nanos
        }),
{
    law_by_offset_sorts(state.events + extra);
    vstd::seq_lib::lemma_multiset_commutative(state.events, extra);
}

/// Starting, stopping and clearing do what they say to the loop, and each
/// ends the notes that are held with a note-off of their channel and key.
pub proof fn law_commands_end_what_is_held(state: PlaybackView, command: CommandView, now: Instant)
    requires
        !(command is Overdub),
        command is Restart ==> state.events.len() > 0,
    ensures
        ({
            let (next, out) = state.commanded(command, now);
            &&& next.playing == (command is Start || command is Restart)
            &&& next.playing ==> next.epoch == now && next.cycle == 0 && next.next_index == 0
            &&& command is Restart || command is Stop ==> next.events == state.events
                && next.length == state.length
            &&& command is Clear ==> next.events.len() == 0 && next.length.nanos == 0
            &&& command matches CommandView::Start { length, .. } ==> next.length == length
            &&& out.len() == state.held.len()
            &&& forall|i: int|
                0 <= i < out.len() ==> {
                    &&& (#[trigger] out[i]).len == 3
                    &&& out[i].bytes == seq![
                        (0x80 + state.held[i].0 % 16) as u8,
                        state.held[i].1,
                        0u8,
                    ]
                }
        }),
{
}

/// A slot's messages reach it and no other; a slot that gets or loses a ring
/// buffer of its own ends what it holds on the old one, or forgets it with
/// the buffer; a new shared buffer makes those forget that used it.
pub proof fn law_player_messages_reach_their_slot(player: PlayerView, slot: usize, now: Instant)
    requires
        player.valid(),
    ensures
        ({
            let (given, out) = player.handled(PlayerMsgView::SlotRing(slot), now);
            let (taken, none) = player.handled(PlayerMsgView::SlotRingClear(slot), now);
            let (renewed, nothing) = player.handled(PlayerMsgView::Ring, now);
            &&& none.len() == 0 && nothing.len() == 0
            &&& slot < SLOTS ==> given.own[slot as int] && !taken.own[slot as int]
            &&& slot < SLOTS ==> out == releases(player.slots[slot as int].held)
            &&& slot < SLOTS ==> given.slots[slot as int].held.len() == 0
            &&& slot >= SLOTS ==> given == player && taken == player && out.len() == 0
            &&& renewed.own == player.own
            &&& forall|i: int|
                0 <= i < SLOTS ==> {
                    let (before, after) = (player.slots[i], #[trigger] renewed.slots[i]);
                    &&& player.own[i] ==> after == before
                    &&& !player.own[i] ==> after.held.len() == 0
                    &&& after.events == before.events && after.playing == before.playing
                    &&& after.due(after.position()) == before.due(before.position())
                }
            &&& forall|i: int|
                0 <= i < SLOTS && i != slot ==> {
                    &&& #[trigger] given.slots[i] == player.slots[i]
                    &&& taken.slots[i] == player.slots[i]
                    &&& given.own[i] == player.own[i] && taken.own[i] == player.own[i]
                }
            &&& slot < SLOTS && player.own[slot as int] ==> taken.slots[slot as int].held.len()
                == 0
            &&& slot < SLOTS && !player.own[slot as int] ==> taken == player
        }),
{
}

/// A command for a slot is carried out by that slot's playback alone.
pub proof fn law_commands_reach_their_slot(
    player: PlayerView,
    slot: usize,
    command: CommandView,
    now: Instant,
)
    requires
        player.valid(),
        slot < SLOTS,
        player.slots[slot as int].accepts(command),
    ensures
        ({
            let (next, out) = player.handled(PlayerMsgView::Slot(slot, command), now);
            &&& (next.slots[slot as int], out) == player.slots[slot as int].commanded(command, now)
            &&& next.own == player.own
        }),
{
}

/// A pass that has been played through lasts to its end: the next one begins
/// when the length of the loop is over, not before and not later.
pub proof fn law_a_pass_lasts_its_length(
    state: PlaybackView,
    now: Instant,
    next: PlaybackView,
    out: Seq<RtView>,
)
    requires
        state.running(),
        fires(state, now, next, out),
    ensures
        state.cycle <= next.cycle,
        state.cycle < next.cycle ==> now.nanos - state.epoch.nanos >= next.cycle
            * state.length.nanos,
        next.next_index <= state.events.len(),
        next.next_index == state.events.len() ==> now.nanos - state.epoch.nanos < (next.cycle + 1)
            * state.length.nanos,
        next.epoch == state.epoch && next.length == state.length && next.events == state.events,
        next.playing,
{
    let (l, c) = (state.length.nanos as int, next.cycle as int);
    assert(l * c == c * l) by (nonlinear_arith);
    assert(l * (c + 1) == (c + 1) * l) by (nonlinear_arith);
}

} // verus!
