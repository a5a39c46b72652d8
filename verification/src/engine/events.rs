//! Bridging MIDI input to CLAP events for the audio thread.
//!
//! [`RtMidi`] is the fixed-size message pushed through the ring buffer (no
//! allocation on either side). [`EventCollector`] drains the ring buffer
//! inside the audio callback and fills a reusable list of CLAP events.

use vstd::prelude::*;
use vstd::slice::slice_subrange;

use crate::engine::ring::take;
use crate::midi::event::{MidiMessage, MidiView};

verus! {

/// A raw short MIDI message with its timestamp (microseconds). SysEx and
/// other long messages never enter the ring buffer.
#[derive(Debug, Clone, Copy)]
pub struct RtMidi {
    pub timestamp_us: u64,
    pub len: u8,
    pub bytes: [u8; 3],
}

/// What an [`RtMidi`] holds.
pub struct RtView {
    pub timestamp_us: u64,
    pub len: u8,
    pub bytes: Seq<u8>,
}

impl View for RtMidi {
    type V = RtView;

    open spec fn view(&self) -> RtView {
        RtView { timestamp_us: self.timestamp_us, len: self.len, bytes: self.bytes@ }
    }
}

/// What a list of messages holds.
pub open spec fn rt_views(messages: Seq<RtMidi>) -> Seq<RtView> {
    messages.map_values(|m: RtMidi| m@)
}

/// The bytes of a short message: the first `len` of the three it has room
/// for.
pub open spec fn rt_bytes(message: RtMidi) -> Seq<u8> {
    message.bytes@.take(
        if message.len <= 3 {
            message.len as int
        } else {
            3
        },
    )
}

/// Whether bytes fit a short message: one to three, and not a SysEx start.
pub open spec fn is_short(bytes: Seq<u8>) -> bool {
    1 <= bytes.len() <= 3 && bytes[0] != 0xF0
}

/// Three bytes that start with `bytes`, the rest zero.
pub open spec fn padded(bytes: Seq<u8>) -> Seq<u8> {
    Seq::new(
        3,
        |i: int|
            if i < bytes.len() {
                bytes[i]
            } else {
                0
            },
    )
}

/// The short message of at most three bytes.
pub open spec fn packed(timestamp_us: u64, bytes: Seq<u8>) -> RtMidi {
    RtMidi {
        timestamp_us,
        len: bytes.len() as u8,
        bytes: [padded(bytes)[0], padded(bytes)[1], padded(bytes)[2]],
    }
}

impl RtMidi {
    /// Packs a short message; `None` for SysEx or anything longer than 3
    /// bytes (those stay on the control path).
    pub fn from_bytes(timestamp_us: u64, bytes: &[u8]) -> (r: Option<Self>)
        ensures
            r == if is_short(bytes@) {
                Some(packed(timestamp_us, bytes@))
            } else {
                None
            },
    {
        let n: usize = bytes.len();
        if n == 0 || n > 3 || bytes[0] == 0xF0 {
            return None;
        }
        let second: u8 = if n > 1 {
            bytes[1]
        } else {
            0
        };
        let third: u8 = if n > 2 {
            bytes[2]
        } else {
            0
        };
        let m = RtMidi { timestamp_us, len: n as u8, bytes: [bytes[0], second, third] };
        assert(m.bytes =~= packed(timestamp_us, bytes@).bytes);
        Some(m)
    }
}

/// Packing loses nothing of a short message.
pub proof fn law_packing_keeps_the_bytes(timestamp_us: u64, bytes: Seq<u8>)
    requires
        is_short(bytes),
    ensures
        rt_bytes(packed(timestamp_us, bytes)) == bytes,
{
    assert(rt_bytes(packed(timestamp_us, bytes)) =~= bytes);
}

/// Where the plugin wants its note events.
#[derive(Debug, Clone, Copy, PartialEq, Eq, Structural)]
pub struct NotePortConfig {
    pub port_index: u16,
    /// True when the port does NOT support CLAP note events and MIDI bytes
    /// must be sent instead.
    pub prefers_midi: bool,
}

/// The note dialects that a port supports, of those that matter here.
#[derive(Debug, Clone, Copy, PartialEq, Eq, Structural)]
pub struct Dialects {
    pub clap: bool,
    pub midi: bool,
}

/// Whether a port, if the plugin describes it, takes notes in a usable
/// dialect.
pub open spec fn is_note_port(port: Option<Dialects>) -> bool {
    port matches Some(d) && (d.clap || d.midi)
}

/// The first usable note-in port, among the first 65535: `ports` holds what
/// the plugin says of each port index, `None` where it says nothing.
pub fn find_main_note_port(ports: &Vec<Option<Dialects>>) -> (r: Option<NotePortConfig>)
    ensures
        match r {
            Some(config) => {
                let i = config.port_index as int;
                &&& i < ports@.len() && i < 65535
                &&& is_note_port(ports@[i])
                &&& forall|j: int| 0 <= j < i ==> !is_note_port(#[trigger] ports@[j])
                &&& config.prefers_midi == !ports@[i]->0.clap
            },
            None => forall|j: int|
                0 <= j < ports@.len() && j < 65535 ==> !is_note_port(#[trigger] ports@[j]),
        },
{
    let mut i: usize = 0;
    while i < ports.len() && i < 65535
        invariant
            i <= ports@.len(),
            i <= 65535,
            forall|j: int| 0 <= j < i ==> !is_note_port(#[trigger] ports@[j]),
        decreases ports@.len() - i,
    {
        if let Some(d) = ports[i] {
            if d.clap || d.midi {
                return Some(NotePortConfig { port_index: i as u16, prefers_midi: !d.clap });
            }
        }
        i += 1;
    }
    None
}

/// One CLAP input event. A velocity counts in 127ths.
#[derive(Debug, Clone, Copy)]
pub enum ClapEvent {
    NoteOn { time: u32, port: u16, channel: u16, note: u16, velocity: u8 },
    NoteOff { time: u32, port: u16, channel: u16, note: u16, velocity: u8 },
    Midi { time: u32, port: u16, bytes: [u8; 3] },
}

/// The sample offset of a timestamp, with the first event of the batch as
/// sample 0.
pub open spec fn sample_time(timestamp: u64, first: u64, sample_rate: u64) -> nat {
    let since = if timestamp >= first {
        timestamp - first
    } else {
        0
    };
    let scaled = since * sample_rate;
    (if scaled <= u64::MAX {
        scaled
    } else {
        u64::MAX as int
    } / 1_000_000) as nat
}

/// Interpolates a micro-timestamp into a sample offset, taking the first
/// event of the batch as sample 0.
pub fn micro_timestamp_to_sample_time(timestamp: u64, first_timestamp: u64, sample_rate: u64) -> (
    time: u64)
    ensures
        time == sample_time(timestamp, first_timestamp, sample_rate),
{
    let since: u64 = if timestamp >= first_timestamp {
        timestamp - first_timestamp
    } else {
        0
    };
    assert(0 <= since * sample_rate <= u64::MAX * u64::MAX) by (nonlinear_arith)
        requires
            0 <= since <= u64::MAX,
            0 <= sample_rate <= u64::MAX,
    ;
    let scaled: u128 = since as u128 * sample_rate as u128;
    let held: u64 = if scaled <= u64::MAX as u128 {
        scaled as u64
    } else {
        u64::MAX
    };
    held / 1_000_000
}

/// The event time of a message within a block of `sample_count` samples.
pub open spec fn event_time(timestamp: u64, first: u64, sample_rate: u64, sample_count: u64) -> u32 {
    let time = sample_time(timestamp, first, sample_rate);
    let last = if sample_count == 0 {
        0
    } else {
        (sample_count - 1) as nat
    };
    (if time <= last {
        time
    } else {
        last
    }) as u32
}

/// The bytes of a short message, with 0 in place of those it lacks.
pub open spec fn whole_bytes(message: RtMidi) -> [u8; 3] {
    let bytes = padded(rt_bytes(message));
    [bytes[0], bytes[1], bytes[2]]
}

/// The CLAP event of one short message: notes as CLAP notes where the port
/// takes them, everything else as raw MIDI. Only a message without bytes,
/// or with more than it can hold, has none.
pub open spec fn clap_event(config: NotePortConfig, message: RtMidi, time: u32) -> Option<
    ClapEvent,
> {
    let port = config.port_index;
    let raw = if 1 <= message.len <= 3 {
        Some(ClapEvent::Midi { time, port, bytes: whole_bytes(message) })
    } else {
        None
    };
    if config.prefers_midi {
        raw
    } else {
        match crate::midi::event::decoded(rt_bytes(message)) {
            MidiView::NoteOn { channel, note, velocity } => if velocity > 0 {
                Some(
                    ClapEvent::NoteOn {
                        time,
                        port,
                        channel: channel as u16,
                        note: note as u16,
                        velocity,
                    },
                )
            } else {
                Some(
                    ClapEvent::NoteOff {
                        time,
                        port,
                        channel: channel as u16,
                        note: note as u16,
                        velocity: 0,
                    },
                )
            },
            MidiView::NoteOff { channel, note, velocity } => Some(
                ClapEvent::NoteOff {
                    time,
                    port,
                    channel: channel as u16,
                    note: note as u16,
                    velocity,
                },
            ),
            _ => raw,
        }
    }
}

/// The CLAP events of a batch of messages, in order.
pub open spec fn collected(
    config: NotePortConfig,
    sample_rate: u64,
    sample_count: u64,
    messages: Seq<RtMidi>,
) -> Seq<ClapEvent>
    decreases messages.len(),
{
    if messages.len() == 0 {
        Seq::empty()
    } else {
        let before = collected(config, sample_rate, sample_count, messages.drop_last());
        let last = messages.last();
        let time = event_time(
            last.timestamp_us,
            messages[0].timestamp_us,
            sample_rate,
            sample_count,
        );
        match clap_event(config, last, time) {
            Some(event) => before.push(event),
            None => before,
        }
    }
}

/// Owned by the audio thread: drains a MIDI ring buffer into a reusable
/// list of CLAP events each process cycle.
pub struct EventCollector {
    clap_events: Vec<ClapEvent>,
    note_port: NotePortConfig,
    sample_rate: u64,
}

impl EventCollector {
    /// The events of the current block.
    pub closed spec fn events_view(&self) -> Seq<ClapEvent> {
        self.clap_events@
    }

    /// Where notes go.
    pub closed spec fn port(&self) -> NotePortConfig {
        self.note_port
    }

    /// Samples per second.
    pub closed spec fn rate(&self) -> u64 {
        self.sample_rate
    }

    /// A collector without events.
    pub fn new(sample_rate: u64, note_port: NotePortConfig) -> (c: Self)
        ensures
            c.events_view() == Seq::<ClapEvent>::empty(),
            c.port() == note_port,
            c.rate() == sample_rate,
    {
        EventCollector { clap_events: Vec::with_capacity(256), note_port, sample_rate }
    }

    /// The CLAP input events of the current block.
    pub fn events(&self) -> (events: &Vec<ClapEvent>)
        ensures
            events@ == self.events_view(),
    {
        &self.clap_events
    }

    /// Drains pending MIDI until there is none (or a `u64` of messages was
    /// taken): the events of the block are those of the messages taken.
    /// Event timestamps are interpolated across `0..sample_count` from the
    /// first drained message.
    pub fn collect(&mut self, consumer: &mut rtrb::Consumer<RtMidi>, sample_count: u64)
        ensures
            final(self).port() == old(self).port(),
            final(self).rate() == old(self).rate(),
            crate::engine::ring::ran_dry(*final(consumer)) || crate::engine::ring::taken(
                *final(consumer),
            ).len() - crate::engine::ring::taken(*old(consumer)).len() == u64::MAX,
            exists|messages: Seq<RtMidi>|
                {
                    &&& crate::engine::ring::taken(*final(consumer)) == crate::engine::ring::taken(
                        *old(consumer),
                    ) + messages
                    &&& final(self).events_view() == #[trigger] collected(
                        old(self).port(),
                        old(self).rate(),
                        sample_count,
                        messages,
                    )
                },
    {
        self.clap_events.clear();
        self.collect_more(consumer, sample_count);
        proof {
            let messages = choose|messages: Seq<RtMidi>|
                {
                    &&& crate::engine::ring::taken(*consumer) == crate::engine::ring::taken(
                        *old(consumer),
                    ) + messages
                    &&& self.events_view() == Seq::<ClapEvent>::empty() + #[trigger] collected(
                        old(self).port(),
                        old(self).rate(),
                        sample_count,
                        messages,
                    )
                };
            assert(self.events_view() =~= collected(
                old(self).port(),
                old(self).rate(),
                sample_count,
                messages,
            ));
        }
    }

    /// Drains one more ring buffer into the same block: the events of its
    /// messages come after those already there.
    pub fn collect_more(&mut self, consumer: &mut rtrb::Consumer<RtMidi>, sample_count: u64)
        ensures
            final(self).port() == old(self).port(),
            final(self).rate() == old(self).rate(),
            crate::engine::ring::ran_dry(*final(consumer)) || crate::engine::ring::taken(
                *final(consumer),
            ).len() - crate::engine::ring::taken(*old(consumer)).len() == u64::MAX,
            exists|messages: Seq<RtMidi>|
                {
                    &&& crate::engine::ring::taken(*final(consumer)) == crate::engine::ring::taken(
                        *old(consumer),
                    ) + messages
                    &&& final(self).events_view() == old(self).events_view()
                        + #[trigger] collected(
                        old(self).port(),
                        old(self).rate(),
                        sample_count,
                        messages,
                    )
                },
    {
        let ghost start = crate::engine::ring::taken(*consumer);
        let ghost port = self.note_port;
        let ghost rate = self.sample_rate;
        let ghost mut messages: Seq<RtMidi> = Seq::empty();
        let mut first: Option<u64> = None;
        let mut fuel: u64 = u64::MAX;
        let mut open = true;
        assert(start + messages =~= start);
        assert(self.events_view() =~= old(self).events_view() + collected(
            port,
            rate,
            sample_count,
            messages,
        ));
        while open && fuel > 0
            invariant
                self.note_port == port,
                self.sample_rate == rate,
                port == old(self).port(),
                rate == old(self).rate(),
                start == crate::engine::ring::taken(*old(consumer)),
                crate::engine::ring::taken(*consumer) == start + messages,
                open ==> messages.len() + fuel == u64::MAX,
                !open ==> crate::engine::ring::ran_dry(*consumer),
                first == if messages.len() == 0 {
                    None::<u64>
                } else {
                    Some(messages[0].timestamp_us)
                },
                self.events_view() == old(self).events_view() + collected(
                    port,
                    rate,
                    sample_count,
                    messages,
                ),
            decreases fuel,
        {
            fuel -= 1;
            match take(consumer) {
                Some(message) => {
                    let start_us: u64 = match first {
                        Some(t) => t,
                        None => message.timestamp_us,
                    };
                    first = Some(start_us);
                    let time: u64 = micro_timestamp_to_sample_time(
                        message.timestamp_us,
                        start_us,
                        self.sample_rate,
                    );
                    let last: u64 = if sample_count == 0 {
                        0
                    } else {
                        sample_count - 1
                    };
                    let held: u32 = if time <= last {
                        time as u32
                    } else {
                        last as u32
                    };
                    let ghost before = self.events_view();
                    self.push_message(&message, held);
                    proof {
                        let next = messages.push(message);
                        assert(next.drop_last() =~= messages);
                        assert(start + next =~= (start + messages).push(message));
                        assert(held == event_time(
                            message.timestamp_us,
                            next[0].timestamp_us,
                            rate,
                            sample_count,
                        ));
                        assert(self.events_view() =~= old(self).events_view() + collected(
                            port,
                            rate,
                            sample_count,
                            next,
                        ));
                        messages = next;
                    }
                },
                None => {
                    open = false;
                },
            }
        }
    }

    /// Adds the event of one message, if it has one.
    pub fn push_message(&mut self, message: &RtMidi, sample_time: u32)
        ensures
            final(self).port() == old(self).port(),
            final(self).rate() == old(self).rate(),
            final(self).events_view() == match clap_event(old(self).port(), *message, sample_time) {
                Some(event) => old(self).events_view().push(event),
                None => old(self).events_view(),
            },
    {
        let port: u16 = self.note_port.port_index;
        if !self.note_port.prefers_midi {
            let n: usize = if message.len <= 3 {
                message.len as usize
            } else {
                3
            };
            let bytes = slice_subrange(message.bytes.as_slice(), 0, n);
            assert(bytes@ =~= rt_bytes(*message));
            match MidiMessage::decode(bytes) {
                MidiMessage::NoteOn { channel, note, velocity } => {
                    let event = if velocity > 0 {
                        ClapEvent::NoteOn {
                            time: sample_time,
                            port,
                            channel: channel as u16,
                            note: note as u16,
                            velocity,
                        }
                    } else {
                        // Per the MIDI convention.
                        ClapEvent::NoteOff {
                            time: sample_time,
                            port,
                            channel: channel as u16,
                            note: note as u16,
                            velocity: 0,
                        }
                    };
                    self.clap_events.push(event);
                    return;
                },
                MidiMessage::NoteOff { channel, note, velocity } => {
                    self.clap_events.push(
                        ClapEvent::NoteOff {
                            time: sample_time,
                            port,
                            channel: channel as u16,
                            note: note as u16,
                            velocity,
                        },
                    );
                    return;
                },
                _ => {},
            }
        }
        if 1 <= message.len && message.len <= 3 {
            let second: u8 = if message.len >= 2 {
                message.bytes[1]
            } else {
                0
            };
            let third: u8 = if message.len >= 3 {
                message.bytes[2]
            } else {
                0
            };
            let bytes: [u8; 3] = [message.bytes[0], second, third];
            assert(bytes =~= whole_bytes(*message));
            self.clap_events.push(ClapEvent::Midi { time: sample_time, port, bytes });
        }
    }
}

/// No event lies past the end of its block.
pub proof fn law_events_lie_in_the_block(
    timestamp: u64,
    first: u64,
    sample_rate: u64,
    sample_count: u64,
)
    requires
        1 <= sample_count <= u32::MAX,
    ensures
        event_time(timestamp, first, sample_rate, sample_count) < sample_count,
{
}

/// A later message never comes earlier in the block.
pub proof fn law_event_times_keep_order(
    a: u64,
    b: u64,
    first: u64,
    sample_rate: u64,
    sample_count: u64,
)
    requires
        a <= b,
        sample_count <= u32::MAX,
    ensures
        event_time(a, first, sample_rate, sample_count) <= event_time(
            b,
            first,
            sample_rate,
            sample_count,
        ),
{
    let sa = if a >= first {
        a - first
    } else {
        0
    };
    let sb = if b >= first {
        b - first
    } else {
        0
    };
    assert(sa * sample_rate <= sb * sample_rate) by (nonlinear_arith)
        requires
            sa <= sb,
            sample_rate >= 0,
    ;
}

/// A port without CLAP notes gets every message as it came, padded to
/// three bytes.
pub proof fn law_midi_port_gets_raw_bytes(config: NotePortConfig, message: RtMidi, time: u32)
    requires
        config.prefers_midi,
        1 <= message.len <= 3,
    ensures
        clap_event(config, message, time) == Some(
            ClapEvent::Midi { time, port: config.port_index, bytes: whole_bytes(message) },
        ),
        message.len == 3 ==> whole_bytes(message)@ == message.bytes@,
{
    assert(message.len == 3 ==> whole_bytes(message)@ =~= message.bytes@);
}

/// No message that was packed is lost on its way to the engine.
pub proof fn law_every_short_message_has_an_event(
    config: NotePortConfig,
    timestamp_us: u64,
    bytes: Seq<u8>,
    time: u32,
)
    requires
        is_short(bytes),
    ensures
        clap_event(config, packed(timestamp_us, bytes), time) is Some,
{
}

/// A note reaches the engine as it was played: on a port that takes CLAP
/// notes a note-on gives its channel, key and velocity; a note-off, or a
/// note-on of velocity 0, ends the key of its channel. Every other message
/// goes through byte for byte.
pub proof fn law_notes_reach_the_engine_as_played(
    config: NotePortConfig,
    message: RtMidi,
    time: u32,
)
    requires
        !config.prefers_midi,
        message.len == 3,
    ensures
        ({
            let (status, key, value) = (message.bytes[0], message.bytes[1], message.bytes[2]);
            let port = config.port_index;
            clap_event(config, message, time) == Some(
                if 0x90 <= status <= 0x9F && value > 0 {
                    ClapEvent::NoteOn {
                        time,
                        port,
                        channel: (status - 0x90) as u16,
                        note: key as u16,
                        velocity: value,
                    }
                } else if 0x90 <= status <= 0x9F {
                    ClapEvent::NoteOff {
                        time,
                        port,
                        channel: (status - 0x90) as u16,
                        note: key as u16,
                        velocity: 0,
                    }
                } else if 0x80 <= status <= 0x8F {
                    ClapEvent::NoteOff {
                        time,
                        port,
                        channel: (status - 0x80) as u16,
                        note: key as u16,
                        velocity: value,
                    }
                } else {
                    ClapEvent::Midi { time, port, bytes: message.bytes }
                },
            )
        }),
{
    assert(rt_bytes(message) =~= message.bytes@);
    assert(whole_bytes(message)@ =~= message.bytes@);
    assert(whole_bytes(message) =~= message.bytes);
}

/// Two messages that differ in channel, key or velocity give different
/// events: nothing of a played note is lost.
pub proof fn law_different_notes_stay_different(
    config: NotePortConfig,
    a: RtMidi,
    b: RtMidi,
    time: u32,
)
    requires
        a.len == 3 && b.len == 3,
        a.bytes[0] / 16 == 0x9 && b.bytes[0] / 16 == 0x9,
        a.bytes[2] > 0 && b.bytes[2] > 0,
        clap_event(config, a, time) == clap_event(config, b, time),
    ensures
        a.bytes == b.bytes,
{
    if config.prefers_midi {
        assert(whole_bytes(a)@ =~= a.bytes@);
        assert(whole_bytes(b)@ =~= b.bytes@);
        assert(whole_bytes(a)[0] == a.bytes[0] && whole_bytes(a)[1] == a.bytes[1]
            && whole_bytes(a)[2] == a.bytes[2]);
        assert(whole_bytes(b)[0] == b.bytes[0] && whole_bytes(b)[1] == b.bytes[1]
            && whole_bytes(b)[2] == b.bytes[2]);
    } else {
        law_notes_reach_the_engine_as_played(config, a, time);
        law_notes_reach_the_engine_as_played(config, b, time);
        assert(clap_event(config, a, time)->0->NoteOn_channel == a.bytes[0] - 0x90);
        assert(clap_event(config, b, time)->0->NoteOn_channel == b.bytes[0] - 0x90);
    }
    assert(a.bytes@ =~= b.bytes@);
    assert(a.bytes =~= b.bytes);
}

/// Shorter messages go through byte for byte, with zeros for what they lack.
pub proof fn law_short_messages_go_through(config: NotePortConfig, message: RtMidi, time: u32)
    requires
        1 <= message.len <= 2 || (config.prefers_midi && message.len == 3),
    ensures
        clap_event(config, message, time) matches Some(
            ClapEvent::Midi { time: t, port, bytes },
        ) && {
            &&& t == time && port == config.port_index
            &&& bytes[0] == message.bytes[0]
            &&& bytes[1] == if message.len >= 2 {
                message.bytes[1]
            } else {
                0
            }
            &&& bytes[2] == if message.len >= 3 {
                message.bytes[2]
            } else {
                0
            }
        },
{
    let bytes = rt_bytes(message);
    assert(bytes.len() == message.len);
    assert(bytes[0] == message.bytes[0]);
}

/// An event lies at the sample that its distance from the first message of
/// the batch comes to, rounded down, and at the last sample of the block
/// where it would lie past the end.
pub proof fn law_events_keep_their_distance(
    timestamp: u64,
    first: u64,
    sample_rate: u64,
    sample_count: u64,
)
    requires
        first <= timestamp,
        (timestamp - first) * sample_rate <= u64::MAX,
        1 <= sample_count <= u32::MAX,
    ensures
        ({
            let at = event_time(timestamp, first, sample_rate, sample_count);
            &&& at * 1_000_000 <= (timestamp - first) * sample_rate
            &&& at < sample_count - 1 ==> (timestamp - first) * sample_rate < (at + 1) * 1_000_000
            &&& at <= sample_count - 1
        }),
        event_time(first, first, sample_rate, sample_count) == 0,
{
    let d = timestamp - first;
    assert(0 <= d * sample_rate) by (nonlinear_arith)
        requires
            d >= 0,
            sample_rate >= 0,
    ;
    assert(0 * sample_rate == 0) by (nonlinear_arith);
}

/// A batch of short messages gives one event for each, in order, each that
/// of its message at its time.
pub proof fn law_a_batch_keeps_every_message(
    config: NotePortConfig,
    sample_rate: u64,
    sample_count: u64,
    messages: Seq<RtMidi>,
)
    requires
        forall|i: int| 0 <= i < messages.len() ==> 1 <= (#[trigger] messages[i]).len <= 3,
    ensures
        ({
            let events = collected(config, sample_rate, sample_count, messages);
            &&& events.len() == messages.len()
            &&& forall|i: int|
                0 <= i < messages.len() ==> Some(#[trigger] events[i]) == clap_event(
                    config,
                    messages[i],
                    event_time(
                        messages[i].timestamp_us,
                        messages[0].timestamp_us,
                        sample_rate,
                        sample_count,
                    ),
                )
        }),
    decreases messages.len(),
{
    if messages.len() > 0 {
        let front = messages.drop_last();
        assert forall|i: int| 0 <= i < front.len() implies 1 <= (#[trigger] front[i]).len
            <= 3 by {
            assert(front[i] == messages[i]);
        }
        law_a_batch_keeps_every_message(config, sample_rate, sample_count, front);
        let (before, events) = (
            collected(config, sample_rate, sample_count, front),
            collected(config, sample_rate, sample_count, messages),
        );
        assert(messages.last() == messages[messages.len() - 1]);
        assert(1 <= messages.last().len <= 3);
        assert forall|i: int| 0 <= i < messages.len() implies Some(#[trigger] events[i])
            == clap_event(
            config,
            messages[i],
            event_time(
                messages[i].timestamp_us,
                messages[0].timestamp_us,
                sample_rate,
                sample_count,
            ),
        ) by {
            if i < front.len() {
                assert(events[i] == before[i]);
                assert(front[i] == messages[i] && front[0] == messages[0]);
            }
        }
    }
}

/// A packed message holds its bytes in order, zeros after them, and the time
/// it came.
pub proof fn law_packed_messages_hold_their_bytes(timestamp_us: u64, bytes: Seq<u8>)
    requires
        1 <= bytes.len() <= 3,
    ensures
        ({
            let message = packed(timestamp_us, bytes);
            &&& message.timestamp_us == timestamp_us
            &&& message.len == bytes.len()
            &&& forall|i: int|
                0 <= i < 3 ==> #[trigger] message.bytes[i] == if i < bytes.len() {
                    bytes[i]
                } else {
                    0
                }
        }),
        is_short(bytes) <==> bytes[0] != 0xF0,
{
}

/// A port takes notes where the plugin describes it and it speaks either
/// dialect.
pub proof fn law_a_note_port_speaks_a_dialect(d: Dialects)
    ensures
        is_note_port(Some(d)) <==> d.clap || d.midi,
        !is_note_port(None),
{
}

} // verus!
