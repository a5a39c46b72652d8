//! The [`Device`] trait: raw MIDI in and out for one controller, and a
//! capture-replaying mock so everything runs without hardware.

use std::collections::VecDeque;

use vstd::prelude::*;
use vstd::slice::slice_to_vec;

use crate::midi::capture::{CaptureLine, CaptureView};
use crate::midi::event::{ControlMap, DeviceEvent, DeviceView, MidiMessage, TimedMessage, TimedView};
use crate::midi::ports::MidiError;
use crate::time::Duration;

verus! {

/// Raw MIDI transport for one controller. Decoding and mapping happen above
/// this layer so mock and hardware devices go through identical code paths.
pub trait Device {
    /// Non-blocking poll for the next incoming message.
    fn try_recv(&mut self) -> Option<TimedMessage>;

    /// Blocking receive with a timeout. `None` on timeout.
    fn recv_timeout(&mut self, timeout: Duration) -> Option<TimedMessage>;

    /// Send raw MIDI bytes to the device (display and pad SysEx).
    fn send(&mut self, bytes: &[u8]) -> Result<(), MidiError>;
}

/// A mock device that replays a capture. Sends are recorded for assertions.
#[derive(Debug)]
pub struct MockDevice {
    queue: VecDeque<TimedMessage>,
    pub sent: Vec<Vec<u8>>,
}

/// What a list of messages says.
pub open spec fn messages_view(messages: Seq<TimedMessage>) -> Seq<TimedView> {
    messages.map_values(|m: TimedMessage| m@)
}

/// What an optional message says.
pub open spec fn message_view(message: Option<TimedMessage>) -> Option<TimedView> {
    match message {
        Some(m) => Some(m@),
        None => None,
    }
}

/// The messages of a capture, without its comments.
pub open spec fn captured(lines: Seq<CaptureView>) -> Seq<TimedView>
    decreases lines.len(),
{
    if lines.len() == 0 {
        Seq::empty()
    } else {
        match lines.last() {
            CaptureView::Message(m) => captured(lines.drop_last()).push(m),
            CaptureView::Comment(_) => captured(lines.drop_last()),
        }
    }
}

/// The first message of a queue, and the rest.
pub open spec fn popped(queue: Seq<TimedView>) -> (Option<TimedView>, Seq<TimedView>) {
    if queue.len() == 0 {
        (None, queue)
    } else {
        (Some(queue[0]), queue.drop_first())
    }
}

impl Default for MockDevice {
    /// A silent device.
    fn default() -> (device: Self)
        ensures
            device.waiting() == Seq::<TimedView>::empty(),
            device.recorded() == Seq::<Seq<u8>>::empty(),
    {
        MockDevice::new()
    }
}

impl MockDevice {
    /// The messages still to come.
    pub closed spec fn waiting(&self) -> Seq<TimedView> {
        messages_view(self.queue@)
    }

    /// What was sent so far.
    pub closed spec fn recorded(&self) -> Seq<Seq<u8>> {
        self.sent@.map_values(|bytes: Vec<u8>| bytes@)
    }

    /// A silent device.
    pub fn new() -> (device: Self)
        ensures
            device.waiting() == Seq::<TimedView>::empty(),
            device.recorded() == Seq::<Seq<u8>>::empty(),
    {
        let device = MockDevice { queue: VecDeque::new(), sent: Vec::new() };
        assert(device.waiting() =~= Seq::<TimedView>::empty());
        device
    }

    /// A mock that replays the messages of a capture.
    pub fn from_capture(lines: &[CaptureLine]) -> (device: Self)
        ensures
            device.waiting() == captured(crate::midi::capture::lines_view(lines@)),
            device.recorded() == Seq::<Seq<u8>>::empty(),
    {
        let mut device = MockDevice::new();
        let mut i: usize = 0;
        while i < lines.len()
            invariant
                i <= lines@.len(),
                device.waiting() == captured(
                    crate::midi::capture::lines_view(lines@.take(i as int)),
                ),
                device.recorded() == Seq::<Seq<u8>>::empty(),
            decreases lines@.len() - i,
        {
            proof {
                let next = crate::midi::capture::lines_view(lines@.take(i + 1));
                assert(next.drop_last() =~= crate::midi::capture::lines_view(
                    lines@.take(i as int),
                ));
            }
            match &lines[i] {
                CaptureLine::Message(m) => {
                    device.push(m.clone());
                },
                CaptureLine::Comment(_) => {},
            }
            i += 1;
        }
        assert(lines@.take(i as int) =~= lines@);
        device
    }

    /// Adds a message to come after all others.
    pub fn push(&mut self, message: TimedMessage)
        ensures
            final(self).waiting() == old(self).waiting().push(message@),
            final(self).recorded() == old(self).recorded(),
    {
        self.queue.push_back(message);
        assert(self.waiting() =~= old(self).waiting().push(message@));
    }
}

impl Device for MockDevice {
    fn try_recv(&mut self) -> (message: Option<TimedMessage>)
        ensures
            (message_view(message), final(self).waiting()) == popped(old(self).waiting()),
            final(self).recorded() == old(self).recorded(),
    {
        let message = self.queue.pop_front();
        proof {
            if old(self).queue@.len() > 0 {
                assert(self.waiting() =~= old(self).waiting().drop_first());
            }
        }
        message
    }

    /// Replay is instant; a drained queue behaves like a silent device.
    fn recv_timeout(&mut self, timeout: Duration) -> (message: Option<TimedMessage>)
        ensures
            (message_view(message), final(self).waiting()) == popped(old(self).waiting()),
            final(self).recorded() == old(self).recorded(),
    {
        self.try_recv()
    }

    fn send(&mut self, bytes: &[u8]) -> (r: Result<(), MidiError>)
        ensures
            r is Ok,
            final(self).recorded() == old(self).recorded().push(bytes@),
            final(self).waiting() == old(self).waiting(),
    {
        self.sent.push(slice_to_vec(bytes));
        assert(self.recorded() =~= old(self).recorded().push(bytes@));
        Ok(())
    }
}

/// What a list of events says.
pub open spec fn events_view(events: Seq<DeviceEvent>) -> Seq<DeviceView> {
    events.map_values(|e: DeviceEvent| e@)
}

/// The events that messages mean under a control map.
pub open spec fn replayed(
    table: crate::midi::event::ControlTable,
    messages: Seq<TimedView>,
) -> Seq<DeviceView> {
    messages.map_values(
        |m: TimedView| crate::midi::event::mapped(table, crate::midi::event::decoded(m.bytes)),
    )
}

/// Takes every waiting message from a replay and maps it. The events
/// depend on the capture and the map alone, so that two replays of one
/// capture give the same events.
pub fn replay(device: &mut MockDevice, map: &ControlMap) -> (events: Vec<DeviceEvent>)
    ensures
        events_view(events@) == replayed(map@, old(device).waiting()),
        final(device).waiting() == Seq::<TimedView>::empty(),
        final(device).recorded() == old(device).recorded(),
{
    let ghost all = device.waiting();
    let mut events: Vec<DeviceEvent> = Vec::new();
    loop
        invariant
            events_view(events@) + replayed(map@, device.waiting()) == replayed(map@, all),
            device.recorded() == old(device).recorded(),
        ensures
            events_view(events@) == replayed(map@, all),
            device.waiting() == Seq::<TimedView>::empty(),
            device.recorded() == old(device).recorded(),
        decreases device.waiting().len(),
    {
        let ghost before = device.waiting();
        match device.try_recv() {
            Some(message) => {
                events.push(map.map(MidiMessage::decode(message.bytes.as_slice())));
                assert(events_view(events@) + replayed(map@, device.waiting()) =~= replayed(
                    map@,
                    all,
                ));
            },
            None => {
                assert(before =~= Seq::<TimedView>::empty());
                assert(events_view(events@) =~= replayed(map@, all));
                break;
            },
        }
    }
    events
}

/// A replay gives the messages of its capture, all of them, in order, and
/// none of its comments.
pub proof fn law_a_replay_gives_the_messages(lines: Seq<CaptureView>, more: CaptureView)
    ensures
        captured(Seq::empty()).len() == 0,
        captured(lines.push(more)) == match more {
            CaptureView::Message(m) => captured(lines).push(m),
            CaptureView::Comment(_) => captured(lines),
        },
        (forall|i: int| 0 <= i < lines.len() ==> (#[trigger] lines[i]) is Message) ==> captured(
            lines,
        ).len() == lines.len() && forall|i: int|
            0 <= i < lines.len() ==> CaptureView::Message(#[trigger] captured(lines)[i]) == lines[i],
    decreases lines.len(),
{
    assert(lines.push(more).drop_last() =~= lines);
    if lines.len() > 0 {
        let front = lines.drop_last();
        law_a_replay_gives_the_messages(front, more);
        if forall|i: int| 0 <= i < lines.len() ==> (#[trigger] lines[i]) is Message {
            assert forall|i: int| 0 <= i < front.len() implies (#[trigger] front[i]) is Message by {
                assert(front[i] == lines[i]);
            }
            assert(lines[lines.len() - 1] is Message);
            assert forall|i: int| 0 <= i < lines.len() implies CaptureView::Message(
                #[trigger] captured(lines)[i],
            ) == lines[i] by {
                if i < front.len() {
                    assert(captured(lines)[i] == captured(front)[i]);
                    assert(front[i] == lines[i]);
                }
            }
        }
    }
}

/// Messages come out of a device in the order they went in.
pub proof fn law_messages_come_in_order(queue: Seq<TimedView>, message: TimedView)
    ensures
        popped(seq![message] + queue) == (Some(message), queue),
        queue.len() == 0 ==> popped(queue).0 is None,
{
    assert((seq![message] + queue).drop_first() =~= queue);
}

/// Each replayed message becomes the event that its bytes mean under the
/// map, in order.
pub proof fn law_a_replay_maps_every_message(
    table: crate::midi::event::ControlTable,
    messages: Seq<TimedView>,
    i: int,
)
    ensures
        replayed(table, messages).len() == messages.len(),
        0 <= i < messages.len() ==> replayed(table, messages)[i] == crate::midi::event::mapped(
            table,
            crate::midi::event::decoded(messages[i].bytes),
        ),
{
}

} // verus!
