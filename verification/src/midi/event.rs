//! Standard MIDI decoding and the typed device event layer.
//!
//! Two layers:
//! 1. [`MidiMessage`]: a faithful decode of standard MIDI.
//! 2. [`DeviceEvent`]: what a control on the MiniLab 3 means. Produced by a
//!    [`ControlMap`], which is populated from hardware captures, never from
//!    guessed controller numbers.

use std::collections::{HashMap, HashSet};

use vstd::prelude::*;
use vstd::slice::slice_to_vec;

use crate::text::decimal_text;

verus! {

broadcast use vstd::std_specs::hash::group_hash_axioms;

/// Raw MIDI bytes with the timestamp that the input backend gave them, in
/// microseconds since an unspecified epoch.
#[derive(Debug, PartialEq, Eq)]
pub struct TimedMessage {
    pub timestamp_us: u64,
    pub bytes: Vec<u8>,
}

/// What a [`TimedMessage`] holds.
pub struct TimedView {
    pub timestamp_us: u64,
    pub bytes: Seq<u8>,
}

impl View for TimedMessage {
    type V = TimedView;

    open spec fn view(&self) -> TimedView {
        TimedView { timestamp_us: self.timestamp_us, bytes: self.bytes@ }
    }
}

impl Clone for TimedMessage {
    fn clone(&self) -> (r: Self)
        ensures
            r@ == self@,
    {
        TimedMessage {
            timestamp_us: self.timestamp_us,
            bytes: slice_to_vec(self.bytes.as_slice()),
        }
    }
}

/// A decoded standard MIDI message. Channels are 0-based (0..=15).
#[allow(inconsistent_fields)]
#[derive(Debug, PartialEq, Eq)]
pub enum MidiMessage {
    NoteOff { channel: u8, note: u8, velocity: u8 },
    NoteOn { channel: u8, note: u8, velocity: u8 },
    PolyPressure { channel: u8, note: u8, pressure: u8 },
    ControlChange { channel: u8, controller: u8, value: u8 },
    ProgramChange { channel: u8, program: u8 },
    ChannelPressure { channel: u8, pressure: u8 },
    /// 14-bit value, 0..=16383, center 8192.
    PitchBend { channel: u8, value: u16 },
    /// Complete SysEx with the leading 0xF0 and the trailing 0xF7.
    SysEx(Vec<u8>),
    /// Anything else (system common/realtime, truncated messages).
    Other(Vec<u8>),
}

/// What a [`MidiMessage`] says.
#[allow(inconsistent_fields)]
pub enum MidiView {
    NoteOff { channel: u8, note: u8, velocity: u8 },
    NoteOn { channel: u8, note: u8, velocity: u8 },
    PolyPressure { channel: u8, note: u8, pressure: u8 },
    ControlChange { channel: u8, controller: u8, value: u8 },
    ProgramChange { channel: u8, program: u8 },
    ChannelPressure { channel: u8, pressure: u8 },
    PitchBend { channel: u8, value: u16 },
    SysEx(Seq<u8>),
    Other(Seq<u8>),
}

impl View for MidiMessage {
    type V = MidiView;

    open spec fn view(&self) -> MidiView {
        match *self {
            MidiMessage::NoteOff { channel, note, velocity } => MidiView::NoteOff {
                channel,
                note,
                velocity,
            },
            MidiMessage::NoteOn { channel, note, velocity } => MidiView::NoteOn {
                channel,
                note,
                velocity,
            },
            MidiMessage::PolyPressure { channel, note, pressure } => MidiView::PolyPressure {
                channel,
                note,
                pressure,
            },
            MidiMessage::ControlChange { channel, controller, value } => MidiView::ControlChange {
                channel,
                controller,
                value,
            },
            MidiMessage::ProgramChange { channel, program } => MidiView::ProgramChange {
                channel,
                program,
            },
            MidiMessage::ChannelPressure { channel, pressure } => MidiView::ChannelPressure {
                channel,
                pressure,
            },
            MidiMessage::PitchBend { channel, value } => MidiView::PitchBend { channel, value },
            MidiMessage::SysEx(bytes) => MidiView::SysEx(bytes@),
            MidiMessage::Other(bytes) => MidiView::Other(bytes@),
        }
    }
}

impl Clone for MidiMessage {
    fn clone(&self) -> (r: Self)
        ensures
            r@ == self@,
    {
        match self {
            MidiMessage::NoteOff { channel, note, velocity } => MidiMessage::NoteOff {
                channel: *channel,
                note: *note,
                velocity: *velocity,
            },
            MidiMessage::NoteOn { channel, note, velocity } => MidiMessage::NoteOn {
                channel: *channel,
                note: *note,
                velocity: *velocity,
            },
            MidiMessage::PolyPressure { channel, note, pressure } => MidiMessage::PolyPressure {
                channel: *channel,
                note: *note,
                pressure: *pressure,
            },
            MidiMessage::ControlChange { channel, controller, value } => {
                MidiMessage::ControlChange {
                    channel: *channel,
                    controller: *controller,
                    value: *value,
                }
            },
            MidiMessage::ProgramChange { channel, program } => MidiMessage::ProgramChange {
                channel: *channel,
                program: *program,
            },
            MidiMessage::ChannelPressure { channel, pressure } => MidiMessage::ChannelPressure {
                channel: *channel,
                pressure: *pressure,
            },
            MidiMessage::PitchBend { channel, value } => MidiMessage::PitchBend {
                channel: *channel,
                value: *value,
            },
            MidiMessage::SysEx(bytes) => MidiMessage::SysEx(slice_to_vec(bytes.as_slice())),
            MidiMessage::Other(bytes) => MidiMessage::Other(slice_to_vec(bytes.as_slice())),
        }
    }
}

/// The 14-bit value of a pitch bend's two data bytes, low byte first.
pub open spec fn bend_value(lsb: u8, msb: u8) -> u16 {
    ((msb as u16) << 7) | (lsb as u16)
}

/// What a complete message of raw bytes says: the upper half of the first
/// byte is the kind, the lower half the channel, and a kind takes one fixed
/// number of data bytes.
pub open spec fn decoded(bytes: Seq<u8>) -> MidiView {
    let n = bytes.len();
    let kind = bytes[0] / 16;
    let channel = (bytes[0] % 16) as u8;
    if n == 3 && kind == 0x8 {
        MidiView::NoteOff { channel, note: bytes[1], velocity: bytes[2] }
    } else if n == 3 && kind == 0x9 {
        MidiView::NoteOn { channel, note: bytes[1], velocity: bytes[2] }
    } else if n == 3 && kind == 0xA {
        MidiView::PolyPressure { channel, note: bytes[1], pressure: bytes[2] }
    } else if n == 3 && kind == 0xB {
        MidiView::ControlChange { channel, controller: bytes[1], value: bytes[2] }
    } else if n == 2 && kind == 0xC {
        MidiView::ProgramChange { channel, program: bytes[1] }
    } else if n == 2 && kind == 0xD {
        MidiView::ChannelPressure { channel, pressure: bytes[1] }
    } else if n == 3 && kind == 0xE {
        MidiView::PitchBend { channel, value: bend_value(bytes[1], bytes[2]) }
    } else if n >= 2 && bytes[0] == 0xF0 && bytes[n - 1] == 0xF7 {
        MidiView::SysEx(bytes)
    } else {
        MidiView::Other(bytes)
    }
}

/// With the 7-bit data bytes that MIDI allows, a pitch bend is the number
/// they spell in base 128, so the center is 8192 and the top 16383.
pub proof fn law_bend_value(lsb: u8, msb: u8)
    requires
        lsb < 128,
    ensures
        bend_value(lsb, msb) == msb as int * 128 + lsb,
        msb < 128 ==> bend_value(lsb, msb) <= 16383,
{
    assert(((msb as u16) << 7) | (lsb as u16) == msb as u16 * 128 + lsb as u16) by (bit_vector)
        requires
            lsb < 128,
    ;
}

/// The bytes that say what `message` says, with the channel in the lower
/// half of the first one.
pub open spec fn encoded(message: MidiView) -> Seq<u8> {
    match message {
        MidiView::NoteOff { channel, note, velocity } => seq![
            (0x80 + channel) as u8,
            note,
            velocity,
        ],
        MidiView::NoteOn { channel, note, velocity } => seq![
            (0x90 + channel) as u8,
            note,
            velocity,
        ],
        MidiView::PolyPressure { channel, note, pressure } => seq![
            (0xA0 + channel) as u8,
            note,
            pressure,
        ],
        MidiView::ControlChange { channel, controller, value } => seq![
            (0xB0 + channel) as u8,
            controller,
            value,
        ],
        MidiView::ProgramChange { channel, program } => seq![(0xC0 + channel) as u8, program],
        MidiView::ChannelPressure { channel, pressure } => seq![(0xD0 + channel) as u8, pressure],
        MidiView::PitchBend { channel, value } => seq![
            (0xE0 + channel) as u8,
            (value % 128) as u8,
            (value / 128) as u8,
        ],
        MidiView::SysEx(bytes) => bytes,
        MidiView::Other(bytes) => bytes,
    }
}

/// Decoding loses nothing: the bytes can be told from the message. Only a
/// pitch bend needs its low data byte to be one of the 7-bit bytes that MIDI
/// allows.
pub proof fn law_decode_is_faithful(bytes: Seq<u8>)
    requires
        bytes.len() == 3 && bytes[0] / 16 == 0xE ==> bytes[1] < 128,
    ensures
        encoded(decoded(bytes)) == bytes,
{
    if bytes.len() == 3 && bytes[0] / 16 == 0xE {
        law_bend_value(bytes[1], bytes[2]);
    }
    assert(encoded(decoded(bytes)) =~= bytes);
}

impl MidiMessage {
    /// Decodes one complete MIDI message as delivered by the input backend.
    pub fn decode(bytes: &[u8]) -> (message: MidiMessage)
        ensures
            message@ == decoded(bytes@),
    {
        let n: usize = bytes.len();
        if n == 0 {
            return MidiMessage::Other(slice_to_vec(bytes));
        }
        let s: u8 = bytes[0];
        let kind: u8 = s & 0xF0;
        let channel: u8 = s & 0x0F;
        assert(kind == (s / 16) * 16 && channel == s % 16) by (bit_vector)
            requires
                kind == s & 0xF0,
                channel == s & 0x0F,
        ;
        if n == 3 && kind == 0x80 {
            MidiMessage::NoteOff { channel, note: bytes[1], velocity: bytes[2] }
        } else if n == 3 && kind == 0x90 {
            MidiMessage::NoteOn { channel, note: bytes[1], velocity: bytes[2] }
        } else if n == 3 && kind == 0xA0 {
            MidiMessage::PolyPressure { channel, note: bytes[1], pressure: bytes[2] }
        } else if n == 3 && kind == 0xB0 {
            MidiMessage::ControlChange { channel, controller: bytes[1], value: bytes[2] }
        } else if n == 2 && kind == 0xC0 {
            MidiMessage::ProgramChange { channel, program: bytes[1] }
        } else if n == 2 && kind == 0xD0 {
            MidiMessage::ChannelPressure { channel, pressure: bytes[1] }
        } else if n == 3 && kind == 0xE0 {
            MidiMessage::PitchBend { channel, value: ((bytes[2] as u16) << 7) | (bytes[1] as u16) }
        } else if n >= 2 && s == 0xF0 && bytes[n - 1] == 0xF7 {
            MidiMessage::SysEx(slice_to_vec(bytes))
        } else {
            MidiMessage::Other(slice_to_vec(bytes))
        }
    }

    /// The one-line description printed by the monitor.
    pub fn describe(&self) -> (text: String)
        ensures
            text@ == described(self@),
    {
        match self {
            MidiMessage::NoteOff { channel, note, velocity } => label3(
                "NoteOff ch",
                *channel,
                " note=",
                *note,
                " vel=",
                *velocity,
            ),
            MidiMessage::NoteOn { channel, note, velocity } => label3(
                "NoteOn ch",
                *channel,
                " note=",
                *note,
                " vel=",
                *velocity,
            ),
            MidiMessage::PolyPressure { channel, note, pressure } => label3(
                "PolyPressure ch",
                *channel,
                " note=",
                *note,
                " val=",
                *pressure,
            ),
            MidiMessage::ControlChange { channel, controller, value } => label3(
                "CC ch",
                *channel,
                " cc=",
                *controller,
                " val=",
                *value,
            ),
            MidiMessage::ProgramChange { channel, program } => label2(
                "ProgramChange ch",
                *channel as u64,
                " prog=",
                *program as u64,
            ),
            MidiMessage::ChannelPressure { channel, pressure } => label2(
                "ChannelPressure ch",
                *channel as u64,
                " val=",
                *pressure as u64,
            ),
            MidiMessage::PitchBend { channel, value } => label2(
                "PitchBend ch",
                *channel as u64,
                " val=",
                *value as u64,
            ),
            MidiMessage::SysEx(bytes) => sized("SysEx (", bytes.len()),
            MidiMessage::Other(bytes) => sized("Other (", bytes.len()),
        }
    }
}

/// The text of [`MidiMessage::describe`].
pub open spec fn described(message: MidiView) -> Seq<char> {
    match message {
        MidiView::NoteOff { channel, note, velocity } => labelled3(
            "NoteOff ch"@,
            channel,
            " note="@,
            note,
            " vel="@,
            velocity,
        ),
        MidiView::NoteOn { channel, note, velocity } => labelled3(
            "NoteOn ch"@,
            channel,
            " note="@,
            note,
            " vel="@,
            velocity,
        ),
        MidiView::PolyPressure { channel, note, pressure } => labelled3(
            "PolyPressure ch"@,
            channel,
            " note="@,
            note,
            " val="@,
            pressure,
        ),
        MidiView::ControlChange { channel, controller, value } => labelled3(
            "CC ch"@,
            channel,
            " cc="@,
            controller,
            " val="@,
            value,
        ),
        MidiView::ProgramChange { channel, program } => labelled2(
            "ProgramChange ch"@,
            channel as nat,
            " prog="@,
            program as nat,
        ),
        MidiView::ChannelPressure { channel, pressure } => labelled2(
            "ChannelPressure ch"@,
            channel as nat,
            " val="@,
            pressure as nat,
        ),
        MidiView::PitchBend { channel, value } => labelled2(
            "PitchBend ch"@,
            channel as nat,
            " val="@,
            value as nat,
        ),
        MidiView::SysEx(bytes) => "SysEx ("@ + crate::text::decimal(bytes.len()) + " bytes)"@,
        MidiView::Other(bytes) => "Other ("@ + crate::text::decimal(bytes.len()) + " bytes)"@,
    }
}

/// Two labelled numbers in a row.
pub open spec fn labelled2(l1: Seq<char>, n1: nat, l2: Seq<char>, n2: nat) -> Seq<char> {
    l1 + crate::text::decimal(n1) + l2 + crate::text::decimal(n2)
}

/// Three labelled bytes in a row.
pub open spec fn labelled3(
    l1: Seq<char>,
    n1: u8,
    l2: Seq<char>,
    n2: u8,
    l3: Seq<char>,
    n3: u8,
) -> Seq<char> {
    labelled2(l1, n1 as nat, l2, n2 as nat) + l3 + crate::text::decimal(n3 as nat)
}

fn label2(l1: &str, n1: u64, l2: &str, n2: u64) -> (text: String)
    ensures
        text@ == labelled2(l1@, n1 as nat, l2@, n2 as nat),
{
    let mut text = l1.to_owned();
    text.append(decimal_text(n1).as_str());
    text.append(l2);
    text.append(decimal_text(n2).as_str());
    text
}

fn label3(l1: &str, n1: u8, l2: &str, n2: u8, l3: &str, n3: u8) -> (text: String)
    ensures
        text@ == labelled3(l1@, n1, l2@, n2, l3@, n3),
{
    let mut text = label2(l1, n1 as u64, l2, n2 as u64);
    text.append(l3);
    text.append(decimal_text(n3 as u64).as_str());
    text
}

fn sized(label: &str, n: usize) -> (text: String)
    ensures
        text@ == label@ + crate::text::decimal(n as nat) + " bytes)"@,
{
    let mut text = label.to_owned();
    text.append(decimal_text(n as u64).as_str());
    text.append(" bytes)");
    text
}

/// The transport functions on the pads' Shift row.
#[derive(Debug, Clone, Copy, PartialEq, Eq, Structural)]
pub enum TransportControl {
    Loop,
    Stop,
    Play,
    Record,
    Tap,
}

/// A typed event from the MiniLab 3. Indices are 0-based: encoders 0..=7,
/// faders 0..=3, pads 0..=7.
#[allow(inconsistent_fields)]
#[derive(Debug, Clone, PartialEq, Eq)]
pub enum DeviceEvent {
    NoteOn { note: u8, velocity: u8 },
    NoteOff { note: u8 },
    PitchBend { value: u16 },
    ModStrip { value: u8 },
    Encoder { index: u8, value: u8 },
    Fader { index: u8, value: u8 },
    PadDown { index: u8, velocity: u8 },
    PadUp { index: u8 },
    PadPressure { pressure: u8 },
    MainEncoderTurn { delta: i8 },
    /// The main encoder turned while Shift is held.
    MainEncoderShiftTurn { delta: i8 },
    MainEncoderClick { pressed: bool },
    Shift { pressed: bool },
    Transport { control: TransportControl, pressed: bool },
    /// Decoded MIDI that the control map has no entry for.
    Unmapped(MidiMessage),
}

/// What a [`DeviceEvent`] says.
#[allow(inconsistent_fields)]
pub enum DeviceView {
    NoteOn { note: u8, velocity: u8 },
    NoteOff { note: u8 },
    PitchBend { value: u16 },
    ModStrip { value: u8 },
    Encoder { index: u8, value: u8 },
    Fader { index: u8, value: u8 },
    PadDown { index: u8, velocity: u8 },
    PadUp { index: u8 },
    PadPressure { pressure: u8 },
    MainEncoderTurn { delta: i8 },
    MainEncoderShiftTurn { delta: i8 },
    MainEncoderClick { pressed: bool },
    Shift { pressed: bool },
    Transport { control: TransportControl, pressed: bool },
    Unmapped(MidiView),
}

impl View for DeviceEvent {
    type V = DeviceView;

    open spec fn view(&self) -> DeviceView {
        match *self {
            DeviceEvent::NoteOn { note, velocity } => DeviceView::NoteOn { note, velocity },
            DeviceEvent::NoteOff { note } => DeviceView::NoteOff { note },
            DeviceEvent::PitchBend { value } => DeviceView::PitchBend { value },
            DeviceEvent::ModStrip { value } => DeviceView::ModStrip { value },
            DeviceEvent::Encoder { index, value } => DeviceView::Encoder { index, value },
            DeviceEvent::Fader { index, value } => DeviceView::Fader { index, value },
            DeviceEvent::PadDown { index, velocity } => DeviceView::PadDown { index, velocity },
            DeviceEvent::PadUp { index } => DeviceView::PadUp { index },
            DeviceEvent::PadPressure { pressure } => DeviceView::PadPressure { pressure },
            DeviceEvent::MainEncoderTurn { delta } => DeviceView::MainEncoderTurn { delta },
            DeviceEvent::MainEncoderShiftTurn { delta } => DeviceView::MainEncoderShiftTurn {
                delta,
            },
            DeviceEvent::MainEncoderClick { pressed } => DeviceView::MainEncoderClick { pressed },
            DeviceEvent::Shift { pressed } => DeviceView::Shift { pressed },
            DeviceEvent::Transport { control, pressed } => DeviceView::Transport {
                control,
                pressed,
            },
            DeviceEvent::Unmapped(message) => DeviceView::Unmapped(message@),
        }
    }
}

/// How a relative encoder encodes its delta in a 7-bit value.
#[derive(Debug, Clone, Copy, PartialEq, Eq, Structural)]
pub enum RelativeEncoding {
    /// 64 is zero; 65 = +1, 63 = -1.
    OffsetFrom64,
    /// 7-bit two's complement: 1 = +1, 127 = -1.
    TwosComplement,
}

/// The step that `value` stands for. A value above the 7 bits that MIDI
/// allows wraps around in `OffsetFrom64`, and loses its top bit in
/// `TwosComplement`.
pub open spec fn relative_delta(encoding: RelativeEncoding, value: u8) -> int {
    match encoding {
        RelativeEncoding::OffsetFrom64 => if value < 192 {
            value - 64
        } else {
            value - 64 - 256
        },
        RelativeEncoding::TwosComplement => if value % 128 < 64 {
            (value % 128) as int
        } else {
            value % 128 - 128
        },
    }
}

impl RelativeEncoding {
    /// The signed step of one encoder message.
    pub fn delta(self, value: u8) -> (step: i8)
        ensures
            step == relative_delta(self, value),
    {
        match self {
            RelativeEncoding::OffsetFrom64 => {
                let wide: i16 = value as i16 - 64;
                if wide < 128 {
                    wide as i8
                } else {
                    (wide - 256) as i8
                }
            },
            RelativeEncoding::TwosComplement => {
                let low: u8 = value % 128;
                if low < 64 {
                    low as i8
                } else {
                    (low as i16 - 128) as i8
                }
            },
        }
    }
}

/// What a controller message maps to.
#[derive(Debug, Clone, Copy, PartialEq, Eq, Structural)]
pub enum CcTarget {
    Encoder(u8),
    Fader(u8),
    ModStrip,
    MainEncoderTurn(RelativeEncoding),
    MainEncoderShiftTurn(RelativeEncoding),
    /// Button-style controller: a value of 64 or more is pressed.
    MainEncoderClick,
    /// Button-style controller: a value of 64 or more is pressed.
    Shift,
    /// Button-style controller: a value of 64 or more is pressed.
    Transport(TransportControl),
}

/// Data-driven mapping from decoded MIDI to [`DeviceEvent`]. Starts empty.
/// Pads and controllers are keyed by channel and number together, the
/// channel in the upper byte.
#[derive(Debug)]
pub struct ControlMap {
    keyboard_channels: HashSet<u8>,
    pads: HashMap<u16, u8>,
    ccs: HashMap<u16, CcTarget>,
    pad_pressure_channels: HashSet<u8>,
}

/// What a [`ControlMap`] holds.
#[verifier::ext_equal]
pub struct ControlTable {
    /// Channels whose notes are keys.
    pub keyboard_channels: Set<u8>,
    /// (channel, note) -> pad index.
    pub pads: Map<(u8, u8), u8>,
    /// (channel, controller) -> target.
    pub ccs: Map<(u8, u8), CcTarget>,
    /// Channels where channel pressure means pad pressure.
    pub pad_pressure_channels: Set<u8>,
}

impl ControlTable {
    /// The table without an entry.
    pub open spec fn empty() -> ControlTable {
        ControlTable {
            keyboard_channels: Set::empty(),
            pads: Map::empty(),
            ccs: Map::empty(),
            pad_pressure_channels: Set::empty(),
        }
    }
}

spec fn spec_key(at: (u8, u8)) -> u16 {
    (at.0 as int * 256 + at.1) as u16
}

fn key(channel: u8, number: u8) -> (k: u16)
    ensures
        k == spec_key((channel, number)),
{
    channel as u16 * 256 + number as u16
}

/// A map by the one-number key, as a map by channel and number.
spec fn by_channel<T>(m: Map<u16, T>) -> Map<(u8, u8), T> {
    Map::new(|at: (u8, u8)| m.contains_key(spec_key(at)), |at: (u8, u8)| m[spec_key(at)])
}

proof fn lemma_by_channel_insert<T>(m: Map<u16, T>, at: (u8, u8), value: T)
    ensures
        by_channel(m.insert(spec_key(at), value)) == by_channel(m).insert(at, value),
{
    assert forall|b: (u8, u8)| #[trigger] spec_key(b) == spec_key(at) implies b == at by {}
    assert(by_channel(m.insert(spec_key(at), value)) =~= by_channel(m).insert(at, value));
}

impl View for ControlMap {
    type V = ControlTable;

    closed spec fn view(&self) -> ControlTable {
        ControlTable {
            keyboard_channels: self.keyboard_channels@,
            pads: by_channel(self.pads@),
            ccs: by_channel(self.ccs@),
            pad_pressure_channels: self.pad_pressure_channels@,
        }
    }
}

/// The event that a message means under a table.
pub open spec fn mapped(table: ControlTable, message: MidiView) -> DeviceView {
    match message {
        MidiView::NoteOn { channel, note, velocity } => {
            if table.pads.contains_key((channel, note)) {
                let index = table.pads[(channel, note)];
                if velocity == 0 {
                    DeviceView::PadUp { index }
                } else {
                    DeviceView::PadDown { index, velocity }
                }
            } else if table.keyboard_channels.contains(channel) {
                if velocity == 0 {
                    DeviceView::NoteOff { note }
                } else {
                    DeviceView::NoteOn { note, velocity }
                }
            } else {
                DeviceView::Unmapped(message)
            }
        },
        MidiView::NoteOff { channel, note, velocity } => {
            if table.pads.contains_key((channel, note)) {
                DeviceView::PadUp { index: table.pads[(channel, note)] }
            } else if table.keyboard_channels.contains(channel) {
                DeviceView::NoteOff { note }
            } else {
                DeviceView::Unmapped(message)
            }
        },
        MidiView::ControlChange { channel, controller, value } => {
            if table.ccs.contains_key((channel, controller)) {
                match table.ccs[(channel, controller)] {
                    CcTarget::Encoder(index) => DeviceView::Encoder { index, value },
                    CcTarget::Fader(index) => DeviceView::Fader { index, value },
                    CcTarget::ModStrip => DeviceView::ModStrip { value },
                    CcTarget::MainEncoderTurn(encoding) => DeviceView::MainEncoderTurn {
                        delta: relative_delta(encoding, value) as i8,
                    },
                    CcTarget::MainEncoderShiftTurn(encoding) => DeviceView::MainEncoderShiftTurn {
                        delta: relative_delta(encoding, value) as i8,
                    },
                    CcTarget::MainEncoderClick => DeviceView::MainEncoderClick {
                        pressed: value >= 64,
                    },
                    CcTarget::Shift => DeviceView::Shift { pressed: value >= 64 },
                    CcTarget::Transport(control) => DeviceView::Transport {
                        control,
                        pressed: value >= 64,
                    },
                }
            } else {
                DeviceView::Unmapped(message)
            }
        },
        MidiView::PitchBend { channel, value } => {
            if table.keyboard_channels.contains(channel) {
                DeviceView::PitchBend { value }
            } else {
                DeviceView::Unmapped(message)
            }
        },
        MidiView::ChannelPressure { channel, pressure } => {
            if table.pad_pressure_channels.contains(channel) {
                DeviceView::PadPressure { pressure }
            } else {
                DeviceView::Unmapped(message)
            }
        },
        MidiView::PolyPressure { channel, note, pressure } => {
            if table.pads.contains_key((channel, note)) {
                DeviceView::PadPressure { pressure }
            } else {
                DeviceView::Unmapped(message)
            }
        },
        _ => DeviceView::Unmapped(message),
    }
}

/// Nothing is dropped: what comes back unmapped is the message itself.
pub proof fn law_unmapped_keeps_the_message(table: ControlTable, message: MidiView)
    ensures
        mapped(table, message) matches DeviceView::Unmapped(kept) ==> kept == message,
{
}

/// A map without entries leaves every message unmapped.
pub proof fn law_empty_map_maps_nothing(message: MidiView)
    ensures
        mapped(ControlTable::empty(), message) == DeviceView::Unmapped(message),
{
}

/// Per the MIDI convention a note-on of velocity 0 is a note-off: wherever
/// one of the two is mapped, both mean the same event.
pub proof fn law_silent_note_on_is_note_off(
    table: ControlTable,
    channel: u8,
    note: u8,
    velocity: u8,
)
    ensures
        mapped(table, MidiView::NoteOff { channel, note, velocity }) !is Unmapped ==> mapped(
            table,
            MidiView::NoteOn { channel, note, velocity: 0 },
        ) == mapped(table, MidiView::NoteOff { channel, note, velocity }),
        mapped(table, MidiView::NoteOff { channel, note, velocity }) is Unmapped ==> mapped(
            table,
            MidiView::NoteOn { channel, note, velocity: 0 },
        ) is Unmapped,
{
}

fn copy_channels(channels: &HashSet<u8>) -> (copy: HashSet<u8>)
    ensures
        copy@ == channels@,
{
    let mut copy: HashSet<u8> = HashSet::new();
    let mut i: u16 = 0;
    while i < 256
        invariant
            i <= 256,
            forall|c: u8| #[trigger] copy@.contains(c) <==> channels@.contains(c) && c < i,
        decreases 256 - i,
    {
        let channel: u8 = i as u8;
        if channels.contains(&channel) {
            copy.insert(channel);
        }
        i += 1;
    }
    assert(copy@ =~= channels@);
    copy
}

impl Clone for ControlMap {
    fn clone(&self) -> (map: Self)
        ensures
            map@ == self@,
    {
        let map = ControlMap {
            keyboard_channels: copy_channels(&self.keyboard_channels),
            pads: self.pads.clone(),
            ccs: self.ccs.clone(),
            pad_pressure_channels: copy_channels(&self.pad_pressure_channels),
        };
        assert(map@ =~= self@);
        map
    }
}

impl Default for ControlMap {
    /// A map without an entry.
    fn default() -> (map: Self)
        ensures
            map@ == ControlTable::empty(),
    {
        ControlMap::new()
    }
}

impl ControlMap {
    /// A map without an entry.
    pub fn new() -> (map: Self)
        ensures
            map@ == ControlTable::empty(),
    {
        let map = ControlMap {
            keyboard_channels: HashSet::new(),
            pads: HashMap::new(),
            ccs: HashMap::new(),
            pad_pressure_channels: HashSet::new(),
        };
        assert(map@ =~= ControlTable::empty());
        map
    }

    /// Notes on `channel` are keys.
    pub fn keyboard_channel(self, channel: u8) -> (map: Self)
        ensures
            map@ == (ControlTable {
                keyboard_channels: self@.keyboard_channels.insert(channel),
                ..self@
            }),
    {
        let mut map = self;
        map.keyboard_channels.insert(channel);
        map
    }

    /// `note` on `channel` is the pad `index`.
    pub fn pad(self, channel: u8, note: u8, index: u8) -> (map: Self)
        ensures
            map@ == (ControlTable { pads: self@.pads.insert((channel, note), index), ..self@ }),
    {
        let mut map = self;
        proof {
            lemma_by_channel_insert(map.pads@, (channel, note), index);
        }
        map.pads.insert(key(channel, note), index);
        map
    }

    /// `controller` on `channel` is the control `target`.
    pub fn cc(self, channel: u8, controller: u8, target: CcTarget) -> (map: Self)
        ensures
            map@ == (ControlTable {
                ccs: self@.ccs.insert((channel, controller), target),
                ..self@
            }),
    {
        let mut map = self;
        proof {
            lemma_by_channel_insert(map.ccs@, (channel, controller), target);
        }
        map.ccs.insert(key(channel, controller), target);
        map
    }

    /// Channel pressure on `channel` is pad pressure.
    pub fn pad_pressure_channel(self, channel: u8) -> (map: Self)
        ensures
            map@ == (ControlTable {
                pad_pressure_channels: self@.pad_pressure_channels.insert(channel),
                ..self@
            }),
    {
        let mut map = self;
        map.pad_pressure_channels.insert(channel);
        map
    }

    /// Maps one decoded message to a typed event. Never drops input:
    /// anything without an entry comes back as [`DeviceEvent::Unmapped`].
    pub fn map(&self, message: MidiMessage) -> (event: DeviceEvent)
        ensures
            event@ == mapped(self@, message@),
    {
        match message {
            MidiMessage::NoteOn { channel, note, velocity } => {
                if let Some(index) = self.pads.get(&key(channel, note)) {
                    if velocity == 0 {
                        DeviceEvent::PadUp { index: *index }
                    } else {
                        DeviceEvent::PadDown { index: *index, velocity }
                    }
                } else if self.keyboard_channels.contains(&channel) {
                    if velocity == 0 {
                        DeviceEvent::NoteOff { note }
                    } else {
                        DeviceEvent::NoteOn { note, velocity }
                    }
                } else {
                    DeviceEvent::Unmapped(MidiMessage::NoteOn { channel, note, velocity })
                }
            },
            MidiMessage::NoteOff { channel, note, velocity } => {
                if let Some(index) = self.pads.get(&key(channel, note)) {
                    DeviceEvent::PadUp { index: *index }
                } else if self.keyboard_channels.contains(&channel) {
                    DeviceEvent::NoteOff { note }
                } else {
                    DeviceEvent::Unmapped(MidiMessage::NoteOff { channel, note, velocity })
                }
            },
            MidiMessage::ControlChange { channel, controller, value } => match self.ccs.get(
                &key(channel, controller),
            ) {
                Some(target) => match *target {
                    CcTarget::Encoder(index) => DeviceEvent::Encoder { index, value },
                    CcTarget::Fader(index) => DeviceEvent::Fader { index, value },
                    CcTarget::ModStrip => DeviceEvent::ModStrip { value },
                    CcTarget::MainEncoderTurn(encoding) => DeviceEvent::MainEncoderTurn {
                        delta: encoding.delta(value),
                    },
                    CcTarget::MainEncoderShiftTurn(encoding) => {
                        DeviceEvent::MainEncoderShiftTurn { delta: encoding.delta(value) }
                    },
                    CcTarget::MainEncoderClick => DeviceEvent::MainEncoderClick {
                        pressed: value >= 64,
                    },
                    CcTarget::Shift => DeviceEvent::Shift { pressed: value >= 64 },
                    CcTarget::Transport(control) => DeviceEvent::Transport {
                        control,
                        pressed: value >= 64,
                    },
                },
                None => DeviceEvent::Unmapped(
                    MidiMessage::ControlChange { channel, controller, value },
                ),
            },
            MidiMessage::PitchBend { channel, value } => {
                if self.keyboard_channels.contains(&channel) {
                    DeviceEvent::PitchBend { value }
                } else {
                    DeviceEvent::Unmapped(MidiMessage::PitchBend { channel, value })
                }
            },
            MidiMessage::ChannelPressure { channel, pressure } => {
                if self.pad_pressure_channels.contains(&channel) {
                    DeviceEvent::PadPressure { pressure }
                } else {
                    DeviceEvent::Unmapped(MidiMessage::ChannelPressure { channel, pressure })
                }
            },
            MidiMessage::PolyPressure { channel, note, pressure } => {
                if self.pads.contains_key(&key(channel, note)) {
                    DeviceEvent::PadPressure { pressure }
                } else {
                    DeviceEvent::Unmapped(MidiMessage::PolyPressure { channel, note, pressure })
                }
            },
            MidiMessage::ProgramChange { channel, program } => DeviceEvent::Unmapped(
                MidiMessage::ProgramChange { channel, program },
            ),
            MidiMessage::SysEx(bytes) => DeviceEvent::Unmapped(MidiMessage::SysEx(bytes)),
            MidiMessage::Other(bytes) => DeviceEvent::Unmapped(MidiMessage::Other(bytes)),
        }
    }

    /// The device's Arturia mode, from the recorded control map: keys and
    /// strips on channel 0, pads on channel 9, encoders and faders
    /// absolute, the main encoder relative around 64.
    pub fn minilab3_arturia() -> (map: Self)
        ensures
            map@ == arturia_table(),
    {
        let turn = RelativeEncoding::OffsetFrom64;
        let map = ControlMap::new().keyboard_channel(0).cc(0, 1, CcTarget::ModStrip).cc(
            0,
            74,
            CcTarget::Encoder(0),
        ).cc(0, 71, CcTarget::Encoder(1)).cc(0, 76, CcTarget::Encoder(2)).cc(
            0,
            77,
            CcTarget::Encoder(3),
        ).cc(0, 93, CcTarget::Encoder(4)).cc(0, 18, CcTarget::Encoder(5)).cc(
            0,
            19,
            CcTarget::Encoder(6),
        ).cc(0, 16, CcTarget::Encoder(7)).cc(0, 82, CcTarget::Fader(0)).cc(
            0,
            83,
            CcTarget::Fader(1),
        ).cc(0, 85, CcTarget::Fader(2)).cc(0, 17, CcTarget::Fader(3)).cc(
            0,
            114,
            CcTarget::MainEncoderTurn(turn),
        ).cc(0, 112, CcTarget::MainEncoderShiftTurn(turn)).cc(
            0,
            115,
            CcTarget::MainEncoderClick,
        ).cc(0, 9, CcTarget::Shift).pad(9, 44, 0).pad(9, 45, 1).pad(9, 46, 2).pad(9, 47, 3).pad(
            9,
            48,
            4,
        ).pad(9, 49, 5).pad(9, 50, 6).pad(9, 51, 7);
        assert(map@ =~= arturia_table());
        map
    }

    /// What has been recorded of the device's DAW mode so far: Shift and
    /// the transport pads, all on channel 0.
    pub fn minilab3_daw() -> (map: Self)
        ensures
            map@ == daw_table(),
    {
        let map = ControlMap::new().cc(0, 27, CcTarget::Shift).cc(
            0,
            105,
            CcTarget::Transport(TransportControl::Loop),
        ).cc(0, 106, CcTarget::Transport(TransportControl::Stop)).cc(
            0,
            107,
            CcTarget::Transport(TransportControl::Play),
        ).cc(0, 108, CcTarget::Transport(TransportControl::Record)).cc(
            0,
            109,
            CcTarget::Transport(TransportControl::Tap),
        );
        assert(map@ =~= daw_table());
        map
    }
}

/// The recorded control map of Arturia mode.
pub open spec fn arturia_table() -> ControlTable {
    ControlTable {
        keyboard_channels: set![0u8],
        pads: Map::new(
            |at: (u8, u8)| at.0 == 9 && 44 <= at.1 <= 51,
            |at: (u8, u8)| (at.1 - 44) as u8,
        ),
        ccs: map![
            (0u8, 1u8) => CcTarget::ModStrip,
            (0u8, 74u8) => CcTarget::Encoder(0),
            (0u8, 71u8) => CcTarget::Encoder(1),
            (0u8, 76u8) => CcTarget::Encoder(2),
            (0u8, 77u8) => CcTarget::Encoder(3),
            (0u8, 93u8) => CcTarget::Encoder(4),
            (0u8, 18u8) => CcTarget::Encoder(5),
            (0u8, 19u8) => CcTarget::Encoder(6),
            (0u8, 16u8) => CcTarget::Encoder(7),
            (0u8, 82u8) => CcTarget::Fader(0),
            (0u8, 83u8) => CcTarget::Fader(1),
            (0u8, 85u8) => CcTarget::Fader(2),
            (0u8, 17u8) => CcTarget::Fader(3),
            (0u8, 114u8) => CcTarget::MainEncoderTurn(RelativeEncoding::OffsetFrom64),
            (0u8, 112u8) => CcTarget::MainEncoderShiftTurn(RelativeEncoding::OffsetFrom64),
            (0u8, 115u8) => CcTarget::MainEncoderClick,
            (0u8, 9u8) => CcTarget::Shift,
        ],
        pad_pressure_channels: Set::empty(),
    }
}

/// The recorded part of the control map of DAW mode.
pub open spec fn daw_table() -> ControlTable {
    ControlTable {
        keyboard_channels: Set::empty(),
        pads: Map::empty(),
        ccs: map![
            (0u8, 27u8) => CcTarget::Shift,
            (0u8, 105u8) => CcTarget::Transport(TransportControl::Loop),
            (0u8, 106u8) => CcTarget::Transport(TransportControl::Stop),
            (0u8, 107u8) => CcTarget::Transport(TransportControl::Play),
            (0u8, 108u8) => CcTarget::Transport(TransportControl::Record),
            (0u8, 109u8) => CcTarget::Transport(TransportControl::Tap),
        ],
        pad_pressure_channels: Set::empty(),
    }
}

// ---------------------------------------------------------------------
// What the bytes mean
// ---------------------------------------------------------------------

/// A message of three bytes says what its kind, channel and data bytes say;
/// a message that is read is the one whose bytes came.
pub proof fn law_bytes_are_read_as_midi(status: u8, first: u8, second: u8, message: MidiMessage)
    requires
        message@ == decoded(seq![status, first, second]),
    ensures
        0x80 <= status <= 0x8F ==> message == (MidiMessage::NoteOff {
            channel: (status - 0x80) as u8,
            note: first,
            velocity: second,
        }),
        0x90 <= status <= 0x9F ==> message == (MidiMessage::NoteOn {
            channel: (status - 0x90) as u8,
            note: first,
            velocity: second,
        }),
        0xA0 <= status <= 0xAF ==> message == (MidiMessage::PolyPressure {
            channel: (status - 0xA0) as u8,
            note: first,
            pressure: second,
        }),
        0xB0 <= status <= 0xBF ==> message == (MidiMessage::ControlChange {
            channel: (status - 0xB0) as u8,
            controller: first,
            value: second,
        }),
        0xE0 <= status <= 0xEF && first < 128 && second < 128 ==> message == (
        MidiMessage::PitchBend {
            channel: (status - 0xE0) as u8,
            value: (second as int * 128 + first) as u16,
        }),
{
    if first < 128 {
        law_bend_value(first, second);
    }
}

/// A message of two bytes is a program change, a channel pressure, or
/// neither.
pub proof fn law_short_bytes_are_read_as_midi(status: u8, data: u8, message: MidiMessage)
    requires
        message@ == decoded(seq![status, data]),
    ensures
        0xC0 <= status <= 0xCF ==> message == (MidiMessage::ProgramChange {
            channel: (status - 0xC0) as u8,
            program: data,
        }),
        0xD0 <= status <= 0xDF ==> message == (MidiMessage::ChannelPressure {
            channel: (status - 0xD0) as u8,
            pressure: data,
        }),
        status < 0xC0 || status > 0xF0 ==> message is Other,
{
}

/// What starts and ends as SysEx is SysEx, whole; it is kept as it came, and
/// so is all that is no message.
pub proof fn law_sysex_is_kept_whole(bytes: Seq<u8>, message: MidiMessage)
    requires
        message@ == decoded(bytes),
    ensures
        bytes.len() >= 2 && bytes[0] == 0xF0 && bytes.last() == 0xF7 ==> (message matches
            MidiMessage::SysEx(kept) && kept@ == bytes),
        bytes.len() == 0 || (bytes[0] == 0xF0 && bytes.last() != 0xF7) || (bytes.len() > 3
            && bytes[0] != 0xF0) ==> (message matches MidiMessage::Other(kept) && kept@ == bytes),
{
}

/// The monitor's line names the message, its channel and its data.
pub proof fn law_descriptions_say_everything(message: MidiView)
    ensures
        message matches MidiView::NoteOn { channel, note, velocity } ==> described(message)
            == "NoteOn ch"@ + crate::text::decimal(channel as nat) + " note="@
            + crate::text::decimal(note as nat) + " vel="@ + crate::text::decimal(velocity as nat),
        message matches MidiView::NoteOff { channel, note, velocity } ==> described(message)
            == "NoteOff ch"@ + crate::text::decimal(channel as nat) + " note="@
            + crate::text::decimal(note as nat) + " vel="@ + crate::text::decimal(velocity as nat),
        message matches MidiView::PolyPressure { channel, note, pressure } ==> described(message)
            == "PolyPressure ch"@ + crate::text::decimal(channel as nat) + " note="@
            + crate::text::decimal(note as nat) + " val="@ + crate::text::decimal(pressure as nat),
        message matches MidiView::ControlChange { channel, controller, value } ==> described(
            message,
        ) == "CC ch"@ + crate::text::decimal(channel as nat) + " cc="@ + crate::text::decimal(
            controller as nat,
        ) + " val="@ + crate::text::decimal(value as nat),
        message matches MidiView::ProgramChange { channel, program } ==> described(message)
            == "ProgramChange ch"@ + crate::text::decimal(channel as nat) + " prog="@
            + crate::text::decimal(program as nat),
        message matches MidiView::ChannelPressure { channel, pressure } ==> described(message)
            == "ChannelPressure ch"@ + crate::text::decimal(channel as nat) + " val="@
            + crate::text::decimal(pressure as nat),
        message matches MidiView::PitchBend { channel, value } ==> described(message)
            == "PitchBend ch"@ + crate::text::decimal(channel as nat) + " val="@
            + crate::text::decimal(value as nat),
        message matches MidiView::SysEx(bytes) ==> described(message) == "SysEx ("@
            + crate::text::decimal(bytes.len()) + " bytes)"@,
        message matches MidiView::Other(bytes) ==> described(message) == "Other ("@
            + crate::text::decimal(bytes.len()) + " bytes)"@,
{
}

/// A relative encoder's step is its distance from 64, or the signed value of
/// its seven bits; what does not fit wraps around.
pub proof fn law_encoder_steps(value: u8)
    ensures
        ({
            let offset = relative_delta(RelativeEncoding::OffsetFrom64, value);
            let signed = relative_delta(RelativeEncoding::TwosComplement, value);
            &&& value < 128 ==> offset == value - 64
            &&& value < 64 ==> signed == value
            &&& 64 <= value < 128 ==> signed == value - 128
            &&& -128 <= offset < 128 && (offset - (value - 64)) % 256 == 0
            &&& -64 <= signed < 64 && (signed - value) % 128 == 0
        }),
{
}

/// A pad that is struck goes down with its force and up again; a key of a
/// keyboard channel sounds with its own; a pad counts before a key.
pub proof fn law_notes_are_pads_or_keys(
    table: ControlTable,
    channel: u8,
    note: u8,
    velocity: u8,
    event: DeviceEvent,
)
    requires
        velocity > 0,
        event@ == mapped(table, MidiView::NoteOn { channel, note, velocity }),
    ensures
        ({
            let off = mapped(table, MidiView::NoteOff { channel, note, velocity });
            let is_pad = table.pads.contains_key((channel, note));
            let is_key = !is_pad && table.keyboard_channels.contains(channel);
            &&& is_pad ==> {
                let index = table.pads[(channel, note)];
                event == (DeviceEvent::PadDown { index, velocity }) && off == (DeviceView::PadUp {
                    index,
                })
            }
            &&& is_key ==> event == (DeviceEvent::NoteOn { note, velocity }) && off == (
            DeviceView::NoteOff { note })
            &&& !is_pad && !is_key ==> event is Unmapped && off is Unmapped
        }),
{
}

/// A controller moves what the table has it for: positions go through as
/// they are, steps by their encoding, and buttons are down from 64 on.
pub proof fn law_controllers_move_their_target(
    table: ControlTable,
    channel: u8,
    controller: u8,
    value: u8,
    event: DeviceEvent,
)
    requires
        value < 128,
        event@ == mapped(table, MidiView::ControlChange { channel, controller, value }),
    ensures
        !table.ccs.contains_key((channel, controller)) ==> event is Unmapped,
        table.ccs.contains_key((channel, controller)) ==> match table.ccs[(channel, controller)] {
            CcTarget::Encoder(index) => event == (DeviceEvent::Encoder { index, value }),
            CcTarget::Fader(index) => event == (DeviceEvent::Fader { index, value }),
            CcTarget::ModStrip => event == (DeviceEvent::ModStrip { value }),
            CcTarget::MainEncoderTurn(RelativeEncoding::OffsetFrom64) => event matches
                DeviceEvent::MainEncoderTurn { delta } && delta == value - 64,
            CcTarget::MainEncoderShiftTurn(RelativeEncoding::OffsetFrom64) => event matches
                DeviceEvent::MainEncoderShiftTurn { delta } && delta == value - 64,
            CcTarget::MainEncoderTurn(RelativeEncoding::TwosComplement) => event matches
                DeviceEvent::MainEncoderTurn { delta } && (delta - value) % 128 == 0,
            CcTarget::MainEncoderShiftTurn(RelativeEncoding::TwosComplement) => event matches
                DeviceEvent::MainEncoderShiftTurn { delta } && (delta - value) % 128 == 0,
            CcTarget::MainEncoderClick => event == (DeviceEvent::MainEncoderClick {
                pressed: value >= 64,
            }),
            CcTarget::Shift => event == (DeviceEvent::Shift { pressed: value >= 64 }),
            CcTarget::Transport(control) => event == (DeviceEvent::Transport {
                control,
                pressed: value >= 64,
            }),
        },
{
}

/// The pitch strip bends on a keyboard channel; pressure is a pad's, on its
/// note or on a channel kept for it; what has no meaning stays as it is.
pub proof fn law_strips_and_pressure(table: ControlTable, message: MidiView, event: DeviceEvent)
    requires
        event@ == mapped(table, message),
    ensures
        message matches MidiView::PitchBend { channel, value } ==> if table.keyboard_channels.contains(
            channel,
        ) {
            event == (DeviceEvent::PitchBend { value })
        } else {
            event is Unmapped
        },
        message matches MidiView::ChannelPressure { channel, pressure } ==> if table.pad_pressure_channels.contains(
            channel,
        ) {
            event == (DeviceEvent::PadPressure { pressure })
        } else {
            event is Unmapped
        },
        message matches MidiView::PolyPressure { channel, note, pressure } ==> if table.pads.contains_key(
            (channel, note),
        ) {
            event == (DeviceEvent::PadPressure { pressure })
        } else {
            event is Unmapped
        },
        message is ProgramChange || message is SysEx || message is Other ==> event is Unmapped,
        event matches DeviceEvent::Unmapped(kept) ==> kept@ == message,
{
}

/// The controller numbers of the encoders in Arturia mode, first to last.
pub open spec fn encoder_ccs() -> Seq<u8> {
    seq![74u8, 71u8, 76u8, 77u8, 93u8, 18u8, 19u8, 16u8]
}

/// The controller numbers of the faders in Arturia mode, first to last.
pub open spec fn fader_ccs() -> Seq<u8> {
    seq![82u8, 83u8, 85u8, 17u8]
}

/// In Arturia mode the device's bytes mean what was recorded of it: the
/// eight encoders and four faders, the mod strip, the main encoder with and
/// without Shift, its click, Shift, the keys and the pads.
pub proof fn law_arturia_mode_is_as_recorded(i: int, number: u8, value: u8)
    requires
        0 <= i < 8,
        number < 128 && 0 < value < 128,
    ensures
        ({
            let table = arturia_table();
            let means = |bytes: Seq<u8>| mapped(table, decoded(bytes));
            &&& means(seq![0xB0u8, encoder_ccs()[i], value]) == (DeviceView::Encoder {
                index: i as u8,
                value,
            })
            &&& i < 4 ==> means(seq![0xB0u8, fader_ccs()[i], value]) == (DeviceView::Fader {
                index: i as u8,
                value,
            })
            &&& means(seq![0xB0u8, 1u8, value]) == (DeviceView::ModStrip { value })
            &&& means(seq![0xB0u8, 114u8, value]) == (DeviceView::MainEncoderTurn {
                delta: (value - 64) as i8,
            })
            &&& means(seq![0xB0u8, 112u8, value]) == (DeviceView::MainEncoderShiftTurn {
                delta: (value - 64) as i8,
            })
            &&& means(seq![0xB0u8, 115u8, value]) == (DeviceView::MainEncoderClick {
                pressed: value >= 64,
            })
            &&& means(seq![0xB0u8, 9u8, value]) == (DeviceView::Shift { pressed: value >= 64 })
            &&& means(seq![0x90u8, number, value]) == (DeviceView::NoteOn {
                note: number,
                velocity: value,
            })
            &&& means(seq![0x80u8, number, value]) == (DeviceView::NoteOff { note: number })
            &&& means(seq![0x99u8, (44 + i) as u8, value]) == (DeviceView::PadDown {
                index: i as u8,
                velocity: value,
            })
            &&& means(seq![0x89u8, (44 + i) as u8, 0]) == (DeviceView::PadUp { index: i as u8 })
            &&& means(seq![0xA9u8, (44 + i) as u8, value]) == (DeviceView::PadPressure {
                pressure: value,
            })
        }),
{
    let table = arturia_table();
    assert(table.ccs.contains_key((0u8, encoder_ccs()[i])));
    if i < 4 {
        assert(table.ccs.contains_key((0u8, fader_ccs()[i])));
    }
    assert(table.ccs.contains_key((0u8, 1u8)));
    assert(table.ccs.contains_key((0u8, 114u8)));
    assert(table.ccs.contains_key((0u8, 112u8)));
    assert(table.ccs.contains_key((0u8, 115u8)));
    assert(table.ccs.contains_key((0u8, 9u8)));
}

/// In DAW mode Shift and the five transport pads mean what was recorded of
/// them; a pad is down from 64 on.
pub proof fn law_daw_mode_is_as_recorded(value: u8)
    ensures
        ({
            let table = daw_table();
            let means = |cc: u8| mapped(table, decoded(seq![0xB0u8, cc, value]));
            let pressed = value >= 64;
            &&& means(27) == (DeviceView::Shift { pressed })
            &&& means(105) == (DeviceView::Transport { control: TransportControl::Loop, pressed })
            &&& means(106) == (DeviceView::Transport { control: TransportControl::Stop, pressed })
            &&& means(107) == (DeviceView::Transport { control: TransportControl::Play, pressed })
            &&& means(108) == (DeviceView::Transport { control: TransportControl::Record, pressed })
            &&& means(109) == (DeviceView::Transport { control: TransportControl::Tap, pressed })
        }),
{
    let table = daw_table();
    assert(table.ccs.contains_key((0u8, 27u8)));
    assert(table.ccs.contains_key((0u8, 105u8)));
    assert(table.ccs.contains_key((0u8, 106u8)));
    assert(table.ccs.contains_key((0u8, 107u8)));
    assert(table.ccs.contains_key((0u8, 108u8)));
    assert(table.ccs.contains_key((0u8, 109u8)));
}

} // verus!
