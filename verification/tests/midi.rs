//! MIDI decoding, control maps, captures, SysEx, display rate and ports.

use zoog::midi::capture::{read_capture, write_capture, write_line, CaptureLine};
use zoog::midi::device::{replay, Device, MockDevice};
use zoog::midi::event::{
    CcTarget, ControlMap, DeviceEvent, MidiMessage, RelativeEncoding, TimedMessage,
    TransportControl,
};
use zoog::midi::ports::{
    first_matching, lower_contains, name_matches, MidiError, PortListing, DEFAULT_PORT_MATCH,
};
use zoog::midi::rate::Coalescer;
use zoog::midi::sysex::{display_text, init, pad_color, ColorTarget};
use zoog::time::{Duration, Instant};

fn sample() -> Vec<CaptureLine> {
    vec![
        CaptureLine::Comment("keyboard C4".to_string()),
        CaptureLine::Message(TimedMessage { timestamp_us: 1000, bytes: vec![0x90, 0x3C, 0x64] }),
        CaptureLine::Message(TimedMessage { timestamp_us: 250_000, bytes: vec![0x80, 0x3C, 0x00] }),
        CaptureLine::Comment("sysex".to_string()),
        CaptureLine::Message(TimedMessage {
            timestamp_us: 300_000,
            bytes: vec![0xF0, 0x00, 0x20, 0x6B, 0xF7],
        }),
    ]
}

#[test]
fn round_trip() {
    let lines = sample();
    let mut text = String::new();
    write_capture(&mut text, &lines);
    let parsed = read_capture(&text).unwrap();
    assert_eq!(parsed, lines);
}

#[test]
fn ignores_blank_lines_and_trims_comments() {
    let text = "\n#  marker  \n42 90 3C 7F\n\n";
    let parsed = read_capture(text).unwrap();
    assert_eq!(
        parsed,
        vec![
            CaptureLine::Comment("marker".to_string()),
            CaptureLine::Message(TimedMessage { timestamp_us: 42, bytes: vec![0x90, 0x3C, 0x7F] }),
        ]
    );
}

#[test]
fn rejects_garbage() {
    assert!(read_capture("not a line").is_err());
    assert!(read_capture("123").is_err());
    assert!(read_capture("123 ZZ").is_err());
}

#[test]
fn capture_lines_have_one_form() {
    let mut text = String::new();
    write_capture(&mut text, &sample());
    assert_eq!(
        text,
        "# keyboard C4\n1000 90 3C 64\n250000 80 3C 00\n# sysex\n300000 F0 00 20 6B F7\n"
    );
    let mut line = String::new();
    write_line(&mut line, &CaptureLine::Comment("pads".to_string()));
    assert_eq!(line, "# pads\n");
}

#[test]
fn capture_errors_name_the_line() {
    let e = read_capture("# fine\n1 90 3C 64\n2 9G\n").unwrap_err();
    assert_eq!(e.line, 3);
    assert!(e.message().contains("3"));
    assert!(e.message().contains("2 9G"));
}

const CAPTURE: &str = "\
# keyboard press and release
1000 90 3C 64
2000 80 3C 00
# synthetic encoder cc
3000 B0 0A 21
";

fn drain(device: &mut MockDevice, map: &ControlMap) -> Vec<DeviceEvent> {
    let mut events = Vec::new();
    while let Some(msg) = device.try_recv() {
        events.push(map.map(MidiMessage::decode(&msg.bytes)));
    }
    events
}

#[test]
fn replaying_a_capture_produces_identical_events() {
    let lines = read_capture(CAPTURE).unwrap();
    let map = ControlMap::new().keyboard_channel(0).cc(0, 10, CcTarget::Encoder(0));

    let first = drain(&mut MockDevice::from_capture(&lines), &map);
    let second = drain(&mut MockDevice::from_capture(&lines), &map);

    assert_eq!(
        first,
        vec![
            DeviceEvent::NoteOn { note: 0x3C, velocity: 100 },
            DeviceEvent::NoteOff { note: 0x3C },
            DeviceEvent::Encoder { index: 0, value: 0x21 },
        ]
    );
    assert_eq!(first, second);
    assert_eq!(replay(&mut MockDevice::from_capture(&lines), &map), first);
}

#[test]
fn mock_records_sends() {
    let mut mock = MockDevice::new();
    mock.send(&[0xF0, 0x00, 0xF7]).unwrap();
    assert_eq!(mock.sent, vec![vec![0xF0, 0x00, 0xF7]]);
}

#[test]
fn mock_hands_messages_out_in_order() {
    let mut mock = MockDevice::new();
    assert!(mock.recv_timeout(Duration::from_millis(5)).is_none());
    mock.push(TimedMessage { timestamp_us: 1, bytes: vec![0x90, 1, 1] });
    mock.push(TimedMessage { timestamp_us: 2, bytes: vec![0x80, 1, 0] });
    assert_eq!(mock.recv_timeout(Duration::from_millis(5)).unwrap().timestamp_us, 1);
    assert_eq!(mock.try_recv().unwrap().timestamp_us, 2);
    assert!(mock.try_recv().is_none());
}

#[test]
fn decodes_note_on_off() {
    assert_eq!(
        MidiMessage::decode(&[0x90, 60, 100]),
        MidiMessage::NoteOn { channel: 0, note: 60, velocity: 100 }
    );
    assert_eq!(
        MidiMessage::decode(&[0x83, 61, 0]),
        MidiMessage::NoteOff { channel: 3, note: 61, velocity: 0 }
    );
}

#[test]
fn decodes_cc_and_pitch_bend() {
    assert_eq!(
        MidiMessage::decode(&[0xB1, 74, 42]),
        MidiMessage::ControlChange { channel: 1, controller: 74, value: 42 }
    );
    // lsb=0, msb=0x40 -> center 8192
    assert_eq!(
        MidiMessage::decode(&[0xE0, 0x00, 0x40]),
        MidiMessage::PitchBend { channel: 0, value: 8192 }
    );
    // full range
    assert_eq!(
        MidiMessage::decode(&[0xE0, 0x7F, 0x7F]),
        MidiMessage::PitchBend { channel: 0, value: 16383 }
    );
}

#[test]
fn decodes_pressure_and_program() {
    assert_eq!(
        MidiMessage::decode(&[0xD9, 88]),
        MidiMessage::ChannelPressure { channel: 9, pressure: 88 }
    );
    assert_eq!(
        MidiMessage::decode(&[0xA0, 36, 55]),
        MidiMessage::PolyPressure { channel: 0, note: 36, pressure: 55 }
    );
    assert_eq!(
        MidiMessage::decode(&[0xC2, 7]),
        MidiMessage::ProgramChange { channel: 2, program: 7 }
    );
}

#[test]
fn decodes_sysex_and_other() {
    let sysex = [0xF0, 0x00, 0x20, 0x6B, 0xF7];
    assert_eq!(MidiMessage::decode(&sysex), MidiMessage::SysEx(sysex.to_vec()));
    assert_eq!(MidiMessage::decode(&[0xF8]), MidiMessage::Other(vec![0xF8]));
    // Truncated note-on is Other, not a bogus decode.
    assert_eq!(MidiMessage::decode(&[0x90, 60]), MidiMessage::Other(vec![0x90, 60]));
}

#[test]
fn empty_messages_are_other() {
    assert_eq!(MidiMessage::decode(&[]), MidiMessage::Other(vec![]));
}

#[test]
fn descriptions_name_the_fields() {
    let on = MidiMessage::decode(&[0x90, 60, 100]).describe();
    assert!(on.contains("NoteOn") && on.contains("note=60") && on.contains("vel=100"));
    let other = MidiMessage::decode(&[0xF8]).describe();
    assert_ne!(on, other);
}

#[test]
fn relative_encodings() {
    let e = RelativeEncoding::OffsetFrom64;
    assert_eq!(e.delta(64), 0);
    assert_eq!(e.delta(65), 1);
    assert_eq!(e.delta(63), -1);
    assert_eq!(e.delta(70), 6);

    let e = RelativeEncoding::TwosComplement;
    assert_eq!(e.delta(0), 0);
    assert_eq!(e.delta(1), 1);
    assert_eq!(e.delta(127), -1);
    assert_eq!(e.delta(125), -3);
}

fn test_map() -> ControlMap {
    // Synthetic map for tests only; real values come from the capture.
    ControlMap::new()
        .keyboard_channel(0)
        .pad(9, 36, 0)
        .pad(9, 37, 1)
        .pad_pressure_channel(9)
        .cc(0, 10, CcTarget::Encoder(0))
        .cc(0, 11, CcTarget::Fader(2))
        .cc(0, 1, CcTarget::ModStrip)
        .cc(0, 20, CcTarget::MainEncoderTurn(RelativeEncoding::OffsetFrom64))
        .cc(0, 21, CcTarget::MainEncoderClick)
        .cc(0, 22, CcTarget::Shift)
}

#[test]
fn maps_keyboard_and_pads() {
    let m = test_map();
    assert_eq!(
        m.map(MidiMessage::decode(&[0x90, 60, 100])),
        DeviceEvent::NoteOn { note: 60, velocity: 100 }
    );
    // NoteOn velocity 0 is note off.
    assert_eq!(m.map(MidiMessage::decode(&[0x90, 60, 0])), DeviceEvent::NoteOff { note: 60 });
    assert_eq!(
        m.map(MidiMessage::decode(&[0x99, 36, 80])),
        DeviceEvent::PadDown { index: 0, velocity: 80 }
    );
    assert_eq!(m.map(MidiMessage::decode(&[0x89, 37, 0])), DeviceEvent::PadUp { index: 1 });
    assert_eq!(
        m.map(MidiMessage::decode(&[0xD9, 42])),
        DeviceEvent::PadPressure { pressure: 42 }
    );
}

#[test]
fn maps_ccs() {
    let m = test_map();
    assert_eq!(
        m.map(MidiMessage::decode(&[0xB0, 10, 99])),
        DeviceEvent::Encoder { index: 0, value: 99 }
    );
    assert_eq!(
        m.map(MidiMessage::decode(&[0xB0, 11, 5])),
        DeviceEvent::Fader { index: 2, value: 5 }
    );
    assert_eq!(m.map(MidiMessage::decode(&[0xB0, 1, 64])), DeviceEvent::ModStrip { value: 64 });
    assert_eq!(
        m.map(MidiMessage::decode(&[0xB0, 20, 63])),
        DeviceEvent::MainEncoderTurn { delta: -1 }
    );
    assert_eq!(
        m.map(MidiMessage::decode(&[0xB0, 21, 127])),
        DeviceEvent::MainEncoderClick { pressed: true }
    );
    assert_eq!(
        m.map(MidiMessage::decode(&[0xB0, 22, 0])),
        DeviceEvent::Shift { pressed: false }
    );
}

#[test]
fn unmapped_falls_through() {
    let m = test_map();
    let msg = MidiMessage::decode(&[0xB5, 99, 1]);
    assert_eq!(m.map(msg.clone()), DeviceEvent::Unmapped(msg));
    // Empty map leaves everything unmapped.
    let empty = ControlMap::new();
    let note = MidiMessage::decode(&[0x90, 60, 100]);
    assert_eq!(empty.map(note.clone()), DeviceEvent::Unmapped(note));
}

#[test]
fn transport_controls_map() {
    let m = ControlMap::new().cc(0, 107, CcTarget::Transport(TransportControl::Play));
    assert_eq!(
        m.map(MidiMessage::decode(&[0xB0, 107, 127])),
        DeviceEvent::Transport { control: TransportControl::Play, pressed: true }
    );
    assert_eq!(
        m.map(MidiMessage::decode(&[0xB0, 107, 0])),
        DeviceEvent::Transport { control: TransportControl::Play, pressed: false }
    );
}

#[test]
fn arturia_mode_is_mapped() {
    let map = ControlMap::minilab3_arturia();
    let event = |bytes: &[u8]| map.map(MidiMessage::decode(bytes));
    assert_eq!(event(&[0x90, 60, 100]), DeviceEvent::NoteOn { note: 60, velocity: 100 });
    assert_eq!(event(&[0xE0, 0, 64]), DeviceEvent::PitchBend { value: 8192 });
    assert_eq!(event(&[0xB0, 1, 9]), DeviceEvent::ModStrip { value: 9 });
    for (index, cc) in [74, 71, 76, 77, 93, 18, 19, 16].into_iter().enumerate() {
        assert_eq!(event(&[0xB0, cc, 5]), DeviceEvent::Encoder { index: index as u8, value: 5 });
    }
    for (index, cc) in [82, 83, 85, 17].into_iter().enumerate() {
        assert_eq!(event(&[0xB0, cc, 5]), DeviceEvent::Fader { index: index as u8, value: 5 });
    }
    for pad in 0..8u8 {
        assert_eq!(
            event(&[0x99, 44 + pad, 80]),
            DeviceEvent::PadDown { index: pad, velocity: 80 }
        );
        assert_eq!(event(&[0x89, 44 + pad, 0]), DeviceEvent::PadUp { index: pad });
    }
    assert_eq!(event(&[0xA9, 44, 7]), DeviceEvent::PadPressure { pressure: 7 });
    assert_eq!(event(&[0xB0, 114, 62]), DeviceEvent::MainEncoderTurn { delta: -2 });
    assert_eq!(event(&[0xB0, 112, 65]), DeviceEvent::MainEncoderShiftTurn { delta: 1 });
    assert_eq!(event(&[0xB0, 115, 127]), DeviceEvent::MainEncoderClick { pressed: true });
    assert_eq!(event(&[0xB0, 9, 0]), DeviceEvent::Shift { pressed: false });
}

#[test]
fn daw_mode_has_a_transport_row() {
    let map = ControlMap::minilab3_daw();
    for (cc, control) in [
        (105, TransportControl::Loop),
        (106, TransportControl::Stop),
        (107, TransportControl::Play),
        (108, TransportControl::Record),
        (109, TransportControl::Tap),
    ] {
        assert_eq!(
            map.map(MidiMessage::decode(&[0xB0, cc, 127])),
            DeviceEvent::Transport { control, pressed: true }
        );
    }
    assert_eq!(
        map.map(MidiMessage::decode(&[0xB0, 27, 127])),
        DeviceEvent::Shift { pressed: true }
    );
}

#[test]
fn name_matching_is_case_insensitive() {
    assert!(name_matches("Minilab3 MIDI In", "minilab"));
    assert!(name_matches("MINILAB3", "MiniLab"));
    assert!(!name_matches("Midi Through Port-0", "minilab"));
}

#[test]
fn default_match_selects_only_the_midi_port() {
    // Real port names observed via `labctl ports` on 2026-09-18.
    assert!(name_matches("Minilab3:Minilab3 MIDI 36:0", DEFAULT_PORT_MATCH));
    for other in [
        "Minilab3:Minilab3 DIN THRU 36:1",
        "Minilab3:Minilab3 MCU/HUI 36:2",
        "Minilab3:Minilab3 ALV 36:3",
        "Midi Through:Midi Through Port-0 14:0",
    ] {
        assert!(!name_matches(other, DEFAULT_PORT_MATCH));
    }
}

#[test]
fn the_first_matching_port_is_taken() {
    let names = vec![
        None,
        Some("Midi Through".to_string()),
        Some("Minilab3 MIDI".to_string()),
        Some("minilab3 midi 2".to_string()),
    ];
    assert_eq!(first_matching(&names, "MINILAB3"), Some(2));
    assert_eq!(first_matching(&names, "launchpad"), None);
    assert!(lower_contains("minilab3", "lab"));
    let listing = PortListing::from_names(names, vec![None]);
    assert_eq!(listing.inputs, ["Midi Through", "Minilab3 MIDI", "minilab3 midi 2"]);
    assert!(listing.outputs.is_empty());
}

#[test]
fn midi_errors_are_told_apart() {
    let texts = [
        MidiError::Init("x".to_string()).message(),
        MidiError::NoMatchingPort { matcher: "minilab".to_string() }.message(),
        MidiError::Connect("x".to_string()).message(),
        MidiError::Send("x".to_string()).message(),
        MidiError::Disconnected.message(),
    ];
    for (i, a) in texts.iter().enumerate() {
        for b in &texts[i + 1..] {
            assert_ne!(a, b);
        }
    }
    assert!(texts[1].contains("\"minilab\""));
}

fn tick() -> Duration {
    Duration::from_millis(33)
}

fn ms(millis: u64) -> Instant {
    Instant { nanos: 1_000_000_000 + millis * 1_000_000 }
}

#[test]
fn first_item_passes_immediately() {
    let mut c = Coalescer::new(tick());
    assert_eq!(c.offer("a", ms(0)), Some("a"));
}

#[test]
fn rapid_items_coalesce_to_latest() {
    let mut c = Coalescer::new(tick());
    assert_eq!(c.offer(1, ms(0)), Some(1));
    // Burst within the interval: all held, only the newest survives.
    assert_eq!(c.offer(2, ms(5)), None);
    assert_eq!(c.offer(3, ms(10)), None);
    assert_eq!(c.poll(ms(20)), None);
    assert_eq!(c.poll(ms(33)), Some(3));
    // Nothing left pending.
    assert_eq!(c.poll(ms(66)), None);
}

#[test]
fn offer_after_interval_passes_and_drops_pending() {
    let mut c = Coalescer::new(tick());
    assert_eq!(c.offer(1, ms(0)), Some(1));
    assert_eq!(c.offer(2, ms(5)), None);
    // A newer item arriving after the interval supersedes the pending one
    // entirely.
    assert_eq!(c.offer(3, ms(33)), Some(3));
    assert_eq!(c.poll(ms(66)), None);
}

// Golden bytes hand-assembled from the device's message layouts.

#[test]
fn init_golden() {
    assert_eq!(
        init(),
        [0xF0, 0x00, 0x20, 0x6B, 0x7F, 0x42, 0x02, 0x02, 0x40, 0x6A, 0x21, 0xF7]
    );
}

#[test]
fn pad_color_golden() {
    assert_eq!(
        pad_color(ColorTarget::PadTemporary(0), 0x00, 0x7F, 0x00),
        [0xF0, 0x00, 0x20, 0x6B, 0x7F, 0x42, 0x02, 0x02, 0x16, 0x04, 0x00, 0x7F, 0x00, 0xF7]
    );
}

#[test]
fn pad_color_clamps_to_7bit() {
    let msg = pad_color(ColorTarget::PadTemporary(1), 0xFF, 0x80, 0x7F);
    assert_eq!(&msg[9..13], &[0x05, 0x7F, 0x00, 0x7F]);
}

#[test]
fn color_target_ids() {
    assert_eq!(ColorTarget::ShiftButton.id(), 0x00);
    assert_eq!(ColorTarget::OctavePlusButton.id(), 0x03);
    assert_eq!(ColorTarget::PadTemporary(7).id(), 0x0B);
    assert_eq!(ColorTarget::PadBTemporary(0).id(), 0x14);
    assert_eq!(ColorTarget::PadPersistent(7).id(), 0x3B);
    assert_eq!(ColorTarget::PadBPersistent(3).id(), 0x47);
}

#[test]
fn display_text_golden() {
    // F0 00 20 6B 7F 42 04 02 60 01 'H' 'I' 00 02 'Y' 'O' F7
    assert_eq!(
        display_text("HI", "YO"),
        [
            0xF0, 0x00, 0x20, 0x6B, 0x7F, 0x42, 0x04, 0x02, 0x60, 0x01, b'H', b'I', 0x00, 0x02,
            b'Y', b'O', 0xF7
        ]
    );
}

#[test]
fn display_text_sanitizes_non_ascii() {
    let msg = display_text("A\u{e9}", "\tB");
    // 'é' and tab become spaces; every data byte stays 7-bit.
    assert_eq!(&msg[10..12], b"A ");
    assert_eq!(&msg[14..16], b" B");
    assert!(msg[1..msg.len() - 1].iter().all(|&b| b < 0x80));
}

#[test]
fn each_offer_comes_out_at_most_once() {
    let mut c = Coalescer::new(Duration::from_millis(30));
    let at = |millis: u64| Instant { nanos: millis * 1_000_000 };
    let mut out: Vec<u32> = Vec::new();
    for (millis, offer) in
        [(0, Some(1)), (5, Some(2)), (10, None), (20, Some(3)), (31, None), (40, None), (70, Some(4))]
    {
        let released = match offer {
            Some(item) => c.offer(item, at(millis)),
            None => c.poll(at(millis)),
        };
        out.extend(released);
    }
    out.extend(c.poll(at(200)));
    assert_eq!(out, [1, 3, 4]);
}

#[test]
fn a_copied_map_maps_alike() {
    let map = ControlMap::new().keyboard_channel(3).pad(9, 44, 2).pad_pressure_channel(9);
    let copy = map.clone();
    for bytes in [[0x93, 60, 1], [0x99, 44, 1], [0x90, 60, 1]] {
        assert_eq!(copy.map(MidiMessage::decode(&bytes)), map.map(MidiMessage::decode(&bytes)));
    }
    let empty = ControlMap::default();
    let event = empty.map(MidiMessage::decode(&[0x93, 60, 1]));
    assert!(matches!(event, DeviceEvent::Unmapped(_)));
}

#[test]
fn a_high_byte_out_of_range_is_kept() {
    assert_eq!(
        MidiMessage::decode(&[0xE0, 5, 200]),
        MidiMessage::PitchBend { channel: 0, value: 25_605 }
    );
}
