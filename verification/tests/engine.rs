//! Plugin discovery, note events, rings, presets, timers and audio.

use zoog::engine::audio::{
    main_samples, mix_block, mix_main, negotiate, port_layout, AudioError, AudioStats, BufferPlan,
    EngineConfig, OutputRange, PortInfo, PortLayout, Rendered, SampleFormat, SlotTable,
};
use zoog::engine::discovery::{
    list_plugins, pick_match, select_match, Descriptor, DiscoveryError, Pick, PluginInfo,
};
use zoog::engine::events::{
    find_main_note_port, micro_timestamp_to_sample_time, ClapEvent, Dialects, EventCollector,
    NotePortConfig, RtMidi,
};
use zoog::engine::presets::{
    extension_wanted, import_from, matches_extension, scan_imports, to_import, usable_by,
    CollectingReceiver, ContentFlags, PresetDiscoveryError,
};
use zoog::engine::ring::send_all;
use zoog::engine::timers::Timers;
use zoog::time::{Duration, Instant};

fn candidates() -> Vec<(String, Option<String>)> {
    vec![
        ("org.surge-synth-team.surge-xt".to_string(), Some("Surge XT".to_string())),
        ("org.surge-synth-team.surge-xt-fx".to_string(), Some("Surge XT Effects".to_string())),
    ]
}

#[test]
fn exact_name_wins_over_ambiguous_substring() {
    assert_eq!(select_match("Surge XT", &candidates()).unwrap(), 0);
    assert_eq!(select_match("surge xt effects", &candidates()).unwrap(), 1);
    assert_eq!(select_match("org.surge-synth-team.surge-xt", &candidates()).unwrap(), 0);
}

#[test]
fn ambiguous_substring_errors_with_ids() {
    match select_match("surge", &candidates()) {
        Err(DiscoveryError::Ambiguous(_, ids)) => assert_eq!(ids.len(), 2),
        other => panic!("expected Ambiguous, got {other:?}"),
    }
}

#[test]
fn no_match_errors() {
    assert!(matches!(select_match("vital", &candidates()), Err(DiscoveryError::NoMatch(_))));
}

#[test]
fn single_substring_match_is_accepted() {
    assert_eq!(select_match("effects", &candidates()).unwrap(), 1);
}

#[test]
fn discovery_errors_name_the_text() {
    let e = select_match("vital", &candidates()).unwrap_err();
    assert!(e.message().contains("\"vital\""));
    let e = select_match("surge", &candidates()).unwrap_err();
    assert!(e.message().contains("org.surge-synth-team.surge-xt, org.surge-synth-team.surge-xt-fx"));
}

#[test]
fn matches_of_lower_case_pairs() {
    let pairs = vec![
        ("a.b".to_string(), Some("pad".to_string())),
        ("c.d".to_string(), None),
        ("e.f".to_string(), Some("padded".to_string())),
    ];
    assert!(matches!(pick_match("pad", &pairs), Pick::One(0)));
    assert!(matches!(pick_match("c.", &pairs), Pick::One(1)));
    match pick_match("pa", &pairs) {
        Pick::Several(found) => assert_eq!(found, [0, 2]),
        _ => panic!("expected several"),
    }
    assert!(matches!(pick_match("zzz", &pairs), Pick::Nothing));
}

#[test]
fn descriptors_without_an_id_are_no_plugins() {
    let plugins = list_plugins(&vec![
        Descriptor { id: None, name: Some("ghost".to_string()), version: None },
        Descriptor {
            id: Some("a.b".to_string()),
            name: Some("Synth".to_string()),
            version: Some("1.2".to_string()),
        },
    ]);
    assert_eq!(plugins.len(), 1);
    assert_eq!(plugins[0].describe(), "Synth (a.b) v1.2");
    assert_eq!(plugins[0].title(), "Synth");
    let bare = PluginInfo { id: "c.d".to_string(), name: None, version: None };
    assert_eq!(bare.describe(), "c.d");
    assert_eq!(bare.title(), "c.d");
}

#[test]
fn rt_midi_packs_short_messages_only() {
    let m = RtMidi::from_bytes(5, &[0x90, 60, 100]).unwrap();
    assert_eq!(m.len, 3);
    assert_eq!(m.bytes, [0x90, 60, 100]);
    assert_eq!(RtMidi::from_bytes(5, &[0xD0, 3]).unwrap().len, 2);
    assert!(RtMidi::from_bytes(5, &[0xF0, 0x00, 0x20, 0x6B, 0xF7]).is_none());
    assert!(RtMidi::from_bytes(5, &[]).is_none());
}

#[test]
fn timestamp_interpolation() {
    // 1000us at 48kHz = 48 samples.
    assert_eq!(micro_timestamp_to_sample_time(1_000, 0, 48_000), 48);
    assert_eq!(micro_timestamp_to_sample_time(500, 500, 48_000), 0);
    // Earlier-than-first saturates to 0.
    assert_eq!(micro_timestamp_to_sample_time(400, 500, 48_000), 0);
}

#[test]
fn the_first_usable_note_port_is_taken() {
    assert_eq!(find_main_note_port(&vec![]), None);
    let ports = vec![
        None,
        Some(Dialects { clap: false, midi: false }),
        Some(Dialects { clap: true, midi: true }),
    ];
    let port = find_main_note_port(&ports).unwrap();
    assert_eq!(port.port_index, 2);
}

fn message(timestamp_us: u64, bytes: &[u8]) -> RtMidi {
    RtMidi::from_bytes(timestamp_us, bytes).unwrap()
}

#[test]
fn a_ring_carries_messages_into_a_block() {
    let (mut producer, mut consumer) = rtrb::RingBuffer::<RtMidi>::new(2);
    let accepted = send_all(
        &mut producer,
        &vec![
            message(1_000, &[0x90, 60, 100]),
            message(2_000, &[0x80, 60, 0]),
            message(3_000, &[0x90, 61, 1]),
        ],
    );
    // The ring holds two messages; the third is dropped.
    assert_eq!(accepted, [true, true, false]);

    let mut c = EventCollector::new(48_000, NotePortConfig { port_index: 3, prefers_midi: false });
    c.collect(&mut consumer, 256);
    let events = c.events();
    assert_eq!(events.len(), 2);
    match events[0] {
        ClapEvent::NoteOn { time, port, channel, note, velocity } => {
            assert_eq!((time, port, channel, note, velocity), (0, 3, 0, 60, 100));
        }
        other => panic!("expected a note, got {other:?}"),
    }
    match events[1] {
        ClapEvent::NoteOff { time, note, .. } => assert_eq!((time, note), (48, 60)),
        other => panic!("expected a note, got {other:?}"),
    }

    // The next block starts afresh.
    c.collect(&mut consumer, 256);
    assert!(c.events().is_empty());
}

#[test]
fn a_midi_port_gets_raw_bytes() {
    let mut c = EventCollector::new(48_000, NotePortConfig { port_index: 1, prefers_midi: true });
    c.push_message(&message(0, &[0x90, 60, 100]), 7);
    match c.events()[0] {
        ClapEvent::Midi { time, port, bytes } => {
            assert_eq!((time, port, bytes), (7, 1, [0x90, 60, 100]));
        }
        other => panic!("expected raw bytes, got {other:?}"),
    }
}

#[test]
fn shorter_messages_are_padded() {
    for prefers_midi in [false, true] {
        let mut c = EventCollector::new(48_000, NotePortConfig { port_index: 0, prefers_midi });
        c.push_message(&RtMidi { timestamp_us: 0, len: 2, bytes: [0xD0, 88, 0] }, 0);
        c.push_message(&RtMidi { timestamp_us: 0, len: 2, bytes: [0xC0, 5, 99] }, 3);
        let all: Vec<(u32, u16, [u8; 3])> = c
            .events()
            .iter()
            .map(|event| match *event {
                ClapEvent::Midi { time, port, bytes } => (time, port, bytes),
                other => panic!("expected raw bytes, got {other:?}"),
            })
            .collect();
        assert_eq!(all, [(0, 0, [0xD0, 88, 0]), (3, 0, [0xC0, 5, 0])]);
    }
}

#[test]
fn late_messages_stay_within_the_block() {
    let (mut producer, mut consumer) = rtrb::RingBuffer::<RtMidi>::new(4);
    send_all(&mut producer, &vec![message(0, &[0xB0, 1, 1]), message(1_000_000, &[0xB0, 1, 2])]);
    let (mut other, mut looper) = rtrb::RingBuffer::<RtMidi>::new(4);
    send_all(&mut other, &vec![message(0, &[0xE0, 0, 64])]);
    let mut c = EventCollector::new(48_000, NotePortConfig { port_index: 0, prefers_midi: true });
    c.collect(&mut consumer, 64);
    c.collect_more(&mut looper, 64);
    assert_eq!(c.events().len(), 3);
    for event in c.events() {
        match event {
            ClapEvent::Midi { time, .. } => assert!(*time < 64),
            other => panic!("expected raw bytes, got {other:?}"),
        }
    }
}

#[test]
fn extension_matching() {
    let exts = vec!["fxp".to_string()];
    assert!(matches_extension("/x/a.fxp", &exts));
    assert!(matches_extension("/x/a.FXP", &exts));
    assert!(!matches_extension("/x/a.wav", &exts));
    assert!(matches_extension("/x/a.anything", &vec![]));
    assert!(!matches_extension("/x/noext", &exts));
    assert!(extension_wanted(&Some("fxp".to_string()), &exts));
    assert!(!extension_wanted(&None, &exts));
}

fn discovered() -> CollectingReceiver {
    let mut r = CollectingReceiver::new();
    r.enter_location(ContentFlags { factory: true, user: false });
    r.enter_file(Some("/p/Pads/Warm Pad.fxp".to_string()));
    r.begin_preset(None, None);
    r.add_plugin_id("clap", "org.example".to_string());
    r.add_plugin_id("vst3", "other".to_string());
    r.add_creator("Ann".to_string());
    r.set_description("soft".to_string());
    r.add_feature("pad".to_string());
    r.enter_file(None);
    r.begin_preset(Some("Built In".to_string()), Some("key1".to_string()));
    r.add_feature("lead".to_string());
    r.set_flags(ContentFlags { factory: false, user: true });
    r.add_plugin_id("clap", "org.other".to_string());
    r
}

#[test]
fn discovery_collects_presets() {
    let presets = discovered().into_presets();
    assert_eq!(presets.len(), 2);
    // Without a name of its own a preset is called after its file.
    assert_eq!(presets[0].name, "Warm Pad");
    assert_eq!(presets[0].path.as_deref(), Some("/p/Pads/Warm Pad.fxp"));
    assert_eq!(presets[0].plugin_ids, ["org.example"]);
    assert_eq!(presets[0].creators, ["Ann"]);
    assert_eq!(presets[0].description.as_deref(), Some("soft"));
    assert!(presets[0].is_factory && !presets[0].is_user);
    assert_eq!(presets[1].name, "Built In");
    assert_eq!(presets[1].load_key.as_deref(), Some("key1"));
    assert!(presets[1].is_user && !presets[1].is_factory);
    assert!(usable_by(&presets[0], "org.example"));
    assert!(!usable_by(&presets[1], "org.example"));
}

#[test]
fn imports_take_the_directory_as_category() {
    let imports = scan_imports(discovered().into_presets(), &vec![Some(7), None], "org.example");
    assert_eq!(imports.len(), 1);
    assert_eq!(imports[0].category.as_deref(), Some("Pads"));
    assert_eq!(imports[0].mtime, Some(7));

    let mut presets = discovered().into_presets();
    let built_in = presets.pop().unwrap();
    assert_eq!(to_import(built_in, None).category.as_deref(), Some("lead"));
    let warm = presets.pop().unwrap();
    let import = import_from(warm, Some("Elsewhere".to_string()), None);
    assert_eq!(import.category.as_deref(), Some("Elsewhere"));
}

#[test]
fn preset_discovery_errors_in_words() {
    let a = PresetDiscoveryError::NoFactory.message();
    let b = PresetDiscoveryError::Provider("broken".to_string()).message();
    assert_ne!(a, b);
    assert!(b.contains("broken"));
}

fn ms(millis: u64) -> Instant {
    Instant { nanos: millis * 1_000_000 }
}

#[test]
fn timers_keep_their_interval() {
    let mut timers = Timers::new();
    let id = timers.register_new(Duration::from_millis(50));
    assert_eq!(timers.latest_id(), id);
    assert_eq!(timers.tick(ms(100)), [id]);
    assert!(timers.tick(ms(120)).is_empty());
    assert!(timers.tick(ms(150)).is_empty());
    assert_eq!(timers.tick(ms(151)), [id]);
    assert!(timers.unregister(id));
    assert!(!timers.unregister(id));
    assert!(timers.tick(ms(900)).is_empty());
}

#[test]
fn very_short_timer_intervals_are_raised() {
    let mut timers = Timers::new();
    let id = timers.register_new(Duration::from_millis(1));
    assert_eq!(timers.tick(ms(100)), [id]);
    assert!(timers.tick(ms(111)).is_empty());
    assert!(timers.tick(ms(130)).is_empty());
    assert_eq!(timers.tick(ms(131)), [id]);
    let slow = timers.register_new(Duration::from_millis(20));
    assert_eq!(timers.tick(ms(140)), [slow]);
    assert_eq!(timers.tick(ms(165)), [id]);
    assert_eq!(timers.tick(ms(171)), [slow]);
}

fn port(is_main: bool, channel_count: u32) -> Option<PortInfo> {
    Some(PortInfo { is_main, channel_count })
}

#[test]
fn port_layouts_fall_back_to_stereo() {
    let layout = port_layout(&None, false);
    assert_eq!((layout.port_channels.as_slice(), layout.main_port), ([2u16].as_slice(), 0));
    assert_eq!(port_layout(&None, true).port_channels, [2]);
    assert!(port_layout(&Some(vec![]), true).port_channels.is_empty());
    assert_eq!(port_layout(&Some(vec![None]), false).port_channels, [2]);
    let layout = port_layout(&Some(vec![port(false, 6), port(true, 1), port(true, 2)]), false);
    assert_eq!(layout.port_channels, [6, 1, 2]);
    assert_eq!(layout.main_port, 1);
    assert_eq!(layout.main_channel_count(), 1);
    assert_eq!(layout.total_channels(), 9);
    assert_eq!(layout.check_main().unwrap(), 1);
    // Ports that the plugin says nothing of do not count.
    let layout = port_layout(&Some(vec![None, port(true, 2)]), false);
    assert_eq!((layout.port_channels.as_slice(), layout.main_port), ([2u16].as_slice(), 0));
}

#[test]
fn wide_main_ports_are_refused() {
    let layout = PortLayout { port_channels: vec![6], main_port: 0 };
    assert!(matches!(layout.check_main(), Err(AudioError::UnsupportedMainPort(6))));
}

#[test]
fn mixing_overwrites_or_adds() {
    let plan = BufferPlan { max_frames: 3 };
    let main = vec![1.0f32, 2.0, 3.0, 10.0, 20.0, 30.0];
    let mut out = vec![0.5f32; 8];
    mix_main(&plan, 2, &main, 2, &mut out, |_, s| s);
    assert_eq!(out, [1.0, 10.0, 2.0, 20.0, 0.5, 0.5, 0.5, 0.5]);
    mix_main(&plan, 2, &main, 3, &mut out, |o, s| o + s);
    assert_eq!(out, [2.0, 20.0, 4.0, 40.0, 3.5, 30.5, 0.5, 0.5]);
    // A mono port goes to both channels, as far as it reaches.
    let mut out = vec![0.0f32; 10];
    mix_main(&plan, 1, &vec![1.0, 2.0, 3.0], 5, &mut out, |_, s| s);
    assert_eq!(out, [1.0, 1.0, 2.0, 2.0, 3.0, 3.0, 0.0, 0.0, 0.0, 0.0]);
}

#[test]
fn buffers_grow_with_the_blocks() {
    let mut plan = BufferPlan { max_frames: 256 };
    assert!(!plan.ensure_frames(256));
    assert!(plan.ensure_frames(1024));
    assert_eq!(plan.buffer_len(2), 2048);
    assert_eq!(plan.channel_start(1), 1024);
}

fn range(channels: u16, format: SampleFormat) -> OutputRange {
    OutputRange { channels, format, min_rate: 8_000, max_rate: 44_100, buffer: Some((0, 128)) }
}

#[test]
fn negotiation_prefers_float_and_holds_the_limits() {
    let config = EngineConfig::default();
    assert_eq!((config.sample_rate, config.buffer_frames), (48_000, 256));
    let ranges = vec![
        range(2, SampleFormat::U16),
        range(1, SampleFormat::Float),
        range(2, SampleFormat::I16),
        range(2, SampleFormat::Float),
        range(2, SampleFormat::Other),
    ];
    let n = negotiate(&ranges, config).unwrap();
    assert_eq!((n.format, n.sample_rate, n.buffer_frames), (SampleFormat::Float, 44_100, 128));
    let n = negotiate(&ranges, EngineConfig { sample_rate: 1, buffer_frames: 0 }).unwrap();
    assert_eq!((n.sample_rate, n.buffer_frames), (8_000, 1));
    let none = negotiate(&vec![range(1, SampleFormat::Float)], config);
    assert!(matches!(none, Err(AudioError::NoStereoConfig)));
}

fn fixed(rate: u32, buffer: Option<(u32, u32)>) -> OutputRange {
    OutputRange {
        channels: 2,
        format: SampleFormat::Float,
        min_rate: rate,
        max_rate: rate,
        buffer,
    }
}

#[test]
fn negotiation_comes_closest_to_the_request() {
    let config = EngineConfig { sample_rate: 48_000, buffer_frames: 256 };
    let n = negotiate(&vec![fixed(44_100, None), fixed(48_000, None)], config).unwrap();
    assert_eq!((n.format, n.sample_rate, n.buffer_frames), (SampleFormat::Float, 48_000, 256));
    // At the same rate the buffer size decides.
    let ranges = vec![fixed(48_000, Some((512, 1024))), fixed(48_000, Some((64, 255)))];
    assert_eq!(negotiate(&ranges, config).unwrap().buffer_frames, 255);
}

#[test]
fn audio_errors_in_words() {
    assert_eq!(AudioError::NoOutputDevice.message(), "no default audio output device");
    assert_eq!(
        AudioError::NoStereoConfig.message(),
        "output device offers no supported stereo f32/i16 config"
    );
    assert_eq!(
        AudioError::UnsupportedMainPort(6).message(),
        "plugin main output port has 6 channels; only 1 or 2 supported"
    );
    assert_eq!(AudioError::Backend("x".to_string()).message(), "audio backend error: x");
}

#[test]
fn blocks_are_counted() {
    let mut stats = AudioStats::default();
    stats.count_block(480, 5_000_000, 48_000);
    stats.count_block(240, 6_000_000, 48_000);
    assert_eq!(stats.callbacks, 2);
    assert_eq!(stats.overruns, 1);
    assert_eq!(stats.max_callback_ns, 6_000_000);
    assert_eq!((stats.min_frames, stats.max_frames), (240, 480));
    assert_eq!(stats.busy_ns, 11_000_000);
    assert_eq!(stats.budget_ns, 15_000_000);
}

#[test]
fn slot_engines_are_installed_and_taken_out() {
    let mut table: SlotTable<&str> = SlotTable::new(8);
    assert_eq!(table.len(), 8);
    assert_eq!(table.install(3, "a"), None);
    assert_eq!(table.install(3, "b"), Some("a"));
    // A slot past the end is the last one.
    assert_eq!(table.install(99, "c"), None);
    assert_eq!(table.get_mut(7).copied(), Some("c"));
    assert_eq!(table.remove(3), Some("b"));
    assert_eq!(table.remove(3), None);
    assert_eq!(table.remove(99), None);
    assert!(table.get_mut(3).is_none());
}

#[test]
fn a_block_is_measured_over_all_channels() {
    let plan = BufferPlan { max_frames: 3 };
    let main: Vec<f32> = vec![0.25, -0.5, 9.0, 0.125, 1.0, 9.0];
    let samples = main_samples(&plan, 2, &main, 2);
    assert_eq!(samples, vec![0.25, -0.5, 0.125, 1.0]);
    let peak = samples.iter().fold(0.0f32, |peak, s| peak.max(s.abs()));
    assert_eq!(peak, 1.0);
    let sum: f64 = samples.iter().map(|&s| (s as f64) * (s as f64)).sum();
    assert_eq!((sum / samples.len() as f64).sqrt(), (1.328125f64 / 4.0).sqrt());
    assert_eq!(main_samples(&plan, 2, &main, 0), Vec::<f32>::new());
    assert_eq!(main_samples(&plan, 1, &vec![0.5, 0.25, 0.75], 3), vec![0.5, 0.25, 0.75]);
}

#[test]
fn slots_are_mixed_onto_the_live_engine() {
    let plan = BufferPlan { max_frames: 2 };
    let (live, slot) = (vec![1.0f32, 2.0, 3.0, 4.0], vec![0.5f32, 0.25]);
    let live = Some(Rendered { plan, channels: 2, samples: &live });
    let slots = [None, Some(Rendered { plan, channels: 1, samples: &slot }), None];
    let mut out = vec![9.0f32; 5];
    mix_block(&live, &slots, 2, 0.0, |a, b| a + b, &mut out);
    assert_eq!(out, [1.5, 3.5, 2.25, 4.25, 9.0]);
    // A failed engine is silent; the slots play on.
    let mut out = vec![9.0f32; 5];
    mix_block(&None, &slots, 2, 0.0, |a, b| a + b, &mut out);
    assert_eq!(out, [0.5, 0.5, 0.25, 0.25, 9.0]);
}

fn named_after(path: &str) -> String {
    let mut r = CollectingReceiver::new();
    r.enter_file(Some(path.to_string()));
    r.begin_preset(None, None);
    r.into_presets().pop().unwrap().name
}

fn category_of(path: &str) -> Option<String> {
    let mut r = CollectingReceiver::new();
    r.enter_file(Some(path.to_string()));
    r.begin_preset(None, None);
    to_import(r.into_presets().pop().unwrap(), None).category
}

#[test]
fn presets_are_named_after_their_files() {
    assert_eq!(named_after("/x/Warm Pad.fxp"), "Warm Pad");
    assert_eq!(named_after("/x/Warm Pad.fxp/"), "Warm Pad");
    assert_eq!(named_after("/x/Warm Pad.fxp/.//"), "Warm Pad");
    assert_eq!(named_after("/x/a.b.c"), "a.b");
    assert_eq!(named_after("/x/.hidden"), ".hidden");
    assert_eq!(named_after("/x/a.fxp/.."), "");
    assert_eq!(named_after("/"), "");
    assert_eq!(named_after(""), "");
}

#[test]
fn extensions_of_odd_paths() {
    let exts = vec!["fxp".to_string()];
    assert!(matches_extension("/x/a.fxp/", &exts));
    assert!(matches_extension("a.fxp/./", &exts));
    assert!(!matches_extension("/x/a.fxp/..", &exts));
    assert!(!matches_extension("/x/.fxp", &exts));
    assert!(!matches_extension("/", &exts));
    assert!(!matches_extension("", &exts));
}

#[test]
fn categories_of_odd_paths() {
    assert_eq!(category_of("/x/Pads/a.fxp").as_deref(), Some("Pads"));
    assert_eq!(category_of("/x/Pads//a.fxp/").as_deref(), Some("Pads"));
    assert_eq!(category_of("/x/Pads/./a.fxp").as_deref(), Some("Pads"));
    assert_eq!(category_of("/x/Pads/..").as_deref(), Some("Pads"));
    assert_eq!(category_of("../a.fxp"), None);
    assert_eq!(category_of("/a.fxp"), None);
    assert_eq!(category_of("a.fxp"), None);
    assert_eq!(category_of("/"), None);
    assert_eq!(category_of(""), None);
}
