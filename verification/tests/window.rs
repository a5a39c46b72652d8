//! The application window's state.

use zoog::app_core::looper::LooperUiState;
use zoog::app_core::mapping::Control;
use zoog::app_core::messages::{ControlInfo, CoreCommand, CoreEvent, PadMode, PresetInfo};
use zoog::engine::audio::AudioInfo;
use zoog::gui::{
    fader_label, meter_text, project_controls, settings, App, Boot, Effect, Key, Message, PadPaint,
    Page,
};

fn preset(id: i64, name: &str, category: &str, favorite: bool) -> PresetInfo {
    PresetInfo {
        id,
        name: name.to_string(),
        category: Some(category.to_string()),
        author: None,
        favorite,
    }
}

fn controls() -> Vec<ControlInfo<i64>> {
    vec![ControlInfo {
        control: Control::Encoder(2),
        label: "Cutoff".to_string(),
        normalized: 3,
        active: true,
    }]
}

fn ready() -> CoreEvent<i64> {
    CoreEvent::Ready {
        plugin_title: "Synth".to_string(),
        engine_running: true,
        device_connected: true,
        presets: vec![
            preset(1, "Warm Pad", "Pads", false),
            preset(2, "Big Bass", "Basses", true),
            preset(3, "Soft Bass", "Basses", false),
        ],
        categories: vec!["Basses".to_string(), "Pads".to_string()],
        controls: controls(),
        audio: Some(AudioInfo {
            device_name: Some("Speakers".to_string()),
            sample_rate: 48_000,
            buffer_frames: 256,
            sample_format: "f32".to_string(),
        }),
        engines: vec![],
    }
}

fn app() -> App<i64> {
    let mut app = App::new(Boot::default(), 0);
    assert!(app.update(Message::CoreStarted).is_empty());
    assert!(app.update(Message::Core(ready())).is_empty());
    app
}

fn labels(app: &App<i64>) -> Vec<String> {
    app.visible().into_iter().map(|line| line.label).collect()
}

#[test]
fn a_new_window_waits_for_its_core() {
    let mut app: App<i64> = App::new(Boot::default(), 0);
    assert_eq!(app.plugin_title, "starting...");
    assert_eq!(app.category_choices(), ["All"]);
    assert_eq!(app.now_playing(), "no preset loaded");
    assert_eq!(app.audio_text(), "no audio (stub)");
    assert!(!app.warns());
    // Nothing can be sent yet.
    assert!(app.update(Message::Rescan).is_empty());
    assert!(app.update(Message::PadClicked(1)).is_empty());
}

#[test]
fn filters_narrow_the_list() {
    let mut app = app();
    assert_eq!(labels(&app), ["  Warm Pad", "* Big Bass", "  Soft Bass"]);
    assert_eq!(app.counts(), ("3 presets".to_string(), None));
    app.update(Message::SearchChanged("BASS".to_string()));
    assert_eq!(labels(&app), ["* Big Bass", "  Soft Bass"]);
    app.update(Message::FavoritesOnly(true));
    assert_eq!(app.filtered(), [1]);
    app.update(Message::CategorySelected("Pads".to_string()));
    assert!(labels(&app).is_empty());
    assert_eq!(app.category_choices(), ["All", "Basses", "Pads"]);
}

#[test]
fn long_lists_are_cut() {
    let mut app = app();
    let presets = (0..205).map(|i| preset(i, "P", "X", false)).collect();
    app.update(Message::Core(CoreEvent::LibraryRescanned { presets, categories: vec![] }));
    assert_eq!(app.visible().len(), 200);
    assert_eq!(
        app.counts(),
        ("205 presets".to_string(), Some("... 5 more; refine the search".to_string()))
    );
    // The hardware browser scrolls along, down to the end of the drawn rows.
    let effects = app.update(Message::Core(CoreEvent::BrowserSelected { id: 204 }));
    assert!(matches!(effects[0], Effect::ScrollTo(200)));
    let effects = app.update(Message::Core(CoreEvent::BrowserSelected { id: 7 }));
    assert!(matches!(effects[0], Effect::ScrollTo(7)));
    assert!(app.update(Message::Core(CoreEvent::BrowserSelected { id: 999 })).is_empty());
}

#[test]
fn a_second_press_loads() {
    let mut app = app();
    assert!(app.update(Message::PresetPressed(2)).is_empty());
    assert!(app.visible()[1].selected);
    let effects = app.update(Message::PresetPressed(2));
    assert!(matches!(effects[0], Effect::Send(CoreCommand::LoadPreset(2))));
    app.update(Message::Core(CoreEvent::PresetLoaded { id: 2, name: "Big Bass".to_string() }));
    assert_eq!(labels(&app)[1], "> Big Bass");
    assert_eq!(app.now_playing(), "Big Bass");
}

#[test]
fn arrows_move_the_selection() {
    let mut app = app();
    app.update(Message::KeyPressed(Key::ArrowDown, false));
    assert_eq!(app.selected, Some(1));
    app.update(Message::KeyPressed(Key::ArrowDown, false));
    app.update(Message::KeyPressed(Key::ArrowDown, false));
    app.update(Message::KeyPressed(Key::ArrowDown, false));
    assert_eq!(app.selected, Some(3));
    app.update(Message::KeyPressed(Key::ArrowUp, false));
    assert_eq!(app.selected, Some(2));
    let effects = app.update(Message::KeyPressed(Key::Enter, false));
    assert!(matches!(effects[0], Effect::Send(CoreCommand::LoadPreset(2))));
    app.update(Message::SearchChanged("zzz".to_string()));
    app.move_selection(true);
    assert_eq!(app.selected, Some(2));
    assert!(app.update(Message::KeyPressed(Key::Other, true)).is_empty());
}

#[test]
fn favorites_are_toggled() {
    let mut app = app();
    let effects = app.update(Message::ToggleFavorite(2));
    assert!(matches!(
        effects[0],
        Effect::Send(CoreCommand::SetFavorite { id: 2, favorite: false })
    ));
    app.update(Message::PresetPressed(2));
    assert!(app.update(Message::KeyPressed(Key::Character("f".to_string()), false)).is_empty());
    let effects = app.update(Message::KeyPressed(Key::Character("f".to_string()), true));
    assert!(matches!(effects[0], Effect::Send(CoreCommand::SetFavorite { id: 2, favorite: true })));
    assert!(app.presets[1].favorite);
    assert!(app.update(Message::ToggleFavorite(99)).is_empty());
}

#[test]
fn controls_follow_hardware_and_mouse() {
    let mut app = app();
    assert_eq!(app.control_label(Control::Encoder(2)), "Cutoff");
    assert_eq!(app.control_label(Control::Encoder(0)), "Enc 1");
    assert_eq!(app.control_label(Control::Fader(3)), "F4");
    let moved = CoreEvent::ControlChanged { control: Control::Encoder(2), normalized: 50 };
    app.update(Message::Core(moved));
    assert_eq!(app.control_view(Control::Encoder(2)).unwrap().normalized, 50);
    let effects = app.update(Message::ControlDragged(Control::Encoder(2), 60));
    assert!(matches!(
        effects[0],
        Effect::Send(CoreCommand::SetControl { control: Control::Encoder(2), normalized: 60 })
    ));
    assert_eq!(app.control_view(Control::Encoder(2)).unwrap().normalized, 60);
    assert!(app.control_view(Control::Fader(0)).is_none());
    app.update(Message::Core(CoreEvent::ControlsRebound { controls: vec![] }));
    assert!(app.control_views.is_empty());
    assert_eq!(project_controls(&controls())[0].label, "Cutoff");
}

#[test]
fn pads_and_slots_are_painted() {
    let mut app = app();
    app.update(Message::Core(CoreEvent::Pad { index: 3, down: true }));
    app.update(Message::Core(CoreEvent::Pad { index: 30, down: true }));
    assert_eq!(app.pad_paint(3), PadPaint::Down);
    assert_eq!(app.pad_paint(4), PadPaint::Off);
    let mut slots = [LooperUiState::Empty; 8];
    slots[4] = LooperUiState::Playing;
    app.update(Message::Core(CoreEvent::Looper {
        pad_mode: PadMode::Loops,
        focused: 4,
        slots,
        status: "loop 5 playing 2.0s".to_string(),
    }));
    assert_eq!(app.pad_paint(3), PadPaint::Down);
    assert_eq!(app.pad_paint(4), PadPaint::Slot(LooperUiState::Playing));
    assert_eq!((app.focused, app.loop_status.as_str()), (4, "loop 5 playing 2.0s"));
    let effects = app.update(Message::PadClicked(4));
    assert!(matches!(effects[0], Effect::Send(CoreCommand::LooperPad(4))));
}

#[test]
fn the_status_bar_tells() {
    let mut app = app();
    app.update(Message::Core(CoreEvent::Stats {
        callbacks: 9,
        overruns: 2,
        max_callback_ms: 1,
        min_frames: 64,
        max_frames: 256,
        stream_errors: 3,
        dsp_load: 4,
        output_peak: 5,
    }));
    assert!(app.warns());
    let meter = meter_text(3, "-6.0 dB");
    assert_eq!(meter, "out [###-----] -6.0 dB");
    assert_eq!(
        app.status_text(&meter, " 1.5", "0.25"),
        "MIDI: connected   Speakers 48000 Hz f32   out [###-----] -6.0 dB   dsp  1.5%   \
         frames 64..256   overruns 2   max 0.25 ms   stream errors 3"
    );
    app.update(Message::Core(CoreEvent::DeviceConnected(false)));
    app.update(Message::Core(CoreEvent::PresetLoadFailed { name: "Warm".to_string() }));
    let status = app.status_text("m", "1", "2");
    assert!(status.starts_with("MIDI: absent   "));
    assert!(status.ends_with("   [load failed: Warm]"));
    app.update(Message::Core(CoreEvent::Error("oops".to_string())));
    assert_eq!(app.last_error.as_deref(), Some("oops"));
    app.update(Message::CoreStopped);
    assert_eq!(app.last_error.as_deref(), Some("core stopped"));
    assert!(!app.engine_running);
}

#[test]
fn settings_show_the_boot_parameters() {
    let mut app = app();
    app.update(Message::OpenSettings(true));
    assert_eq!(app.page, Page::Settings);
    app.update(Message::OpenSettings(false));
    assert_eq!(app.page, Page::Main);
    let entries = settings(&app.boot);
    assert_eq!(entries[0], ("Plugin".to_string(), "Surge XT".to_string()));
    assert_eq!(entries[1].1, "mappings/surge-xt.toml");
    assert_eq!(entries[2].1, "48000 Hz");
    assert_eq!(entries[3].1, "256 frames");
    assert_eq!(entries[4].1, "DAW mode");
    let config = app.boot.to_config();
    assert!(config.restore_session && config.library_path.is_none());
}

#[test]
fn narrow_faders_have_short_labels() {
    assert_eq!(fader_label("Attack", true), "Att");
    assert_eq!(fader_label("Attack", false), "Attack");
    assert_eq!(fader_label("\u{e9}t", true), "\u{e9}t");
}
