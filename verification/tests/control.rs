//! The control thread: what the controller's messages lead to.

use zoog::app_core::browser::{BrowseItem, Browser};
use zoog::app_core::control::{plan_hotplug, Action, ControlCore, Hotplug};
use zoog::app_core::looper::{LooperButton, LooperCommand, LooperUiState};
use zoog::app_core::mapping::{Control, ControlEntry, MacroControls, MappingFile, Move};
use zoog::app_core::messages::{CoreEvent, FromControl, PadMode};
use zoog::app_core::takeover::{Reading, Side};
use zoog::engine::params::ParamDescription;
use zoog::midi::event::{CcTarget, ControlMap, RelativeEncoding, TimedMessage, TransportControl};
use zoog::midi::sysex::{display_text, init};
use zoog::time::Instant;

fn ms(millis: u64) -> Instant {
    Instant { nanos: 10_000_000_000 + millis * 1_000_000 }
}

fn map() -> ControlMap {
    let mut map = ControlMap::new()
        .keyboard_channel(0)
        .cc(0, 10, CcTarget::Encoder(0))
        .cc(0, 20, CcTarget::MainEncoderTurn(RelativeEncoding::OffsetFrom64))
        .cc(0, 21, CcTarget::MainEncoderShiftTurn(RelativeEncoding::OffsetFrom64))
        .cc(0, 22, CcTarget::MainEncoderClick)
        .cc(0, 105, CcTarget::Transport(TransportControl::Record))
        .cc(0, 109, CcTarget::Transport(TransportControl::Tap));
    for pad in 0..8 {
        map = map.pad(9, 44 + pad, pad);
    }
    map
}

fn item(id: i64, name: &str) -> BrowseItem {
    BrowseItem {
        id,
        name: name.to_string(),
        category: Some("Pads".to_string()),
        path: Some(format!("/p/{name}.fxp")),
        load_key: None,
    }
}

fn param(value: i64) -> ParamDescription<i64> {
    ParamDescription {
        id: 100,
        name: "M1: Cutoff".to_string(),
        module: String::new(),
        min_value: 0,
        max_value: 127,
        default_value: 0,
        value: Some(value),
        value_text: None,
        is_automatable: true,
        cookie: 77,
    }
}

fn controls() -> MacroControls<i64> {
    let file = MappingFile {
        plugin_id: "org.example".to_string(),
        encoder: vec![ControlEntry {
            index: 1,
            label: "Cutoff".to_string(),
            param_id: Some(100),
            param_name: None,
            min: None,
            max: None,
            label_from_param: false,
        }],
        fader: vec![],
    };
    MacroControls::bind(&file, "org.example", &[param(64)]).unwrap()
}

fn thread() -> ControlCore<i64> {
    ControlCore::new(
        map(),
        Some(controls()),
        Browser::new(vec![item(1, "Warm"), item(2, "Soft")]),
        "Synth".to_string(),
        true,
        ms(0),
    )
}

fn message(bytes: &[u8]) -> TimedMessage {
    TimedMessage { timestamp_us: 5, bytes: bytes.to_vec() }
}

fn send(control: &mut ControlCore<i64>, bytes: &[u8], at: u64) -> Vec<Action<i64>> {
    control.on_message(&message(bytes), None, ms(at))
}

fn shown(actions: &[Action<i64>]) -> Vec<&Vec<u8>> {
    actions
        .iter()
        .filter_map(|a| match a {
            Action::Send(bytes) => Some(bytes),
            _ => None,
        })
        .collect()
}

fn looper_states(actions: &[Action<i64>]) -> Option<([LooperUiState; 8], usize, String)> {
    actions.iter().find_map(|a| match a {
        Action::Event(CoreEvent::Looper { slots, focused, status, .. }) => {
            Some((*slots, *focused, status.clone()))
        }
        _ => None,
    })
}

#[test]
fn played_notes_go_to_the_engine() {
    let mut control = thread();
    let actions = send(&mut control, &[0x90, 60, 100], 0);
    assert_eq!(actions.len(), 1);
    assert!(matches!(&actions[0], Action::Midi(rt) if rt.bytes == [0x90, 60, 100]));
    // Pads play too, and light up on screen.
    let actions = send(&mut control, &[0x99, 45, 90], 0);
    assert!(matches!(&actions[0], Action::Midi(_)));
    assert!(matches!(&actions[1], Action::Event(CoreEvent::Pad { index: 1, down: true })));
}

#[test]
fn unmapped_messages_do_nothing() {
    let mut control = thread();
    assert!(send(&mut control, &[0xF8], 0).is_empty());
    assert!(send(&mut control, &[0xB5, 3, 3], 0).is_empty());
}

#[test]
fn knobs_move_parameters() {
    let mut control = thread();
    let msg = message(&[0xB0, 10, 64]);
    let target = control.target(&msg).unwrap();
    assert_eq!((target.control, target.cc, target.current), (Control::Encoder(0), 64, 64));
    let at = Reading { position: Side::At, last: Side::Unordered, close: true };
    let m = Move { reading: at, normalized: 64, value: 64, display_value: "50%".to_string() };
    let actions = control.on_message(&msg, Some(m), ms(0));
    match &actions[0] {
        Action::Param(change) => {
            assert_eq!((change.param_id, change.value, change.cookie), (100, 64, 77));
        }
        _ => panic!("expected a parameter change"),
    }
    assert!(matches!(
        &actions[1],
        Action::Event(CoreEvent::ControlChanged { control: Control::Encoder(0), normalized: 64 })
    ));
    assert_eq!(shown(&actions), [&display_text("Cutoff", "50%")]);
    // The title comes back after a while.
    let actions = control.tick(ms(1300));
    assert_eq!(shown(&actions), [&display_text("Synth", "")]);
    assert!(control.tick(ms(1400)).is_empty());
}

#[test]
fn knobs_wait_for_pickup() {
    let mut control = thread();
    let msg = message(&[0xB0, 10, 3]);
    let away = Reading { position: Side::Below, last: Side::Unordered, close: false };
    let m = Move { reading: away, normalized: 3, value: 3, display_value: "2%".to_string() };
    assert!(control.on_message(&msg, Some(m), ms(0)).is_empty());
}

#[test]
fn the_main_encoder_browses_and_loads() {
    let mut control = thread();
    let actions = send(&mut control, &[0xB0, 20, 65], 0);
    assert!(matches!(&actions[0], Action::Event(CoreEvent::BrowserSelected { id: 2 })));
    assert_eq!(shown(&actions), [&display_text("Soft", "All 2/2")]);
    assert!(send(&mut control, &[0xB0, 20, 64], 1).is_empty());

    let actions = send(&mut control, &[0xB0, 21, 65], 100);
    assert_eq!(shown(&actions), [&display_text("[Pads]", "Warm")]);

    let actions = send(&mut control, &[0xB0, 22, 127], 200);
    match &actions[0] {
        Action::Host(FromControl::LoadPreset { id, name, path, load_key }) => {
            assert_eq!((*id, name.as_str()), (1, "Warm"));
            assert_eq!(path.as_deref(), Some("/p/Warm.fxp"));
            assert!(load_key.is_none());
        }
        _ => panic!("expected a preset load"),
    }
    assert_eq!(shown(&actions), [&display_text("Loading...", "Warm")]);
    assert!(send(&mut control, &[0xB0, 22, 0], 201).is_empty());
}

#[test]
fn presets_change_the_title() {
    let mut control = thread();
    let actions = control.on_preset_loaded("Warm".to_string(), &[param(10)]);
    assert!(matches!(actions[0], Action::ControlsRebound));
    assert_eq!(shown(&actions), [&display_text("Warm", "")]);
    assert_eq!(control.controls().as_ref().unwrap().value_of(100, 0), 10);

    let actions = control.on_preset_failed("Soft", ms(0));
    assert_eq!(shown(&actions), [&display_text("Load failed", "Soft")]);
    let actions = control.tick(ms(2000));
    assert_eq!(shown(&actions), [&display_text("Warm", "")]);
}

#[test]
fn screen_moves_reach_the_engine() {
    let mut control = thread();
    let actions =
        control.on_screen_move(Control::Encoder(0), 127, 127, "100%".to_string(), ms(0));
    assert!(matches!(&actions[0], Action::Param(change) if change.value == 127));
    assert!(control.on_screen_move(Control::Fader(0), 1, 1, String::new(), ms(0)).is_empty());
}

#[test]
fn the_record_button_records_a_loop() {
    let mut control = thread();
    let actions = send(&mut control, &[0xB0, 105, 127], 0);
    let (slots, focused, status) = looper_states(&actions).unwrap();
    assert_eq!((slots[0], focused), (LooperUiState::Armed, 0));
    assert_eq!(status, "loop 1 armed (play a note)");

    // The note goes into the take and to the engine.
    let actions = send(&mut control, &[0x90, 60, 100], 100);
    assert!(actions.iter().any(|a| matches!(a, Action::Midi(_))));
    send(&mut control, &[0x80, 60, 0], 600);
    let actions = control.on_button(LooperButton::Record, ms(1100));
    let started = actions.iter().any(|a| {
        matches!(a, Action::Player(0, LooperCommand::Start { events, .. }) if events.len() == 2)
    });
    assert!(started);
    // A closed take asks for an engine of its own.
    assert!(actions
        .iter()
        .any(|a| matches!(a, Action::Host(FromControl::SlotReady { slot: 0 }))));
    let (slots, _, _) = looper_states(&actions).unwrap();
    assert_eq!(slots[0], LooperUiState::Playing);
}

#[test]
fn a_second_recorder_is_refused() {
    let mut control = thread();
    control.on_pad(0, ms(0));
    send(&mut control, &[0x90, 60, 100], 10);
    let actions = control.on_pad(3, ms(20));
    let (slots, focused, status) = looper_states(&actions).unwrap();
    assert_eq!(slots[0], LooperUiState::Recording);
    assert_eq!(slots[3], LooperUiState::Empty);
    assert_eq!(focused, 3);
    assert_eq!(status, "loop 1 still recording");
}

#[test]
fn arming_another_slot_calls_the_first_off() {
    let mut control = thread();
    control.on_pad(0, ms(0));
    let actions = control.on_pad(1, ms(10));
    let (slots, _, _) = looper_states(&actions).unwrap();
    assert_eq!(slots[0], LooperUiState::Empty);
    assert_eq!(slots[1], LooperUiState::Armed);
    assert!(control.on_pad(200, ms(20)).is_empty());
}

#[test]
fn tap_flips_what_the_pads_do() {
    let mut control = thread();
    let actions = send(&mut control, &[0xB0, 109, 127], 0);
    assert!(matches!(
        &actions[0],
        Action::Event(CoreEvent::Looper { pad_mode: PadMode::Loops, .. })
    ));
    // Now pads arm slots, and do not sound.
    let actions = send(&mut control, &[0x99, 46, 90], 10);
    assert!(!actions.iter().any(|a| matches!(a, Action::Midi(_))));
    let (slots, focused, _) = looper_states(&actions).unwrap();
    assert_eq!((slots[2], focused), (LooperUiState::Armed, 2));
    assert!(control.on_pad_mode(PadMode::Loops).is_empty());
    assert!(!control.on_pad_mode(PadMode::Notes).is_empty());
}

#[test]
fn the_looper_is_refreshed_twice_a_second() {
    let mut control = thread();
    control.on_button(LooperButton::Record, ms(0));
    send(&mut control, &[0x90, 60, 100], 10);
    assert!(control.tick(ms(400)).is_empty());
    let actions = control.tick(ms(500));
    let (slots, _, _) = looper_states(&actions).unwrap();
    assert_eq!(slots[0], LooperUiState::Recording);
    assert!(looper_states(&control.tick(ms(600))).is_none());
}

#[test]
fn devices_are_greeted() {
    let control = thread();
    let actions = control.greet_device();
    let sent = shown(&actions);
    assert_eq!(sent.len(), 10);
    assert_eq!(sent[0], &init());
    assert_eq!(sent[9], &display_text("Synth", ""));
}

#[test]
fn hotplug_looks_every_two_seconds() {
    let mut control = thread();
    assert!(!control.hotplug_due(ms(1999)));
    assert!(control.hotplug_due(ms(2000)));
    assert!(!control.hotplug_due(ms(2001)));
}

#[test]
fn hotplug_plans() {
    let a = Some("a".to_string());
    let b = Some("b".to_string());
    assert_eq!(plan_hotplug(&a, &a), Hotplug::Keep);
    assert_eq!(plan_hotplug(&None, &None), Hotplug::Keep);
    assert_eq!(plan_hotplug(&a, &None), Hotplug::Drop);
    assert_eq!(plan_hotplug(&a, &b), Hotplug::Reopen);
    assert_eq!(plan_hotplug(&None, &b), Hotplug::Open);
}

#[test]
fn losing_the_device_silences_the_display() {
    let mut control = thread();
    let actions = control.on_hotplug(Hotplug::Drop, false);
    assert_eq!(actions.len(), 1);
    assert!(matches!(&actions[0], Action::Event(CoreEvent::DeviceConnected(false))));
    assert!(control.greet_device().is_empty());
    assert!(control.on_hotplug(Hotplug::Open, false).is_empty());
    let actions = control.on_hotplug(Hotplug::Open, true);
    assert!(matches!(&actions[0], Action::Event(CoreEvent::DeviceConnected(true))));
    assert_eq!(shown(&actions).len(), 10);
    assert!(control.on_hotplug(Hotplug::Keep, false).is_empty());
}

#[test]
fn an_overdub_beside_a_recording_is_refused() {
    let mut control = thread();
    control.on_pad(0, ms(0));
    send(&mut control, &[0x90, 60, 100], 10);
    control.on_button(LooperButton::Record, ms(1_010));
    control.on_pad(1, ms(1_100));
    send(&mut control, &[0x90, 62, 100], 1_200);
    // Slots 0 and 1 hold a take each; slot 2 records while the focus goes back to slot 0.
    control.on_button(LooperButton::Record, ms(2_300));
    let actions = control.on_pad(2, ms(2_400));
    assert_eq!(looper_states(&actions).unwrap().0[2], LooperUiState::Armed);
    send(&mut control, &[0x90, 64, 100], 2_500);
    let actions = control.on_pad(0, ms(2_600));
    assert_eq!(looper_states(&actions).unwrap().0[2], LooperUiState::Recording);
    control.on_button(LooperButton::Play, ms(2_700));
    let actions = control.on_button(LooperButton::Record, ms(2_800));
    let (slots, focused, status) = looper_states(&actions).unwrap();
    assert_eq!((slots[0], slots[2]), (LooperUiState::Playing, LooperUiState::Recording));
    assert_eq!((focused, status.as_str()), (0, "loop 3 still recording"));
}
