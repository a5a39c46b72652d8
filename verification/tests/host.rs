//! The host thread: commands, requests, the audio watchdog and startup.

use zoog::app_core::host::{
    on_loaded, restore, CoreConfig, HostAction, HostCore, LoadOutcome, SlotOutcome,
};
use zoog::app_core::looper::LooperButton;
use zoog::app_core::mapping::{Control, ControlEntry, MappingFile};
use zoog::app_core::messages::{
    CoreCommand, CoreEvent, FromControl, PadMode, PresetInfo, ToControl,
};
use zoog::app_core::startup::{
    bind_mapping, browse_items, control_infos, engine_infos, mapping_dirs, mapping_files,
    pick_mapping, plugin_title, preset_infos, ready_event, rescan_event,
    scans_at_startup, startup_events, startup_filter, MappingSource, Notice, Startup,
};
use zoog::app_core::watchdog::{Counters, Load, Watchdog};
use zoog::engine::discovery::PluginInfo;
use zoog::engine::params::ParamDescription;
use zoog::library::PresetRow;
use zoog::time::Instant;

fn ms(millis: u64) -> Instant {
    Instant { nanos: millis * 1_000_000 }
}

fn running() -> HostCore {
    let (host, actions): (HostCore, Vec<HostAction<i64>>) =
        HostCore::new(Some(Ok((48_000, 256))), ms(0));
    assert!(actions.is_empty());
    host
}

fn error(actions: &[HostAction<i64>]) -> Option<&str> {
    actions.iter().find_map(|a| match a {
        HostAction::Event(CoreEvent::Error(text)) => Some(text.as_str()),
        _ => None,
    })
}

fn row(id: i64, name: &str) -> PresetRow {
    PresetRow {
        id,
        engine: "org.example".to_string(),
        name: name.to_string(),
        path: Some(format!("/p/{name}.fxp")),
        load_key: Some("key".to_string()),
        category: Some("Pads".to_string()),
        features: vec![],
        creators: vec!["Ann".to_string(), "Bob".to_string()],
        description: None,
        is_factory: true,
        favorite: true,
        last_used: None,
    }
}

#[test]
fn the_default_configuration() {
    let config = CoreConfig::default();
    assert_eq!(config.plugin_match, "Surge XT");
    assert!(config.restore_session && !config.stub_engine && !config.mock_device);
    assert_eq!(config.engine.sample_rate, 48_000);
    assert_eq!(restore(&config, Some(4)), Some(4));
    let fresh = CoreConfig { restore_session: false, ..CoreConfig::default() };
    assert_eq!(restore(&fresh, Some(4)), None);
}

#[test]
fn commands_become_actions() {
    let host = running();
    assert!(matches!(host.on_command::<i64>(CoreCommand::LoadPreset(7))[0], HostAction::LookUp(7)));
    assert!(matches!(
        host.on_command(CoreCommand::SetControl { control: Control::Fader(1), normalized: 5i64 })
            [0],
        HostAction::Control(ToControl::GuiControl { control: Control::Fader(1), normalized: 5 })
    ));
    assert!(matches!(
        host.on_command::<i64>(CoreCommand::SetFavorite { id: 3, favorite: true })[0],
        HostAction::SetFavorite { id: 3, favorite: true }
    ));
    assert!(matches!(host.on_command::<i64>(CoreCommand::RescanLibrary)[0], HostAction::Rescan));
    assert!(matches!(
        host.on_command::<i64>(CoreCommand::Looper(LooperButton::Play))[0],
        HostAction::Control(ToControl::Looper(LooperButton::Play))
    ));
    assert!(matches!(
        host.on_command::<i64>(CoreCommand::LooperPad(6))[0],
        HostAction::Control(ToControl::LooperPad(6))
    ));
    assert!(matches!(
        host.on_command::<i64>(CoreCommand::SetPadMode(PadMode::Loops))[0],
        HostAction::Control(ToControl::PadMode(PadMode::Loops))
    ));
    assert!(matches!(host.on_command::<i64>(CoreCommand::Shutdown)[0], HostAction::Stop));
}

#[test]
fn without_an_engine_there_is_nothing_to_scan() {
    let (host, _): (HostCore, Vec<HostAction<i64>>) = HostCore::new(None, ms(0));
    assert!(host.on_command::<i64>(CoreCommand::RescanLibrary).is_empty());
}

#[test]
fn rows_that_were_found_are_loaded() {
    let mut host = running();
    let actions = host.on_row::<i64>(Some(row(5, "Warm")));
    match &actions[0] {
        HostAction::Load { id, name, preset } => {
            assert_eq!((*id, name.as_str()), (5, "Warm"));
            assert_eq!(preset.path.as_deref(), Some("/p/Warm.fxp"));
            assert_eq!(preset.load_key.as_deref(), Some("key"));
        }
        _ => panic!("expected a load"),
    }
    assert!(host.on_row::<i64>(None).is_empty());
}

#[test]
fn loads_are_answered() {
    let actions = on_loaded::<i64>(5, "Warm".to_string(), LoadOutcome::NoEngine);
    assert_eq!(actions.len(), 1);
    assert!(matches!(&actions[0], HostAction::Event(CoreEvent::PresetLoadFailed { .. })));

    let actions = on_loaded::<i64>(5, "Warm".to_string(), LoadOutcome::Loaded(vec![]));
    assert!(matches!(actions[0], HostAction::Remember(5)));
    assert!(matches!(&actions[1], HostAction::Control(ToControl::PresetLoaded { .. })));
    assert!(matches!(&actions[2], HostAction::Event(CoreEvent::PresetLoaded { id: 5, .. })));

    let actions =
        on_loaded::<i64>(5, "Wa\"rm".to_string(), LoadOutcome::Failed("no file".to_string()));
    assert_eq!(error(&actions), Some("preset load failed for \"Wa\\\"rm\": no file"));
    assert!(matches!(&actions[1], HostAction::Control(ToControl::PresetLoadFailed { .. })));
    assert!(matches!(&actions[2], HostAction::Event(CoreEvent::PresetLoadFailed { .. })));
}

#[test]
fn a_slot_gets_the_preset_it_was_recorded_with() {
    let mut host = running();
    host.on_request::<i64>(FromControl::LoadPreset {
        id: 1,
        name: "Warm".to_string(),
        path: Some("/p/Warm.fxp".to_string()),
        load_key: None,
    });
    let actions = host.on_request::<i64>(FromControl::SlotReady { slot: 2 });
    match &actions[0] {
        HostAction::BuildSlot { slot, sound, shape } => {
            assert_eq!(*slot, 2);
            assert_eq!(sound.as_ref().unwrap().path.as_deref(), Some("/p/Warm.fxp"));
            assert_eq!((shape.sample_rate, shape.max_frames), (48_000, 1024));
        }
        _ => panic!("expected a slot engine"),
    }
    let actions = host.on_slot_built::<i64>(2, SlotOutcome::Installed);
    assert!(matches!(actions[0], HostAction::SlotRing(2)));
    let actions = host.on_request::<i64>(FromControl::SlotCleared { slot: 2 });
    assert!(matches!(actions[0], HostAction::RetireSlot(2)));
    assert!(matches!(actions[1], HostAction::SlotRingClear(2)));
    assert!(host.on_retired(2));
    assert!(!host.on_retired(2));
    assert!(!host.on_retired(99));
}

#[test]
fn slot_engines_can_fail() {
    let mut host = running();
    let actions = host.on_slot_built::<i64>(1, SlotOutcome::QueueFull);
    assert_eq!(error(&actions), Some("slot engine install queue full"));
    let actions = host.on_slot_built::<i64>(1, SlotOutcome::Failed("x".to_string()));
    assert_eq!(
        error(&actions),
        Some("loop slot engine failed: x; slot plays the live preset")
    );
    assert!(!host.on_retired(1));
}

fn counters(callbacks: u64) -> Counters {
    Counters { callbacks, busy_ns: callbacks * 10, budget_ns: callbacks * 40 }
}

#[test]
fn a_stalled_stream_is_rebuilt() {
    let mut host = running();
    host.on_slot_built::<i64>(4, SlotOutcome::Installed);
    let (tick, _) = host.tick::<i64>(ms(500), counters(10));
    assert_eq!(tick.load, None);
    let (tick, _) = host.tick::<i64>(ms(1000), counters(10));
    assert_eq!(tick.load, Some(Load { busy_ns: 100, budget_ns: 400 }));
    for second in 2..4 {
        let (tick, _) = host.tick::<i64>(ms(second * 1000), counters(10));
        assert!(!tick.rebuild);
    }
    let (tick, actions) = host.tick::<i64>(ms(4000), counters(10));
    assert!(tick.rebuild);
    assert_eq!(error(&actions), Some("audio stream stalled; rebuilding"));

    let actions = host.drop_slots::<i64>();
    assert!(matches!(actions[0], HostAction::Deactivate(4)));
    assert!(matches!(actions[1], HostAction::SlotRingClear(4)));
    assert_eq!(actions.len(), 2);
    let actions = host.on_rebuilt::<i64>(Ok(()), ms(4000));
    assert_eq!(error(&actions), Some("audio stream rebuilt"));
    let (tick, _) = host.tick::<i64>(ms(5000), counters(1));
    assert!(!tick.rebuild);
}

#[test]
fn rebuilds_are_retried_and_given_up() {
    let (mut host, actions): (HostCore, Vec<HostAction<i64>>) =
        HostCore::new(Some(Err("no device".to_string())), ms(0));
    assert_eq!(error(&actions), Some("audio failed: no device"));
    let mut now = 0;
    for attempt in 1..=5 {
        let (tick, _) = host.tick::<i64>(ms(now + 4999), counters(0));
        assert!(!tick.rebuild);
        now += 5000;
        let (tick, _) = host.tick::<i64>(ms(now), counters(0));
        assert!(tick.rebuild);
        let actions = host.on_rebuilt::<i64>(Err("gone".to_string()), ms(now));
        let end = if attempt < 5 { "; retrying in 5 s" } else { "; giving up, restart benchlab" };
        assert_eq!(
            error(&actions),
            Some(format!("audio stream rebuild failed: gone{end}").as_str())
        );
    }
    let (tick, _) = host.tick::<i64>(ms(now + 60_000), counters(0));
    assert!(!tick.rebuild);
}

#[test]
fn a_live_stream_is_left_alone() {
    let mut dog = Watchdog::new(Some(true), ms(0));
    for second in 1..20 {
        let tick = dog.tick(ms(second * 1000), counters(second));
        assert!(tick.load.is_some() && !tick.rebuild);
    }
}

#[test]
fn rows_are_projected() {
    let rows = vec![row(5, "Warm"), PresetRow { creators: vec![], ..row(6, "Soft") }];
    let infos = preset_infos(&rows);
    assert_eq!(infos[0].author.as_deref(), Some("Ann"));
    assert_eq!(infos[1].author, None);
    assert_eq!((infos[0].id, infos[0].name.as_str(), infos[0].favorite), (5, "Warm", true));
    assert_eq!(PresetInfo::from(&rows[1]).category.as_deref(), Some("Pads"));
    let items = browse_items(&rows);
    assert_eq!((items[1].id, items[1].path.as_deref()), (6, Some("/p/Soft.fxp")));
}

fn plugin(id: &str, name: Option<&str>) -> PluginInfo {
    PluginInfo { id: id.to_string(), name: name.map(|n| n.to_string()), version: None }
}

#[test]
fn the_first_event_holds_everything() {
    let found = Some(plugin("a.b", None));
    let event: CoreEvent<i64> = ready_event(
        &found,
        None,
        true,
        &vec![row(5, "Warm")],
        vec!["Pads".to_string()],
        vec![],
        &vec![plugin("a.b", None), plugin("c.d", Some("Dee"))],
    );
    match event {
        CoreEvent::Ready { plugin_title, engine_running, presets, engines, .. } => {
            assert_eq!(plugin_title, "a.b");
            assert!(!engine_running);
            assert_eq!(presets.len(), 1);
            assert_eq!(engines[1].name, "Dee");
        }
        _ => panic!("expected Ready"),
    }
    assert_eq!(plugin_title(&None), "benchlab (no engine)");
    assert_eq!(engine_infos(&vec![plugin("a.b", None)])[0].name, "a.b");
}

#[test]
fn filters_follow_the_engine() {
    assert_eq!(startup_filter("").engine, None);
    assert_eq!(startup_filter("a.b").engine.as_deref(), Some("a.b"));
}

#[test]
fn rescans_are_told() {
    assert!(matches!(
        rescan_event::<i64>(Err("x".to_string())),
        Some(CoreEvent::Error(text)) if text == "rescan failed: x"
    ));
    assert!(rescan_event::<i64>(Ok(None)).is_none());
    match rescan_event::<i64>(Ok(Some((vec![row(5, "Warm")], None)))) {
        Some(CoreEvent::LibraryRescanned { presets, categories }) => {
            assert_eq!(presets.len(), 1);
            assert!(categories.is_empty());
        }
        _ => panic!("expected the presets"),
    }
}

#[test]
fn notices_in_words() {
    assert_eq!(
        Notice::NoPlugin("no plugin".to_string()).message(),
        "no plugin; running with stub engine"
    );
    assert_eq!(Notice::ScanFailed("x".to_string()).message(), "preset scan failed: x");
    assert_eq!(
        Notice::NoController("x".to_string()).message(),
        "no controller (x); waiting for hotplug"
    );
    assert_eq!(
        Notice::DeactivationFailed("x".to_string()).message(),
        "plugin deactivation failed: x; restart benchlab"
    );
}

#[test]
fn mapping_files_are_found_in_order() {
    let dirs = mapping_dirs(&Some("/home/u/.config/benchlab/mappings".to_string()));
    assert_eq!(
        dirs,
        ["mappings", "/home/u/.config/benchlab/mappings", "/usr/share/benchlab/mappings"]
    );
    assert_eq!(mapping_dirs(&None).len(), 2);
    let files = mapping_files(&vec![
        "m/surge.toml".to_string(),
        "m/readme.md".to_string(),
        "m/odin.toml".to_string(),
        "m/dexed.toml".to_string(),
    ]);
    assert_eq!(files, ["m/dexed.toml", "m/odin.toml", "m/surge.toml"]);
    let odd = ["m/b.toml/", "m/a.toml/..", "m/.toml", "b.toml", "b.toml", "toml"];
    let files = mapping_files(&odd.iter().map(|e| e.to_string()).collect());
    assert_eq!(files, ["b.toml", "b.toml", "m/b.toml/"]);
    let ids = vec![None, Some("a.b".to_string()), Some("c.d".to_string()), Some("c.d".to_string())];
    assert_eq!(pick_mapping(&ids, "c.d"), Some(2));
    assert_eq!(pick_mapping(&ids, "x"), None);
}

fn mapping(id: u32) -> MappingFile<i64> {
    MappingFile {
        plugin_id: "a.b".to_string(),
        encoder: vec![ControlEntry {
            index: 1,
            label: "Cut".to_string(),
            param_id: Some(id),
            param_name: None,
            min: None,
            max: None,
            label_from_param: false,
        }],
        fader: vec![],
    }
}

fn params() -> Vec<ParamDescription<i64>> {
    vec![ParamDescription {
        id: 100,
        name: "Cutoff".to_string(),
        module: String::new(),
        min_value: 0,
        max_value: 127,
        default_value: 64,
        value: None,
        value_text: None,
        is_automatable: true,
        cookie: 0,
    }]
}

fn refusal(source: MappingSource<i64>, plugin_id: &str) -> String {
    match bind_mapping(&source, plugin_id, &params()) {
        Ok(_) => panic!("expected a refusal"),
        Err(text) => text,
    }
}

#[test]
fn mappings_are_bound_or_refused() {
    let path = "/m/a.toml".to_string();
    let source = MappingSource::File(path.clone(), mapping(100));
    let controls = match bind_mapping(&source, "a.b", &params()) {
        Ok(controls) => controls,
        Err(text) => panic!("{text}"),
    };
    assert_eq!(controls.value_of(100, 0), 64);
    let infos = control_infos(&controls, &vec![9]);
    assert_eq!(infos.len(), 1);
    assert_eq!((infos[0].label.as_str(), infos[0].normalized, infos[0].active), ("Cut", 9, true));

    assert_eq!(
        refusal(MappingSource::NoFile, "a.b"),
        "no mapping file for a.b; encoders and faders inactive"
    );
    assert_eq!(
        refusal(MappingSource::Missing(path.clone()), "a.b"),
        "no mapping file at /m/a.toml; encoders and faders inactive"
    );
    assert_eq!(
        refusal(MappingSource::Unreadable("bad".to_string()), "a.b"),
        "mapping load failed: bad"
    );
    assert_eq!(
        refusal(MappingSource::File(path.clone(), mapping(100)), "c.d"),
        "mapping /m/a.toml is for a.b; controls inactive"
    );
    assert_eq!(
        refusal(MappingSource::File(path, mapping(1)), "a.b"),
        "mapping bind failed: mapping entry \"Cut\" matches no plugin parameter"
    );
}

#[test]
fn ready_comes_before_the_troubles() {
    let events: Vec<CoreEvent<i64>> = startup_events(Startup {
        plugin: None,
        audio: None,
        device_connected: false,
        rows: vec![row(5, "Warm")],
        categories: vec![],
        controls: vec![],
        plugins: vec![plugin("a.b", None)],
        notices: vec!["one".to_string(), "two".to_string()],
    });
    assert_eq!(events.len(), 3);
    assert!(matches!(&events[0], CoreEvent::Ready { presets, .. } if presets.len() == 1));
    assert!(matches!(&events[1], CoreEvent::Error(text) if text == "one"));
    assert!(matches!(&events[2], CoreEvent::Error(text) if text == "two"));
}

#[test]
fn only_an_empty_library_is_scanned_at_startup() {
    assert!(scans_at_startup(true, Some(0)));
    assert!(!scans_at_startup(true, Some(3)));
    assert!(!scans_at_startup(true, None));
    assert!(!scans_at_startup(false, Some(0)));
}
