//! Macro mapping and soft takeover, with floating-point values.

use zoog::app_core::mapping::{
    Binding, Control, ControlEntry, MacroControls, MappingError, MappingFile, Move, ParamUpdate,
};
use zoog::app_core::takeover::{Reading, Side, SoftTakeover};
use zoog::engine::params::ParamDescription;
use zoog::midi::event::DeviceEvent;

fn side(position: f64, target: f64) -> Side {
    if position < target {
        Side::Below
    } else if position > target {
        Side::Above
    } else if position == target {
        Side::At
    } else {
        Side::Unordered
    }
}

fn reading(cc: u8, last_cc: Option<u8>, target: f64) -> Reading {
    let position = cc as f64 / 127.0;
    Reading {
        position: side(position, target),
        last: match last_cc {
            Some(last) => side(last as f64 / 127.0, target),
            None => Side::Unordered,
        },
        close: (position - target).abs() <= 0.5 / 127.0,
    }
}

fn feed(t: &mut SoftTakeover, cc: u8, target: f64) -> Option<f64> {
    let r = reading(cc, t.last_cc(), target);
    t.update(cc, r).map(|cc| cc as f64 / 127.0)
}

#[test]
fn does_not_jump_before_pickup() {
    let mut t = SoftTakeover::new();
    // Param sits at 0.5; knob is way down at 10.
    assert_eq!(feed(&mut t, 10, 0.5), None);
    assert_eq!(feed(&mut t, 20, 0.5), None);
}

#[test]
fn latches_on_cross_and_tracks() {
    let mut t = SoftTakeover::new();
    assert_eq!(feed(&mut t, 40, 0.5), None);
    // Sweeping up through the target latches.
    let v = feed(&mut t, 70, 0.5).expect("should latch on crossing");
    assert!((v - 70.0 / 127.0).abs() < 1e-9);
    // Latched: follows even when moving away.
    assert!(feed(&mut t, 10, 0.5).is_some());
}

#[test]
fn latches_on_close_match() {
    let mut t = SoftTakeover::new();
    // 64/127 = 0.5039..., within half a step of 0.5.
    assert!(feed(&mut t, 64, 0.5).is_some());
}

#[test]
fn latches_on_downward_cross() {
    let mut t = SoftTakeover::new();
    assert_eq!(feed(&mut t, 100, 0.5), None);
    assert!(feed(&mut t, 30, 0.5).is_some());
}

#[test]
fn release_requires_new_pickup() {
    let mut t = SoftTakeover::new();
    assert_eq!(feed(&mut t, 40, 0.5), None);
    assert!(feed(&mut t, 70, 0.5).is_some());
    t.release();
    // New param target far from knob: inert again.
    assert_eq!(feed(&mut t, 69, 0.1), None);
    // First message after release cannot claim a "cross" from stale state.
    assert_eq!(feed(&mut t, 68, 0.1), None);
    assert!(feed(&mut t, 12, 0.1).is_some());
}

const MAPPING: &str = r#"
plugin-id = "org.example.synth"

[[encoder]]
index = 1
label = "Macro 1"
param-id = 100

[[encoder]]
index = 2
label = "Cutoff"
param-name = "Filter Cutoff"
min = 0.2
max = 0.8

[[fader]]
index = 1
label = "Attack"
param-id = 200
"#;

fn entries(table: &toml::Table, key: &str) -> Vec<ControlEntry<f64>> {
    let mut list = Vec::new();
    if let Some(toml::Value::Array(items)) = table.get(key) {
        for item in items {
            list.push(ControlEntry {
                index: item["index"].as_integer().unwrap() as u8,
                label: item["label"].as_str().unwrap().to_string(),
                param_id: item.get("param-id").map(|v| v.as_integer().unwrap() as u32),
                param_name: item.get("param-name").map(|v| v.as_str().unwrap().to_string()),
                min: item.get("min").map(|v| v.as_float().unwrap()),
                max: item.get("max").map(|v| v.as_float().unwrap()),
                label_from_param: item
                    .get("label-from-param")
                    .map(|v| v.as_bool().unwrap())
                    .unwrap_or(false),
            });
        }
    }
    list
}

fn parse(text: &str) -> MappingFile<f64> {
    let table: toml::Table = text.parse().unwrap();
    MappingFile {
        plugin_id: table["plugin-id"].as_str().unwrap().to_string(),
        encoder: entries(&table, "encoder"),
        fader: entries(&table, "fader"),
    }
}

fn param(id: u32, name: &str, value: f64) -> ParamDescription<f64> {
    ParamDescription {
        id,
        name: name.to_string(),
        module: String::new(),
        min_value: 0.0,
        max_value: 1.0,
        default_value: 0.0,
        value: Some(value),
        value_text: None,
        is_automatable: true,
        cookie: 0,
    }
}

fn params() -> Vec<ParamDescription<f64>> {
    vec![
        param(100, "M1: -", 0.0),
        param(101, "Filter Cutoff", 0.5),
        param(200, "Amp EG Attack", 0.0),
    ]
}

fn bound() -> MacroControls<f64> {
    MacroControls::bind(&parse(MAPPING), "org.example.synth", &params()).unwrap()
}

fn normalized_of(lo: f64, hi: f64, plain: f64) -> f64 {
    if hi == lo {
        0.0
    } else {
        ((plain - lo) / (hi - lo)).clamp(0.0, 1.0)
    }
}

fn handle(controls: &mut MacroControls<f64>, event: DeviceEvent) -> Option<ParamUpdate<f64>> {
    let target = controls.target(&event)?;
    let goal = normalized_of(target.lo, target.hi, target.current);
    let normalized = target.cc as f64 / 127.0;
    let m = Move {
        reading: reading(target.cc, target.last_cc, goal),
        normalized,
        value: target.lo + normalized * (target.hi - target.lo),
        display_value: format!("{:.0}%", normalized * 100.0),
    };
    controls.handle(&event, m)
}

fn set_normalized(
    controls: &mut MacroControls<f64>,
    control: Control,
    normalized: f64,
) -> Option<ParamUpdate<f64>> {
    let (lo, hi) = controls.range(control)?;
    let normalized = normalized.clamp(0.0, 1.0);
    let display = format!("{:.0}%", normalized * 100.0);
    controls.set_normalized(control, normalized, lo + normalized * (hi - lo), display)
}

#[test]
fn parses_and_binds() {
    let controls = bound();
    assert_eq!(controls.bindings().len(), 3);
    let cutoff = controls.bindings().iter().find(|b| b.label == "Cutoff").unwrap();
    // Resolved by name, with the range override applied.
    assert_eq!(cutoff.param_id, 101);
    assert_eq!((cutoff.lo, cutoff.hi), (0.2, 0.8));
}

#[test]
fn wrong_plugin_is_rejected() {
    assert!(matches!(
        MacroControls::bind(&parse(MAPPING), "org.other.synth", &params()),
        Err(MappingError::WrongPlugin { .. })
    ));
}

#[test]
fn unresolved_param_is_an_error() {
    let text = MAPPING.replace("param-id = 100", "param-id = 999");
    assert!(matches!(
        MacroControls::bind(&parse(&text), "org.example.synth", &params()),
        Err(MappingError::UnresolvedParam { .. })
    ));
}

#[test]
fn encoder_move_produces_scaled_update() {
    let mut controls = bound();
    // Macro 1 param is at 0.0; knob starts at 0 -> immediate pickup.
    let update = handle(&mut controls, DeviceEvent::Encoder { index: 0, value: 0 })
        .expect("picked up at matching position");
    assert_eq!(update.change.param_id, 100);
    assert_eq!(update.change.value, 0.0);

    let update = handle(&mut controls, DeviceEvent::Encoder { index: 0, value: 127 }).unwrap();
    assert_eq!(update.change.value, 1.0);
    assert_eq!(update.label, "Macro 1");
    assert_eq!(update.display_value, "100%");
}

#[test]
fn range_override_scales_output() {
    let mut controls = bound();
    // Cutoff param is at 0.5 (normalized 0.5 within 0.2..0.8); sweep the
    // encoder up from below to pick it up, then to the top.
    assert!(handle(&mut controls, DeviceEvent::Encoder { index: 1, value: 20 }).is_none());
    assert!(handle(&mut controls, DeviceEvent::Encoder { index: 1, value: 80 }).is_some());
    let update = handle(&mut controls, DeviceEvent::Encoder { index: 1, value: 127 }).unwrap();
    assert!((update.change.value - 0.8).abs() < 1e-9);
}

#[test]
fn takeover_prevents_jump_after_reset() {
    let mut controls = bound();
    handle(&mut controls, DeviceEvent::Fader { index: 0, value: 0 }).expect("pickup at 0");
    handle(&mut controls, DeviceEvent::Fader { index: 0, value: 100 }).expect("latched");

    // Preset load moves the param to 0.1 externally.
    let mut new_params = params();
    new_params[2].value = Some(0.1);
    controls.reset_values(&new_params);

    // Fader still sits near 100; small move must NOT jump the param.
    assert!(handle(&mut controls, DeviceEvent::Fader { index: 0, value: 99 }).is_none());
    // Sweeping down through 0.1 picks it up again.
    assert!(handle(&mut controls, DeviceEvent::Fader { index: 0, value: 5 }).is_some());
}

#[test]
fn live_labels_follow_the_patch() {
    let text = r#"
plugin-id = "org.example.synth"

[[encoder]]
index = 1
label = "Macro 1"
param-id = 100
param-name = "M1:"
label-from-param = true
"#;
    let file = parse(text);
    let mut params = params();
    // At bind time the macro is unassigned ("M1: -").
    let mut controls = MacroControls::bind(&file, "org.example.synth", &params).unwrap();
    let binding = &controls.bindings()[0];
    assert!(!binding.active);
    assert_eq!(binding.label, "Macro 1");

    // A patch assigns and renames the macro.
    params[0].name = "M1: Cutoff".to_string();
    controls.reset_values(&params);
    let binding = &controls.bindings()[0];
    assert!(binding.active);
    assert_eq!(binding.label, "Cutoff");

    // Hardware display feedback uses the live label too.
    let update = handle(&mut controls, DeviceEvent::Encoder { index: 0, value: 0 }).unwrap();
    assert_eq!(update.label, "Cutoff");

    // Back to an unassigned patch: inactive again, fallback label.
    params[0].name = "M1: -".to_string();
    controls.reset_values(&params);
    let binding = &controls.bindings()[0];
    assert!(!binding.active);
    assert_eq!(binding.label, "Macro 1");
}

#[test]
fn unbound_events_pass_through() {
    let mut controls = bound();
    assert!(handle(&mut controls, DeviceEvent::Encoder { index: 7, value: 64 }).is_none());
    assert!(handle(&mut controls, DeviceEvent::NoteOn { note: 60, velocity: 100 }).is_none());
}

#[test]
fn out_of_range_indices_are_refused() {
    for (from, to, control, index) in [
        ("index = 2", "index = 9", "encoder", 9),
        ("index = 2", "index = 0", "encoder", 0),
    ] {
        let text = MAPPING.replace(from, to);
        match MacroControls::bind(&parse(&text), "org.example.synth", &params()) {
            Err(MappingError::BadIndex { control: c, index: i }) => {
                assert_eq!((c, i), (control, index));
            }
            _ => panic!("expected BadIndex"),
        }
    }
    let text = MAPPING.replace("[[fader]]\nindex = 1", "[[fader]]\nindex = 5");
    assert!(matches!(
        MacroControls::bind(&parse(&text), "org.example.synth", &params()),
        Err(MappingError::BadIndex { control: "fader", index: 5 })
    ));
}

#[test]
fn mapping_errors_in_words() {
    assert_eq!(
        MappingError::Io("/m.toml".to_string(), "gone".to_string()).message(),
        "cannot read /m.toml: gone"
    );
    assert_eq!(MappingError::Parse("x".to_string()).message(), "mapping parse error: x");
    assert_eq!(
        MappingError::WrongPlugin { expected: "a".to_string(), actual: "b".to_string() }.message(),
        "mapping is for plugin a, loaded b"
    );
    assert_eq!(
        MappingError::UnresolvedParam { label: "Cut \"off\"".to_string() }.message(),
        "mapping entry \"Cut \\\"off\\\"\" matches no plugin parameter"
    );
    assert_eq!(
        MappingError::BadIndex { control: "fader", index: 12 }.message(),
        "mapping entry has out-of-range fader index 12"
    );
}

#[test]
fn screen_moves_release_the_knob() {
    let mut controls = bound();
    handle(&mut controls, DeviceEvent::Encoder { index: 0, value: 0 }).unwrap();
    let update = set_normalized(&mut controls, Control::Encoder(0), 1.5).unwrap();
    assert_eq!(update.normalized, 1.0);
    assert_eq!(update.change.value, 1.0);
    // The physical knob is still at the bottom and must not pull it back.
    assert!(handle(&mut controls, DeviceEvent::Encoder { index: 0, value: 3 }).is_none());
    assert!(set_normalized(&mut controls, Control::Encoder(7), 0.5).is_none());
    assert_eq!(controls.value_of(100, 0.0), 1.0);
    assert_eq!(controls.value_of(555, 0.25), 0.25);
}

#[test]
fn prefixes_and_colons_are_stripped_from_labels() {
    let mut binding = Binding {
        control: Control::Encoder(0),
        label: "Macro 1".to_string(),
        param_id: 1,
        lo: 0.0,
        hi: 1.0,
        active: true,
        cookie: 0,
        file_label: "Macro 1".to_string(),
        label_from_param: true,
        name_prefix: Some("M1".to_string()),
    };
    binding.refresh_label("M1:: Drive ");
    assert_eq!((binding.label.as_str(), binding.active), ("Drive", true));
    binding.refresh_label("M1:");
    assert_eq!((binding.label.as_str(), binding.active), ("Macro 1", false));
}
