//! Command lines.

use zoog::cli::{
    marker_text, message_line, name_filter, parse_boot_args, parse_command, parse_display_args,
    parse_favorite_args, parse_list_args, parse_load_args, parse_monitor_args, parse_pad_args,
    parse_play_args, parse_presets_command, parse_scan_args, parse_search_args, pick_row,
    port_still_present, preset_id, row_line, BootChoice, Command, Monitor, MonitorStep,
    PresetsCommand, APP_USAGE,
};
use zoog::library::PresetRow;
use zoog::midi::event::TimedMessage;
use zoog::text::{parse_signed, signed_text};
use zoog::time::{Duration, Instant};

fn args(words: &[&str]) -> Vec<String> {
    words.iter().map(|w| w.to_string()).collect()
}

#[test]
fn commands_are_recognized() {
    assert_eq!(parse_command(&args(&[])), Command::Nothing);
    assert_eq!(parse_command(&args(&["ports"])), Command::Ports);
    assert_eq!(parse_command(&args(&["monitor", "x"])), Command::Monitor);
    assert_eq!(parse_command(&args(&["display"])), Command::Display);
    assert_eq!(parse_command(&args(&["pad"])), Command::Pad);
    assert_eq!(parse_command(&args(&["plugins"])), Command::Plugins);
    assert_eq!(parse_command(&args(&["play"])), Command::Play);
    assert_eq!(parse_command(&args(&["presets"])), Command::Presets);
    assert_eq!(parse_command(&args(&["-h"])), Command::Help);
    assert_eq!(parse_command(&args(&["Play"])), Command::Unknown("Play".to_string()));
}

#[test]
fn monitor_arguments() {
    let parsed = parse_monitor_args(&args(&[])).unwrap();
    assert_eq!((parsed.matcher.as_str(), parsed.capture_path), ("minilab", None));
    let parsed = parse_monitor_args(&args(&["--match", "x", "--capture", "f.cap"])).unwrap();
    assert_eq!((parsed.matcher.as_str(), parsed.capture_path.as_deref()), ("x", Some("f.cap")));
    assert_eq!(parse_monitor_args(&args(&["--match"])).unwrap_err(), "--match needs a value");
    assert_eq!(parse_monitor_args(&args(&["--capture"])).unwrap_err(), "--capture needs a value");
    assert_eq!(parse_monitor_args(&args(&["-v"])).unwrap_err(), "unknown argument \"-v\"");
}

#[test]
fn play_arguments() {
    let parsed = parse_play_args(&args(&[])).unwrap();
    assert_eq!((parsed.plugin.as_str(), parsed.config.sample_rate), ("surge", 48_000));
    let parsed =
        parse_play_args(&args(&["--rate", "44100", "--frames", "+64", "--plugin", "odin"]))
            .unwrap();
    assert_eq!(parsed.plugin, "odin");
    assert_eq!((parsed.config.sample_rate, parsed.config.buffer_frames), (44_100, 64));
    for (words, complaint) in [
        (vec!["--rate", "fast"], "--rate must be a number"),
        (vec!["--rate", "4294967296"], "--rate must be a number"),
        (vec!["--frames", ""], "--frames must be a number"),
        (vec!["--rate"], "--rate needs a value"),
        (vec!["--frames"], "--frames needs a value"),
        (vec!["--plugin"], "--plugin needs a value"),
        (vec!["x"], "unknown argument \"x\""),
    ] {
        assert_eq!(parse_play_args(&args(&words)).unwrap_err(), complaint);
    }
}

#[test]
fn boot_arguments() {
    let words = ["--mock-device", "--stub-engine", "--arturia-mode", "--mapping", "m.toml"];
    match parse_boot_args(&args(&words)) {
        BootChoice::Run(boot) => {
            assert!(boot.mock_device && boot.stub_engine && boot.arturia_mode);
            assert_eq!(boot.mapping_path.as_deref(), Some("m.toml"));
            assert_eq!(boot.plugin_match, "Surge XT");
        }
        other => panic!("expected to run, got {other:?}"),
    }
    match parse_boot_args(&args(&["--rate", "96000", "--frames", "32", "--plugin", "o"])) {
        BootChoice::Run(boot) => {
            assert_eq!((boot.sample_rate, boot.buffer_frames), (96_000, 32));
            assert_eq!(boot.plugin_match, "o");
        }
        other => panic!("expected to run, got {other:?}"),
    }
    assert!(matches!(parse_boot_args(&args(&["--help", "junk"])), BootChoice::Help));
    for (words, complaint) in [
        (vec!["--plugin"], format!("--plugin needs a value\n{APP_USAGE}")),
        (vec!["--rate", "x"], "--rate must be a number".to_string()),
        (vec!["--frames", "-1"], "--frames must be a number".to_string()),
        (vec!["junk"], format!("unknown argument \"junk\"\n{APP_USAGE}")),
    ] {
        match parse_boot_args(&args(&words)) {
            BootChoice::Refuse(text) => assert_eq!(text, complaint),
            other => panic!("expected a refusal, got {other:?}"),
        }
    }
}

#[test]
fn display_and_pad_arguments() {
    assert_eq!(parse_display_args(&args(&["a"])), Some(("a".to_string(), String::new())));
    assert_eq!(
        parse_display_args(&args(&["a", "b"])),
        Some(("a".to_string(), "b".to_string()))
    );
    assert_eq!(parse_display_args(&args(&[])), None);
    assert_eq!(parse_display_args(&args(&["a", "b", "c"])), None);

    let all = parse_pad_args(&args(&["all", "0", "64", "127"])).unwrap();
    assert_eq!(all.pads, [0, 1, 2, 3, 4, 5, 6, 7]);
    assert_eq!((all.r, all.g, all.b), (0, 64, 127));
    assert_eq!(parse_pad_args(&args(&["8", "1", "1", "1"])).unwrap().pads, [7]);
    for words in [
        ["0", "1", "1", "1"],
        ["9", "1", "1", "1"],
        ["1", "128", "1", "1"],
        ["1", "1", "x", "1"],
        ["1", "1", "1", "300"],
    ] {
        assert!(parse_pad_args(&args(&words)).is_none());
    }
    assert!(parse_pad_args(&args(&["1", "1", "1"])).is_none());
}

#[test]
fn presets_arguments() {
    assert_eq!(parse_presets_command(&args(&["scan"])), PresetsCommand::Scan);
    assert_eq!(parse_presets_command(&args(&["list"])), PresetsCommand::List);
    assert_eq!(parse_presets_command(&args(&["search"])), PresetsCommand::Search);
    assert_eq!(parse_presets_command(&args(&["categories"])), PresetsCommand::Categories);
    assert_eq!(parse_presets_command(&args(&["load"])), PresetsCommand::Load);
    assert_eq!(parse_presets_command(&args(&["favorite"])), PresetsCommand::Favorite);
    assert_eq!(parse_presets_command(&args(&["x"])), PresetsCommand::Usage);
    assert_eq!(parse_presets_command(&args(&[])), PresetsCommand::Usage);

    assert_eq!(parse_scan_args(&args(&[])).unwrap(), "Surge XT");
    assert_eq!(parse_scan_args(&args(&["--plugin", "o"])).unwrap(), "o");
    assert_eq!(
        parse_scan_args(&args(&["o"])).unwrap_err(),
        "usage: labctl presets scan [--plugin MATCH]"
    );

    let filter = parse_list_args(&args(&["--favorites", "--category", "Pads"])).unwrap();
    assert!(filter.favorites_only);
    assert_eq!(filter.category.as_deref(), Some("Pads"));
    assert_eq!(
        parse_list_args(&args(&["--category"])).unwrap_err(),
        "--category needs a value"
    );
    assert_eq!(parse_list_args(&args(&["x"])).unwrap_err(), "unknown argument \"x\"");

    assert_eq!(parse_search_args(&args(&["q"])).unwrap().query.as_deref(), Some("q"));
    assert_eq!(name_filter("q").query.as_deref(), Some("q"));
    assert_eq!(
        parse_search_args(&args(&[])).unwrap_err(),
        "usage: labctl presets search QUERY"
    );
    assert_eq!(parse_load_args(&args(&["7"])).unwrap(), "7");
    assert_eq!(
        parse_load_args(&args(&[])).unwrap_err(),
        "usage: labctl presets load <ID|NAME>"
    );
    assert_eq!(parse_favorite_args(&args(&["7"])).unwrap(), ("7".to_string(), true));
    assert_eq!(parse_favorite_args(&args(&["7", "on"])).unwrap().1, true);
    assert_eq!(parse_favorite_args(&args(&["7", "off"])).unwrap().1, false);
    assert_eq!(
        parse_favorite_args(&args(&["7", "x"])).unwrap_err(),
        "usage: labctl presets favorite <ID> [on|off]"
    );
}

fn row(id: i64, name: &str) -> PresetRow {
    PresetRow {
        id,
        engine: "org.example".to_string(),
        name: name.to_string(),
        path: Some("/p/x.fxp".to_string()),
        load_key: None,
        category: None,
        features: vec![],
        creators: vec![],
        description: None,
        is_factory: false,
        favorite: true,
        last_used: None,
    }
}

#[test]
fn one_preset_has_to_match() {
    assert_eq!(pick_row("w", vec![row(3, "Warm")]).unwrap().id, 3);
    assert_eq!(pick_row("w", vec![]).unwrap_err(), "no preset matches \"w\"");
    assert_eq!(
        pick_row("w", vec![row(3, "Warm"), row(4, "Weird")]).unwrap_err(),
        "2 presets match \"w\"; use the ID"
    );
    assert_eq!(preset_id("42"), Some(42));
    assert_eq!(preset_id("4x"), None);
}

#[test]
fn rows_are_printed_in_columns() {
    assert_eq!(
        row_line(&row(12, "Warm")),
        format!("  {:>6}  {:<32} {:<16} {}{}", 12, "Warm", "-", "* ", "/p/x.fxp")
    );
    let long = "a name that is far too long for the column";
    assert!(row_line(&row(1_234_567, long)).contains(long));
}

#[test]
fn messages_are_printed_in_columns() {
    let m = TimedMessage { timestamp_us: 1234, bytes: vec![0x90, 0x3C, 0x64] };
    let line = message_line(&m);
    assert!(line.starts_with(&format!("[{:>12}] {:<24} NoteOn", 1234, "90 3C 64")));
    let empty = TimedMessage { timestamp_us: 0, bytes: vec![] };
    assert!(message_line(&empty).starts_with(&format!("[{:>12}] {:<24} ", 0, "")));
}

#[test]
fn markers_and_ports() {
    assert_eq!(marker_text("  pads \n").as_deref(), Some("pads"));
    assert_eq!(marker_text(" \t "), None);
    let inputs = args(&["Midi Through", "Minilab3 MIDI"]);
    assert!(port_still_present(&inputs, "minilab3"));
    assert!(!port_still_present(&inputs, "launchpad"));
}

#[test]
fn whole_numbers() {
    for n in [0, 7, -7, i64::MAX, i64::MIN] {
        assert_eq!(signed_text(n), format!("{n}"));
        assert_eq!(parse_signed(&format!("{n}")), Some(n));
    }
    assert_eq!(parse_signed("+5"), Some(5));
    for bad in ["", "-", "+", "-+5", "--5", "1 ", "9223372036854775808", "-9223372036854775809"] {
        assert_eq!(parse_signed(bad), None);
    }
}

#[test]
fn monitoring_follows_the_port() {
    let at = |millis: u64| Instant { nanos: millis * 1_000_000 };
    let mut monitor = Monitor::new();
    assert_eq!(monitor.next(at(0)), MonitorStep::Open);
    assert_eq!(monitor.on_opened(false, at(0)), Some(Duration::from_secs(1)));
    assert_eq!(monitor.next(at(1_000)), MonitorStep::Open);
    assert_eq!(monitor.on_opened(true, at(1_000)), None);
    assert_eq!(monitor.next(at(2_999)), MonitorStep::Receive);
    assert_eq!(monitor.next(at(3_000)), MonitorStep::Probe);
    assert!(!monitor.on_probed(true));
    assert_eq!(monitor.next(at(4_999)), MonitorStep::Receive);
    assert_eq!(monitor.next(at(5_000)), MonitorStep::Probe);
    assert!(monitor.on_probed(false));
    assert_eq!(monitor.next(at(5_001)), MonitorStep::Open);
}
