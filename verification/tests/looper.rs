//! The phrase looper and its player.

use zoog::app_core::looper::{
    pad_action, LoopEvent, LooperButton, LooperCommand, LooperLogic, LooperUiState,
};
use zoog::app_core::player::{Playback, Player, PlayerMsg};
use zoog::time::{Duration, Instant};

fn ms(millis: u64) -> Instant {
    Instant { nanos: 5_000_000_000 + millis * 1_000_000 }
}

fn note_on() -> ([u8; 3], u8) {
    ([0x90, 60, 100], 3)
}

fn note_off() -> ([u8; 3], u8) {
    ([0x80, 60, 0], 3)
}

#[test]
fn record_flow_produces_a_loop() {
    let mut logic = LooperLogic::new();

    // Arm; nothing recorded until a note arrives.
    let out = logic.press(LooperButton::Record, ms(0));
    assert!(out.command.is_none());
    assert!(logic.captures_notes());

    let (on, len) = note_on();
    assert!(logic.note(on, len, ms(500)).is_none());
    let (off, len) = note_off();
    assert!(logic.note(off, len, ms(900)).is_none());

    // Close after 1s of playing (timing measured from the first note).
    let out = logic.press(LooperButton::Record, ms(1500));
    let Some(LooperCommand::Start { events, length }) = out.command else {
        panic!("expected Start, got {:?}", out.command);
    };
    assert_eq!(events.len(), 2);
    assert_eq!(events[0].offset, Duration { nanos: 0 });
    assert_eq!(events[1].offset, Duration::from_millis(400));
    assert_eq!(length, Duration::from_millis(1000));
}

#[test]
fn too_short_takes_keep_recording() {
    let mut logic = LooperLogic::new();
    logic.press(LooperButton::Record, ms(0));
    let (on, len) = note_on();
    logic.note(on, len, ms(0));
    let out = logic.press(LooperButton::Record, ms(50));
    assert!(out.command.is_none());
    assert!(logic.captures_notes());
}

#[test]
fn overdub_toggles_and_wraps_offsets() {
    let mut logic = LooperLogic::new();
    logic.press(LooperButton::Record, ms(0));
    let (on, len) = note_on();
    logic.note(on, len, ms(0));
    logic.press(LooperButton::Record, ms(1000));

    // Playing, overdub off: notes are not captured.
    assert!(!logic.captures_notes());
    assert!(logic.note(on, len, ms(1200)).is_none());

    // Overdub on: captured with a wrapped offset.
    logic.press(LooperButton::Record, ms(1300));
    let cmd = logic.note(on, len, ms(2500));
    let Some(LooperCommand::Overdub(events)) = cmd else {
        panic!("expected Overdub, got {cmd:?}");
    };
    // Epoch was loop close (1s); 2.5s - 1s = 1.5s; mod 1s = 0.5s.
    assert_eq!(events[0].offset, Duration::from_millis(500));
}

#[test]
fn stop_stops_then_clears() {
    let mut logic = LooperLogic::new();
    logic.press(LooperButton::Record, ms(0));
    let (on, len) = note_on();
    logic.note(on, len, ms(0));
    logic.press(LooperButton::Loop, ms(1000));

    let out = logic.press(LooperButton::Stop, ms(2000));
    assert!(matches!(out.command, Some(LooperCommand::Stop)));
    // Play resumes from the kept loop.
    let out = logic.press(LooperButton::Play, ms(3000));
    assert!(matches!(out.command, Some(LooperCommand::Restart)));
    logic.press(LooperButton::Stop, ms(4000));
    let out = logic.press(LooperButton::Stop, ms(5000));
    assert!(matches!(out.command, Some(LooperCommand::Clear)));
    assert_eq!(logic.status(ms(5000)), "loop: empty");
}

#[test]
fn stop_discards_an_active_take() {
    let mut logic = LooperLogic::new();
    logic.press(LooperButton::Record, ms(0));
    let (on, len) = note_on();
    logic.note(on, len, ms(0));
    let out = logic.press(LooperButton::Stop, ms(1000));
    assert!(matches!(out.command, Some(LooperCommand::Clear)));
    assert!(!logic.captures_notes());
}

#[test]
fn the_state_is_shown() {
    let mut logic = LooperLogic::default();
    assert_eq!(logic.ui_state(), LooperUiState::Empty);
    logic.press(LooperButton::Record, ms(0));
    assert_eq!(logic.ui_state(), LooperUiState::Armed);
    let (on, len) = note_on();
    logic.note(on, len, ms(0));
    assert_eq!(logic.ui_state(), LooperUiState::Recording);
    logic.press(LooperButton::Loop, ms(1000));
    assert_eq!(logic.ui_state(), LooperUiState::Playing);
    // The length stands in the status line, in seconds.
    assert!(logic.status(ms(1000)).contains("1.0"));
    logic.press(LooperButton::Record, ms(1100));
    assert_eq!(logic.ui_state(), LooperUiState::Overdub);
    logic.press(LooperButton::Stop, ms(1200));
    assert_eq!(logic.ui_state(), LooperUiState::Stopped);
}

#[test]
fn every_change_has_a_status() {
    let mut logic = LooperLogic::new();
    let out = logic.press(LooperButton::Record, ms(0));
    assert_eq!(out.status, Some(logic.status(ms(0))));
    let out = logic.press(LooperButton::Stop, ms(10));
    assert_eq!(out.status.as_deref(), Some("loop: take discarded; loop: empty"));
    // A press that does nothing says nothing.
    assert_eq!(logic.press(LooperButton::Stop, ms(20)).status, None);
    assert_eq!(logic.press(LooperButton::Play, ms(30)).status, None);
}

#[test]
fn pads_do_what_their_slot_needs() {
    assert_eq!(pad_action(LooperUiState::Empty), LooperButton::Record);
    assert_eq!(pad_action(LooperUiState::Stopped), LooperButton::Play);
    assert_eq!(pad_action(LooperUiState::Playing), LooperButton::Stop);
}

fn events() -> Vec<LoopEvent> {
    let (on, len) = note_on();
    let (off, _) = note_off();
    vec![
        LoopEvent { offset: Duration { nanos: 0 }, bytes: on, len },
        LoopEvent { offset: Duration::from_millis(400), bytes: off, len },
    ]
}

fn start() -> LooperCommand {
    LooperCommand::Start { events: events(), length: Duration::from_millis(1000) }
}

#[test]
fn a_started_loop_plays_its_events_over_and_over() {
    let mut p = Playback::new(ms(0));
    assert!(p.accepts(&start()));
    assert!(p.command(start(), ms(0)).is_empty());
    let out = p.fire(ms(0));
    assert_eq!(out.len(), 1);
    assert_eq!(out[0].bytes, [0x90, 60, 100]);
    // The player sleeps until the next event, but never for long.
    assert_eq!(p.timeout(ms(390)), Duration::from_millis(10));
    assert_eq!(p.timeout(ms(100)), Duration::from_millis(20));
    assert!(p.fire(ms(399)).is_empty());
    let out = p.fire(ms(400));
    assert_eq!(out[0].bytes, [0x80, 60, 0]);
    let out = p.fire(ms(1000));
    assert_eq!(out[0].bytes, [0x90, 60, 100]);
}

#[test]
fn stopping_releases_what_sounds() {
    let mut p = Playback::new(ms(0));
    p.command(start(), ms(0));
    p.fire(ms(0));
    let out = p.command(LooperCommand::Stop, ms(100));
    assert_eq!(out.len(), 1);
    assert_eq!(out[0].bytes[0], 0x80);
    assert_eq!(out[0].bytes[1], 60);
    // Nothing sounds any more, and nothing plays.
    assert!(p.release().is_empty());
    assert!(p.fire(ms(500)).is_empty());
}

#[test]
fn restarting_plays_from_the_top() {
    let mut p = Playback::new(ms(0));
    p.command(start(), ms(0));
    p.fire(ms(0));
    p.fire(ms(400));
    p.command(LooperCommand::Stop, ms(500));
    p.command(LooperCommand::Restart, ms(2000));
    let out = p.fire(ms(2000));
    assert_eq!(out[0].bytes, [0x90, 60, 100]);
}

#[test]
fn overdubs_come_in_their_place() {
    let mut p = Playback::new(ms(0));
    p.command(start(), ms(0));
    p.fire(ms(0));
    let extra = LoopEvent {
        offset: Duration::from_millis(200),
        bytes: [0x90, 64, 90],
        len: 3,
    };
    p.command(LooperCommand::Overdub(vec![extra]), ms(100));
    // It is heard from the next round on at the latest.
    p.fire(ms(999));
    p.fire(ms(1000));
    let out = p.fire(ms(1200));
    assert_eq!(out.len(), 1);
    assert_eq!(out[0].bytes, [0x90, 64, 90]);
}

#[test]
fn slots_play_independently() {
    let mut player = Player::new(ms(0));
    player.handle(PlayerMsg::Slot(0, start()), ms(0));
    player.handle(PlayerMsg::Slot(3, start()), ms(500));
    let out = player.tick(ms(500));
    assert_eq!(out.len(), 8);
    // Slot 0 is at its note off, slot 3 at its note on.
    assert_eq!(out[0].iter().map(|m| m.bytes[0]).collect::<Vec<_>>(), [0x90, 0x80]);
    assert_eq!(out[3].iter().map(|m| m.bytes[0]).collect::<Vec<_>>(), [0x90]);
    assert!(out[1].is_empty());
    let released = player.finish();
    assert_eq!(released[3].len(), 1);
    assert!(released[0].is_empty());
}

#[test]
fn slots_know_whose_ring_they_use() {
    let mut player = Player::new(ms(0));
    assert!(!player.uses_own_ring(2));
    player.handle(PlayerMsg::SlotRing(2), ms(0));
    assert!(player.uses_own_ring(2));
    player.handle(PlayerMsg::SlotRingClear(2), ms(0));
    assert!(!player.uses_own_ring(2));
    player.handle(PlayerMsg::Ring, ms(0));
    assert!(player.timeout(ms(0)).nanos > 0);
}

#[test]
fn an_overdub_at_the_end_of_a_pass_disturbs_nothing() {
    let mut p = Playback::new(ms(0));
    p.command(start(), ms(0));
    p.fire(ms(450));
    // The pass is over, but what is due was not sent yet.
    let extra = LoopEvent { offset: Duration::from_millis(50), bytes: [0x90, 64, 90], len: 3 };
    p.command(LooperCommand::Overdub(vec![extra]), ms(1100));
    assert!(p.fire(ms(1100)).is_empty());
    assert!(p.fire(ms(1399)).is_empty());
    let bytes: Vec<u8> = p.fire(ms(1400)).iter().map(|m| m.bytes[0]).collect();
    assert_eq!(bytes, [0x80]);
    let keys: Vec<u8> = p.fire(ms(2050)).iter().map(|m| m.bytes[1]).collect();
    assert_eq!(keys, [60, 64]);
}

#[test]
fn a_run_leaves_no_note_hanging() {
    let mut p = Playback::new(ms(0));
    let mut sent: Vec<[u8; 3]> = Vec::new();
    let extra = LoopEvent { offset: Duration::from_millis(200), bytes: [0x90, 64, 90], len: 3 };
    for m in p.command(start(), ms(0)) {
        sent.push(m.bytes);
    }
    for at in [0, 100, 250, 1_000, 1_210] {
        for m in p.fire(ms(at)) {
            sent.push(m.bytes);
        }
        if at == 100 {
            for m in p.command(LooperCommand::Overdub(vec![extra]), ms(at)) {
                sent.push(m.bytes);
            }
        }
    }
    for m in p.command(LooperCommand::Clear, ms(1_300)) {
        sent.push(m.bytes);
    }
    let on = |b: &[u8; 3]| b[0] & 0xF0 == 0x90 && b[2] > 0;
    assert!(sent.iter().filter(|b| on(b)).count() >= 3);
    for (i, note) in sent.iter().enumerate() {
        if on(note) {
            assert!(sent[i + 1..].iter().any(|b| b[0] & 0xF0 == 0x80 && b[1] == note[1]));
        }
    }
    // After a clear there is nothing to play.
    assert!(p.command(LooperCommand::Restart, ms(2_000)).is_empty());
    assert!(p.fire(ms(3_000)).is_empty());
}
