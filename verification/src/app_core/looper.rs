//! MIDI phrase looper on the DAW-mode transport pads.
//!
//! [`LooperLogic`] is the state machine of one loop: button presses and
//! note events in, playback commands and display text out. Playback itself
//! is in [`player`](crate::app_core::player).
//!
//! Workflow on the hardware (Shift + pads in DAW mode):
//! * **Record**: arm; recording starts at the first note. Record again
//!   closes the loop and playback starts immediately. While playing, Record
//!   toggles overdub.
//! * **Loop**: closes the loop while recording; otherwise restarts playback
//!   from the top.
//! * **Play**: (re)starts playback of the captured loop.
//! * **Stop**: while recording, discards the take; while playing, stops;
//!   pressed again when stopped, clears the loop.

use vstd::prelude::*;

use crate::text::{join2, join3};
use crate::time::{Duration, Instant};

verus! {

/// Shortest closable loop, in nanoseconds; a shorter take keeps recording
/// instead.
pub const MIN_LOOP_NANOS: u64 = 200_000_000;

/// One captured MIDI message, offset from the loop start.
#[derive(Debug, Clone, Copy, PartialEq)]
pub struct LoopEvent {
    pub offset: Duration,
    pub bytes: [u8; 3],
    pub len: u8,
}

/// Commands to the playback of one loop.
#[derive(Debug)]
pub enum LooperCommand {
    /// Replace the loop and start playing from the top.
    Start { events: Vec<LoopEvent>, length: Duration },
    /// Add overdubbed events to the current loop.
    Overdub(Vec<LoopEvent>),
    /// Restart playback from the top (no-op when no loop is loaded).
    Restart,
    /// Stop playback (keeps the loop; releases hanging notes).
    Stop,
    /// Drop the loop entirely.
    Clear,
}

/// What a [`LooperCommand`] says.
pub enum CommandView {
    Start { events: Seq<LoopEvent>, length: Duration },
    Overdub(Seq<LoopEvent>),
    Restart,
    Stop,
    Clear,
}

impl View for LooperCommand {
    type V = CommandView;

    open spec fn view(&self) -> CommandView {
        match *self {
            LooperCommand::Start { events, length } => CommandView::Start {
                events: events@,
                length,
            },
            LooperCommand::Overdub(events) => CommandView::Overdub(events@),
            LooperCommand::Restart => CommandView::Restart,
            LooperCommand::Stop => CommandView::Stop,
            LooperCommand::Clear => CommandView::Clear,
        }
    }
}

/// What an optional command says.
pub open spec fn command_view(command: Option<LooperCommand>) -> Option<CommandView> {
    match command {
        Some(c) => Some(c@),
        None => None,
    }
}

/// The transport buttons the looper responds to.
#[derive(Debug, Clone, Copy, PartialEq, Eq, Structural)]
pub enum LooperButton {
    Record,
    Loop,
    Play,
    Stop,
}

/// A loop's state as shown by the frontends and the pad lights.
#[derive(Debug, Clone, Copy, PartialEq, Eq, Structural)]
pub enum LooperUiState {
    Empty,
    Armed,
    Recording,
    Overdub,
    Playing,
    Stopped,
}

#[derive(Debug)]
enum State {
    Empty,
    /// Record pressed; waiting for the first note.
    Armed,
    Recording { started: Instant, events: Vec<LoopEvent> },
    Playing { length: Duration, epoch: Instant, overdub: bool },
    Stopped { length: Duration },
}

/// The state of a [`LooperLogic`].
#[allow(inconsistent_fields)]
pub enum LooperState {
    Empty,
    Armed,
    Recording { started: Instant, events: Seq<LoopEvent> },
    Playing { length: Duration, epoch: Instant, overdub: bool },
    Stopped { length: Duration },
}

/// What a state transition asks the caller to do.
#[derive(Debug)]
pub struct Output {
    pub command: Option<LooperCommand>,
    /// New status line for displays, when it changed.
    pub status: Option<String>,
}

impl Default for Output {
    /// Nothing to do and nothing to tell.
    fn default() -> (output: Self)
        ensures
            output.command is None,
            output.status is None,
    {
        Output { command: None, status: None }
    }
}

/// Pure looper state machine.
#[derive(Debug)]
pub struct LooperLogic {
    state: State,
}

spec fn state_view(state: State) -> LooperState {
    match state {
        State::Empty => LooperState::Empty,
        State::Armed => LooperState::Armed,
        State::Recording { started, events } => LooperState::Recording { started, events: events@ },
        State::Playing { length, epoch, overdub } => LooperState::Playing {
            length,
            epoch,
            overdub,
        },
        State::Stopped { length } => LooperState::Stopped { length },
    }
}

impl View for LooperLogic {
    type V = LooperState;

    closed spec fn view(&self) -> LooperState {
        state_view(self.state)
    }
}

// ---------------------------------------------------------------------
// Status text
// ---------------------------------------------------------------------

/// A time in seconds with one decimal, as `{:.1}` prints the single
/// precision value of `std::time::Duration::as_secs_f32`.
pub uninterp spec fn seconds(nanos: u64) -> Seq<char>;

/// `std::time::Duration::as_secs_f32`, printed with one decimal: the result
/// is named [`seconds`]; nothing is said here of its rounding.
#[verifier::external_body]
fn seconds_text(nanos: u64) -> (text: String)
    ensures
        text@ == seconds(nanos),
{
    format!("{:.1}", std::time::Duration::from_nanos(nanos).as_secs_f32())
}

/// The text of [`LooperLogic::status`].
pub open spec fn status_text(state: LooperState, now: Instant) -> Seq<char> {
    match state {
        LooperState::Empty => "loop: empty"@,
        LooperState::Armed => "loop: armed (play a note)"@,
        LooperState::Recording { started, .. } => "loop: REC "@ + seconds(
            crate::time::nanos_between(started, now) as u64,
        ) + "s"@,
        LooperState::Playing { length, overdub, .. } => (if overdub {
            "loop: OVERDUB "@
        } else {
            "loop: playing "@
        }) + seconds(length.nanos) + "s"@,
        LooperState::Stopped { length } => "loop: stopped "@ + seconds(length.nanos)
            + "s (Stop again clears)"@,
    }
}

// ---------------------------------------------------------------------
// Transitions
// ---------------------------------------------------------------------

/// A state, the command it sends, and the status line it shows.
pub struct Step {
    pub state: LooperState,
    pub command: Option<CommandView>,
    pub status: Option<Seq<char>>,
}

/// Nothing happens.
pub open spec fn idle(state: LooperState) -> Step {
    Step { state, command: None, status: None }
}

/// A new state, shown on the display.
pub open spec fn shown(state: LooperState, command: Option<CommandView>, now: Instant) -> Step {
    Step { state, command, status: Some(status_text(state, now)) }
}

/// Closing a take: long enough and not empty, it becomes the playing loop;
/// otherwise recording goes on.
pub open spec fn closed_loop(state: LooperState, now: Instant) -> Step {
    match state {
        LooperState::Recording { started, events } => {
            let length = crate::time::nanos_between(started, now);
            if length < MIN_LOOP_NANOS || events.len() == 0 {
                idle(state)
            } else {
                let length = Duration { nanos: length as u64 };
                shown(
                    LooperState::Playing { length, epoch: now, overdub: false },
                    Some(CommandView::Start { events, length }),
                    now,
                )
            }
        },
        _ => idle(state),
    }
}

/// The Record button.
pub open spec fn record_pressed(state: LooperState, now: Instant) -> Step {
    match state {
        LooperState::Empty => shown(LooperState::Armed, None, now),
        LooperState::Stopped { .. } => shown(LooperState::Armed, None, now),
        LooperState::Armed => shown(LooperState::Empty, None, now),
        LooperState::Recording { .. } => closed_loop(state, now),
        LooperState::Playing { length, epoch, overdub } => shown(
            LooperState::Playing { length, epoch, overdub: !overdub },
            None,
            now,
        ),
    }
}

/// The Play button.
pub open spec fn play_pressed(state: LooperState, now: Instant) -> Step {
    match state {
        LooperState::Playing { length, .. } => shown(
            LooperState::Playing { length, epoch: now, overdub: false },
            Some(CommandView::Restart),
            now,
        ),
        LooperState::Stopped { length } => shown(
            LooperState::Playing { length, epoch: now, overdub: false },
            Some(CommandView::Restart),
            now,
        ),
        _ => idle(state),
    }
}

/// The Stop button.
pub open spec fn stop_pressed(state: LooperState, now: Instant) -> Step {
    match state {
        LooperState::Empty => idle(state),
        LooperState::Playing { length, .. } => shown(
            LooperState::Stopped { length },
            Some(CommandView::Stop),
            now,
        ),
        LooperState::Stopped { .. } => shown(LooperState::Empty, Some(CommandView::Clear), now),
        _ => Step {
            state: LooperState::Empty,
            command: Some(CommandView::Clear),
            status: Some("loop: take discarded; "@ + status_text(LooperState::Empty, now)),
        },
    }
}

/// A button.
pub open spec fn pressed(state: LooperState, button: LooperButton, now: Instant) -> Step {
    match button {
        LooperButton::Record => record_pressed(state, now),
        LooperButton::Loop => match state {
            LooperState::Recording { .. } => closed_loop(state, now),
            _ => play_pressed(state, now),
        },
        LooperButton::Play => play_pressed(state, now),
        LooperButton::Stop => stop_pressed(state, now),
    }
}

/// Where in the loop `now` lies, for a loop that started at `epoch`.
pub open spec fn in_cycle(epoch: Instant, now: Instant, length: Duration) -> int {
    crate::time::nanos_between(epoch, now) % (if length.nanos == 0 {
        1
    } else {
        length.nanos as int
    })
}

/// A note: the state after it, and the command it sends.
pub open spec fn noted(state: LooperState, bytes: [u8; 3], len: u8, now: Instant) -> (
    LooperState,
    Option<CommandView>,
) {
    match state {
        LooperState::Armed => (
            LooperState::Recording {
                started: now,
                events: seq![LoopEvent { offset: Duration { nanos: 0 }, bytes, len }],
            },
            None,
        ),
        LooperState::Recording { started, events } => {
            let offset = Duration { nanos: crate::time::nanos_between(started, now) as u64 };
            (
                LooperState::Recording {
                    started,
                    events: events.push(LoopEvent { offset, bytes, len }),
                },
                None,
            )
        },
        LooperState::Playing { length, epoch, overdub: true } => {
            let offset = Duration { nanos: in_cycle(epoch, now, length) as u64 };
            (state, Some(CommandView::Overdub(seq![LoopEvent { offset, bytes, len }])))
        },
        _ => (state, None),
    }
}

/// The state that frontends show.
pub open spec fn shown_state(state: LooperState) -> LooperUiState {
    match state {
        LooperState::Empty => LooperUiState::Empty,
        LooperState::Armed => LooperUiState::Armed,
        LooperState::Recording { .. } => LooperUiState::Recording,
        LooperState::Playing { overdub: true, .. } => LooperUiState::Overdub,
        LooperState::Playing { overdub: false, .. } => LooperUiState::Playing,
        LooperState::Stopped { .. } => LooperUiState::Stopped,
    }
}

/// Whether a state takes in notes.
pub open spec fn capturing(state: LooperState) -> bool {
    match state {
        LooperState::Armed => true,
        LooperState::Recording { .. } => true,
        LooperState::Playing { overdub, .. } => overdub,
        _ => false,
    }
}

/// The view of an [`Output`] and the state after it.
pub open spec fn step_view(state: LooperState, output: Output) -> Step {
    Step {
        state,
        command: command_view(output.command),
        status: crate::text::opt_text(output.status),
    }
}

impl LooperLogic {
    /// A loop that holds nothing.
    pub fn new() -> (logic: Self)
        ensures
            logic@ == LooperState::Empty,
    {
        LooperLogic { state: State::Empty }
    }

    /// The state in words.
    pub fn status(&self, now: Instant) -> (text: String)
        ensures
            text@ == status_text(self@, now),
    {
        match &self.state {
            State::Empty => "loop: empty".to_owned(),
            State::Armed => "loop: armed (play a note)".to_owned(),
            State::Recording { started, .. } => join3(
                "loop: REC ",
                seconds_text(now.duration_since(*started).nanos).as_str(),
                "s",
            ),
            State::Playing { length, overdub, .. } => join3(
                if *overdub {
                    "loop: OVERDUB "
                } else {
                    "loop: playing "
                },
                seconds_text(length.nanos).as_str(),
                "s",
            ),
            State::Stopped { length } => join3(
                "loop: stopped ",
                seconds_text(length.nanos).as_str(),
                "s (Stop again clears)",
            ),
        }
    }

    /// The state that frontends show.
    pub fn ui_state(&self) -> (state: LooperUiState)
        ensures
            state == shown_state(self@),
    {
        match &self.state {
            State::Empty => LooperUiState::Empty,
            State::Armed => LooperUiState::Armed,
            State::Recording { .. } => LooperUiState::Recording,
            State::Playing { overdub, .. } => if *overdub {
                LooperUiState::Overdub
            } else {
                LooperUiState::Playing
            },
            State::Stopped { .. } => LooperUiState::Stopped,
        }
    }

    /// Handles a transport button press.
    pub fn press(&mut self, button: LooperButton, now: Instant) -> (output: Output)
        ensures
            step_view(final(self)@, output) == pressed(old(self)@, button, now),
    {
        match button {
            LooperButton::Record => self.press_record(now),
            LooperButton::Loop => match &self.state {
                State::Recording { .. } => self.close_loop(now),
                _ => self.press_play(now),
            },
            LooperButton::Play => self.press_play(now),
            LooperButton::Stop => self.press_stop(now),
        }
    }

    fn enter(&mut self, state: State, command: Option<LooperCommand>, now: Instant) -> (
        output: Output)
        ensures
            step_view(final(self)@, output) == shown(
                state_view(state),
                command_view(command),
                now,
            ),
    {
        self.state = state;
        Output { command, status: Some(self.status(now)) }
    }

    fn press_record(&mut self, now: Instant) -> (output: Output)
        ensures
            step_view(final(self)@, output) == record_pressed(old(self)@, now),
    {
        match &self.state {
            State::Empty | State::Stopped { .. } => self.enter(State::Armed, None, now),
            State::Armed => self.enter(State::Empty, None, now),
            State::Recording { .. } => self.close_loop(now),
            State::Playing { length, epoch, overdub } => {
                let next = State::Playing { length: *length, epoch: *epoch, overdub: !*overdub };
                self.enter(next, None, now)
            },
        }
    }

    fn close_loop(&mut self, now: Instant) -> (output: Output)
        ensures
            step_view(final(self)@, output) == closed_loop(old(self)@, now),
    {
        let mut state = State::Empty;
        std::mem::swap(&mut state, &mut self.state);
        match state {
            State::Recording { started, events } => {
                let length = now.duration_since(started);
                if length.nanos < MIN_LOOP_NANOS || events.len() == 0 {
                    // Too short to be a phrase: keep recording.
                    self.state = State::Recording { started, events };
                    Output { command: None, status: None }
                } else {
                    self.enter(
                        State::Playing { length, epoch: now, overdub: false },
                        Some(LooperCommand::Start { events, length }),
                        now,
                    )
                }
            },
            other => {
                self.state = other;
                Output { command: None, status: None }
            },
        }
    }

    fn press_play(&mut self, now: Instant) -> (output: Output)
        ensures
            step_view(final(self)@, output) == play_pressed(old(self)@, now),
    {
        match &self.state {
            State::Playing { length, .. } | State::Stopped { length } => {
                let next = State::Playing { length: *length, epoch: now, overdub: false };
                self.enter(next, Some(LooperCommand::Restart), now)
            },
            _ => Output { command: None, status: None },
        }
    }

    fn press_stop(&mut self, now: Instant) -> (output: Output)
        ensures
            step_view(final(self)@, output) == stop_pressed(old(self)@, now),
    {
        match &self.state {
            State::Recording { .. } | State::Armed => {
                self.state = State::Empty;
                let text = join2("loop: take discarded; ", self.status(now).as_str());
                Output { command: Some(LooperCommand::Clear), status: Some(text) }
            },
            State::Playing { length, .. } => {
                let next = State::Stopped { length: *length };
                self.enter(next, Some(LooperCommand::Stop), now)
            },
            State::Stopped { .. } => self.enter(State::Empty, Some(LooperCommand::Clear), now),
            State::Empty => Output { command: None, status: None },
        }
    }

    /// Feeds a playable MIDI message (notes only). Returns a command when
    /// the message must reach the playback (overdub).
    pub fn note(&mut self, bytes: [u8; 3], len: u8, now: Instant) -> (command: Option<
        LooperCommand,
    >)
        ensures
            (final(self)@, command_view(command)) == noted(old(self)@, bytes, len, now),
    {
        let mut state = State::Empty;
        std::mem::swap(&mut state, &mut self.state);
        match state {
            State::Armed => {
                let event = LoopEvent { offset: Duration { nanos: 0 }, bytes, len };
                let mut events: Vec<LoopEvent> = Vec::new();
                events.push(event);
                assert(events@ =~= seq![event]);
                self.state = State::Recording { started: now, events };
                None
            },
            State::Recording { started, events } => {
                let mut events = events;
                events.push(LoopEvent { offset: now.duration_since(started), bytes, len });
                self.state = State::Recording { started, events };
                None
            },
            State::Playing { length, epoch, overdub } => {
                self.state = State::Playing { length, epoch, overdub };
                if overdub {
                    let span: u64 = if length.nanos == 0 {
                        1
                    } else {
                        length.nanos
                    };
                    let offset = Duration { nanos: now.duration_since(epoch).nanos % span };
                    let event = LoopEvent { offset, bytes, len };
                    let mut events: Vec<LoopEvent> = Vec::new();
                    events.push(event);
                    assert(events@ =~= seq![event]);
                    Some(LooperCommand::Overdub(events))
                } else {
                    None
                }
            },
            other => {
                self.state = other;
                None
            },
        }
    }

    /// Whether the looper wants note events right now.
    pub fn captures_notes(&self) -> (r: bool)
        ensures
            r == capturing(self@),
    {
        match &self.state {
            State::Armed | State::Recording { .. } => true,
            State::Playing { overdub, .. } => *overdub,
            _ => false,
        }
    }
}

impl Default for LooperLogic {
    fn default() -> (logic: Self)
        ensures
            logic@ == LooperState::Empty,
    {
        Self::new()
    }
}

/// The number of loop slots, one per pad.
pub const SLOTS: usize = 8;

/// What a pad tap does to its slot.
pub open spec fn tapped(state: LooperUiState) -> LooperButton {
    match state {
        LooperUiState::Playing => LooperButton::Stop,
        LooperUiState::Stopped => LooperButton::Play,
        _ => LooperButton::Record,
    }
}

/// One button per slot: a tap records into an empty slot, closes a take,
/// ends an overdub or calls off an armed slot; it stops a playing slot and
/// plays a stopped one.
pub fn pad_action(state: LooperUiState) -> (button: LooperButton)
    ensures
        button == tapped(state),
{
    match state {
        LooperUiState::Playing => LooperButton::Stop,
        LooperUiState::Stopped => LooperButton::Play,
        _ => LooperButton::Record,
    }
}

// ---------------------------------------------------------------------
// Laws
// ---------------------------------------------------------------------

/// A state takes in notes exactly where it is shown as armed, recording or
/// overdubbing.
pub proof fn law_capturing_is_visible(state: LooperState)
    ensures
        capturing(state) <==> shown_state(state) == LooperUiState::Armed || shown_state(state)
            == LooperUiState::Recording || shown_state(state) == LooperUiState::Overdub,
{
}

/// A note changes nothing where the looper does not capture.
pub proof fn law_notes_pass_by_an_idle_loop(
    state: LooperState,
    bytes: [u8; 3],
    len: u8,
    now: Instant,
)
    requires
        !capturing(state),
    ensures
        noted(state, bytes, len, now) == (state, None::<CommandView>),
{
}

/// Whether playback plays after a command.
pub open spec fn plays_after(playing: bool, command: Option<CommandView>) -> bool {
    match command {
        Some(CommandView::Start { .. }) => true,
        Some(CommandView::Restart) => true,
        Some(CommandView::Stop) => false,
        Some(CommandView::Clear) => false,
        _ => playing,
    }
}

/// Playback that follows the commands plays exactly while the loop is in
/// its playing state, whatever buttons are pressed and notes are played.
pub proof fn law_playback_follows_the_state(
    state: LooperState,
    playing: bool,
    button: LooperButton,
    bytes: [u8; 3],
    len: u8,
    now: Instant,
)
    requires
        playing == (state is Playing),
    ensures
        plays_after(playing, pressed(state, button, now).command) == (pressed(
            state,
            button,
            now,
        ).state is Playing),
        plays_after(playing, noted(state, bytes, len, now).1) == (noted(
            state,
            bytes,
            len,
            now,
        ).0 is Playing),
{
}

/// The status line is given exactly when a press did something: changed the
/// state or sent a command. It is that of the new state, and names a take
/// exactly where Stop discarded one.
pub proof fn law_status_tells_every_change(state: LooperState, button: LooperButton, now: Instant)
    ensures
        ({
            let step = pressed(state, button, now);
            &&& step.status is Some <==> step.state != state || step.command is Some
            &&& step.status matches Some(text) ==> text == if button == LooperButton::Stop && (
            state is Armed || state is Recording) {
                "loop: take discarded; "@ + status_text(step.state, now)
            } else {
                status_text(step.state, now)
            }
        }),
{
}

/// Stop pressed twice empties a playing loop: first it stops, and the
/// second press clears.
pub proof fn law_stop_stops_and_clears(state: LooperState, first: Instant, second: Instant)
    requires
        state is Playing,
    ensures
        pressed(state, LooperButton::Stop, first).command == Some(CommandView::Stop),
        pressed(
            pressed(state, LooperButton::Stop, first).state,
            LooperButton::Stop,
            second,
        ).command == Some(CommandView::Clear),
        pressed(
            pressed(state, LooperButton::Stop, first).state,
            LooperButton::Stop,
            second,
        ).state == LooperState::Empty,
{
}

/// A stopped loop plays on with the same length.
pub proof fn law_stop_keeps_the_loop(state: LooperState, first: Instant, second: Instant)
    requires
        state is Playing,
    ensures
        ({
            let stopped = pressed(state, LooperButton::Stop, first).state;
            let again = pressed(stopped, LooperButton::Play, second);
            &&& again.command == Some(CommandView::Restart)
            &&& again.state matches LooperState::Playing { length, .. }
            &&& length == state->Playing_length
        }),
{
}

/// A take that is too short to be a phrase keeps recording, whichever
/// button would close it.
pub proof fn law_short_takes_keep_recording(state: LooperState, now: Instant)
    requires
        state matches LooperState::Recording { started, .. } && crate::time::nanos_between(
            started,
            now,
        ) < MIN_LOOP_NANOS,
    ensures
        pressed(state, LooperButton::Record, now) == idle(state),
        pressed(state, LooperButton::Loop, now) == idle(state),
{
}

/// One note of a take: its bytes and its time.
pub struct Played {
    pub bytes: [u8; 3],
    pub len: u8,
    pub at: Instant,
}

/// The state after a run of notes.
pub open spec fn played(state: LooperState, notes: Seq<Played>) -> LooperState
    decreases notes.len(),
{
    if notes.len() == 0 {
        state
    } else {
        let n = notes.last();
        noted(played(state, notes.drop_last()), n.bytes, n.len, n.at).0
    }
}

/// A take holds every note since it was armed, each at its distance from
/// the first one.
pub proof fn law_take_holds_every_note(notes: Seq<Played>)
    requires
        notes.len() > 0,
    ensures
        played(LooperState::Armed, notes) == (LooperState::Recording {
            started: notes[0].at,
            events: Seq::new(
                notes.len(),
                |i: int|
                    LoopEvent {
                        offset: Duration {
                            nanos: crate::time::nanos_between(notes[0].at, notes[i].at) as u64,
                        },
                        bytes: notes[i].bytes,
                        len: notes[i].len,
                    },
            ),
        }),
    decreases notes.len(),
{
    let events = Seq::new(
        notes.len(),
        |i: int|
            LoopEvent {
                offset: Duration {
                    nanos: crate::time::nanos_between(notes[0].at, notes[i].at) as u64,
                },
                bytes: notes[i].bytes,
                len: notes[i].len,
            },
    );
    if notes.len() == 1 {
        assert(notes.drop_last() =~= Seq::<Played>::empty());
        assert(played(LooperState::Armed, notes.drop_last()) == LooperState::Armed);
        assert(events =~= seq![
            LoopEvent {
                offset: Duration { nanos: 0 },
                bytes: notes[0].bytes,
                len: notes[0].len,
            },
        ]);
    } else {
        law_take_holds_every_note(notes.drop_last());
        let before = played(LooperState::Armed, notes.drop_last());
        let n = notes.last();
        assert(before->events.push(
            LoopEvent {
                offset: Duration {
                    nanos: crate::time::nanos_between(notes[0].at, n.at) as u64,
                },
                bytes: n.bytes,
                len: n.len,
            },
        ) =~= events);
    }
}

/// Where the clock does not run backwards, a closed take plays as long as
/// it took, and every note lies within the loop.
pub proof fn law_closed_take_lies_within_the_loop(notes: Seq<Played>, end: Instant)
    requires
        notes.len() > 0,
        forall|i: int| 0 <= i < notes.len() ==> (#[trigger] notes[i]).at.nanos <= end.nanos,
        crate::time::nanos_between(notes[0].at, end) >= MIN_LOOP_NANOS,
    ensures
        ({
            let step = pressed(played(LooperState::Armed, notes), LooperButton::Record, end);
            &&& step.command matches Some(CommandView::Start { events, length })
            &&& length.nanos == end.nanos - notes[0].at.nanos
            &&& events.len() == notes.len()
            &&& forall|i: int|
                0 <= i < events.len() ==> (#[trigger] events[i]).offset.nanos <= length.nanos
        }),
{
    law_take_holds_every_note(notes);
    let step = pressed(played(LooperState::Armed, notes), LooperButton::Record, end);
    let events = step.command->Some_0->Start_events;
    assert forall|i: int| 0 <= i < events.len() implies (#[trigger] events[i]).offset.nanos
        <= end.nanos - notes[0].at.nanos by {
        assert(notes[i].at.nanos <= end.nanos);
    }
}

/// An overdubbed note lies within the loop.
pub proof fn law_overdub_lies_within_the_loop(
    state: LooperState,
    bytes: [u8; 3],
    len: u8,
    now: Instant,
)
    requires
        state matches LooperState::Playing { length, overdub, .. } && overdub && length.nanos > 0,
    ensures
        noted(state, bytes, len, now).1 matches Some(CommandView::Overdub(events)) && events.len()
            == 1 && events[0].offset.nanos < state->Playing_length.nanos && events[0].bytes
            == bytes && events[0].len == len,
{
}

/// An overdubbed note lies exactly where the playhead is when it is played:
/// the one event that is sent lies within the loop, a whole number of passes
/// and its offset after the loop started, and holds the note as played.
pub proof fn law_overdub_lies_at_the_playhead(
    length: Duration,
    epoch: Instant,
    bytes: [u8; 3],
    len: u8,
    now: Instant,
    after: LooperState,
    command: Option<LooperCommand>,
) -> (pass: nat)
    requires
        length.nanos > 0,
        epoch.nanos <= now.nanos,
        (after, command_view(command)) == noted(
            LooperState::Playing { length, epoch, overdub: true },
            bytes,
            len,
            now,
        ),
    ensures
        after == (LooperState::Playing { length, epoch, overdub: true }),
        command matches Some(LooperCommand::Overdub(events)) && {
            &&& events@.len() == 1
            &&& events@[0].bytes == bytes && events@[0].len == len
            &&& events@[0].offset.nanos < length.nanos
            &&& now.nanos == epoch.nanos + pass * length.nanos + events@[0].offset.nanos
        },
{
    let elapsed = now.nanos - epoch.nanos;
    let span = length.nanos as int;
    vstd::arithmetic::div_mod::lemma_fundamental_div_mod(elapsed, span);
    vstd::arithmetic::div_mod::lemma_div_pos_is_pos(elapsed, span);
    assert(span * (elapsed / span) == (elapsed / span) * span) by (nonlinear_arith);
    (elapsed / span) as nat
}

/// A take starts at its first note and holds each note at its distance from
/// that one; notes outside a take or an overdub leave no trace.
pub proof fn law_notes_are_taken_as_played(
    state: LooperState,
    bytes: [u8; 3],
    len: u8,
    now: Instant,
)
    ensures
        ({
            let (after, command) = noted(state, bytes, len, now);
            &&& state is Armed ==> after == (LooperState::Recording {
                started: now,
                events: seq![LoopEvent { offset: Duration { nanos: 0 }, bytes, len }],
            })
            &&& state is Recording && state->started.nanos <= now.nanos ==> ({
                &&& after is Recording && after->started == state->started
                &&& after->events.len() == state->events.len() + 1
                &&& after->events.drop_last() == state->events
                &&& after->started.nanos + after->events.last().offset.nanos == now.nanos
                &&& after->events.last().bytes == bytes && after->events.last().len == len
            })
            &&& !(state is Armed || state is Recording) ==> after == state
            &&& command is Some <==> (state is Playing && state->overdub)
        }),
{
    if state is Recording {
        assert(noted(state, bytes, len, now).0->events.drop_last() =~= state->events);
    }
}

/// Record arms a loop that does not play, calls an armed one off, and turns
/// the overdub of a playing one on and off without disturbing it.
pub proof fn law_record_arms_and_overdubs(state: LooperState, now: Instant)
    ensures
        ({
            let step = pressed(state, LooperButton::Record, now);
            &&& state is Empty || state is Stopped ==> step.state is Armed
            &&& state is Armed ==> step.state is Empty
            &&& state matches LooperState::Playing { length, epoch, overdub } ==> step.state == (
            LooperState::Playing { length, epoch, overdub: !overdub })
            &&& !(state is Recording) ==> step.command is None
        }),
{
}

/// A take of at least 200 ms that holds a note becomes the loop when Record
/// or Loop closes it: it plays from that moment, as long as it took, with
/// exactly the notes of the take. Any other take goes on.
pub proof fn law_a_closed_take_plays_at_once(
    started: Instant,
    events: Seq<LoopEvent>,
    button: LooperButton,
    now: Instant,
)
    requires
        started.nanos <= now.nanos,
        button == LooperButton::Record || button == LooperButton::Loop,
    ensures
        ({
            let take = LooperState::Recording { started, events };
            let step = pressed(take, button, now);
            let length = Duration { nanos: (now.nanos - started.nanos) as u64 };
            if now.nanos - started.nanos >= 200_000_000 && events.len() > 0 {
                &&& step.state == (LooperState::Playing { length, epoch: now, overdub: false })
                &&& step.command == Some(CommandView::Start { events, length })
            } else {
                step.state == take && step.command is None && step.status is None
            }
        }),
{
}

/// Play, and Loop outside a take, start a loop that is there from the top,
/// without overdub; where there is none, they do nothing.
pub proof fn law_play_starts_from_the_top(state: LooperState, now: Instant)
    ensures
        ({
            let step = pressed(state, LooperButton::Play, now);
            &&& state matches LooperState::Playing { length, .. } ==> step.state == (
            LooperState::Playing { length, epoch: now, overdub: false })
            &&& state matches LooperState::Stopped { length } ==> step.state == (
            LooperState::Playing { length, epoch: now, overdub: false })
            &&& state is Playing || state is Stopped ==> step.command == Some(CommandView::Restart)
            &&& !(state is Playing || state is Stopped) ==> step.state == state
                && step.command is None && step.status is None
            &&& !(state is Recording) ==> pressed(state, LooperButton::Loop, now) == step
        }),
{
}

/// Stop throws a take away, stops a loop that plays, empties one that is
/// stopped, and leaves an empty one alone.
pub proof fn law_stop_ends_whatever_goes_on(state: LooperState, now: Instant)
    ensures
        ({
            let step = pressed(state, LooperButton::Stop, now);
            &&& state is Armed || state is Recording || state is Stopped ==> step.state is Empty
                && step.command == Some(CommandView::Clear)
            &&& state matches LooperState::Playing { length, .. } ==> step.state == (
            LooperState::Stopped { length }) && step.command == Some(CommandView::Stop)
            &&& state is Empty ==> step.state is Empty && step.command is None
                && step.status is None
        }),
{
}

/// Frontends see a state as what it is.
pub proof fn law_states_are_shown_as_they_are(state: LooperState)
    ensures
        shown_state(state) == LooperUiState::Empty <==> state is Empty,
        shown_state(state) == LooperUiState::Armed <==> state is Armed,
        shown_state(state) == LooperUiState::Recording <==> state is Recording,
        shown_state(state) == LooperUiState::Stopped <==> state is Stopped,
        shown_state(state) == LooperUiState::Overdub <==> (state is Playing && state->overdub),
        shown_state(state) == LooperUiState::Playing <==> (state is Playing && !state->overdub),
{
}

/// One pad is enough for a loop: a tap arms an empty slot and calls an armed
/// one off, ends an overdub, stops a playing slot and plays a stopped one,
/// and closes a take that can be closed.
pub proof fn law_a_tap_moves_its_slot_on(state: LooperState, now: Instant)
    ensures
        ({
            let step = pressed(state, tapped(shown_state(state)), now);
            &&& state is Empty ==> step.state is Armed
            &&& state is Armed ==> step.state is Empty
            &&& state is Stopped ==> step.state is Playing
            &&& state matches LooperState::Playing { length, epoch, overdub } ==> step.state
                == if overdub {
                LooperState::Playing { length, epoch, overdub: false }
            } else {
                LooperState::Stopped { length }
            }
            &&& state matches LooperState::Recording { started, events } ==> (step.state is Playing
                <==> crate::time::nanos_between(started, now) >= 200_000_000 && events.len() > 0)
        }),
{
}

/// The status line says what the loop does, and for how long.
pub proof fn law_status_says_what_the_loop_does(state: LooperState, now: Instant)
    ensures
        state is Empty ==> status_text(state, now) == "loop: empty"@,
        state is Armed ==> status_text(state, now) == "loop: armed (play a note)"@,
        state is Recording && state->started.nanos <= now.nanos ==> status_text(state, now)
            == "loop: REC "@ + seconds((now.nanos - state->started.nanos) as u64) + "s"@,
        state matches LooperState::Playing { length, overdub, .. } ==> status_text(state, now)
            == if overdub {
            "loop: OVERDUB "@ + seconds(length.nanos) + "s"@
        } else {
            "loop: playing "@ + seconds(length.nanos) + "s"@
        },
        state matches LooperState::Stopped { length } ==> status_text(state, now)
            == "loop: stopped "@ + seconds(length.nanos) + "s (Stop again clears)"@,
{
}

} // verus!
