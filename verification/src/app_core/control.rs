//! The control thread's decisions: what a message of the controller, a
//! message of the host thread, or the passing of time makes the core do.
//!
//! [`ControlCore`] holds the state and returns the actions; sending them is
//! the caller's part, and so is everything that computes with parameter
//! values of the caller's type `V`.

use vstd::prelude::*;

use crate::app_core::browser::{Browser, BrowserView};
use crate::app_core::looper::{
    pad_action, CommandView, LooperButton, LooperCommand, LooperLogic, LooperState, LooperUiState,
    SLOTS,
};
use crate::app_core::mapping::{
    Control, ControlsView, MacroControls, Move, ParamUpdate, Target, UpdateView,
};
use crate::app_core::messages::{CoreEvent, CoreEventView, FromControl, FromControlView, PadMode};
use crate::engine::events::RtMidi;
use crate::engine::params::{ParamChange, ParamDescription, ParamView};
use crate::midi::event::{
    ControlMap, ControlTable, DeviceEvent, DeviceView, MidiMessage, TimedMessage, TimedView,
    TransportControl,
};
use crate::midi::rate::{Coalescer, CoalescerView};
use crate::midi::sysex::{display_text, init, pad_color, ColorTarget};
use crate::text::{decimal_text, join3, same, strip_prefixes};
use crate::time::{Duration, Instant};

verus! {

/// What the control thread has to do next.
pub enum Action<V> {
    /// Send bytes to the controller.
    Send(Vec<u8>),
    /// Push a message into the MIDI ring buffer.
    Midi(RtMidi),
    /// Push a parameter change into its ring buffer.
    Param(ParamChange<V>),
    /// Tell the frontend.
    Event(CoreEvent<V>),
    /// Tell the frontend the labels and values of all bindings.
    ControlsRebound,
    /// Tell the host thread.
    Host(FromControl),
    /// Hand a command to the playback of a slot.
    Player(usize, LooperCommand),
}

/// What an [`Action`] says.
pub enum ActionView<V> {
    Send(Seq<u8>),
    Midi(RtMidi),
    Param(ParamChange<V>),
    Event(CoreEventView<V>),
    ControlsRebound,
    Host(FromControlView),
    Player(usize, CommandView),
}

impl<V> View for Action<V> {
    type V = ActionView<V>;

    open spec fn view(&self) -> ActionView<V> {
        match *self {
            Action::Send(bytes) => ActionView::Send(bytes@),
            Action::Midi(m) => ActionView::Midi(m),
            Action::Param(change) => ActionView::Param(change),
            Action::Event(event) => ActionView::Event(event@),
            Action::ControlsRebound => ActionView::ControlsRebound,
            Action::Host(message) => ActionView::Host(message@),
            Action::Player(slot, command) => ActionView::Player(slot, command@),
        }
    }
}

/// What a list of actions says.
pub open spec fn actions_view<V>(actions: Seq<Action<V>>) -> Seq<ActionView<V>> {
    actions.map_values(|a: Action<V>| a@)
}

fn add_action<V>(actions: &mut Vec<Action<V>>, action: Action<V>)
    ensures
        actions_view(final(actions)@) == actions_view(old(actions)@).push(action@),
{
    actions.push(action);
    assert(actions_view(actions@) =~= actions_view(old(actions)@).push(action@));
}

/// Two display lines.
pub type Lines = (Seq<char>, Seq<char>);

/// The state of a [`ControlCore`].
#[verifier::ext_equal]
pub struct ControlState<V> {
    pub table: ControlTable,
    pub controls: Option<ControlsView<V>>,
    pub browser: BrowserView,
    /// What the display shows at rest.
    pub title: Seq<char>,
    pub loops: Seq<LooperState>,
    /// The slot that the transport buttons drive.
    pub focused: usize,
    pub pad_mode: PadMode,
    /// Whether there is a controller to send to.
    pub connected: bool,
    /// The display updates that are held back.
    pub display: CoalescerView<Lines>,
    /// When the display goes back to the title.
    pub revert_at: Option<Instant>,
    /// What the frontends were last told of the looper by the clock.
    pub told_status: Seq<char>,
    pub told_states: [LooperUiState; SLOTS],
    pub last_refresh: Instant,
    pub last_hotplug_check: Instant,
}

/// The light of a pad for a slot's state.
pub open spec fn pad_light(state: LooperUiState) -> (u8, u8, u8) {
    match state {
        LooperUiState::Empty => (6, 28, 44),
        LooperUiState::Armed => (70, 12, 12),
        LooperUiState::Recording => (110, 6, 6),
        LooperUiState::Overdub => (110, 50, 6),
        LooperUiState::Playing => (10, 70, 22),
        LooperUiState::Stopped => (55, 40, 8),
    }
}

/// The first slot that takes in notes, from `from` on.
pub open spec fn first_capturing(loops: Seq<LooperState>, from: int) -> Option<int>
    decreases loops.len() - from,
{
    if from >= loops.len() {
        None
    } else if crate::app_core::looper::capturing(loops[from]) {
        Some(from)
    } else {
        first_capturing(loops, from + 1)
    }
}

/// The first slot other than `except` that records, from `from` on.
pub open spec fn first_recording(loops: Seq<LooperState>, except: int, from: int) -> Option<int>
    decreases loops.len() - from,
{
    if from >= loops.len() {
        None
    } else if from != except && loops[from] is Recording {
        Some(from)
    } else {
        first_recording(loops, except, from + 1)
    }
}

/// Whether a slot waits for notes of its own, or adds to its loop.
pub open spec fn is_waiting(state: LooperState) -> bool {
    crate::app_core::looper::shown_state(state) == LooperUiState::Armed
        || crate::app_core::looper::shown_state(state) == LooperUiState::Overdub
}

/// The slots with every armed or overdubbing one called off, but for
/// `except`.
pub open spec fn called_off(loops: Seq<LooperState>, except: int, now: Instant) -> Seq<
    LooperState,
> {
    Seq::new(
        loops.len(),
        |i: int|
            if i != except && is_waiting(loops[i]) {
                crate::app_core::looper::record_pressed(loops[i], now).state
            } else {
                loops[i]
            },
    )
}

/// The actions of a playback command: the command itself, and word to the
/// host thread where a slot closed its take or was cleared.
pub open spec fn command_actions<V>(slot: usize, command: Option<CommandView>) -> Seq<
    ActionView<V>,
> {
    match command {
        None => Seq::empty(),
        Some(c) => match c {
            CommandView::Start { .. } => seq![
                ActionView::Player(slot, c),
                ActionView::Host(FromControlView::SlotReady { slot }),
            ],
            CommandView::Clear => seq![
                ActionView::Player(slot, c),
                ActionView::Host(FromControlView::SlotCleared { slot }),
            ],
            _ => seq![ActionView::Player(slot, c)],
        },
    }
}

/// The transport button of a pad function, if it is one.
pub open spec fn transport_button(control: TransportControl) -> Option<LooperButton> {
    match control {
        TransportControl::Record => Some(LooperButton::Record),
        TransportControl::Loop => Some(LooperButton::Loop),
        TransportControl::Play => Some(LooperButton::Play),
        TransportControl::Stop => Some(LooperButton::Stop),
        TransportControl::Tap => None,
    }
}

/// Whether an event is one that the engine plays.
pub open spec fn is_playable(event: DeviceView) -> bool {
    match event {
        DeviceView::NoteOn { .. } => true,
        DeviceView::NoteOff { .. } => true,
        DeviceView::PitchBend { .. } => true,
        DeviceView::ModStrip { .. } => true,
        _ => is_pad(event),
    }
}

/// Whether an event comes from a pad.
pub open spec fn is_pad(event: DeviceView) -> bool {
    match event {
        DeviceView::PadDown { .. } => true,
        DeviceView::PadUp { .. } => true,
        DeviceView::PadPressure { .. } => true,
        _ => false,
    }
}

/// Whether an event is a note, on the keys or the pads.
pub open spec fn is_note(event: DeviceView) -> bool {
    match event {
        DeviceView::NoteOn { .. } => true,
        DeviceView::NoteOff { .. } => true,
        DeviceView::PadDown { .. } => true,
        DeviceView::PadUp { .. } => true,
        _ => false,
    }
}

/// What the frontend is told of an event: pads for their animation.
pub open spec fn pad_actions<V>(event: DeviceView) -> Seq<ActionView<V>> {
    match event {
        DeviceView::PadDown { index, .. } => seq![
            ActionView::Event(CoreEventView::Pad { index, down: true }),
        ],
        DeviceView::PadUp { index } => seq![
            ActionView::Event(CoreEventView::Pad { index, down: false }),
        ],
        _ => Seq::empty(),
    }
}

/// A point `millis` after `now`.
pub open spec fn later(now: Instant, millis: int) -> Instant {
    crate::time::instant_after(now, Duration { nanos: (millis * 1_000_000) as u64 })
}

/// At most one slot takes in notes: one that is armed, records or overdubs.
pub open spec fn exclusive_capture(loops: Seq<LooperState>) -> bool {
    forall|i: int, j: int|
        0 <= i < loops.len() && 0 <= j < loops.len() && crate::app_core::looper::capturing(
            #[trigger] loops[i],
        ) && crate::app_core::looper::capturing(#[trigger] loops[j]) ==> i == j
}

impl<V> ControlState<V> {
    /// Everything it holds is in order, and at most one slot captures.
    pub open spec fn valid(self) -> bool {
        self.in_order() && exclusive_capture(self.loops)
    }

    /// One loop for each slot, and everything it holds in order.
    pub open spec fn in_order(self) -> bool {
        &&& self.loops.len() == SLOTS
        &&& self.focused < SLOTS
        &&& self.browser.valid()
        &&& self.controls matches Some(c) ==> c.valid()
    }

    /// Showing two lines on the device, if there is one.
    pub open spec fn show(self, line1: Seq<char>, line2: Seq<char>) -> Seq<ActionView<V>> {
        if self.connected {
            seq![
                ActionView::Send(
                    crate::midi::sysex::framed(crate::midi::sysex::display_payload(line1, line2)),
                ),
            ]
        } else {
            Seq::empty()
        }
    }

    /// The state of each slot, as shown.
    pub open spec fn slot_states(self) -> [LooperUiState; SLOTS] {
        [
            crate::app_core::looper::shown_state(self.loops[0]),
            crate::app_core::looper::shown_state(self.loops[1]),
            crate::app_core::looper::shown_state(self.loops[2]),
            crate::app_core::looper::shown_state(self.loops[3]),
            crate::app_core::looper::shown_state(self.loops[4]),
            crate::app_core::looper::shown_state(self.loops[5]),
            crate::app_core::looper::shown_state(self.loops[6]),
            crate::app_core::looper::shown_state(self.loops[7]),
        ]
    }

    /// The status line of the focused slot.
    pub open spec fn slot_status(self, now: Instant) -> Seq<char> {
        "loop "@ + crate::text::decimal(self.focused as nat + 1) + " "@
            + crate::text::without_prefixes(
            crate::app_core::looper::status_text(self.loops[self.focused as int], now),
            "loop: "@,
        )
    }

    /// The light of one pad: its slot's state in Loops mode, the focused
    /// slot's in Notes mode.
    pub open spec fn light(self, pad: int) -> (u8, u8, u8) {
        pad_light(
            crate::app_core::looper::shown_state(
                match self.pad_mode {
                    PadMode::Loops => self.loops[pad],
                    PadMode::Notes => self.loops[self.focused as int],
                },
            ),
        )
    }

    /// Lighting the pads, if there is a device.
    pub open spec fn paint(self) -> Seq<ActionView<V>> {
        if self.connected {
            Seq::new(
                SLOTS as nat,
                |pad: int|
                    ActionView::Send(
                        crate::midi::sysex::framed(
                            crate::midi::sysex::color_payload(
                                ColorTarget::PadTemporary(pad as u8),
                                self.light(pad).0,
                                self.light(pad).1,
                                self.light(pad).2,
                            ),
                        ),
                    ),
            )
        } else {
            Seq::empty()
        }
    }

    /// Telling everyone about the looper.
    pub open spec fn tell_looper(self, status: Seq<char>) -> Seq<ActionView<V>> {
        seq![
            ActionView::Event(
                CoreEventView::Looper {
                    pad_mode: self.pad_mode,
                    focused: self.focused,
                    slots: self.slot_states(),
                    status,
                },
            ),
        ] + self.show("Loop"@, crate::text::without_prefixes(status, "loop "@)) + self.paint()
    }

    /// A button for one slot. Taking in notes while another slot records is
    /// refused.
    pub open spec fn slot_pressed(self, slot: usize, button: LooperButton, now: Instant) -> (
        ControlState<V>,
        Seq<ActionView<V>>,
    ) {
        let focused = ControlState { focused: slot, ..self };
        let before = self.loops[slot as int];
        let busy = first_recording(self.loops, slot as int, 0);
        if button == LooperButton::Record && !crate::app_core::looper::capturing(before)
            && busy is Some {
            (
                focused,
                focused.tell_looper(
                    "loop "@ + crate::text::decimal((busy->0 + 1) as nat) + " still recording"@,
                ),
            )
        } else {
            let step = crate::app_core::looper::pressed(before, button, now);
            let loops = self.loops.update(slot as int, step.state);
            let next = ControlState {
                loops: if is_waiting(step.state) {
                    called_off(loops, slot as int, now)
                } else {
                    loops
                },
                ..focused
            };
            (
                next,
                command_actions(slot, step.command) + if step.status is Some {
                    next.tell_looper(next.slot_status(now))
                } else {
                    Seq::empty()
                },
            )
        }
    }

    /// A tap on a pad in Loops mode, or in the GUI.
    pub open spec fn slot_tapped(self, slot: int, now: Instant) -> (
        ControlState<V>,
        Seq<ActionView<V>>,
    ) {
        if 0 <= slot < SLOTS {
            self.slot_pressed(
                slot as usize,
                crate::app_core::looper::tapped(
                    crate::app_core::looper::shown_state(self.loops[slot]),
                ),
                now,
            )
        } else {
            (self, Seq::empty())
        }
    }

    /// Switching what the pads do.
    pub open spec fn pads_switched(self, mode: PadMode) -> (ControlState<V>, Seq<ActionView<V>>) {
        if self.pad_mode != mode {
            let next = ControlState { pad_mode: mode, ..self };
            (
                next,
                next.tell_looper(
                    match mode {
                        PadMode::Loops => "pads: loop slots"@,
                        PadMode::Notes => "pads: notes"@,
                    },
                ),
            )
        } else {
            (self, Seq::empty())
        }
    }

    /// Offering two lines to the display, at its rate.
    pub open spec fn offered(self, line1: Seq<char>, line2: Seq<char>, now: Instant) -> (
        ControlState<V>,
        Seq<ActionView<V>>,
    ) {
        let (display, out) = self.display.offered((line1, line2), now);
        (
            ControlState { display, ..self },
            match out {
                Some((l1, l2)) => self.show(l1, l2),
                None => Seq::empty(),
            },
        )
    }

    /// A playable event: in Loops mode pads trigger slots, everything else
    /// goes to the engine, and notes to the slot that captures them.
    pub open spec fn played(self, message: TimedView, event: DeviceView, now: Instant) -> (
        ControlState<V>,
        Seq<ActionView<V>>,
    ) {
        if is_pad(event) && self.pad_mode == PadMode::Loops {
            let (next, actions) = match event {
                DeviceView::PadDown { index, .. } => self.slot_tapped(index as int, now),
                _ => (self, Seq::empty()),
            };
            (next, actions + pad_actions(event))
        } else if crate::engine::events::is_short(message.bytes) {
            let rt = crate::engine::events::packed(message.timestamp_us, message.bytes);
            let (next, captured) = if is_note(event) {
                self.captured(rt, now)
            } else {
                (self, Seq::empty())
            };
            (next, captured + seq![ActionView::Midi(rt)] + pad_actions(event))
        } else {
            (self, pad_actions(event))
        }
    }

    /// A note, handed to the first slot that captures.
    pub open spec fn captured(self, rt: RtMidi, now: Instant) -> (
        ControlState<V>,
        Seq<ActionView<V>>,
    ) {
        match first_capturing(self.loops, 0) {
            None => (self, Seq::empty()),
            Some(i) => {
                let (state, command) = crate::app_core::looper::noted(
                    self.loops[i],
                    rt.bytes,
                    rt.len,
                    now,
                );
                (
                    ControlState { loops: self.loops.update(i, state), ..self },
                    match command {
                        Some(c) => seq![ActionView::Player(i as usize, c)],
                        None => Seq::empty(),
                    },
                )
            },
        }
    }

    /// A parameter update: to the engine, the frontend and the display.
    pub open spec fn told_update(self, update: Option<UpdateView<V>>, now: Instant) -> (
        ControlState<V>,
        Seq<ActionView<V>>,
    ) {
        match update {
            None => (self, Seq::empty()),
            Some(u) => {
                let (next, shown) = self.offered(u.label, u.display_value, now);
                (
                    ControlState { revert_at: Some(later(now, 1200)), ..next },
                    seq![
                        ActionView::Param(u.change),
                        ActionView::Event(
                            CoreEventView::ControlChanged {
                                control: u.control,
                                normalized: u.normalized,
                            },
                        ),
                    ] + shown,
                )
            },
        }
    }

    /// A turn of an encoder or a move of a fader.
    pub open spec fn control_moved(self, event: DeviceView, m: Option<Move<V>>, now: Instant) -> (
        ControlState<V>,
        Seq<ActionView<V>>,
    ) {
        match (self.controls, m) {
            (Some(controls), Some(m)) => {
                let (next, update) = controls.handled(event, m);
                ControlState { controls: Some(next), ..self }.told_update(update, now)
            },
            _ => (self, Seq::empty()),
        }
    }

    /// A turn of the main encoder.
    pub open spec fn turned(self, delta: i8, now: Instant) -> (
        ControlState<V>,
        Seq<ActionView<V>>,
    ) {
        let browser = self.browser.scrolled(delta);
        let state = ControlState { browser, ..self };
        if delta != 0 && browser.current() is Some {
            let item = browser.current()->0;
            let (next, shown) = state.offered(
                item.name,
                browser.category_name() + " "@ + crate::text::decimal((browser.cursor + 1) as nat)
                    + "/"@ + crate::text::decimal(browser.filtered().len()),
                now,
            );
            (
                ControlState { revert_at: Some(later(now, 3000)), ..next },
                seq![ActionView::Event(CoreEventView::BrowserSelected { id: item.id })] + shown,
            )
        } else {
            (state, Seq::empty())
        }
    }

    /// A turn of the main encoder with Shift held.
    pub open spec fn shift_turned(self, delta: i8, now: Instant) -> (
        ControlState<V>,
        Seq<ActionView<V>>,
    ) {
        if delta == 0 {
            (self, Seq::empty())
        } else {
            let browser = self.browser.cycled(delta);
            let (name, told) = match browser.current() {
                Some(item) => (
                    item.name,
                    seq![ActionView::Event(CoreEventView::BrowserSelected { id: item.id })],
                ),
                None => (""@, Seq::empty()),
            };
            let (next, shown) = ControlState { browser, ..self }.offered(
                "["@ + browser.category_name() + "]"@,
                name,
                now,
            );
            (ControlState { revert_at: Some(later(now, 3000)), ..next }, told + shown)
        }
    }

    /// A press of the main encoder.
    pub open spec fn clicked(self) -> (ControlState<V>, Seq<ActionView<V>>) {
        match self.browser.current() {
            None => (self, Seq::empty()),
            Some(item) => (
                ControlState { revert_at: None, ..self },
                seq![
                    ActionView::Host(
                        FromControlView::LoadPreset {
                            id: item.id,
                            name: item.name,
                            path: item.path,
                            load_key: item.load_key,
                        },
                    ),
                ] + self.show("Loading..."@, item.name),
            ),
        }
    }

    /// A transport pad pressed: a looper button, or Tap, which flips what
    /// the pads do.
    pub open spec fn transport_pressed(self, control: TransportControl, now: Instant) -> (
        ControlState<V>,
        Seq<ActionView<V>>,
    ) {
        match transport_button(control) {
            Some(button) => self.slot_pressed(self.focused, button, now),
            None => self.pads_switched(
                match self.pad_mode {
                    PadMode::Notes => PadMode::Loops,
                    PadMode::Loops => PadMode::Notes,
                },
            ),
        }
    }

    /// An event of the controller.
    pub open spec fn on_event(
        self,
        message: TimedView,
        event: DeviceView,
        m: Option<Move<V>>,
        now: Instant,
    ) -> (ControlState<V>, Seq<ActionView<V>>) {
        if is_playable(event) {
            self.played(message, event, now)
        } else {
            match event {
                DeviceView::Encoder { .. } => self.control_moved(event, m, now),
                DeviceView::Fader { .. } => self.control_moved(event, m, now),
                DeviceView::MainEncoderTurn { delta } => self.turned(delta, now),
                DeviceView::MainEncoderShiftTurn { delta } => self.shift_turned(delta, now),
                DeviceView::MainEncoderClick { pressed } => if pressed {
                    self.clicked()
                } else {
                    (self, Seq::empty())
                },
                DeviceView::Transport { control, pressed } => if pressed {
                    self.transport_pressed(control, now)
                } else {
                    (self, Seq::empty())
                },
                _ => (self, Seq::empty()),
            }
        }
    }

    /// A message of the controller.
    pub open spec fn on_message(self, message: TimedView, m: Option<Move<V>>, now: Instant) -> (
        ControlState<V>,
        Seq<ActionView<V>>,
    ) {
        self.on_event(
            message,
            crate::midi::event::mapped(
                self.table,
                crate::midi::event::decoded(message.bytes),
            ),
            m,
            now,
        )
    }

    /// A preset was loaded: its parameters, and its name as the title.
    pub open spec fn preset_loaded(self, name: Seq<char>, params: Seq<ParamView<V>>) -> (
        ControlState<V>,
        Seq<ActionView<V>>,
    ) {
        let (controls, told): (Option<ControlsView<V>>, Seq<ActionView<V>>) = match self.controls {
            Some(c) => (Some(c.reset(params)), seq![ActionView::ControlsRebound]),
            None => (None, Seq::empty()),
        };
        (
            ControlState { controls, title: name, revert_at: None, ..self },
            told + self.show(name, ""@),
        )
    }

    /// A preset could not be loaded.
    pub open spec fn preset_failed(self, name: Seq<char>, now: Instant) -> (
        ControlState<V>,
        Seq<ActionView<V>>,
    ) {
        (
            ControlState { revert_at: Some(later(now, 2000)), ..self },
            self.show("Load failed"@, name),
        )
    }

    /// A control was moved on screen.
    pub open spec fn screen_moved(
        self,
        control: Control,
        normalized: V,
        value: V,
        display: Seq<char>,
        now: Instant,
    ) -> (ControlState<V>, Seq<ActionView<V>>) {
        match self.controls {
            None => (self, Seq::empty()),
            Some(controls) => {
                let (next, update) = controls.set(control, normalized, value, display);
                ControlState { controls: Some(next), ..self }.told_update(update, now)
            },
        }
    }

    /// A display update that was held back, if its time has come.
    pub open spec fn display_polled(self, now: Instant) -> (ControlState<V>, Seq<ActionView<V>>) {
        let (display, out) = self.display.polled(now);
        (
            ControlState { display, ..self },
            match out {
                Some((l1, l2)) => self.show(l1, l2),
                None => Seq::empty(),
            },
        )
    }

    /// Going back to the title, if its time has come.
    pub open spec fn reverted(self, now: Instant) -> (ControlState<V>, Seq<ActionView<V>>) {
        if self.revert_at matches Some(t) && now.nanos >= t.nanos {
            (ControlState { revert_at: None, ..self }, self.show(self.title, ""@))
        } else {
            (self, Seq::empty())
        }
    }

    /// Keeping the frontends in step with the looper, twice a second and
    /// only where something changed.
    pub open spec fn looper_refreshed(self, now: Instant) -> (ControlState<V>, Seq<ActionView<V>>) {
        if crate::time::nanos_between(self.last_refresh, now) >= 500_000_000 {
            let state = ControlState { last_refresh: now, ..self };
            let status = self.slot_status(now);
            if status != self.told_status || self.slot_states() != self.told_states {
                let next = ControlState {
                    told_status: status,
                    told_states: self.slot_states(),
                    ..state
                };
                (next, next.tell_looper(status))
            } else {
                (state, Seq::empty())
            }
        } else {
            (self, Seq::empty())
        }
    }

    /// The passing of time.
    pub open spec fn ticked(self, now: Instant) -> (ControlState<V>, Seq<ActionView<V>>) {
        let (polled, a) = self.display_polled(now);
        let (reverted, b) = polled.reverted(now);
        let (refreshed, c) = reverted.looper_refreshed(now);
        (refreshed, a + b + c)
    }

    /// Greeting a device: handshake, pad lights, title.
    pub open spec fn greeting(self) -> Seq<ActionView<V>> {
        (if self.connected {
            seq![
                ActionView::Send(
                    crate::midi::sysex::framed(crate::midi::sysex::init_payload()),
                ),
            ]
        } else {
            Seq::empty()
        }) + self.paint() + self.show(self.title, ""@)
    }

    /// The device was connected or lost.
    pub open spec fn device_changed(self, connected: bool) -> (
        ControlState<V>,
        Seq<ActionView<V>>,
    ) {
        let next = ControlState { connected, ..self };
        (
            next,
            seq![ActionView::Event(CoreEventView::DeviceConnected(connected))] + if connected {
                next.greeting()
            } else {
                Seq::empty()
            },
        )
    }

    /// What came of a hotplug plan.
    pub open spec fn hotplugged(self, plan: Hotplug, opened: bool) -> (
        ControlState<V>,
        Seq<ActionView<V>>,
    ) {
        match plan {
            Hotplug::Keep => (self, Seq::empty()),
            Hotplug::Drop => self.device_changed(false),
            Hotplug::Reopen => self.device_changed(opened),
            Hotplug::Open => if opened {
                self.device_changed(true)
            } else {
                (self, Seq::empty())
            },
        }
    }
}

/// What hotplug maintenance has to do.
#[derive(Debug, Clone, Copy, PartialEq, Eq, Structural)]
pub enum Hotplug {
    /// Healthy, or absent and still absent.
    Keep,
    /// The port is gone: drop the connection.
    Drop,
    /// The port is back under a new id: drop the stale connection and open
    /// it again.
    Reopen,
    /// A port appeared: open it.
    Open,
}

/// The plan for a connection to the port `connected`, where the system now
/// shows the port `current`.
pub open spec fn hotplug_plan(
    connected: Option<Seq<char>>,
    current: Option<Seq<char>>,
) -> Hotplug {
    match (connected, current) {
        (Some(a), Some(b)) => if a == b {
            Hotplug::Keep
        } else {
            Hotplug::Reopen
        },
        (Some(_), None) => Hotplug::Drop,
        (None, Some(_)) => Hotplug::Open,
        (None, None) => Hotplug::Keep,
    }
}

/// Hotplug maintenance for hardware devices. Detects disappearance AND
/// silent re-enumeration (same name, new port id).
pub fn plan_hotplug(connected: &Option<String>, current: &Option<String>) -> (plan: Hotplug)
    ensures
        plan == hotplug_plan(
            crate::text::opt_text(*connected),
            crate::text::opt_text(*current),
        ),
{
    match (connected, current) {
        (Some(a), Some(b)) => if same(a.as_str(), b.as_str()) {
            Hotplug::Keep
        } else {
            Hotplug::Reopen
        },
        (Some(_), None) => Hotplug::Drop,
        (None, Some(_)) => Hotplug::Open,
        (None, None) => Hotplug::Keep,
    }
}

/// State owned by the device control thread.
pub struct ControlCore<V> {
    map: ControlMap,
    controls: Option<MacroControls<V>>,
    browser: Browser,
    title: String,
    loops: Vec<LooperLogic>,
    focused: usize,
    pad_mode: PadMode,
    connected: bool,
    display: Coalescer<(String, String)>,
    revert_at: Option<Instant>,
    told_status: String,
    told_states: [LooperUiState; SLOTS],
    last_refresh: Instant,
    last_hotplug_check: Instant,
}

spec fn loops_view(loops: Seq<LooperLogic>) -> Seq<LooperState> {
    loops.map_values(|l: LooperLogic| l@)
}

spec fn lines_view(lines: Option<(String, String)>) -> Option<Lines> {
    match lines {
        Some((a, b)) => Some((a@, b@)),
        None => None,
    }
}

spec fn display_view(display: CoalescerView<(String, String)>) -> CoalescerView<Lines> {
    CoalescerView {
        min_interval: display.min_interval,
        last_release: display.last_release,
        pending: lines_view(display.pending),
    }
}

spec fn controls_view<V>(controls: Option<MacroControls<V>>) -> Option<ControlsView<V>> {
    match controls {
        Some(c) => Some(c@),
        None => None,
    }
}

impl<V> View for ControlCore<V> {
    type V = ControlState<V>;

    closed spec fn view(&self) -> ControlState<V> {
        ControlState {
            table: self.map@,
            controls: controls_view(self.controls),
            browser: self.browser@,
            title: self.title@,
            loops: loops_view(self.loops@),
            focused: self.focused,
            pad_mode: self.pad_mode,
            connected: self.connected,
            display: display_view(self.display@),
            revert_at: self.revert_at,
            told_status: self.told_status@,
            told_states: self.told_states,
            last_refresh: self.last_refresh,
            last_hotplug_check: self.last_hotplug_check,
        }
    }
}

fn same_states(a: &[LooperUiState; SLOTS], b: &[LooperUiState; SLOTS]) -> (r: bool)
    ensures
        r == (*a == *b),
{
    let mut i: usize = 0;
    while i < SLOTS
        invariant
            i <= SLOTS,
            forall|j: int| 0 <= j < i ==> #[trigger] a[j] == b[j],
        decreases SLOTS - i,
    {
        if a[i] != b[i] {
            return false;
        }
        i += 1;
    }
    assert(*a =~= *b);
    true
}

fn light_of(state: LooperUiState) -> (rgb: (u8, u8, u8))
    ensures
        rgb == pad_light(state),
{
    match state {
        LooperUiState::Empty => (6, 28, 44),
        LooperUiState::Armed => (70, 12, 12),
        LooperUiState::Recording => (110, 6, 6),
        LooperUiState::Overdub => (110, 50, 6),
        LooperUiState::Playing => (10, 70, 22),
        LooperUiState::Stopped => (55, 40, 8),
    }
}

fn button_of(control: TransportControl) -> (button: Option<LooperButton>)
    ensures
        button == transport_button(control),
{
    match control {
        TransportControl::Record => Some(LooperButton::Record),
        TransportControl::Loop => Some(LooperButton::Loop),
        TransportControl::Play => Some(LooperButton::Play),
        TransportControl::Stop => Some(LooperButton::Stop),
        TransportControl::Tap => None,
    }
}

proof fn lemma_first_capturing(loops: Seq<LooperState>, from: int)
    requires
        0 <= from,
    ensures
        match first_capturing(loops, from) {
            Some(i) => from <= i < loops.len() && crate::app_core::looper::capturing(loops[i])
                && forall|j: int|
                from <= j < i ==> !crate::app_core::looper::capturing(#[trigger] loops[j]),
            None => forall|j: int|
                from <= j < loops.len() ==> !crate::app_core::looper::capturing(
                    #[trigger] loops[j],
                ),
        },
    decreases loops.len() - from,
{
    if from < loops.len() && !crate::app_core::looper::capturing(loops[from]) {
        lemma_first_capturing(loops, from + 1);
    }
}

proof fn lemma_first_recording(loops: Seq<LooperState>, except: int, from: int)
    requires
        0 <= from,
    ensures
        match first_recording(loops, except, from) {
            Some(i) => from <= i < loops.len() && i != except && loops[i] is Recording,
            None => forall|j: int|
                from <= j < loops.len() && j != except ==> !((#[trigger] loops[j]) is Recording),
        },
    decreases loops.len() - from,
{
    if from < loops.len() && !(from != except && loops[from] is Recording) {
        lemma_first_recording(loops, except, from + 1);
    }
}

/// A core in order has a valid state.
pub proof fn lemma_well_formed<V: Copy>(core: ControlCore<V>)
    requires
        core.well_formed(),
    ensures
        core@.valid(),
{
}

impl<V: Copy> ControlCore<V> {
    /// The core's parts are in order.
    pub closed spec fn well_formed(&self) -> bool {
        &&& self@.valid()
        &&& self.browser.well_formed()
    }

    /// A control thread with all slots empty and the pads playing notes.
    pub fn new(
        map: ControlMap,
        controls: Option<MacroControls<V>>,
        browser: Browser,
        title: String,
        connected: bool,
        now: Instant,
    ) -> (core: Self)
        requires
            browser.well_formed(),
            controls matches Some(c) ==> c@.valid(),
        ensures
            core.well_formed(),
            core@.valid(),
            core@.table == map@,
            core@.controls == match controls {
                Some(c) => Some(c@),
                None => None,
            },
            core@.browser == browser@,
            core@.title == title@,
            core@.loops == Seq::new(SLOTS as nat, |i: int| LooperState::Empty),
            core@.focused == 0,
            core@.pad_mode == PadMode::Notes,
            core@.connected == connected,
            core@.display == (CoalescerView {
                min_interval: Duration { nanos: 33_000_000 },
                last_release: None,
                pending: None::<Lines>,
            }),
            core@.revert_at is None,
            core@.told_status == core@.slot_status(now),
            core@.told_states == core@.slot_states(),
            core@.last_refresh == now,
            core@.last_hotplug_check == now,
    {
        proof {
            crate::app_core::browser::lemma_well_formed(browser);
        }
        let mut loops: Vec<LooperLogic> = Vec::new();
        let mut i: usize = 0;
        while i < SLOTS
            invariant
                i <= SLOTS,
                loops@.len() == i,
                forall|j: int| 0 <= j < i ==> (#[trigger] loops@[j])@ == LooperState::Empty,
            decreases SLOTS - i,
        {
            loops.push(LooperLogic::new());
            i += 1;
        }
        let mut core = ControlCore {
            map,
            controls,
            browser,
            title,
            loops,
            focused: 0,
            pad_mode: PadMode::Notes,
            connected,
            display: Coalescer::new(Duration { nanos: 33_000_000 }),
            revert_at: None,
            told_status: String::new(),
            told_states: [LooperUiState::Empty; 8],
            last_refresh: now,
            last_hotplug_check: now,
        };
        assert(core@.loops =~= Seq::new(SLOTS as nat, |i: int| LooperState::Empty));
        core.told_status = core.slot_status(now);
        core.told_states = core.slot_states();
        core
    }

    /// The bindings, for the frontend.
    pub fn controls(&self) -> (controls: &Option<MacroControls<V>>)
        ensures
            self@.controls == match *controls {
                Some(c) => Some(c@),
                None => None,
            },
    {
        &self.controls
    }

    /// What the caller needs to work out the move that a message asks for:
    /// `None` where it moves no bound control.
    pub fn target(&self, message: &TimedMessage) -> (target: Option<Target<V>>)
        requires
            self.well_formed(),
        ensures
            target is Some <==> (self@.controls matches Some(c)
                && crate::app_core::mapping::moved_control(
                crate::midi::event::mapped(
                    self@.table,
                    crate::midi::event::decoded(message.bytes@),
                ),
            ) matches Some((control, _)) && crate::app_core::mapping::binding_index(
                c.bindings,
                control,
            ) is Some),
            target matches Some(t) ==> {
                let c = self@.controls->0;
                &&& crate::app_core::mapping::moved_control(
                    crate::midi::event::mapped(
                        self@.table,
                        crate::midi::event::decoded(message.bytes@),
                    ),
                ) == Some((t.control, t.cc))
                &&& crate::app_core::mapping::binding_index(c.bindings, t.control) matches Some(i)
                &&& t.lo == c.bindings[i].lo
                &&& t.hi == c.bindings[i].hi
                &&& t.current == c.values[c.bindings[i].param_id]
                &&& t.last_cc == c.takeover[i].last_cc
            },
    {
        match &self.controls {
            Some(controls) => controls.target(
                &self.map.map(MidiMessage::decode(message.bytes.as_slice())),
            ),
            None => None,
        }
    }

    fn show(&self, line1: &str, line2: &str, actions: &mut Vec<Action<V>>)
        ensures
            actions_view(final(actions)@) == actions_view(old(actions)@) + self@.show(
                line1@,
                line2@,
            ),
    {
        if self.connected {
            add_action(actions, Action::Send(display_text(line1, line2)));
        }
        assert(actions_view(actions@) =~= actions_view(old(actions)@) + self@.show(line1@, line2@));
    }

    fn slot_states(&self) -> (states: [LooperUiState; SLOTS])
        requires
            self.loops@.len() == SLOTS,
        ensures
            states == self@.slot_states(),
    {
        let states = [
            self.loops[0].ui_state(),
            self.loops[1].ui_state(),
            self.loops[2].ui_state(),
            self.loops[3].ui_state(),
            self.loops[4].ui_state(),
            self.loops[5].ui_state(),
            self.loops[6].ui_state(),
            self.loops[7].ui_state(),
        ];
        assert(states =~= self@.slot_states());
        states
    }

    fn slot_status(&self, now: Instant) -> (text: String)
        requires
            self.loops@.len() == SLOTS,
            self.focused < SLOTS,
        ensures
            text@ == self@.slot_status(now),
    {
        let mut text = join3("loop ", decimal_text(self.focused as u64 + 1).as_str(), " ");
        let status = self.loops[self.focused].status(now);
        text.append(strip_prefixes(status.as_str(), "loop: ").as_str());
        assert(self@.loops[self.focused as int] == self.loops@[self.focused as int]@);
        text
    }

    fn paint_pads(&self, actions: &mut Vec<Action<V>>)
        requires
            self.well_formed(),
        ensures
            actions_view(final(actions)@) == actions_view(old(actions)@) + self@.paint(),
    {
        if self.connected {
            let mut pad: usize = 0;
            assert(actions_view(actions@) =~= actions_view(old(actions)@) + self@.paint().take(0));
            while pad < SLOTS
                invariant
                    pad <= SLOTS,
                    self.well_formed(),
                    self.connected,
                    actions_view(actions@) == actions_view(old(actions)@) + self@.paint().take(
                        pad as int,
                    ),
                decreases SLOTS - pad,
            {
                let slot: usize = match self.pad_mode {
                    PadMode::Loops => pad,
                    PadMode::Notes => self.focused,
                };
                assert(self@.loops[slot as int] == self.loops@[slot as int]@);
                let (r, g, b) = light_of(self.loops[slot].ui_state());
                let ghost before = actions_view(actions@);
                add_action(
                    actions,
                    Action::Send(pad_color(ColorTarget::PadTemporary(pad as u8), r, g, b)),
                );
                proof {
                    let paint = self@.paint();
                    assert(paint.take(pad + 1) =~= paint.take(pad as int).push(paint[pad as int]));
                    assert(actions_view(actions@) =~= actions_view(old(actions)@) + paint.take(
                        pad + 1,
                    ));
                }
                pad += 1;
            }
            assert(self@.paint().take(pad as int) =~= self@.paint());
        } else {
            assert(actions_view(actions@) =~= actions_view(old(actions)@) + self@.paint());
        }
    }

    fn emit_looper(&self, status: String, actions: &mut Vec<Action<V>>)
        requires
            self.well_formed(),
        ensures
            actions_view(final(actions)@) == actions_view(old(actions)@) + self@.tell_looper(
                status@,
            ),
    {
        let line2 = strip_prefixes(status.as_str(), "loop ");
        let ghost text = status@;
        add_action(
            actions,
            Action::Event(
                CoreEvent::Looper {
                    pad_mode: self.pad_mode,
                    focused: self.focused,
                    slots: self.slot_states(),
                    status,
                },
            ),
        );
        self.show("Loop", line2.as_str(), actions);
        self.paint_pads(actions);
        assert(actions_view(actions@) =~= actions_view(old(actions)@) + self@.tell_looper(text));
    }

    /// At most one slot may capture notes; cancel arming/overdub elsewhere.
    /// A slot mid-recording keeps recording; new arms and overdubs are
    /// refused in `press_slot` instead.
    fn ensure_exclusive_capture(&mut self, except: usize, now: Instant)
        requires
            old(self)@.in_order(),
        ensures
            final(self).browser == old(self).browser,
            final(self)@ == (ControlState {
                loops: called_off(old(self)@.loops, except as int, now),
                ..old(self)@
            }),
    {
        let ghost want = called_off(self@.loops, except as int, now);
        let mut index: usize = 0;
        while index < SLOTS
            invariant
                index <= SLOTS,
                old(self)@.in_order(),
                self.loops@.len() == SLOTS,
                want == called_off(old(self)@.loops, except as int, now),
                self@ == (ControlState { loops: self@.loops, ..old(self)@ }),
                self.browser == old(self).browser,
                forall|j: int| 0 <= j < index ==> (#[trigger] self.loops@[j])@ == want[j],
                forall|j: int|
                    index <= j < SLOTS ==> #[trigger] self.loops@[j] == old(self).loops@[j],
            decreases SLOTS - index,
        {
            assert(old(self)@.loops[index as int] == old(self).loops@[index as int]@);
            if index != except {
                let state = self.loops[index].ui_state();
                if state == LooperUiState::Armed || state == LooperUiState::Overdub {
                    let _ = self.loops[index].press(LooperButton::Record, now);
                }
            }
            assert(self.loops@[index as int]@ == want[index as int]);
            index += 1;
        }
        assert(self@.loops =~= want);
    }

    fn find_busy(&self, slot: usize) -> (busy: Option<usize>)
        requires
            self.well_formed(),
        ensures
            match busy {
                Some(i) => first_recording(self@.loops, slot as int, 0) == Some(i as int) && i
                    < SLOTS,
                None => first_recording(self@.loops, slot as int, 0) is None,
            },
    {
        let mut i: usize = 0;
        while i < SLOTS
            invariant
                i <= SLOTS,
                self.well_formed(),
                first_recording(self@.loops, slot as int, 0) == first_recording(
                    self@.loops,
                    slot as int,
                    i as int,
                ),
            decreases SLOTS - i,
        {
            assert(self@.loops[i as int] == self.loops@[i as int]@);
            if i != slot && self.loops[i].ui_state() == LooperUiState::Recording {
                return Some(i);
            }
            i += 1;
        }
        None
    }

    fn press_slot(
        &mut self,
        slot: usize,
        button: LooperButton,
        now: Instant,
        actions: &mut Vec<Action<V>>,
    )
        requires
            old(self).well_formed(),
            slot < SLOTS,
        ensures
            final(self).well_formed(),
            final(self)@ == old(self)@.slot_pressed(slot, button, now).0,
            actions_view(final(actions)@) == actions_view(old(actions)@)
                + old(self)@.slot_pressed(slot, button, now).1,
    {
        let ghost want = old(self)@.slot_pressed(slot, button, now);
        proof {
            law_buttons_keep_capture_exclusive(old(self)@, slot, button, now);
        }
        self.focused = slot;
        let ghost focused = self@;
        assert(focused =~= (ControlState { focused: slot, ..old(self)@ }));
        assert(self@.loops[slot as int] == self.loops@[slot as int]@);
        let state = self.loops[slot].ui_state();
        // Refuse to capture beside a recorder; close its take first.
        if button == LooperButton::Record && (state == LooperUiState::Empty || state
            == LooperUiState::Stopped || state == LooperUiState::Playing) {
            if let Some(busy) = self.find_busy(slot) {
                let text = join3(
                    "loop ",
                    decimal_text(busy as u64 + 1).as_str(),
                    " still recording",
                );
                self.emit_looper(text, actions);
                return;
            }
        }
        let output = self.loops[slot].press(button, now);
        let ghost step = crate::app_core::looper::pressed(old(self)@.loops[slot as int], button, now);
        let ghost updated = old(self)@.loops.update(slot as int, step.state);
        assert(self@.loops =~= updated);
        assert(self@ =~= (ControlState { loops: updated, ..focused }));
        let after = self.loops[slot].ui_state();
        if after == LooperUiState::Armed || after == LooperUiState::Overdub {
            self.ensure_exclusive_capture(slot, now);
        }
        assert(self@ =~= want.0);
        let ghost base = actions_view(actions@);
        if let Some(command) = output.command {
            let started = match &command {
                LooperCommand::Start { .. } => true,
                _ => false,
            };
            let cleared = match &command {
                LooperCommand::Clear => true,
                _ => false,
            };
            add_action(actions, Action::Player(slot, command));
            if started {
                add_action(actions, Action::Host(FromControl::SlotReady { slot }));
            }
            if cleared {
                add_action(actions, Action::Host(FromControl::SlotCleared { slot }));
            }
        }
        assert(actions_view(actions@) =~= base + command_actions::<V>(slot, step.command));
        if output.status.is_some() {
            let status = self.slot_status(now);
            self.emit_looper(status, actions);
        }
        assert(actions_view(actions@) =~= base + want.1);
    }

    fn tap_slot(&mut self, slot: usize, now: Instant, actions: &mut Vec<Action<V>>)
        requires
            old(self).well_formed(),
        ensures
            final(self).well_formed(),
            final(self)@ == old(self)@.slot_tapped(slot as int, now).0,
            actions_view(final(actions)@) == actions_view(old(actions)@)
                + old(self)@.slot_tapped(slot as int, now).1,
    {
        if slot >= SLOTS {
            assert(actions_view(actions@) =~= actions_view(old(actions)@)
                + old(self)@.slot_tapped(slot as int, now).1);
            return;
        }
        assert(self@.loops[slot as int] == self.loops@[slot as int]@);
        let action = pad_action(self.loops[slot].ui_state());
        self.press_slot(slot, action, now, actions);
    }

    fn set_pad_mode(&mut self, mode: PadMode, actions: &mut Vec<Action<V>>)
        requires
            old(self).well_formed(),
        ensures
            final(self).well_formed(),
            final(self)@ == old(self)@.pads_switched(mode).0,
            actions_view(final(actions)@) == actions_view(old(actions)@)
                + old(self)@.pads_switched(mode).1,
    {
        if self.pad_mode != mode {
            self.pad_mode = mode;
            assert(self@ =~= (ControlState { pad_mode: mode, ..old(self)@ }));
            let text = match mode {
                PadMode::Loops => "pads: loop slots".to_owned(),
                PadMode::Notes => "pads: notes".to_owned(),
            };
            self.emit_looper(text, actions);
        } else {
            assert(actions_view(actions@) =~= actions_view(old(actions)@)
                + old(self)@.pads_switched(mode).1);
        }
    }

    fn offer(&mut self, line1: String, line2: String, now: Instant, actions: &mut Vec<Action<V>>)
        requires
            old(self).well_formed(),
        ensures
            final(self).well_formed(),
            final(self)@ == old(self)@.offered(line1@, line2@, now).0,
            actions_view(final(actions)@) == actions_view(old(actions)@) + old(self)@.offered(
                line1@,
                line2@,
                now,
            ).1,
    {
        let ghost want = old(self)@.offered(line1@, line2@, now);
        let released = self.display.offer((line1, line2), now);
        assert(self@ =~= want.0);
        match released {
            Some((l1, l2)) => {
                self.show(l1.as_str(), l2.as_str(), actions);
            },
            None => {
                assert(actions_view(actions@) =~= actions_view(old(actions)@) + want.1);
            },
        }
    }

    fn capture_note(&mut self, rt: &RtMidi, now: Instant, actions: &mut Vec<Action<V>>)
        requires
            old(self).well_formed(),
        ensures
            final(self).well_formed(),
            final(self)@ == old(self)@.captured(*rt, now).0,
            actions_view(final(actions)@) == actions_view(old(actions)@) + old(self)@.captured(
                *rt,
                now,
            ).1,
    {
        let mut i: usize = 0;
        while i < SLOTS && !self.loops[i].captures_notes()
            invariant
                i <= SLOTS,
                self.loops@.len() == SLOTS,
                *self == *old(self),
                first_capturing(self@.loops, 0) == first_capturing(self@.loops, i as int),
            decreases SLOTS - i,
        {
            assert(self@.loops[i as int] == self.loops@[i as int]@);
            i += 1;
        }
        let ghost want = old(self)@.captured(*rt, now);
        proof {
            law_notes_keep_capture_exclusive(old(self)@, *rt, now);
        }
        if i < SLOTS {
            assert(self@.loops[i as int] == self.loops@[i as int]@);
            let command = self.loops[i].note(rt.bytes, rt.len, now);
            assert(self@.loops =~= want.0.loops);
            assert(self@ =~= want.0);
            match command {
                Some(c) => {
                    add_action(actions, Action::Player(i, c));
                },
                None => {},
            }
        }
        assert(actions_view(actions@) =~= actions_view(old(actions)@) + want.1);
    }

    fn play(
        &mut self,
        message: &TimedMessage,
        event: &DeviceEvent,
        now: Instant,
        actions: &mut Vec<Action<V>>,
    )
        requires
            old(self).well_formed(),
            is_playable(event@),
        ensures
            final(self).well_formed(),
            final(self)@ == old(self)@.played(message@, event@, now).0,
            actions_view(final(actions)@) == actions_view(old(actions)@) + old(self)@.played(
                message@,
                event@,
                now,
            ).1,
    {
        let ghost want = old(self)@.played(message@, event@, now);
        let pad = match event {
            DeviceEvent::PadDown { .. } | DeviceEvent::PadUp { .. }
            | DeviceEvent::PadPressure { .. } => true,
            _ => false,
        };
        let note = match event {
            DeviceEvent::NoteOn { .. } | DeviceEvent::NoteOff { .. }
            | DeviceEvent::PadDown { .. } | DeviceEvent::PadUp { .. } => true,
            _ => false,
        };
        let ghost base = actions_view(actions@);
        if pad && self.pad_mode == PadMode::Loops {
            // The pads are slot triggers, not notes.
            if let DeviceEvent::PadDown { index, .. } = event {
                self.tap_slot(*index as usize, now, actions);
            }
        } else if let Some(rt) = RtMidi::from_bytes(
            message.timestamp_us,
            message.bytes.as_slice(),
        ) {
            if note {
                self.capture_note(&rt, now, actions);
            }
            add_action(actions, Action::Midi(rt));
        }
        match event {
            DeviceEvent::PadDown { index, .. } => {
                add_action(actions, Action::Event(CoreEvent::Pad { index: *index, down: true }));
            },
            DeviceEvent::PadUp { index } => {
                add_action(actions, Action::Event(CoreEvent::Pad { index: *index, down: false }));
            },
            _ => {},
        }
        assert(self@ =~= want.0);
        assert(actions_view(actions@) =~= base + want.1);
    }

    fn tell_update(
        &mut self,
        update: Option<ParamUpdate<V>>,
        now: Instant,
        actions: &mut Vec<Action<V>>,
    )
        requires
            old(self).well_formed(),
        ensures
            final(self).well_formed(),
            final(self)@ == old(self)@.told_update(
                crate::app_core::mapping::update_view(update),
                now,
            ).0,
            actions_view(final(actions)@) == actions_view(old(actions)@) + old(self)@.told_update(
                crate::app_core::mapping::update_view(update),
                now,
            ).1,
    {
        let ghost want = old(self)@.told_update(
            crate::app_core::mapping::update_view(update),
            now,
        );
        let ghost base = actions_view(actions@);
        if let Some(u) = update {
            add_action(actions, Action::Param(u.change));
            add_action(
                actions,
                Action::Event(
                    CoreEvent::ControlChanged { control: u.control, normalized: u.normalized },
                ),
            );
            self.offer(u.label, u.display_value, now, actions);
            self.revert_at = Some(now.after(Duration::from_millis(1200)));
            assert(self@ =~= want.0);
        }
        assert(actions_view(actions@) =~= base + want.1);
    }

    fn move_control(
        &mut self,
        event: &DeviceEvent,
        m: Option<Move<V>>,
        now: Instant,
        actions: &mut Vec<Action<V>>,
    )
        requires
            old(self).well_formed(),
        ensures
            final(self).well_formed(),
            final(self)@ == old(self)@.control_moved(event@, m, now).0,
            actions_view(final(actions)@) == actions_view(old(actions)@)
                + old(self)@.control_moved(event@, m, now).1,
    {
        let ghost want = old(self)@.control_moved(event@, m, now);
        let mut controls: Option<MacroControls<V>> = None;
        std::mem::swap(&mut controls, &mut self.controls);
        match (controls, m) {
            (Some(controls), Some(m)) => {
                let mut controls = controls;
                let ghost before = controls@;
                let update = controls.handle(event, m);
                self.controls = Some(controls);
                assert(self@ =~= (ControlState {
                    controls: Some(before.handled(event@, m).0),
                    ..old(self)@
                }));
                self.tell_update(update, now, actions);
            },
            (controls, _) => {
                self.controls = controls;
                assert(self@ =~= want.0);
                assert(actions_view(actions@) =~= actions_view(old(actions)@) + want.1);
            },
        }
    }

    fn turn(&mut self, delta: i8, now: Instant, actions: &mut Vec<Action<V>>)
        requires
            old(self).well_formed(),
        ensures
            final(self).well_formed(),
            final(self)@ == old(self)@.turned(delta, now).0,
            actions_view(final(actions)@) == actions_view(old(actions)@) + old(self)@.turned(
                delta,
                now,
            ).1,
    {
        let ghost want = old(self)@.turned(delta, now);
        let ghost base = actions_view(actions@);
        let picked = match self.browser.scroll(delta) {
            Some(item) => Some((item.id, item.name.clone())),
            None => None,
        };
        proof {
            crate::app_core::browser::law_turning_keeps_the_state_valid(
                old(self)@.browser,
                delta,
            );
        }
        assert(self@ =~= (ControlState { browser: self@.browser, ..old(self)@ }));
        if let Some((id, name)) = picked {
            let (pos, len) = self.browser.position();
            let mut line2 = join3(
                self.browser.category_name(),
                " ",
                decimal_text(pos as u64).as_str(),
            );
            line2.append("/");
            line2.append(decimal_text(len as u64).as_str());
            add_action(actions, Action::Event(CoreEvent::BrowserSelected { id }));
            self.offer(name, line2, now, actions);
            self.revert_at = Some(now.after(Duration::from_secs(3)));
            assert(self@ =~= want.0);
        }
        assert(self@ =~= want.0);
        assert(actions_view(actions@) =~= base + want.1);
    }

    fn shift_turn(&mut self, delta: i8, now: Instant, actions: &mut Vec<Action<V>>)
        requires
            old(self).well_formed(),
        ensures
            final(self).well_formed(),
            final(self)@ == old(self)@.shift_turned(delta, now).0,
            actions_view(final(actions)@) == actions_view(old(actions)@)
                + old(self)@.shift_turned(delta, now).1,
    {
        let ghost want = old(self)@.shift_turned(delta, now);
        let ghost base = actions_view(actions@);
        if delta != 0 {
            let _ = self.browser.cycle_category(delta);
            proof {
                crate::app_core::browser::law_turning_keeps_the_state_valid(
                    old(self)@.browser,
                    delta,
                );
            }
            assert(self@ =~= (ControlState { browser: self@.browser, ..old(self)@ }));
            let line1 = join3("[", self.browser.category_name(), "]");
            let picked = match self.browser.current() {
                Some(item) => Some((item.id, item.name.clone())),
                None => None,
            };
            let name = match picked {
                Some((id, name)) => {
                    add_action(actions, Action::Event(CoreEvent::BrowserSelected { id }));
                    name
                },
                None => "".to_owned(),
            };
            self.offer(line1, name, now, actions);
            self.revert_at = Some(now.after(Duration::from_secs(3)));
        }
        assert(self@ =~= want.0);
        assert(actions_view(actions@) =~= base + want.1);
    }

    fn click(&mut self, actions: &mut Vec<Action<V>>)
        requires
            old(self).well_formed(),
        ensures
            final(self).well_formed(),
            final(self)@ == old(self)@.clicked().0,
            actions_view(final(actions)@) == actions_view(old(actions)@) + old(self)@.clicked().1,
    {
        let ghost want = old(self)@.clicked();
        let ghost base = actions_view(actions@);
        let picked = match self.browser.current() {
            Some(item) => Some(
                (
                    FromControl::LoadPreset {
                        id: item.id,
                        name: item.name.clone(),
                        path: crate::text::copy_opt(&item.path),
                        load_key: crate::text::copy_opt(&item.load_key),
                    },
                    item.name.clone(),
                ),
            ),
            None => None,
        };
        if let Some((request, name)) = picked {
            add_action(actions, Action::Host(request));
            self.show("Loading...", name.as_str(), actions);
            self.revert_at = None;
        }
        assert(self@ =~= want.0);
        assert(actions_view(actions@) =~= base + want.1);
    }

    fn press_transport(
        &mut self,
        control: TransportControl,
        now: Instant,
        actions: &mut Vec<Action<V>>,
    )
        requires
            old(self).well_formed(),
        ensures
            final(self).well_formed(),
            final(self)@ == old(self)@.transport_pressed(control, now).0,
            actions_view(final(actions)@) == actions_view(old(actions)@)
                + old(self)@.transport_pressed(control, now).1,
    {
        match button_of(control) {
            Some(button) => {
                let slot: usize = self.focused;
                self.press_slot(slot, button, now, actions);
            },
            None => {
                let mode = match self.pad_mode {
                    PadMode::Notes => PadMode::Loops,
                    PadMode::Loops => PadMode::Notes,
                };
                self.set_pad_mode(mode, actions);
            },
        }
    }

    /// Handles a message of the controller. `m` is the move that the
    /// caller worked out for the message's target, if it has one.
    pub fn on_message(&mut self, message: &TimedMessage, m: Option<Move<V>>, now: Instant) -> (
        actions: Vec<Action<V>>)
        requires
            old(self).well_formed(),
        ensures
            final(self).well_formed(),
            final(self)@.valid(),
            (final(self)@, actions_view(actions@)) == old(self)@.on_message(message@, m, now),
    {
        let event = self.map.map(MidiMessage::decode(message.bytes.as_slice()));
        let mut actions: Vec<Action<V>> = Vec::new();
        let ghost want = old(self)@.on_message(message@, m, now);
        assert(actions_view(actions@) =~= Seq::<ActionView<V>>::empty());
        match event {
            DeviceEvent::NoteOn { .. } | DeviceEvent::NoteOff { .. }
            | DeviceEvent::PitchBend { .. } | DeviceEvent::ModStrip { .. }
            | DeviceEvent::PadDown { .. } | DeviceEvent::PadUp { .. }
            | DeviceEvent::PadPressure { .. } => {
                self.play(message, &event, now, &mut actions);
            },
            DeviceEvent::Encoder { .. } | DeviceEvent::Fader { .. } => {
                self.move_control(&event, m, now, &mut actions);
            },
            DeviceEvent::MainEncoderTurn { delta } => {
                self.turn(delta, now, &mut actions);
            },
            DeviceEvent::MainEncoderShiftTurn { delta } => {
                self.shift_turn(delta, now, &mut actions);
            },
            DeviceEvent::MainEncoderClick { pressed } => {
                if pressed {
                    self.click(&mut actions);
                }
            },
            DeviceEvent::Transport { control, pressed } => {
                if pressed {
                    self.press_transport(control, now, &mut actions);
                }
            },
            _ => {},
        }
        assert(actions_view(actions@) =~= want.1);
        actions
    }

    /// A transport button pressed in the GUI.
    pub fn on_button(&mut self, button: LooperButton, now: Instant) -> (actions: Vec<Action<V>>)
        requires
            old(self).well_formed(),
        ensures
            final(self).well_formed(),
            final(self)@.valid(),
            (final(self)@, actions_view(actions@)) == old(self)@.slot_pressed(
                old(self)@.focused,
                button,
                now,
            ),
    {
        let mut actions: Vec<Action<V>> = Vec::new();
        let ghost want = old(self)@.slot_pressed(old(self)@.focused, button, now);
        assert(actions_view(actions@) =~= Seq::<ActionView<V>>::empty());
        let slot: usize = self.focused;
        self.press_slot(slot, button, now, &mut actions);
        assert(actions_view(actions@) =~= want.1);
        actions
    }

    /// A pad tapped in the GUI.
    pub fn on_pad(&mut self, pad: u8, now: Instant) -> (actions: Vec<Action<V>>)
        requires
            old(self).well_formed(),
        ensures
            final(self).well_formed(),
            final(self)@.valid(),
            (final(self)@, actions_view(actions@)) == old(self)@.slot_tapped(pad as int, now),
    {
        let mut actions: Vec<Action<V>> = Vec::new();
        let ghost want = old(self)@.slot_tapped(pad as int, now);
        assert(actions_view(actions@) =~= Seq::<ActionView<V>>::empty());
        self.tap_slot(pad as usize, now, &mut actions);
        assert(actions_view(actions@) =~= want.1);
        actions
    }

    /// The pads' mode chosen in the GUI.
    pub fn on_pad_mode(&mut self, mode: PadMode) -> (actions: Vec<Action<V>>)
        requires
            old(self).well_formed(),
        ensures
            final(self).well_formed(),
            final(self)@.valid(),
            (final(self)@, actions_view(actions@)) == old(self)@.pads_switched(mode),
    {
        let mut actions: Vec<Action<V>> = Vec::new();
        let ghost want = old(self)@.pads_switched(mode);
        assert(actions_view(actions@) =~= Seq::<ActionView<V>>::empty());
        self.set_pad_mode(mode, &mut actions);
        assert(actions_view(actions@) =~= want.1);
        actions
    }

    /// The host thread loaded a preset.
    pub fn on_preset_loaded(&mut self, name: String, params: &[ParamDescription<V>]) -> (actions:
        Vec<Action<V>>)
        requires
            old(self).well_formed(),
        ensures
            final(self).well_formed(),
            final(self)@.valid(),
            (final(self)@, actions_view(actions@)) == old(self)@.preset_loaded(
                name@,
                crate::engine::params::params_view(params@),
            ),
    {
        let ghost want = old(self)@.preset_loaded(
            name@,
            crate::engine::params::params_view(params@),
        );
        let mut actions: Vec<Action<V>> = Vec::new();
        assert(actions_view(actions@) =~= Seq::<ActionView<V>>::empty());
        let mut controls: Option<MacroControls<V>> = None;
        std::mem::swap(&mut controls, &mut self.controls);
        match controls {
            Some(controls) => {
                let mut controls = controls;
                controls.reset_values(params);
                self.controls = Some(controls);
                add_action(&mut actions, Action::ControlsRebound);
            },
            None => {},
        }
        self.show(name.as_str(), "", &mut actions);
        self.title = name;
        self.revert_at = None;
        assert(self@ =~= want.0);
        assert(actions_view(actions@) =~= want.1);
        actions
    }

    /// The host thread could not load a preset.
    pub fn on_preset_failed(&mut self, name: &str, now: Instant) -> (actions: Vec<Action<V>>)
        requires
            old(self).well_formed(),
        ensures
            final(self).well_formed(),
            final(self)@.valid(),
            (final(self)@, actions_view(actions@)) == old(self)@.preset_failed(name@, now),
    {
        let ghost want = old(self)@.preset_failed(name@, now);
        let mut actions: Vec<Action<V>> = Vec::new();
        assert(actions_view(actions@) =~= Seq::<ActionView<V>>::empty());
        self.show("Load failed", name, &mut actions);
        self.revert_at = Some(now.after(Duration::from_secs(2)));
        assert(self@ =~= want.0);
        assert(actions_view(actions@) =~= want.1);
        actions
    }

    /// A control moved on screen: its normalized position, the plain value
    /// that is in its range, and its percent text.
    pub fn on_screen_move(
        &mut self,
        control: Control,
        normalized: V,
        value: V,
        display_value: String,
        now: Instant,
    ) -> (actions: Vec<Action<V>>)
        requires
            old(self).well_formed(),
        ensures
            final(self).well_formed(),
            final(self)@.valid(),
            (final(self)@, actions_view(actions@)) == old(self)@.screen_moved(
                control,
                normalized,
                value,
                display_value@,
                now,
            ),
    {
        let ghost want = old(self)@.screen_moved(control, normalized, value, display_value@, now);
        let mut actions: Vec<Action<V>> = Vec::new();
        assert(actions_view(actions@) =~= Seq::<ActionView<V>>::empty());
        let mut controls: Option<MacroControls<V>> = None;
        std::mem::swap(&mut controls, &mut self.controls);
        match controls {
            Some(controls) => {
                let mut controls = controls;
                let ghost before = controls@;
                let ghost display = display_value@;
                let update = controls.set_normalized(control, normalized, value, display_value);
                self.controls = Some(controls);
                assert(self@ =~= (ControlState {
                    controls: Some(before.set(control, normalized, value, display).0),
                    ..old(self)@
                }));
                self.tell_update(update, now, &mut actions);
            },
            None => {
                assert(self@ =~= want.0);
            },
        }
        assert(actions_view(actions@) =~= want.1);
        actions
    }

    /// The passing of time: held-back display updates, the way back to the
    /// title, and the looper's state (armed to recording happens without a
    /// button).
    pub fn tick(&mut self, now: Instant) -> (actions: Vec<Action<V>>)
        requires
            old(self).well_formed(),
        ensures
            final(self).well_formed(),
            final(self)@.valid(),
            (final(self)@, actions_view(actions@)) == old(self)@.ticked(now),
    {
        let ghost want = old(self)@.ticked(now);
        let mut actions: Vec<Action<V>> = Vec::new();
        assert(actions_view(actions@) =~= Seq::<ActionView<V>>::empty());
        let ghost first = old(self)@.display_polled(now);
        let released = self.display.poll(now);
        assert(self@ =~= first.0);
        if let Some((l1, l2)) = released {
            self.show(l1.as_str(), l2.as_str(), &mut actions);
        }
        assert(actions_view(actions@) =~= first.1);
        let ghost second = first.0.reverted(now);
        if let Some(t) = self.revert_at {
            if now.nanos >= t.nanos {
                self.revert_at = None;
                self.show(self.title.as_str(), "", &mut actions);
            }
        }
        assert(self@ =~= second.0);
        assert(actions_view(actions@) =~= first.1 + second.1);
        let ghost third = second.0.looper_refreshed(now);
        if now.duration_since(self.last_refresh).nanos >= 500_000_000 {
            self.last_refresh = now;
            let status = self.slot_status(now);
            let states = self.slot_states();
            if !same(status.as_str(), self.told_status.as_str()) || !same_states(
                &states,
                &self.told_states,
            ) {
                self.told_status = status.clone();
                self.told_states = states;
                assert(self@ =~= third.0);
                self.emit_looper(status, &mut actions);
            }
        }
        assert(self@ =~= third.0);
        assert(actions_view(actions@) =~= want.1);
        actions
    }

    fn greet(&self, actions: &mut Vec<Action<V>>)
        requires
            self.well_formed(),
        ensures
            actions_view(final(actions)@) == actions_view(old(actions)@) + self@.greeting(),
    {
        if self.connected {
            add_action(actions, Action::Send(init()));
        }
        self.paint_pads(actions);
        self.show(self.title.as_str(), "", actions);
        assert(actions_view(actions@) =~= actions_view(old(actions)@) + self@.greeting());
    }

    /// Sends the init handshake, the pad lights, and the current title to a
    /// (re)connected device.
    pub fn greet_device(&self) -> (actions: Vec<Action<V>>)
        requires
            self.well_formed(),
        ensures
            actions_view(actions@) == self@.greeting(),
    {
        let mut actions: Vec<Action<V>> = Vec::new();
        assert(actions_view(actions@) =~= Seq::<ActionView<V>>::empty());
        self.greet(&mut actions);
        assert(actions_view(actions@) =~= self@.greeting());
        actions
    }

    /// Whether it is time to look for the device again (every two seconds;
    /// the probe is expensive).
    pub fn hotplug_due(&mut self, now: Instant) -> (due: bool)
        requires
            old(self).well_formed(),
        ensures
            final(self).well_formed(),
            due == (crate::time::nanos_between(old(self)@.last_hotplug_check, now)
                >= 2_000_000_000),
            final(self)@ == if due {
                ControlState { last_hotplug_check: now, ..old(self)@ }
            } else {
                old(self)@
            },
    {
        if now.duration_since(self.last_hotplug_check).nanos >= 2_000_000_000 {
            self.last_hotplug_check = now;
            assert(self@ =~= (ControlState { last_hotplug_check: now, ..old(self)@ }));
            true
        } else {
            false
        }
    }

    /// Takes in what came of a hotplug plan: whether the port could be
    /// opened, where the plan was to open it.
    pub fn on_hotplug(&mut self, plan: Hotplug, opened: bool) -> (actions: Vec<Action<V>>)
        requires
            old(self).well_formed(),
        ensures
            final(self).well_formed(),
            final(self)@.valid(),
            (final(self)@, actions_view(actions@)) == old(self)@.hotplugged(plan, opened),
    {
        let ghost want = old(self)@.hotplugged(plan, opened);
        let mut actions: Vec<Action<V>> = Vec::new();
        assert(actions_view(actions@) =~= Seq::<ActionView<V>>::empty());
        let change = match plan {
            Hotplug::Keep => None,
            Hotplug::Drop => Some(false),
            Hotplug::Reopen => Some(opened),
            Hotplug::Open => if opened {
                Some(true)
            } else {
                None
            },
        };
        if let Some(connected) = change {
            self.connected = connected;
            add_action(&mut actions, Action::Event(CoreEvent::DeviceConnected(connected)));
            assert(self@ =~= want.0);
            if connected {
                self.greet(&mut actions);
            }
        }
        assert(actions_view(actions@) =~= want.1);
        actions
    }
}

// ---------------------------------------------------------------------
// Laws
// ---------------------------------------------------------------------

/// However the slots' buttons and pads are pressed, at most one slot
/// captures.
pub proof fn law_buttons_keep_capture_exclusive<V>(
    state: ControlState<V>,
    slot: usize,
    button: LooperButton,
    now: Instant,
)
    requires
        state.valid(),
        slot < SLOTS,
    ensures
        state.slot_pressed(slot, button, now).0.valid(),
{
    let before = state.loops[slot as int];
    lemma_first_recording(state.loops, slot as int, 0);
    let step = crate::app_core::looper::pressed(before, button, now);
    let loops = state.loops.update(slot as int, step.state);
    let next = state.slot_pressed(slot, button, now).0.loops;
    if next != state.loops {
        if is_waiting(step.state) {
            let off = called_off(loops, slot as int, now);
            assert(next == off);
            assert forall|i: int|
                0 <= i < off.len() && i != slot implies !crate::app_core::looper::capturing(
                #[trigger] off[i],
            ) by {
                assert(loops[i] == state.loops[i]);
                if state.loops[i] is Recording {
                    // Such a press is refused where the slot did not capture.
                    assert(crate::app_core::looper::capturing(before));
                    assert(i == slot);
                }
            }
        } else if crate::app_core::looper::capturing(step.state) {
            assert(crate::app_core::looper::capturing(before));
        }
    }
}

/// A note keeps capture exclusive too: an armed slot that starts to record
/// is the only one.
pub proof fn law_notes_keep_capture_exclusive<V>(state: ControlState<V>, rt: RtMidi, now: Instant)
    requires
        state.valid(),
    ensures
        state.captured(rt, now).0.valid(),
{
    lemma_first_capturing(state.loops, 0);
}

/// Whatever message comes from the controller, at most one slot captures.
pub proof fn law_messages_keep_capture_exclusive<V>(
    state: ControlState<V>,
    message: TimedView,
    m: Option<Move<V>>,
    now: Instant,
)
    requires
        state.valid(),
    ensures
        exclusive_capture(state.on_message(message, m, now).0.loops),
{
    let event = crate::midi::event::mapped(
        state.table,
        crate::midi::event::decoded(message.bytes),
    );
    if is_playable(event) {
        law_notes_keep_capture_exclusive(
            state,
            crate::engine::events::packed(message.timestamp_us, message.bytes),
            now,
        );
        if let DeviceView::PadDown { index, velocity } = event {
            if index < SLOTS {
                law_buttons_keep_capture_exclusive(
                    state,
                    index as usize,
                    crate::app_core::looper::tapped(
                        crate::app_core::looper::shown_state(state.loops[index as int]),
                    ),
                    now,
                );
            }
        }
    } else if let DeviceView::Transport { control, pressed } = event {
        if let Some(button) = transport_button(control) {
            law_buttons_keep_capture_exclusive(state, state.focused, button, now);
        }
    }
}

/// In Loops mode no pad reaches the engine: the pads launch loops.
pub proof fn law_loops_mode_keeps_pads_from_the_engine<V>(
    state: ControlState<V>,
    message: TimedView,
    event: DeviceView,
    now: Instant,
)
    requires
        state.valid(),
        state.pad_mode == PadMode::Loops,
        is_pad(event),
    ensures
        forall|i: int|
            0 <= i < state.played(message, event, now).1.len() ==> !((#[trigger] state.played(
                message,
                event,
                now,
            ).1[i]) is Midi),
{
}

/// Whatever is played beside that goes to the engine, captured or not.
pub proof fn law_played_notes_reach_the_engine<V>(
    state: ControlState<V>,
    message: TimedView,
    event: DeviceView,
    now: Instant,
)
    requires
        !(is_pad(event) && state.pad_mode == PadMode::Loops),
        crate::engine::events::is_short(message.bytes),
    ensures
        state.played(message, event, now).1.contains(
            ActionView::Midi(crate::engine::events::packed(message.timestamp_us, message.bytes)),
        ),
{
    let rt = crate::engine::events::packed(message.timestamp_us, message.bytes);
    let captured = if is_note(event) {
        state.captured(rt, now).1
    } else {
        Seq::empty()
    };
    let all = state.played(message, event, now).1;
    assert(all[captured.len() as int] == ActionView::<V>::Midi(rt));
}

/// Without a device nothing is sent to one.
pub proof fn law_nothing_is_sent_without_a_device<V>(
    state: ControlState<V>,
    line1: Seq<char>,
    line2: Seq<char>,
)
    requires
        !state.connected,
    ensures
        state.show(line1, line2).len() == 0,
        state.paint().len() == 0,
        state.greeting().len() == 0,
{
}

/// A healthy connection and a missing device are left alone; a port that
/// came back under a new id is opened again.
pub proof fn law_hotplug_reopens_only_a_changed_port(
    connected: Option<Seq<char>>,
    current: Option<Seq<char>>,
)
    ensures
        hotplug_plan(connected, current) == Hotplug::Keep <==> connected == current,
        hotplug_plan(connected, current) == Hotplug::Reopen || hotplug_plan(connected, current)
            == Hotplug::Open ==> current is Some,
{
}

/// The display goes back to the title once, and shows it.
pub proof fn law_display_reverts_to_the_title<V>(state: ControlState<V>, now: Instant)
    requires
        state.connected,
        state.revert_at matches Some(t) && t.nanos <= now.nanos,
    ensures
        state.reverted(now).1 == state.show(state.title, ""@),
        state.reverted(now).0.revert_at is None,
        state.reverted(now).0.reverted(now).1.len() == 0,
{
}

/// A button moves its own slot along as the looper says, brings it into
/// focus, and hands its playback exactly the command it asks for; the host
/// thread hears of a loop that is closed or cleared. Other slots go on,
/// except that one that waits for notes gives way to one that now does.
/// Only a Record that would take in notes beside a recording is refused.
pub proof fn law_buttons_drive_their_slot<V>(
    state: ControlState<V>,
    slot: usize,
    button: LooperButton,
    now: Instant,
)
    requires
        state.valid(),
        slot < SLOTS,
    ensures
        ({
            let (next, actions) = state.slot_pressed(slot, button, now);
            let before = state.loops[slot as int];
            let step = crate::app_core::looper::pressed(before, button, now);
            let refused = button == LooperButton::Record && !crate::app_core::looper::capturing(
                before,
            ) && exists|i: int|
                0 <= i < SLOTS && i != slot && (#[trigger] state.loops[i]) is Recording;
            &&& next.focused == slot && next.pad_mode == state.pad_mode
            &&& next.browser == state.browser && next.controls == state.controls
            &&& refused ==> next.loops == state.loops && forall|k: int|
                0 <= k < actions.len() ==> !((#[trigger] actions[k]) is Player)
                    && !(actions[k] is Host)
            &&& !refused ==> {
                &&& next.loops[slot as int] == step.state
                &&& step.command matches Some(command) ==> actions[0] == ActionView::<V>::Player(
                    slot,
                    command,
                )
                &&& step.command matches Some(CommandView::Start { .. }) ==> actions[1]
                    == ActionView::<V>::Host(FromControlView::SlotReady { slot })
                &&& step.command matches Some(CommandView::Clear) ==> actions[1]
                    == ActionView::<V>::Host(FromControlView::SlotCleared { slot })
                &&& forall|i: int|
                    0 <= i < SLOTS && i != slot ==> {
                        let (was, is) = (state.loops[i], #[trigger] next.loops[i]);
                        ||| is == was
                        ||| was is Armed && is is Empty
                        ||| was is Playing && was->overdub && is == (LooperState::Playing {
                            length: was->Playing_length,
                            epoch: was->epoch,
                            overdub: false,
                        })
                    }
            }
        }),
{
    let busy = first_recording(state.loops, slot as int, 0);
    lemma_first_recording(state.loops, slot as int, 0);
    let before = state.loops[slot as int];
    if button == LooperButton::Record && !crate::app_core::looper::capturing(before)
        && busy is Some {
        let focused = ControlState { focused: slot, ..state };
        let told = "loop "@ + crate::text::decimal((busy->0 + 1) as nat) + " still recording"@;
        lemma_telling_is_no_command(focused, told);
    }
}

proof fn lemma_telling_is_no_command<V>(state: ControlState<V>, status: Seq<char>)
    ensures
        forall|k: int|
            0 <= k < state.tell_looper(status).len() ==> !((#[trigger] state.tell_looper(
                status,
            )[k]) is Player) && !(state.tell_looper(status)[k] is Host),
{
}

/// The transport pads press the buttons they are named after, on the slot in
/// focus; Tap flips what the pads do. Letting go does nothing.
pub proof fn law_transport_pads_press_their_buttons<V>(
    state: ControlState<V>,
    message: TimedView,
    m: Option<Move<V>>,
    now: Instant,
)
    ensures
        ({
            let pad = |control: TransportControl|
                state.on_event(message, DeviceView::Transport { control, pressed: true }, m, now);
            let press = |button: LooperButton| state.slot_pressed(state.focused, button, now);
            &&& pad(TransportControl::Record) == press(LooperButton::Record)
            &&& pad(TransportControl::Loop) == press(LooperButton::Loop)
            &&& pad(TransportControl::Play) == press(LooperButton::Play)
            &&& pad(TransportControl::Stop) == press(LooperButton::Stop)
            &&& pad(TransportControl::Tap).0 == (ControlState {
                pad_mode: if state.pad_mode == PadMode::Notes {
                    PadMode::Loops
                } else {
                    PadMode::Notes
                },
                ..state
            })
            &&& forall|control: TransportControl|
                #![trigger transport_button(control)]
                state.on_event(
                    message,
                    DeviceView::Transport { control, pressed: false },
                    m,
                    now,
                ) == (state, Seq::<ActionView<V>>::empty())
        }),
{
}

/// A tap on a pad in Loops mode does to its slot what the slot needs, and
/// the frontend sees the pad move; in Notes mode a pad is played.
pub proof fn law_pads_launch_loops_or_play<V>(
    state: ControlState<V>,
    message: TimedView,
    index: u8,
    velocity: u8,
    m: Option<Move<V>>,
    now: Instant,
)
    requires
        state.valid(),
        index < SLOTS,
    ensures
        ({
            let down = DeviceView::PadDown { index, velocity };
            let (next, actions) = state.on_event(message, down, m, now);
            let button = crate::app_core::looper::tapped(
                crate::app_core::looper::shown_state(state.loops[index as int]),
            );
            &&& actions.len() > 0 && actions.last() == ActionView::<V>::Event(
                CoreEventView::Pad { index, down: true },
            )
            &&& state.pad_mode == PadMode::Loops ==> (next, actions.drop_last())
                == state.slot_pressed(index as usize, button, now)
            &&& state.pad_mode == PadMode::Notes && crate::engine::events::is_short(message.bytes)
                ==> actions.contains(
                ActionView::<V>::Midi(
                    crate::engine::events::packed(message.timestamp_us, message.bytes),
                ),
            )
            &&& state.on_event(message, DeviceView::PadUp { index }, m, now).1.last()
                == ActionView::<V>::Event(CoreEventView::Pad { index, down: false })
        }),
{
    let down = DeviceView::PadDown { index, velocity };
    let (next, actions) = state.on_event(message, down, m, now);
    if state.pad_mode == PadMode::Loops {
        let (tapped, done) = state.slot_tapped(index as int, now);
        assert(actions.drop_last() =~= done);
    } else if crate::engine::events::is_short(message.bytes) {
        law_played_notes_reach_the_engine(state, message, down, now);
    }
}

/// Keys, strips and, in Notes mode, pads go to the engine as the bytes they
/// came in. A note is also taken in by the one slot that captures, as the
/// looper says, and by no other; strips are never taken in.
pub proof fn law_playing_is_heard_and_captured<V>(
    state: ControlState<V>,
    message: TimedView,
    event: DeviceView,
    m: Option<Move<V>>,
    now: Instant,
    i: int,
)
    requires
        state.valid(),
        crate::engine::events::is_short(message.bytes),
        event is NoteOn || event is NoteOff || event is PitchBend || event is ModStrip,
        0 <= i < SLOTS,
    ensures
        ({
            let (next, actions) = state.on_event(message, event, m, now);
            let rt = crate::engine::events::packed(message.timestamp_us, message.bytes);
            let (taken, command) = crate::app_core::looper::noted(
                state.loops[i],
                rt.bytes,
                rt.len,
                now,
            );
            let is_taken = (event is NoteOn || event is NoteOff)
                && crate::app_core::looper::capturing(state.loops[i]);
            &&& actions.contains(ActionView::<V>::Midi(rt))
            &&& is_taken ==> next.loops[i] == taken
            &&& is_taken && command is Some ==> actions.contains(
                ActionView::<V>::Player(i as usize, command->0),
            )
            &&& !is_taken ==> next.loops[i] == state.loops[i]
            &&& next.focused == state.focused && next.browser == state.browser
            &&& next.controls == state.controls && next.pad_mode == state.pad_mode
        }),
{
    law_played_notes_reach_the_engine(state, message, event, now);
    lemma_first_capturing(state.loops, 0);
    let rt = crate::engine::events::packed(message.timestamp_us, message.bytes);
    let actions = state.on_event(message, event, m, now).1;
    let (_, captured) = state.captured(rt, now);
    if is_note(event) && crate::app_core::looper::capturing(state.loops[i]) {
        assert(first_capturing(state.loops, 0) == Some(i));
        if captured.len() > 0 {
            assert(actions[0] == captured[0]);
        }
    }
}

/// Which events are played, which of them are pads, and which are notes.
pub proof fn law_what_is_played(event: DeviceView)
    ensures
        is_pad(event) <==> event is PadDown || event is PadUp || event is PadPressure,
        is_playable(event) <==> is_pad(event) || event is NoteOn || event is NoteOff
            || event is PitchBend || event is ModStrip,
        is_note(event) <==> event is NoteOn || event is NoteOff || event is PadDown
            || event is PadUp,
{
}

/// A click loads the preset under the cursor, that one and all that it takes
/// to load it; without one, and on letting go, nothing happens.
pub proof fn law_a_click_loads_the_selected_preset<V>(
    state: ControlState<V>,
    message: TimedView,
    m: Option<Move<V>>,
    now: Instant,
)
    ensures
        ({
            let (next, actions) = state.on_event(
                message,
                DeviceView::MainEncoderClick { pressed: true },
                m,
                now,
            );
            &&& state.browser.current() matches Some(item) ==> {
                &&& actions.len() > 0
                &&& actions[0] == ActionView::<V>::Host(
                    FromControlView::LoadPreset {
                        id: item.id,
                        name: item.name,
                        path: item.path,
                        load_key: item.load_key,
                    },
                )
                &&& next.loops == state.loops && next.browser == state.browser
            }
            &&& state.browser.current() is None ==> next == state && actions.len() == 0
            &&& state.on_event(
                message,
                DeviceView::MainEncoderClick { pressed: false },
                m,
                now,
            ) == (state, Seq::<ActionView<V>>::empty())
        }),
{
}

/// Turning the main encoder browses, with Shift through the categories, and
/// the frontend hears which preset is selected.
pub proof fn law_turning_selects<V>(
    state: ControlState<V>,
    message: TimedView,
    delta: i8,
    m: Option<Move<V>>,
    now: Instant,
)
    ensures
        ({
            let turn = DeviceView::MainEncoderTurn { delta };
            let (next, actions) = state.on_event(message, turn, m, now);
            let shift_turn = DeviceView::MainEncoderShiftTurn { delta };
            let (cycled, told) = state.on_event(message, shift_turn, m, now);
            let selected = |id: i64|
                ActionView::<V>::Event(CoreEventView::BrowserSelected { id });
            &&& next.browser == state.browser.scrolled(delta)
            &&& delta != 0 ==> cycled.browser == state.browser.cycled(delta)
            &&& delta == 0 ==> actions.len() == 0 && cycled == state && told.len() == 0
            &&& delta != 0 ==> (next.browser.current() matches Some(item) ==> actions.len() > 0
                && actions[0] == selected(item.id))
            &&& delta != 0 ==> (cycled.browser.current() matches Some(item) ==> told.len() > 0
                && told[0] == selected(item.id))
            &&& next.loops == state.loops && cycled.loops == state.loops
        }),
{
}

/// While the display is free, a turn shows the selected preset and where it
/// stands in its category, and a turn with Shift the category.
pub proof fn law_turning_shows_what_is_selected<V>(
    state: ControlState<V>,
    delta: i8,
    now: Instant,
)
    requires
        state.connected,
        delta != 0,
        state.display.ready(now),
    ensures
        ({
            let browser = state.browser.scrolled(delta);
            let actions = state.turned(delta, now).1;
            browser.current() matches Some(item) ==> actions.len() == 2 && actions[1]
                == ActionView::<V>::Send(
                crate::midi::sysex::framed(
                    crate::midi::sysex::display_payload(
                        item.name,
                        browser.category_name() + " "@ + crate::text::decimal(
                            (browser.cursor + 1) as nat,
                        ) + "/"@ + crate::text::decimal(browser.filtered().len()),
                    ),
                ),
            )
        }),
        ({
            let browser = state.browser.cycled(delta);
            let actions = state.shift_turned(delta, now).1;
            browser.current() matches Some(item) ==> actions.len() == 2 && actions[1]
                == ActionView::<V>::Send(
                crate::midi::sysex::framed(
                    crate::midi::sysex::display_payload(
                        "["@ + browser.category_name() + "]"@,
                        item.name,
                    ),
                ),
            )
        }),
{
}

/// A control that sets its parameter is heard, seen and shown: the change
/// goes to the engine, the position to the frontend, and label and value to
/// the display, where it is free; one that sets none is not.
pub proof fn law_a_control_is_heard_seen_and_shown<V>(
    state: ControlState<V>,
    message: TimedView,
    event: DeviceView,
    m: Move<V>,
    now: Instant,
)
    requires
        state.controls is Some,
        event is Encoder || event is Fader,
    ensures
        ({
            let (next, actions) = state.on_event(message, event, Some(m), now);
            let (controls, update) = state.controls->0.handled(event, m);
            &&& next.controls == Some(controls) && next.loops == state.loops
            &&& update is None ==> actions.len() == 0
            &&& update matches Some(u) ==> {
                &&& actions.len() >= 2
                &&& actions[0] == ActionView::Param(u.change)
                &&& actions[1] == ActionView::Event(
                    CoreEventView::ControlChanged { control: u.control, normalized: u.normalized },
                )
                &&& state.connected && state.display.ready(now) ==> actions.len() == 3
                    && actions[2] == ActionView::<V>::Send(
                    crate::midi::sysex::framed(
                        crate::midi::sysex::display_payload(u.label, u.display_value),
                    ),
                )
            }
        }),
{
}

/// A control set on screen is heard, seen and shown alike.
pub proof fn law_a_screen_move_is_heard_seen_and_shown<V>(
    state: ControlState<V>,
    control: Control,
    normalized: V,
    value: V,
    display: Seq<char>,
    now: Instant,
)
    requires
        state.controls is Some,
    ensures
        ({
            let (next, actions) = state.screen_moved(control, normalized, value, display, now);
            let (controls, update) = state.controls->0.set(control, normalized, value, display);
            &&& next.controls == Some(controls)
            &&& update is None ==> actions.len() == 0
            &&& update matches Some(u) ==> {
                &&& actions.len() >= 2
                &&& actions[0] == ActionView::Param(u.change)
                &&& actions[1] == ActionView::Event(
                    CoreEventView::ControlChanged { control: u.control, normalized: u.normalized },
                )
            }
        }),
{
}

/// What the display shows for a while goes back to the title after 1.2 s for
/// a value, 3 s for a selection and 2 s for a failed load.
pub proof fn law_the_display_waits_before_it_reverts<V>(
    state: ControlState<V>,
    update: UpdateView<V>,
    delta: i8,
    name: Seq<char>,
    now: Instant,
)
    requires
        now.nanos <= u64::MAX - 3_000_000_000,
        delta != 0,
    ensures
        state.told_update(Some(update), now).0.revert_at matches Some(t) && t.nanos == now.nanos
            + 1_200_000_000,
        state.shift_turned(delta, now).0.revert_at matches Some(t) && t.nanos == now.nanos
            + 3_000_000_000,
        state.browser.scrolled(delta).current() is Some ==> (state.turned(delta, now).0.revert_at
            matches Some(t) && t.nanos == now.nanos + 3_000_000_000),
        state.preset_failed(name, now).0.revert_at matches Some(t) && t.nanos == now.nanos
            + 2_000_000_000,
        state.clicked().0.revert_at is None || state.browser.current() is None,
{
}

/// A preset that was loaded gives the display its name to rest on, and the
/// controls their new values; one that failed is named too.
pub proof fn law_loads_are_shown<V>(
    state: ControlState<V>,
    name: Seq<char>,
    params: Seq<ParamView<V>>,
    now: Instant,
)
    ensures
        ({
            let (next, actions) = state.preset_loaded(name, params);
            let shown = |line1: Seq<char>, line2: Seq<char>|
                ActionView::<V>::Send(
                    crate::midi::sysex::framed(
                        crate::midi::sysex::display_payload(line1, line2),
                    ),
                );
            &&& next.title == name && next.revert_at is None && next.loops == state.loops
            &&& state.controls matches Some(c) ==> next.controls == Some(c.reset(params))
                && actions.len() > 0 && actions[0] is ControlsRebound
            &&& state.controls is None ==> next.controls is None
            &&& state.connected ==> actions.len() > 0 && actions.last() == shown(name, ""@)
            &&& state.connected ==> state.preset_failed(name, now).1 == seq![
                shown("Load failed"@, name),
            ]
            &&& state.preset_failed(name, now).0.title == state.title
        }),
{
    if state.connected {
        let shown = seq![
            ActionView::<V>::Send(
                crate::midi::sysex::framed(
                    crate::midi::sysex::display_payload("Load failed"@, name),
                ),
            ),
        ];
        assert(state.preset_failed(name, now).1 =~= shown);
    }
}

/// The pads show the loops: in Loops mode each its own slot, in Notes mode
/// all of them the slot in focus, by one color for each state.
pub proof fn law_pads_show_the_loops<V>(state: ControlState<V>, pad: int)
    requires
        state.connected,
        0 <= pad < SLOTS,
    ensures
        ({
            let slot = if state.pad_mode == PadMode::Loops {
                state.loops[pad]
            } else {
                state.loops[state.focused as int]
            };
            let (r, g, b): (u8, u8, u8) = match slot {
                LooperState::Empty => (6, 28, 44),
                LooperState::Armed => (70, 12, 12),
                LooperState::Recording { .. } => (110, 6, 6),
                LooperState::Playing { overdub: true, .. } => (110, 50, 6),
                LooperState::Playing { overdub: false, .. } => (10, 70, 22),
                LooperState::Stopped { .. } => (55, 40, 8),
            };
            &&& state.paint().len() == 8
            &&& state.paint()[pad] == ActionView::<V>::Send(
                crate::midi::sysex::framed(
                    crate::midi::sysex::color_payload(
                        ColorTarget::PadTemporary(pad as u8),
                        r,
                        g,
                        b,
                    ),
                ),
            )
        }),
{
}

/// Everyone who is told of the looper hears the same: what the pads do, the
/// slot in focus, the state of each slot, and the status line, which the
/// display shows too.
pub proof fn law_the_looper_is_told_as_it_is<V>(
    state: ControlState<V>,
    status: Seq<char>,
    now: Instant,
    i: int,
)
    requires
        state.valid(),
        0 <= i < SLOTS,
    ensures
        state.tell_looper(status).len() > 0,
        state.tell_looper(status)[0] matches ActionView::Event(
            CoreEventView::Looper { pad_mode, focused, slots, status: told },
        ) && {
            &&& pad_mode == state.pad_mode && focused == state.focused && told == status
            &&& slots[i] == crate::app_core::looper::shown_state(state.loops[i])
        },
        state.connected ==> state.tell_looper(status).len() == 10 && state.tell_looper(status)[1]
            == ActionView::<V>::Send(
            crate::midi::sysex::framed(
                crate::midi::sysex::display_payload(
                    "Loop"@,
                    crate::text::without_prefixes(status, "loop "@),
                ),
            ),
        ),
        state.slot_status(now) == "loop "@ + crate::text::decimal(state.focused as nat + 1) + " "@
            + crate::text::without_prefixes(
            crate::app_core::looper::status_text(state.loops[state.focused as int], now),
            "loop: "@,
        ),
{
}

/// Switching the pads is told once, by name; switching to what they do
/// already changes nothing.
pub proof fn law_switching_the_pads<V>(state: ControlState<V>, mode: PadMode)
    ensures
        state.pads_switched(mode).0 == (ControlState { pad_mode: mode, ..state }),
        state.pad_mode == mode ==> state.pads_switched(mode).1.len() == 0,
        state.pad_mode != mode ==> state.pads_switched(mode).1 == (ControlState {
            pad_mode: mode,
            ..state
        }).tell_looper(
            if mode == PadMode::Loops {
                "pads: loop slots"@
            } else {
                "pads: notes"@
            },
        ),
{
}

/// As time passes, a display update that was held back comes out, the
/// display goes back to its title, and frontends are brought up to date
/// with the looper at most twice a second, where something changed.
pub proof fn law_the_clock_keeps_everyone_up_to_date<V>(state: ControlState<V>, now: Instant)
    ensures
        ({
            let (next, actions) = state.looper_refreshed(now);
            let due = state.last_refresh.nanos <= now.nanos && now.nanos
                - state.last_refresh.nanos >= 500_000_000;
            let changed = state.slot_status(now) != state.told_status || state.slot_states()
                != state.told_states;
            &&& due ==> next.last_refresh == now
            &&& !due ==> next == state
            &&& due && changed ==> next.told_status == state.slot_status(now)
                && next.told_states == state.slot_states() && actions == next.tell_looper(
                state.slot_status(now),
            )
            &&& !(due && changed) ==> actions.len() == 0
            &&& next.loops == state.loops && next.title == state.title
        }),
        ({
            let (next, actions) = state.display_polled(now);
            &&& state.display.pending matches Some(lines) ==> (state.display.ready(now) ==> actions
                == state.show(lines.0, lines.1))
            &&& state.display.pending is None || !state.display.ready(now) ==> actions.len() == 0
        }),
        ({
            let (polled, a) = state.display_polled(now);
            let (reverted, b) = polled.reverted(now);
            let (refreshed, c) = reverted.looper_refreshed(now);
            state.ticked(now) == (refreshed, a + b + c)
        }),
        ({
            let (next, actions) = state.reverted(now);
            &&& state.revert_at matches Some(t) ==> (now.nanos < t.nanos ==> next == state
                && actions.len() == 0)
            &&& state.revert_at is None ==> next == state && actions.len() == 0
        }),
{
}

/// A device that is found is greeted: the handshake first, then its pads,
/// then the title; the frontend hears of every change of the connection, and
/// of nothing else.
pub proof fn law_devices_are_greeted<V>(state: ControlState<V>, plan: Hotplug, opened: bool)
    ensures
        ({
            let (next, actions) = state.hotplugged(plan, opened);
            let changes = plan == Hotplug::Drop || plan == Hotplug::Reopen || (plan
                == Hotplug::Open && opened);
            let connected = opened && plan != Hotplug::Drop;
            &&& changes ==> next == (ControlState { connected, ..state }) && actions.len() > 0
                && actions[0] == ActionView::<V>::Event(CoreEventView::DeviceConnected(connected))
            &&& changes && connected ==> actions.drop_first() == next.greeting()
            &&& changes && !connected ==> actions.len() == 1
            &&& !changes ==> next == state && actions.len() == 0
        }),
        state.connected ==> {
            &&& state.greeting().len() == 10
            &&& state.greeting()[0] == ActionView::<V>::Send(
                crate::midi::sysex::framed(crate::midi::sysex::init_payload()),
            )
            &&& state.greeting().subrange(1, 9) == state.paint()
            &&& state.greeting()[9] == ActionView::<V>::Send(
                crate::midi::sysex::framed(
                    crate::midi::sysex::display_payload(state.title, ""@),
                ),
            )
        },
{
    let (next, actions) = state.hotplugged(plan, opened);
    if actions.len() > 0 {
        assert(actions.drop_first() =~= if next.connected {
            next.greeting()
        } else {
            Seq::empty()
        });
    }
    if state.connected {
        assert(state.greeting().subrange(1, 9) =~= state.paint());
    }
}

/// What hotplug maintenance does: nothing where nothing changed, drop what
/// is gone, open what appeared, and reopen what has a new id.
pub proof fn law_hotplug_follows_the_port(
    connected: Option<Seq<char>>,
    current: Option<Seq<char>>,
)
    ensures
        connected is Some && current is None ==> hotplug_plan(connected, current) == Hotplug::Drop,
        connected is None && current is Some ==> hotplug_plan(connected, current) == Hotplug::Open,
        connected is Some && current is Some && connected != current ==> hotplug_plan(
            connected,
            current,
        ) == Hotplug::Reopen,
        connected == current ==> hotplug_plan(connected, current) == Hotplug::Keep,
{
}

/// A message of the controller does what its bytes mean under the table.
pub proof fn law_messages_do_what_they_mean<V>(
    state: ControlState<V>,
    message: TimedView,
    m: Option<Move<V>>,
    now: Instant,
)
    ensures
        state.on_message(message, m, now) == state.on_event(
            message,
            crate::midi::event::mapped(state.table, crate::midi::event::decoded(message.bytes)),
            m,
            now,
        ),
{
}

} // verus!
