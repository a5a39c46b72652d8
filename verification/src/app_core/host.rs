//! The decisions of the host thread: what a command, a request of the
//! control thread or the outcome of an engine call leads to. The plugin
//! host, the library file and the audio stream themselves are the caller's:
//! it performs the actions and hands back what came of them.

use vstd::prelude::*;

use crate::app_core::looper::SLOTS;
use crate::app_core::messages::{
    CoreCommand, CoreEvent, CoreEventView, FromControl, FromControlView, ToControl, ToControlView,
};
use crate::app_core::watchdog::{Counters, Tick, Watchdog};
use crate::engine::audio::EngineConfig;
use crate::engine::params::ParamDescription;
use crate::library::{PresetRow, RowView};
use crate::text::{copy_opt, join2, join3, quote};
use crate::time::Instant;

verus! {

/// What the core is started with.
#[derive(Debug, Clone)]
pub struct CoreConfig {
    pub plugin_match: String,
    pub mapping_path: Option<String>,
    pub arturia_mode: bool,
    pub engine: EngineConfig,
    /// `None` uses the default library location.
    pub library_path: Option<String>,
    /// Use a silent mock device instead of real hardware.
    pub mock_device: bool,
    /// Skip plugin and audio entirely (stub engine).
    pub stub_engine: bool,
    /// Reload the last-used preset at startup.
    pub restore_session: bool,
}

impl Default for CoreConfig {
    fn default() -> (config: Self)
        ensures
            config.plugin_match@ == "Surge XT"@,
            config.mapping_path is None,
            !config.arturia_mode,
            config.engine == (EngineConfig { sample_rate: 48_000, buffer_frames: 256 }),
            config.library_path is None,
            !config.mock_device,
            !config.stub_engine,
            config.restore_session,
    {
        CoreConfig {
            plugin_match: "Surge XT".to_owned(),
            mapping_path: None,
            arturia_mode: false,
            engine: EngineConfig::default(),
            library_path: None,
            mock_device: false,
            stub_engine: false,
            restore_session: true,
        }
    }
}

/// Where the engine finds a preset.
#[derive(Debug)]
pub struct PresetRef {
    pub path: Option<String>,
    pub load_key: Option<String>,
}

/// What a [`PresetRef`] says.
pub struct RefView {
    pub path: Option<Seq<char>>,
    pub load_key: Option<Seq<char>>,
}

impl View for PresetRef {
    type V = RefView;

    open spec fn view(&self) -> RefView {
        RefView {
            path: crate::text::opt_text(self.path),
            load_key: crate::text::opt_text(self.load_key),
        }
    }
}

/// What an optional [`PresetRef`] says.
pub open spec fn ref_view(preset: Option<PresetRef>) -> Option<RefView> {
    match preset {
        Some(p) => Some(p@),
        None => None,
    }
}

/// The stream that slot engines have to match.
#[derive(Debug, Clone, Copy, PartialEq, Eq, Structural)]
pub struct StreamShape {
    pub sample_rate: u32,
    /// The largest block that a slot engine has to take.
    pub max_frames: u32,
}

/// What the host thread has to do.
#[derive(Debug)]
pub enum HostAction<V> {
    /// Tell the frontend.
    Event(CoreEvent<V>),
    /// Tell the control thread.
    Control(ToControl<V>),
    /// Look a preset up in the library, and go on with what was found.
    LookUp(i64),
    /// Have the engine load a preset, and go on with how that went.
    Load { id: i64, name: String, preset: PresetRef },
    /// Write a favorite flag to the library.
    SetFavorite { id: i64, favorite: bool },
    /// Record in library and session that a preset was loaded.
    Remember(i64),
    /// Discover the engine's presets and write them to the library.
    Rescan,
    /// Build an engine for a loop slot, loaded with a preset.
    BuildSlot { slot: usize, sound: Option<PresetRef>, shape: StreamShape },
    /// Ask the audio callback to give a slot's engine back.
    RetireSlot(usize),
    /// Hand the player the ring into a slot's engine.
    SlotRing(usize),
    /// Have the player fall back to the live engine for a slot.
    SlotRingClear(usize),
    /// Deactivate a slot's plugin instance and drop it.
    Deactivate(usize),
    /// End the host thread.
    Stop,
}

/// What a [`HostAction`] says.
pub enum HostActionView<V> {
    Event(CoreEventView<V>),
    Control(ToControlView<V>),
    LookUp(i64),
    Load { id: i64, name: Seq<char>, preset: RefView },
    SetFavorite { id: i64, favorite: bool },
    Remember(i64),
    Rescan,
    BuildSlot { slot: usize, sound: Option<RefView>, shape: StreamShape },
    RetireSlot(usize),
    SlotRing(usize),
    SlotRingClear(usize),
    Deactivate(usize),
    Stop,
}

impl<V> View for HostAction<V> {
    type V = HostActionView<V>;

    open spec fn view(&self) -> HostActionView<V> {
        match *self {
            HostAction::Event(event) => HostActionView::Event(event@),
            HostAction::Control(message) => HostActionView::Control(message@),
            HostAction::LookUp(id) => HostActionView::LookUp(id),
            HostAction::Load { id, name, preset } => HostActionView::Load {
                id,
                name: name@,
                preset: preset@,
            },
            HostAction::SetFavorite { id, favorite } => HostActionView::SetFavorite {
                id,
                favorite,
            },
            HostAction::Remember(id) => HostActionView::Remember(id),
            HostAction::Rescan => HostActionView::Rescan,
            HostAction::BuildSlot { slot, sound, shape } => HostActionView::BuildSlot {
                slot,
                sound: ref_view(sound),
                shape,
            },
            HostAction::RetireSlot(slot) => HostActionView::RetireSlot(slot),
            HostAction::SlotRing(slot) => HostActionView::SlotRing(slot),
            HostAction::SlotRingClear(slot) => HostActionView::SlotRingClear(slot),
            HostAction::Deactivate(slot) => HostActionView::Deactivate(slot),
            HostAction::Stop => HostActionView::Stop,
        }
    }
}

/// What a list of actions says.
pub open spec fn host_actions<V>(actions: Seq<HostAction<V>>) -> Seq<HostActionView<V>> {
    actions.map_values(|a: HostAction<V>| a@)
}

/// An error for the frontend.
pub open spec fn notice<V>(text: Seq<char>) -> HostActionView<V> {
    HostActionView::Event(CoreEventView::Error(text))
}

/// What the host thread knows.
pub struct HostState {
    /// Whether there is an engine.
    pub has_engine: bool,
    /// The preset that was asked for last.
    pub preset: Option<RefView>,
    /// The stream that slot engines have to match, once there was one.
    pub shape: Option<StreamShape>,
    /// Whether slot engines can be handed to the audio callback.
    pub streaming: bool,
    /// Which loop slots have an engine of their own.
    pub slots: Seq<bool>,
    pub watchdog: Watchdog,
}

/// What comes of a command of the frontend.
pub open spec fn command_action<V>(state: HostState, command: CoreCommand<V>) -> Seq<
    HostActionView<V>,
> {
    match command {
        CoreCommand::LoadPreset(id) => seq![HostActionView::LookUp(id)],
        CoreCommand::SetControl { control, normalized } => seq![
            HostActionView::Control(ToControlView::GuiControl { control, normalized }),
        ],
        CoreCommand::SetFavorite { id, favorite } => seq![
            HostActionView::SetFavorite { id, favorite },
        ],
        CoreCommand::RescanLibrary => if state.has_engine {
            seq![HostActionView::Rescan]
        } else {
            Seq::empty()
        },
        CoreCommand::Looper(button) => seq![HostActionView::Control(ToControlView::Looper(button))],
        CoreCommand::LooperPad(pad) => seq![HostActionView::Control(ToControlView::LooperPad(pad))],
        CoreCommand::SetPadMode(mode) => seq![HostActionView::Control(ToControlView::PadMode(mode))],
        CoreCommand::Shutdown => seq![HostActionView::Stop],
    }
}

impl HostState {
    /// There is one flag for each loop slot, and the watchdog is in order.
    pub open spec fn valid(self) -> bool {
        self.slots.len() == SLOTS && self.watchdog.valid()
    }

    /// A request of the control thread.
    pub open spec fn requested<V>(self, request: FromControlView) -> (
        HostState,
        Seq<HostActionView<V>>,
    ) {
        match request {
            FromControlView::LoadPreset { id, name, path, load_key } => {
                let preset = RefView { path, load_key };
                (
                    HostState { preset: Some(preset), ..self },
                    seq![HostActionView::Load { id, name, preset }],
                )
            },
            FromControlView::SlotReady { slot } => (
                self,
                match self.shape {
                    Some(shape) => if self.has_engine && self.streaming {
                        seq![HostActionView::BuildSlot { slot, sound: self.preset, shape }]
                    } else {
                        Seq::empty()
                    },
                    None => Seq::empty(),
                },
            ),
            FromControlView::SlotCleared { slot } => (
                self,
                if self.streaming {
                    seq![HostActionView::RetireSlot(slot), HostActionView::SlotRingClear(slot)]
                } else {
                    seq![HostActionView::SlotRingClear(slot)]
                },
            ),
        }
    }

    /// A preset row that the library gave, or that it has none.
    pub open spec fn looked_up<V>(self, row: Option<RowView>) -> (
        HostState,
        Seq<HostActionView<V>>,
    ) {
        match row {
            Some(row) => {
                let preset = RefView { path: row.path, load_key: row.load_key };
                (
                    HostState { preset: Some(preset), ..self },
                    seq![HostActionView::Load { id: row.id, name: row.name, preset }],
                )
            },
            None => (self, Seq::empty()),
        }
    }
}

/// How the engine took a preset.
#[derive(Debug)]
pub enum LoadOutcome<V> {
    /// There is no engine.
    NoEngine,
    /// Loaded; the engine's parameters are these now.
    Loaded(Vec<ParamDescription<V>>),
    /// The engine refused.
    Failed(String),
}

/// What comes of an attempt to load a preset.
pub open spec fn load_actions<V>(id: i64, name: Seq<char>, outcome: LoadOutcome<V>) -> Seq<
    HostActionView<V>,
> {
    match outcome {
        LoadOutcome::NoEngine => seq![
            HostActionView::Event(CoreEventView::PresetLoadFailed { name }),
        ],
        LoadOutcome::Loaded(params) => seq![
            HostActionView::Remember(id),
            HostActionView::Control(
                ToControlView::PresetLoaded {
                    name,
                    params: crate::engine::params::params_view(params@),
                },
            ),
            HostActionView::Event(CoreEventView::PresetLoaded { id, name }),
        ],
        LoadOutcome::Failed(error) => seq![
            notice("preset load failed for "@ + crate::text::quoted(name) + ": "@ + error@),
            HostActionView::Control(ToControlView::PresetLoadFailed { name }),
            HostActionView::Event(CoreEventView::PresetLoadFailed { name }),
        ],
    }
}

fn error<V>(text: String) -> (action: HostAction<V>)
    ensures
        action@ == notice::<V>(text@),
{
    HostAction::Event(CoreEvent::Error(text))
}

/// What has to be done once the engine has taken, or refused, a preset.
pub fn on_loaded<V>(id: i64, name: String, outcome: LoadOutcome<V>) -> (actions: Vec<HostAction<V>>)
    ensures
        host_actions(actions@) == load_actions(id, name@, outcome),
{
    let mut actions: Vec<HostAction<V>> = Vec::new();
    let ghost wanted = load_actions(id, name@, outcome);
    match outcome {
        LoadOutcome::NoEngine => {
            actions.push(HostAction::Event(CoreEvent::PresetLoadFailed { name }));
        },
        LoadOutcome::Loaded(params) => {
            actions.push(HostAction::Remember(id));
            actions.push(
                HostAction::Control(ToControl::PresetLoaded { name: name.clone(), params }),
            );
            actions.push(HostAction::Event(CoreEvent::PresetLoaded { id, name }));
        },
        LoadOutcome::Failed(e) => {
            let mut text = join3("preset load failed for ", quote(name.as_str()).as_str(), ": ");
            text.append(e.as_str());
            actions.push(error(text));
            actions.push(
                HostAction::Control(ToControl::PresetLoadFailed { name: name.clone() }),
            );
            actions.push(HostAction::Event(CoreEvent::PresetLoadFailed { name }));
        },
    }
    assert(host_actions(actions@) =~= wanted);
    actions
}

/// How the build of a slot engine went.
#[derive(Debug)]
pub enum SlotOutcome {
    /// The engine is on its way to the audio callback.
    Installed,
    /// The audio callback's queue had no room.
    QueueFull,
    Failed(String),
}

/// The engines of the slots that have one, to be deactivated in order.
pub open spec fn farewell<V>(slots: Seq<bool>) -> Seq<HostActionView<V>>
    decreases slots.len(),
{
    if slots.len() == 0 {
        Seq::empty()
    } else {
        let front = farewell(slots.drop_last());
        let last = (slots.len() - 1) as usize;
        if slots.last() {
            front + seq![HostActionView::Deactivate(last), HostActionView::SlotRingClear(last)]
        } else {
            front
        }
    }
}

/// The host thread's memory.
pub struct HostCore {
    has_engine: bool,
    preset: Option<PresetRef>,
    shape: Option<StreamShape>,
    streaming: bool,
    slots: Vec<bool>,
    watchdog: Watchdog,
}

impl View for HostCore {
    type V = HostState;

    closed spec fn view(&self) -> HostState {
        HostState {
            has_engine: self.has_engine,
            preset: ref_view(self.preset),
            shape: self.shape,
            streaming: self.streaming,
            slots: self.slots@,
            watchdog: self.watchdog,
        }
    }
}

/// Room for blocks bigger than the stream's usual ones.
pub const MIN_BLOCK_ROOM: u32 = 1024;

/// The stream shape for slot engines.
pub open spec fn shape_of(sample_rate: u32, buffer_frames: u32) -> StreamShape {
    StreamShape {
        sample_rate,
        max_frames: if buffer_frames > MIN_BLOCK_ROOM {
            buffer_frames
        } else {
            MIN_BLOCK_ROOM
        },
    }
}

impl HostCore {
    /// Starts out. `stream` is the rate and buffer size of the stream that
    /// the engine was activated to, or why that failed; `None` where there
    /// is no engine.
    pub fn new<V>(stream: Option<Result<(u32, u32), String>>, now: Instant) -> (r: (
        Self,
        Vec<HostAction<V>>,
    ))
        ensures
            r.0@.valid(),
            r.0@.has_engine == stream is Some,
            r.0@.preset is None,
            r.0@.slots == Seq::new(SLOTS as nat, |i: int| false),
            match stream {
                Some(Ok((rate, frames))) => {
                    &&& r.0@.shape == Some(shape_of(rate, frames))
                    &&& r.0@.streaming
                    &&& r.0@.watchdog.running
                    &&& host_actions(r.1@) == Seq::<HostActionView<V>>::empty()
                },
                Some(Err(e)) => {
                    &&& r.0@.shape is None
                    &&& !r.0@.streaming
                    &&& !r.0@.watchdog.running
                    &&& r.0@.watchdog.retry_at == Some(
                        crate::time::instant_after(now, crate::app_core::watchdog::retry_wait()),
                    )
                    &&& host_actions(r.1@) == seq![notice::<V>("audio failed: "@ + e@)]
                },
                None => {
                    &&& r.0@.shape is None
                    &&& !r.0@.streaming
                    &&& !r.0@.watchdog.running
                    &&& r.0@.watchdog.retry_at is None
                    &&& host_actions(r.1@) == Seq::<HostActionView<V>>::empty()
                },
            },
    {
        let mut actions: Vec<HostAction<V>> = Vec::new();
        let mut slots: Vec<bool> = Vec::new();
        let mut i: usize = 0;
        while i < SLOTS
            invariant
                i <= SLOTS,
                slots@ == Seq::new(i as nat, |j: int| false),
            decreases SLOTS - i,
        {
            slots.push(false);
            assert(slots@ =~= Seq::new((i + 1) as nat, |j: int| false));
            i += 1;
        }
        let has_engine: bool = stream.is_some();
        let (activated, shape) = match stream {
            Some(Ok((sample_rate, frames))) => {
                let max_frames: u32 = if frames > MIN_BLOCK_ROOM {
                    frames
                } else {
                    MIN_BLOCK_ROOM
                };
                (Some(true), Some(StreamShape { sample_rate, max_frames }))
            },
            Some(Err(e)) => {
                actions.push(error(join2("audio failed: ", e.as_str())));
                assert(host_actions(actions@) =~= seq![notice::<V>("audio failed: "@ + e@)]);
                (Some(false), None)
            },
            None => (None, None),
        };
        assert(actions@.len() == 0 ==> host_actions(actions@) =~= Seq::<
            HostActionView<V>,
        >::empty());
        (
            HostCore {
                has_engine,
                preset: None,
                streaming: shape.is_some(),
                shape,
                slots,
                watchdog: Watchdog::new(activated, now),
            },
            actions,
        )
    }

    /// A command of the frontend.
    pub fn on_command<V>(&self, command: CoreCommand<V>) -> (actions: Vec<HostAction<V>>)
        ensures
            host_actions(actions@) == command_action(self@, command),
    {
        let ghost wanted = command_action(self@, command);
        let mut actions: Vec<HostAction<V>> = Vec::new();
        match command {
            CoreCommand::LoadPreset(id) => {
                actions.push(HostAction::LookUp(id));
            },
            CoreCommand::SetControl { control, normalized } => {
                actions.push(HostAction::Control(ToControl::GuiControl { control, normalized }));
            },
            CoreCommand::SetFavorite { id, favorite } => {
                actions.push(HostAction::SetFavorite { id, favorite });
            },
            CoreCommand::RescanLibrary => {
                if self.has_engine {
                    actions.push(HostAction::Rescan);
                }
            },
            CoreCommand::Looper(button) => {
                actions.push(HostAction::Control(ToControl::Looper(button)));
            },
            CoreCommand::LooperPad(pad) => {
                actions.push(HostAction::Control(ToControl::LooperPad(pad)));
            },
            CoreCommand::SetPadMode(mode) => {
                actions.push(HostAction::Control(ToControl::PadMode(mode)));
            },
            CoreCommand::Shutdown => {
                actions.push(HostAction::Stop);
            },
        }
        assert(host_actions(actions@) =~= wanted);
        actions
    }

    /// What the library has under the id of a preset to load.
    pub fn on_row<V>(&mut self, row: Option<PresetRow>) -> (actions: Vec<HostAction<V>>)
        ensures
            (final(self)@, host_actions(actions@)) == old(self)@.looked_up::<V>(row_view(row)),
    {
        let ghost wanted = self@.looked_up::<V>(row_view(row));
        let mut actions: Vec<HostAction<V>> = Vec::new();
        if let Some(row) = row {
            self.preset =
            Some(PresetRef { path: copy_opt(&row.path), load_key: copy_opt(&row.load_key) });
            actions.push(
                HostAction::Load {
                    id: row.id,
                    name: row.name,
                    preset: PresetRef { path: row.path, load_key: row.load_key },
                },
            );
        }
        assert(host_actions(actions@) =~= wanted.1);
        actions
    }

    /// A request of the control thread.
    pub fn on_request<V>(&mut self, request: FromControl) -> (actions: Vec<HostAction<V>>)
        ensures
            (final(self)@, host_actions(actions@)) == old(self)@.requested::<V>(request@),
    {
        let ghost wanted = self@.requested::<V>(request@);
        let mut actions: Vec<HostAction<V>> = Vec::new();
        match request {
            FromControl::LoadPreset { id, name, path, load_key } => {
                self.preset =
                Some(PresetRef { path: copy_opt(&path), load_key: copy_opt(&load_key) });
                actions.push(
                    HostAction::Load { id, name, preset: PresetRef { path, load_key } },
                );
            },
            FromControl::SlotReady { slot } => {
                if let Some(shape) = self.shape {
                    if self.has_engine && self.streaming {
                        let sound = match &self.preset {
                            Some(p) => Some(
                                PresetRef {
                                    path: copy_opt(&p.path),
                                    load_key: copy_opt(&p.load_key),
                                },
                            ),
                            None => None,
                        };
                        actions.push(HostAction::BuildSlot { slot, sound, shape });
                    }
                }
            },
            FromControl::SlotCleared { slot } => {
                if self.streaming {
                    actions.push(HostAction::RetireSlot(slot));
                }
                actions.push(HostAction::SlotRingClear(slot));
            },
        }
        assert(host_actions(actions@) =~= wanted.1);
        actions
    }

    /// How the build of a slot engine went.
    pub fn on_slot_built<V>(&mut self, slot: usize, outcome: SlotOutcome) -> (actions: Vec<
        HostAction<V>,
    >)
        requires
            old(self)@.valid(),
            slot < SLOTS,
        ensures
            final(self)@.valid(),
            match outcome {
                SlotOutcome::Installed => {
                    &&& final(self)@ == (HostState {
                        slots: old(self)@.slots.update(slot as int, true),
                        ..old(self)@
                    })
                    &&& host_actions(actions@) == seq![HostActionView::<V>::SlotRing(slot)]
                },
                SlotOutcome::QueueFull => {
                    &&& final(self)@ == old(self)@
                    &&& host_actions(actions@) == seq![
                        notice::<V>("slot engine install queue full"@),
                    ]
                },
                SlotOutcome::Failed(e) => {
                    &&& final(self)@ == old(self)@
                    &&& host_actions(actions@) == seq![
                        notice::<V>(
                            "loop slot engine failed: "@ + e@ + "; slot plays the live preset"@,
                        ),
                    ]
                },
            },
    {
        let mut actions: Vec<HostAction<V>> = Vec::new();
        match outcome {
            SlotOutcome::Installed => {
                self.slots.set(slot, true);
                actions.push(HostAction::SlotRing(slot));
                assert(host_actions(actions@) =~= seq![HostActionView::<V>::SlotRing(slot)]);
            },
            SlotOutcome::QueueFull => {
                actions.push(error("slot engine install queue full".to_owned()));
                assert(host_actions(actions@) =~= seq![
                    notice::<V>("slot engine install queue full"@),
                ]);
            },
            SlotOutcome::Failed(e) => {
                let text = join3(
                    "loop slot engine failed: ",
                    e.as_str(),
                    "; slot plays the live preset",
                );
                actions.push(error(text));
                assert(host_actions(actions@) =~= seq![
                    notice::<V>(
                        "loop slot engine failed: "@ + e@ + "; slot plays the live preset"@,
                    ),
                ]);
            },
        }
        actions
    }

    /// Whether the plugin instance of a slot whose engine came back from
    /// the audio callback has to be deactivated; it is gone from then on.
    pub fn on_retired(&mut self, slot: usize) -> (deactivate: bool)
        ensures
            deactivate == (slot < old(self)@.slots.len() && old(self)@.slots[slot as int]),
            final(self)@ == if deactivate {
                HostState { slots: old(self)@.slots.update(slot as int, false), ..old(self)@ }
            } else {
                old(self)@
            },
    {
        if slot < self.slots.len() && self.slots[slot] {
            self.slots.set(slot, false);
            true
        } else {
            false
        }
    }

    /// Looks after the audio stream: whether a report is due, and whether
    /// the stream has to be dropped and built anew.
    pub fn tick<V>(&mut self, now: Instant, counters: Counters) -> (r: (Tick, Vec<HostAction<V>>))
        requires
            old(self)@.valid(),
        ensures
            final(self)@.valid(),
            final(self)@ == (HostState { watchdog: final(self)@.watchdog, ..old(self)@ }),
            (final(self)@.watchdog, r.0) == old(self)@.watchdog.ticked(now, counters),
            host_actions(r.1@) == if r.0.rebuild {
                seq![notice::<V>("audio stream stalled; rebuilding"@)]
            } else {
                Seq::empty()
            },
    {
        let mut actions: Vec<HostAction<V>> = Vec::new();
        let tick = self.watchdog.tick(now, counters);
        if tick.rebuild {
            actions.push(error("audio stream stalled; rebuilding".to_owned()));
        }
        assert(host_actions(actions@) =~= if tick.rebuild {
            seq![notice::<V>("audio stream stalled; rebuilding"@)]
        } else {
            Seq::empty()
        });
        (tick, actions)
    }

    /// Takes leave of the slot engines, which died with the old stream:
    /// loops fall back to the live engine until they are recorded again.
    pub fn drop_slots<V>(&mut self) -> (actions: Vec<HostAction<V>>)
        requires
            old(self)@.valid(),
        ensures
            final(self)@ == (HostState {
                streaming: false,
                slots: Seq::new(SLOTS as nat, |i: int| false),
                ..old(self)@
            }),
            host_actions(actions@) == farewell::<V>(old(self)@.slots),
    {
        let ghost before = self.slots@;
        let mut actions: Vec<HostAction<V>> = Vec::new();
        let mut slot: usize = 0;
        while slot < SLOTS
            invariant
                slot <= SLOTS,
                before.len() == SLOTS,
                self.slots@.len() == SLOTS,
                forall|i: int| 0 <= i < slot ==> !(#[trigger] self.slots@[i]),
                forall|i: int| slot <= i < SLOTS ==> #[trigger] self.slots@[i] == before[i],
                host_actions(actions@) == farewell::<V>(before.take(slot as int)),
                self@ == (HostState { slots: self.slots@, ..old(self)@ }),
            decreases SLOTS - slot,
        {
            assert(before.take(slot + 1).drop_last() =~= before.take(slot as int));
            let ghost prior = host_actions(actions@);
            if self.slots[slot] {
                self.slots.set(slot, false);
                actions.push(HostAction::Deactivate(slot));
                actions.push(HostAction::SlotRingClear(slot));
                assert(host_actions(actions@) =~= prior + seq![
                    HostActionView::Deactivate(slot),
                    HostActionView::SlotRingClear(slot),
                ]);
            }
            slot += 1;
        }
        assert(before.take(slot as int) =~= before);
        self.streaming = false;
        assert(self.slots@ =~= Seq::new(SLOTS as nat, |i: int| false));
        actions
    }

    /// How the rebuild of the stream went.
    pub fn on_rebuilt<V>(&mut self, outcome: Result<(), String>, now: Instant) -> (actions: Vec<
        HostAction<V>,
    >)
        requires
            old(self)@.valid(),
            !old(self)@.watchdog.running,
            old(self)@.watchdog.failures < crate::app_core::watchdog::MAX_REBUILDS,
        ensures
            final(self)@.valid(),
            final(self)@ == (HostState {
                streaming: old(self)@.streaming || outcome is Ok,
                watchdog: old(self)@.watchdog.rebuilt(outcome is Ok, now),
                ..old(self)@
            }),
            host_actions(actions@) == seq![
                notice::<V>(
                    match outcome {
                        Ok(_) => "audio stream rebuilt"@,
                        Err(e) => "audio stream rebuild failed: "@ + e@ + if final(self)@.watchdog.failures
                            < crate::app_core::watchdog::MAX_REBUILDS {
                            "; retrying in 5 s"@
                        } else {
                            "; giving up, restart benchlab"@
                        },
                    },
                ),
            ],
    {
        let mut actions: Vec<HostAction<V>> = Vec::new();
        match outcome {
            Ok(_) => {
                self.watchdog.on_rebuilt(true, now);
                self.streaming = true;
                actions.push(error("audio stream rebuilt".to_owned()));
            },
            Err(e) => {
                self.watchdog.on_rebuilt(false, now);
                let end: &str = if self.watchdog.failures
                    < crate::app_core::watchdog::MAX_REBUILDS {
                    "; retrying in 5 s"
                } else {
                    "; giving up, restart benchlab"
                };
                actions.push(error(join3("audio stream rebuild failed: ", e.as_str(), end)));
            },
        }
        assert(actions@.len() == 1);
        assert(host_actions(actions@) =~= seq![actions@[0]@]);
        actions
    }
}

/// What an optional row says.
pub open spec fn row_view(row: Option<PresetRow>) -> Option<RowView> {
    match row {
        Some(r) => Some(r@),
        None => None,
    }
}

/// The preset that the last session ended with, where it is to be restored.
pub fn restore(config: &CoreConfig, last_preset: Option<i64>) -> (id: Option<i64>)
    ensures
        id == if config.restore_session {
            last_preset
        } else {
            None
        },
{
    if config.restore_session {
        last_preset
    } else {
        None
    }
}

/// A loop slot's engine is loaded with the preset that was asked for last
/// before the take was closed.
pub proof fn law_a_slot_keeps_its_preset<V>(
    state: HostState,
    id: i64,
    name: Seq<char>,
    path: Option<Seq<char>>,
    load_key: Option<Seq<char>>,
    slot: usize,
)
    requires
        state.has_engine,
        state.streaming,
        state.shape is Some,
    ensures
        ({
            let (after, _) = state.requested::<V>(
                FromControlView::LoadPreset { id, name, path, load_key },
            );
            after.requested::<V>(FromControlView::SlotReady { slot }).1 == seq![
                HostActionView::<V>::BuildSlot {
                    slot,
                    sound: Some(RefView { path, load_key }),
                    shape: state.shape->0,
                },
            ]
        }),
{
}

/// Whether an action tells the frontend how a load went.
pub open spec fn answers<V>(action: HostActionView<V>, id: i64, name: Seq<char>) -> bool {
    action == HostActionView::<V>::Event(CoreEventView::PresetLoaded { id, name }) || action
        == HostActionView::<V>::Event(CoreEventView::PresetLoadFailed { name })
}

/// Every attempt to load a preset ends with exactly one answer to the
/// frontend, and the preset is remembered only where it was loaded.
pub proof fn law_every_load_is_answered<V>(id: i64, name: Seq<char>, outcome: LoadOutcome<V>)
    ensures
        ({
            let actions = load_actions(id, name, outcome);
            &&& actions.len() > 0
            &&& answers(actions.last(), id, name)
            &&& forall|i: int|
                0 <= i < actions.len() - 1 ==> !answers(#[trigger] actions[i], id, name)
            &&& actions.contains(HostActionView::Remember(id)) <==> outcome is Loaded
        }),
{
    let actions = load_actions(id, name, outcome);
    if let LoadOutcome::Loaded(params) = outcome {
        assert(actions[0] == HostActionView::<V>::Remember(id));
    }
}

/// Every command of the frontend is carried out: presets are looked up by
/// their id, favorites written, moves, buttons and pads handed on as they
/// are, a rescan done where there is an engine, and a shutdown ends it all.
pub proof fn law_commands_are_carried_out<V>(state: HostState, command: CoreCommand<V>)
    ensures
        ({
            let actions = command_action(state, command);
            &&& command matches CoreCommand::LoadPreset(id) ==> actions == seq![
                HostActionView::<V>::LookUp(id),
            ]
            &&& command matches CoreCommand::SetFavorite { id, favorite } ==> actions == seq![
                HostActionView::<V>::SetFavorite { id, favorite },
            ]
            &&& command matches CoreCommand::SetControl { control, normalized } ==> actions == seq![
                HostActionView::Control(ToControlView::GuiControl { control, normalized }),
            ]
            &&& command matches CoreCommand::Looper(button) ==> actions == seq![
                HostActionView::<V>::Control(ToControlView::Looper(button)),
            ]
            &&& command matches CoreCommand::LooperPad(pad) ==> actions == seq![
                HostActionView::<V>::Control(ToControlView::LooperPad(pad)),
            ]
            &&& command matches CoreCommand::SetPadMode(mode) ==> actions == seq![
                HostActionView::<V>::Control(ToControlView::PadMode(mode)),
            ]
            &&& command is RescanLibrary && state.has_engine ==> actions == seq![
                HostActionView::<V>::Rescan,
            ]
            &&& command is RescanLibrary && !state.has_engine ==> actions.len() == 0
            &&& command is Shutdown ==> actions == seq![HostActionView::<V>::Stop]
        }),
{
}

/// A preset that is asked for, by the frontend or on the device, is the one
/// that the engine is told to load, and the one that is remembered for the
/// slots; a row that is not there changes nothing.
pub proof fn law_the_preset_asked_for_is_loaded<V>(
    state: HostState,
    id: i64,
    name: Seq<char>,
    path: Option<Seq<char>>,
    load_key: Option<Seq<char>>,
    row: PresetRow,
)
    ensures
        ({
            let (after, actions) = state.requested::<V>(
                FromControlView::LoadPreset { id, name, path, load_key },
            );
            let preset = RefView { path, load_key };
            &&& after == (HostState { preset: Some(preset), ..state })
            &&& actions == seq![HostActionView::<V>::Load { id, name, preset }]
        }),
        ({
            let (after, actions) = state.looked_up::<V>(row_view(Some(row)));
            let preset = RefView {
                path: crate::text::opt_text(row.path),
                load_key: crate::text::opt_text(row.load_key),
            };
            &&& after == (HostState { preset: Some(preset), ..state })
            &&& actions == seq![HostActionView::<V>::Load { id: row.id, name: row.name@, preset }]
        }),
        state.looked_up::<V>(None) == (state, Seq::<HostActionView<V>>::empty()),
{
}

/// A closed take gets an engine of its own where there is one to copy and a
/// stream to play it, with the preset of the moment; a cleared slot gives
/// its engine back and plays on the live one.
pub proof fn law_slots_get_and_lose_their_engine<V>(state: HostState, slot: usize)
    ensures
        ({
            let (after, actions) = state.requested::<V>(FromControlView::SlotReady { slot });
            let possible = state.has_engine && state.streaming && state.shape is Some;
            &&& after == state
            &&& possible ==> actions == seq![
                HostActionView::<V>::BuildSlot {
                    slot,
                    sound: state.preset,
                    shape: state.shape->0,
                },
            ]
            &&& !possible ==> actions.len() == 0
        }),
        ({
            let (after, actions) = state.requested::<V>(FromControlView::SlotCleared { slot });
            &&& after == state
            &&& actions.len() > 0 && actions.last() == HostActionView::<V>::SlotRingClear(slot)
            &&& state.streaming ==> actions.len() == 2 && actions[0] == HostActionView::<
                V,
            >::RetireSlot(slot)
            &&& !state.streaming ==> actions.len() == 1
        }),
{
}

/// A preset that the engine took is remembered by its id, and both the
/// control thread and the frontend hear its name; one that it refused is
/// named to both, with the reason.
pub proof fn law_loads_are_told<V>(id: i64, name: Seq<char>, outcome: LoadOutcome<V>)
    ensures
        ({
            let actions = load_actions(id, name, outcome);
            &&& outcome matches LoadOutcome::Loaded(params) ==> actions == seq![
                HostActionView::Remember(id),
                HostActionView::Control(
                    ToControlView::PresetLoaded {
                        name,
                        params: crate::engine::params::params_view(params@),
                    },
                ),
                HostActionView::Event(CoreEventView::PresetLoaded { id, name }),
            ]
            &&& outcome matches LoadOutcome::Failed(why) ==> {
                &&& actions.len() == 3
                &&& actions[0] == HostActionView::<V>::Event(
                    CoreEventView::Error(
                        "preset load failed for "@ + crate::text::quoted(name) + ": "@ + why@,
                    ),
                )
                &&& actions[1] == HostActionView::<V>::Control(
                    ToControlView::PresetLoadFailed { name },
                )
                &&& actions[2] == HostActionView::<V>::Event(
                    CoreEventView::PresetLoadFailed { name },
                )
            }
            &&& outcome is NoEngine ==> actions == seq![
                HostActionView::<V>::Event(CoreEventView::PresetLoadFailed { name }),
            ]
        }),
{
}

/// When the stream dies, exactly the slots that have an engine of their own
/// take leave of it, and each plays on the live engine.
pub proof fn law_every_slot_engine_takes_leave<V>(slots: Seq<bool>, slot: usize)
    requires
        slots.len() <= usize::MAX,
    ensures
        farewell::<V>(slots).contains(HostActionView::Deactivate(slot)) <==> slot < slots.len()
            && slots[slot as int],
        farewell::<V>(slots).contains(HostActionView::SlotRingClear(slot)) <==> slot < slots.len()
            && slots[slot as int],
    decreases slots.len(),
{
    if slots.len() > 0 {
        let front = slots.drop_last();
        law_every_slot_engine_takes_leave::<V>(front, slot);
        let (before, all) = (farewell::<V>(front), farewell::<V>(slots));
        let last = (slots.len() - 1) as usize;
        let off = HostActionView::<V>::Deactivate(slot);
        let clear = HostActionView::<V>::SlotRingClear(slot);
        assert(all.take(before.len() as int) =~= before);
        lemma_keeps(before, all, off);
        lemma_keeps(before, all, clear);
        if slots.last() {
            assert(all[before.len() as int] == HostActionView::<V>::Deactivate(last));
            assert(all[before.len() as int + 1] == HostActionView::<V>::SlotRingClear(last));
        }
        if slot < front.len() {
            assert(front[slot as int] == slots[slot as int]);
        }
    }
}

proof fn lemma_keeps<V>(
    before: Seq<HostActionView<V>>,
    all: Seq<HostActionView<V>>,
    action: HostActionView<V>,
)
    requires
        before.len() <= all.len(),
        all.take(before.len() as int) == before,
    ensures
        before.contains(action) ==> all.contains(action),
        all.contains(action) ==> before.contains(action) || exists|k: int|
            before.len() <= k < all.len() && all[k] == action,
{
    if before.contains(action) {
        let k = choose|k: int| 0 <= k < before.len() && before[k] == action;
        assert(all.take(before.len() as int)[k] == all[k]);
    }
    if all.contains(action) {
        let k = choose|k: int| 0 <= k < all.len() && all[k] == action;
        if k < before.len() {
            assert(all.take(before.len() as int)[k] == all[k]);
        }
    }
}

/// A slot engine runs at the stream's rate, and has room for its blocks and
/// for at least 1024 frames.
pub proof fn law_slot_engines_fit_the_stream(sample_rate: u32, buffer_frames: u32)
    ensures
        shape_of(sample_rate, buffer_frames).sample_rate == sample_rate,
        shape_of(sample_rate, buffer_frames).max_frames >= buffer_frames,
        shape_of(sample_rate, buffer_frames).max_frames >= 1024,
        shape_of(sample_rate, buffer_frames).max_frames == buffer_frames || shape_of(
            sample_rate,
            buffer_frames,
        ).max_frames == 1024,
{
}

} // verus!
