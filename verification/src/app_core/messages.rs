//! The commands into the core, the events out of it, and the messages
//! between its threads. Parameter values, positions and meter readings are
//! of a type `V` that the caller chooses.

use vstd::prelude::*;

use crate::app_core::looper::{LooperButton, LooperUiState, SLOTS};
use crate::app_core::mapping::Control;
use crate::engine::audio::{AudioInfo, AudioInfoView};
use crate::engine::params::{ParamDescription, ParamView};

verus! {

/// What the eight pads do: play notes into the engine, or launch loops.
#[derive(Debug, Clone, Copy, PartialEq, Eq, Structural)]
pub enum PadMode {
    Notes,
    Loops,
}

/// Commands into the core (GUI or CLI side).
#[derive(Debug, Clone)]
pub enum CoreCommand<V> {
    LoadPreset(i64),
    /// A GUI control move: set a bound control to a normalized value.
    SetControl { control: Control, normalized: V },
    SetFavorite { id: i64, favorite: bool },
    RescanLibrary,
    /// A looper transport button pressed in the GUI.
    Looper(LooperButton),
    /// A pad tapped in the GUI (slot trigger in Loops mode).
    LooperPad(u8),
    /// Switch what the pads do.
    SetPadMode(PadMode),
    Shutdown,
}

/// A preset as exposed to the frontend.
#[derive(Debug, Clone)]
pub struct PresetInfo {
    pub id: i64,
    pub name: String,
    pub category: Option<String>,
    pub author: Option<String>,
    pub favorite: bool,
}

/// What a [`PresetInfo`] says.
#[verifier::ext_equal]
pub struct PresetInfoView {
    pub id: i64,
    pub name: Seq<char>,
    pub category: Option<Seq<char>>,
    pub author: Option<Seq<char>>,
    pub favorite: bool,
}

impl View for PresetInfo {
    type V = PresetInfoView;

    open spec fn view(&self) -> PresetInfoView {
        PresetInfoView {
            id: self.id,
            name: self.name@,
            category: crate::text::opt_text(self.category),
            author: crate::text::opt_text(self.author),
            favorite: self.favorite,
        }
    }
}

/// What a list of presets says.
pub open spec fn presets_view(presets: Seq<PresetInfo>) -> Seq<PresetInfoView> {
    presets.map_values(|p: PresetInfo| p@)
}

/// A discoverable engine (CLAP instrument) for the engine selector.
#[derive(Debug, Clone, PartialEq, Eq)]
pub struct EngineInfo {
    pub id: String,
    pub name: String,
}

/// What an [`EngineInfo`] says.
pub struct EngineInfoView {
    pub id: Seq<char>,
    pub name: Seq<char>,
}

impl View for EngineInfo {
    type V = EngineInfoView;

    open spec fn view(&self) -> EngineInfoView {
        EngineInfoView { id: self.id@, name: self.name@ }
    }
}

/// What a list of engines says.
pub open spec fn engines_view(engines: Seq<EngineInfo>) -> Seq<EngineInfoView> {
    engines.map_values(|e: EngineInfo| e@)
}

/// A bound control as exposed to the frontend (for the macro view).
#[derive(Debug, Clone)]
pub struct ControlInfo<V> {
    pub control: Control,
    pub label: String,
    pub normalized: V,
    /// False when the mapped parameter looks unassigned in the current
    /// patch (see the mapping file's `label_from_param`).
    pub active: bool,
}

/// What a [`ControlInfo`] says.
pub struct ControlInfoView<V> {
    pub control: Control,
    pub label: Seq<char>,
    pub normalized: V,
    pub active: bool,
}

impl<V> View for ControlInfo<V> {
    type V = ControlInfoView<V>;

    open spec fn view(&self) -> ControlInfoView<V> {
        ControlInfoView {
            control: self.control,
            label: self.label@,
            normalized: self.normalized,
            active: self.active,
        }
    }
}

/// What a list of controls says.
pub open spec fn infos_view<V>(infos: Seq<ControlInfo<V>>) -> Seq<ControlInfoView<V>> {
    infos.map_values(|i: ControlInfo<V>| i@)
}

/// What an optional stream says.
pub open spec fn audio_view(audio: Option<AudioInfo>) -> Option<AudioInfoView> {
    match audio {
        Some(a) => Some(a@),
        None => None,
    }
}

/// Events out of the core.
#[derive(Debug, Clone)]
pub enum CoreEvent<V> {
    /// First event: everything the frontend needs to draw.
    Ready {
        plugin_title: String,
        engine_running: bool,
        device_connected: bool,
        presets: Vec<PresetInfo>,
        categories: Vec<String>,
        controls: Vec<ControlInfo<V>>,
        /// Negotiated audio stream, when the engine is running.
        audio: Option<AudioInfo>,
        /// All CLAP plugins found in the search paths.
        engines: Vec<EngineInfo>,
    },
    PresetLoaded { id: i64, name: String },
    PresetLoadFailed { name: String },
    /// A control moved (hardware or GUI); for on-screen animation.
    ControlChanged { control: Control, normalized: V },
    /// Pad pressed or released (for on-screen animation).
    Pad { index: u8, down: bool },
    /// Hardware browser cursor moved to this preset id.
    BrowserSelected { id: i64 },
    /// Control labels/values/activity refreshed (after a preset load).
    ControlsRebound { controls: Vec<ControlInfo<V>> },
    /// The hardware controller connected or disconnected (hotplug).
    DeviceConnected(bool),
    /// Looper state changed: pad mode, focused slot, all slot states, and a
    /// status line for the focused slot.
    Looper {
        pad_mode: PadMode,
        focused: usize,
        slots: [LooperUiState; SLOTS],
        status: String,
    },
    /// Library rescan finished; fresh preset list attached.
    LibraryRescanned { presets: Vec<PresetInfo>, categories: Vec<String> },
    Stats {
        callbacks: u64,
        overruns: u64,
        max_callback_ms: V,
        min_frames: u64,
        max_frames: u64,
        stream_errors: u64,
        /// Fraction of the frame-time budget spent in process() since the
        /// previous stats event.
        dsp_load: V,
        /// Peak absolute output sample since the previous stats event.
        output_peak: V,
    },
    Error(String),
}

/// What a [`CoreEvent`] says.
pub enum CoreEventView<V> {
    Ready {
        plugin_title: Seq<char>,
        engine_running: bool,
        device_connected: bool,
        presets: Seq<PresetInfoView>,
        categories: Seq<Seq<char>>,
        controls: Seq<ControlInfoView<V>>,
        audio: Option<AudioInfoView>,
        engines: Seq<EngineInfoView>,
    },
    PresetLoaded { id: i64, name: Seq<char> },
    PresetLoadFailed { name: Seq<char> },
    ControlChanged { control: Control, normalized: V },
    Pad { index: u8, down: bool },
    BrowserSelected { id: i64 },
    ControlsRebound { controls: Seq<ControlInfoView<V>> },
    DeviceConnected(bool),
    Looper {
        pad_mode: PadMode,
        focused: usize,
        slots: [LooperUiState; SLOTS],
        status: Seq<char>,
    },
    LibraryRescanned { presets: Seq<PresetInfoView>, categories: Seq<Seq<char>> },
    Stats {
        callbacks: u64,
        overruns: u64,
        max_callback_ms: V,
        min_frames: u64,
        max_frames: u64,
        stream_errors: u64,
        dsp_load: V,
        output_peak: V,
    },
    Error(Seq<char>),
}

impl<V> View for CoreEvent<V> {
    type V = CoreEventView<V>;

    open spec fn view(&self) -> CoreEventView<V> {
        match *self {
            CoreEvent::Ready {
                plugin_title,
                engine_running,
                device_connected,
                presets,
                categories,
                controls,
                audio,
                engines,
            } => CoreEventView::Ready {
                plugin_title: plugin_title@,
                engine_running,
                device_connected,
                presets: presets_view(presets@),
                categories: crate::text::texts(categories@),
                controls: infos_view(controls@),
                audio: audio_view(audio),
                engines: engines_view(engines@),
            },
            CoreEvent::PresetLoaded { id, name } => CoreEventView::PresetLoaded { id, name: name@ },
            CoreEvent::PresetLoadFailed { name } => CoreEventView::PresetLoadFailed { name: name@ },
            CoreEvent::ControlChanged { control, normalized } => CoreEventView::ControlChanged {
                control,
                normalized,
            },
            CoreEvent::Pad { index, down } => CoreEventView::Pad { index, down },
            CoreEvent::BrowserSelected { id } => CoreEventView::BrowserSelected { id },
            CoreEvent::ControlsRebound { controls } => CoreEventView::ControlsRebound {
                controls: infos_view(controls@),
            },
            CoreEvent::DeviceConnected(connected) => CoreEventView::DeviceConnected(connected),
            CoreEvent::Looper { pad_mode, focused, slots, status } => CoreEventView::Looper {
                pad_mode,
                focused,
                slots,
                status: status@,
            },
            CoreEvent::LibraryRescanned { presets, categories } => {
                CoreEventView::LibraryRescanned {
                    presets: presets_view(presets@),
                    categories: crate::text::texts(categories@),
                }
            },
            CoreEvent::Stats {
                callbacks,
                overruns,
                max_callback_ms,
                min_frames,
                max_frames,
                stream_errors,
                dsp_load,
                output_peak,
            } => CoreEventView::Stats {
                callbacks,
                overruns,
                max_callback_ms,
                min_frames,
                max_frames,
                stream_errors,
                dsp_load,
                output_peak,
            },
            CoreEvent::Error(text) => CoreEventView::Error(text@),
        }
    }
}

/// Messages from the control thread to the host thread.
#[derive(Debug)]
pub enum FromControl {
    LoadPreset { id: i64, name: String, path: Option<String>, load_key: Option<String> },
    /// A loop slot closed a take: give it its own engine instance loaded
    /// with the preset active right now.
    SlotReady { slot: usize },
    /// A loop slot was cleared: retire its engine instance.
    SlotCleared { slot: usize },
}

/// What a [`FromControl`] says.
pub enum FromControlView {
    LoadPreset {
        id: i64,
        name: Seq<char>,
        path: Option<Seq<char>>,
        load_key: Option<Seq<char>>,
    },
    SlotReady { slot: usize },
    SlotCleared { slot: usize },
}

impl View for FromControl {
    type V = FromControlView;

    open spec fn view(&self) -> FromControlView {
        match *self {
            FromControl::LoadPreset { id, name, path, load_key } => FromControlView::LoadPreset {
                id,
                name: name@,
                path: crate::text::opt_text(path),
                load_key: crate::text::opt_text(load_key),
            },
            FromControl::SlotReady { slot } => FromControlView::SlotReady { slot },
            FromControl::SlotCleared { slot } => FromControlView::SlotCleared { slot },
        }
    }
}

/// Messages from the host thread to the control thread. Ring buffers that
/// replace those of a rebuilt audio stream travel beside them.
#[derive(Debug)]
pub enum ToControl<V> {
    PresetLoaded { name: String, params: Vec<ParamDescription<V>> },
    PresetLoadFailed { name: String },
    /// Set a control's underlying value directly (GUI move): update state
    /// and show feedback, without takeover.
    GuiControl { control: Control, normalized: V },
    /// A looper transport button pressed in the GUI.
    Looper(LooperButton),
    /// A pad tapped in the GUI.
    LooperPad(u8),
    /// Switch what the pads do.
    PadMode(PadMode),
}

/// What a [`ToControl`] says.
pub enum ToControlView<V> {
    PresetLoaded { name: Seq<char>, params: Seq<ParamView<V>> },
    PresetLoadFailed { name: Seq<char> },
    GuiControl { control: Control, normalized: V },
    Looper(LooperButton),
    LooperPad(u8),
    PadMode(PadMode),
}

impl<V> View for ToControl<V> {
    type V = ToControlView<V>;

    open spec fn view(&self) -> ToControlView<V> {
        match *self {
            ToControl::PresetLoaded { name, params } => ToControlView::PresetLoaded {
                name: name@,
                params: crate::engine::params::params_view(params@),
            },
            ToControl::PresetLoadFailed { name } => ToControlView::PresetLoadFailed { name: name@ },
            ToControl::GuiControl { control, normalized } => ToControlView::GuiControl {
                control,
                normalized,
            },
            ToControl::Looper(button) => ToControlView::Looper(button),
            ToControl::LooperPad(pad) => ToControlView::LooperPad(pad),
            ToControl::PadMode(mode) => ToControlView::PadMode(mode),
        }
    }
}

} // verus!
