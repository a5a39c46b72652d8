//! The application window's state: what each message of the user and each
//! event of the core does to it, and the texts it shows. Widgets, drawing
//! and the window itself are the caller's.

use vstd::prelude::*;

use crate::app_core::host::CoreConfig;
use crate::app_core::looper::{LooperUiState, SLOTS};
use crate::app_core::mapping::Control;
use crate::app_core::messages::{
    ControlInfo, ControlInfoView, CoreCommand, CoreEvent, CoreEventView, PadMode, PresetInfo,
    PresetInfoView,
};
use crate::engine::audio::{AudioInfo, AudioInfoView, EngineConfig};
use crate::text::{
    chars_of, contains, copy_list, copy_opt, decimal_text, join2, join3, opt_is, push_repeated,
    same, slice_text,
};

verus! {

/// Boot parameters.
#[derive(Debug, Clone, Hash, PartialEq, Eq)]
pub struct Boot {
    pub plugin_match: String,
    pub mapping_path: Option<String>,
    pub arturia_mode: bool,
    pub sample_rate: u32,
    pub buffer_frames: u32,
    pub mock_device: bool,
    pub stub_engine: bool,
}

impl Default for Boot {
    fn default() -> (boot: Self)
        ensures
            boot.plugin_match@ == "Surge XT"@,
            boot.mapping_path is None,
            !boot.arturia_mode,
            boot.sample_rate == 48_000,
            boot.buffer_frames == 256,
            !boot.mock_device,
            !boot.stub_engine,
    {
        Boot {
            plugin_match: "Surge XT".to_owned(),
            mapping_path: None,
            arturia_mode: false,
            sample_rate: 48_000,
            buffer_frames: 256,
            mock_device: false,
            stub_engine: false,
        }
    }
}

impl Boot {
    /// The core's configuration: the default library, and the last session
    /// restored.
    pub fn to_config(&self) -> (config: CoreConfig)
        ensures
            config.plugin_match@ == self.plugin_match@,
            crate::text::opt_text(config.mapping_path) == crate::text::opt_text(self.mapping_path),
            config.arturia_mode == self.arturia_mode,
            config.engine == (EngineConfig {
                sample_rate: self.sample_rate,
                buffer_frames: self.buffer_frames,
            }),
            config.library_path is None,
            config.mock_device == self.mock_device,
            config.stub_engine == self.stub_engine,
            config.restore_session,
    {
        CoreConfig {
            plugin_match: self.plugin_match.clone(),
            mapping_path: copy_opt(&self.mapping_path),
            arturia_mode: self.arturia_mode,
            engine: EngineConfig {
                sample_rate: self.sample_rate,
                buffer_frames: self.buffer_frames,
            },
            library_path: None,
            mock_device: self.mock_device,
            stub_engine: self.stub_engine,
            restore_session: true,
        }
    }
}

/// A control's display state.
#[derive(Debug, Clone)]
pub struct ControlView<V> {
    pub control: Control,
    pub label: String,
    pub normalized: V,
    /// Dimmed when the mapped parameter looks unassigned in this patch.
    pub active: bool,
}

impl<V> View for ControlView<V> {
    type V = ControlInfoView<V>;

    open spec fn view(&self) -> ControlInfoView<V> {
        ControlInfoView {
            control: self.control,
            label: self.label@,
            normalized: self.normalized,
            active: self.active,
        }
    }
}

/// What a list of displayed controls says.
pub open spec fn views_view<V>(views: Seq<ControlView<V>>) -> Seq<ControlInfoView<V>> {
    views.map_values(|c: ControlView<V>| c@)
}

/// Takes the core's controls over for display.
pub fn project_controls<V: Copy>(controls: &Vec<ControlInfo<V>>) -> (views: Vec<ControlView<V>>)
    ensures
        views_view(views@) == crate::app_core::messages::infos_view(controls@),
{
    let mut views: Vec<ControlView<V>> = Vec::new();
    let mut i: usize = 0;
    while i < controls.len()
        invariant
            i <= controls@.len(),
            views@.len() == i,
            forall|j: int| 0 <= j < i ==> (#[trigger] views@[j])@ == controls@[j]@,
        decreases controls@.len() - i,
    {
        views.push(
            ControlView {
                control: controls[i].control,
                label: controls[i].label.clone(),
                normalized: controls[i].normalized,
                active: controls[i].active,
            },
        );
        i += 1;
    }
    assert(views_view(views@) =~= crate::app_core::messages::infos_view(controls@));
    views
}

/// A key that the window listens to.
#[derive(Debug)]
pub enum Key {
    ArrowDown,
    ArrowUp,
    Enter,
    Character(String),
    Other,
}

/// What happens in the window.
#[derive(Debug)]
pub enum Message<V> {
    CoreStarted,
    Core(CoreEvent<V>),
    CoreStopped,
    SearchChanged(String),
    CategorySelected(String),
    FavoritesOnly(bool),
    PresetPressed(i64),
    ToggleFavorite(i64),
    ControlDragged(Control, V),
    PadClicked(u8),
    /// A key was pressed; whether with Control held.
    KeyPressed(Key, bool),
    OpenSettings(bool),
    Rescan,
}

/// The window's pages.
#[derive(Debug, Clone, Copy, PartialEq, Eq, Structural)]
pub enum Page {
    Main,
    Settings,
}

/// The latest audio statistics.
#[derive(Debug, Clone, Copy)]
pub struct Stats<V> {
    pub overruns: u64,
    pub max_callback_ms: V,
    pub min_frames: u64,
    pub max_frames: u64,
    pub stream_errors: u64,
    pub dsp_load: V,
    pub output_peak: V,
}

/// What the window asks for in return.
#[derive(Debug)]
pub enum Effect<V> {
    /// Send a command to the core.
    Send(CoreCommand<V>),
    /// Scroll the preset list to a row.
    ScrollTo(usize),
}

/// The category that shows everything.
pub const ALL_CATEGORIES: &'static str = "All";

/// Rows rendered at once; refine the search to see the rest.
pub const MAX_VISIBLE_ROWS: usize = 200;

/// Number of pads on screen.
pub const PADS: usize = 8;

/// The window's state.
#[derive(Debug)]
pub struct App<V> {
    pub boot: Boot,
    /// Whether there is a core to send commands to.
    pub core_started: bool,
    pub plugin_title: String,
    pub engine_running: bool,
    pub device_connected: bool,
    pub presets: Vec<PresetInfo>,
    pub categories: Vec<String>,
    pub search: String,
    pub category: String,
    pub favorites_only: bool,
    pub selected: Option<i64>,
    pub loaded: Option<i64>,
    pub loaded_name: Option<String>,
    pub audio: Option<AudioInfo>,
    pub control_views: Vec<ControlView<V>>,
    pub pads: [bool; PADS],
    pub stats: Stats<V>,
    pub last_error: Option<String>,
    pub page: Page,
    pub pad_mode: PadMode,
    pub focused: usize,
    pub slots: [LooperUiState; SLOTS],
    pub loop_status: String,
}

/// What an [`App`] holds.
pub struct AppState<V> {
    pub core_started: bool,
    pub plugin_title: Seq<char>,
    pub engine_running: bool,
    pub device_connected: bool,
    pub presets: Seq<PresetInfoView>,
    pub categories: Seq<Seq<char>>,
    pub search: Seq<char>,
    pub category: Seq<char>,
    pub favorites_only: bool,
    pub selected: Option<i64>,
    pub loaded: Option<i64>,
    pub loaded_name: Option<Seq<char>>,
    pub audio: Option<AudioInfoView>,
    pub control_views: Seq<ControlInfoView<V>>,
    pub pads: Seq<bool>,
    pub stats: Stats<V>,
    pub last_error: Option<Seq<char>>,
    pub page: Page,
    pub pad_mode: PadMode,
    pub focused: usize,
    pub slots: [LooperUiState; SLOTS],
    pub loop_status: Seq<char>,
}

impl<V> View for App<V> {
    type V = AppState<V>;

    open spec fn view(&self) -> AppState<V> {
        AppState {
            core_started: self.core_started,
            plugin_title: self.plugin_title@,
            engine_running: self.engine_running,
            device_connected: self.device_connected,
            presets: crate::app_core::messages::presets_view(self.presets@),
            categories: crate::text::texts(self.categories@),
            search: self.search@,
            category: self.category@,
            favorites_only: self.favorites_only,
            selected: self.selected,
            loaded: self.loaded,
            loaded_name: crate::text::opt_text(self.loaded_name),
            audio: crate::app_core::messages::audio_view(self.audio),
            control_views: views_view(self.control_views@),
            pads: self.pads@,
            stats: self.stats,
            last_error: crate::text::opt_text(self.last_error),
            page: self.page,
            pad_mode: self.pad_mode,
            focused: self.focused,
            slots: self.slots,
            loop_status: self.loop_status@,
        }
    }
}

/// Whether a preset passes the filters.
pub open spec fn passes(
    preset: PresetInfoView,
    search: Seq<char>,
    category: Seq<char>,
    favorites_only: bool,
) -> bool {
    let query = crate::text::lowercase(search);
    &&& query.len() == 0 || crate::text::occurs(crate::text::lowercase(preset.name), query)
    &&& category == ALL_CATEGORIES@ || preset.category == Some(category)
    &&& !favorites_only || preset.favorite
}

/// The indices of the presets that pass the filters, in order.
pub open spec fn passing(
    presets: Seq<PresetInfoView>,
    search: Seq<char>,
    category: Seq<char>,
    favorites_only: bool,
) -> Seq<int>
    decreases presets.len(),
{
    if presets.len() == 0 {
        Seq::empty()
    } else {
        let front = passing(presets.drop_last(), search, category, favorites_only);
        if passes(presets.last(), search, category, favorites_only) {
            front.push(presets.len() - 1)
        } else {
            front
        }
    }
}

/// The first of some presets with an id, or -1.
pub open spec fn place_of(presets: Seq<PresetInfoView>, shown: Seq<int>, id: i64) -> int
    decreases shown.len(),
{
    if shown.len() == 0 {
        -1
    } else {
        let front = place_of(presets, shown.drop_last(), id);
        if front >= 0 {
            front
        } else if presets[shown.last()].id == id {
            shown.len() - 1
        } else {
            -1
        }
    }
}

/// The first preset with an id, or -1.
pub open spec fn preset_place(presets: Seq<PresetInfoView>, id: i64) -> int
    decreases presets.len(),
{
    if presets.len() == 0 {
        -1
    } else {
        let front = preset_place(presets.drop_last(), id);
        if front >= 0 {
            front
        } else if presets.last().id == id {
            presets.len() - 1
        } else {
            -1
        }
    }
}

/// The first displayed control that is `control`, or -1.
pub open spec fn control_place<V>(views: Seq<ControlInfoView<V>>, control: Control) -> int
    decreases views.len(),
{
    if views.len() == 0 {
        -1
    } else {
        let front = control_place(views.drop_last(), control);
        if front >= 0 {
            front
        } else if views.last().control == control {
            views.len() - 1
        } else {
            -1
        }
    }
}

impl<V> AppState<V> {
    /// The presets shown, by their indices.
    pub open spec fn shown(self) -> Seq<int> {
        passing(self.presets, self.search, self.category, self.favorites_only)
    }

    /// A control displayed at another position.
    pub open spec fn with_control(self, control: Control, normalized: V) -> AppState<V> {
        let at = control_place(self.control_views, control);
        if at >= 0 {
            AppState {
                control_views: self.control_views.update(
                    at,
                    ControlInfoView { normalized, ..self.control_views[at] },
                ),
                ..self
            }
        } else {
            self
        }
    }

    /// The row of the selected preset in the list.
    pub open spec fn selected_row(self) -> int {
        match self.selected {
            Some(id) => place_of(self.presets, self.shown(), id),
            None => -1,
        }
    }

    /// The selection one row further down or up; from the top where nothing
    /// shown is selected.
    pub open spec fn stepped(self, down: bool) -> AppState<V> {
        let shown = self.shown();
        let row = self.selected_row();
        if shown.len() == 0 {
            self
        } else {
            let next = if down {
                if row + 1 < shown.len() {
                    row + 1
                } else {
                    row
                }
            } else if row > 0 {
                row - 1
            } else {
                0
            };
            AppState { selected: Some(self.presets[shown[next]].id), ..self }
        }
    }

    /// A preset's favorite flag turned over.
    pub open spec fn favorite_toggled(self, id: i64) -> AppState<V> {
        let at = preset_place(self.presets, id);
        if at >= 0 {
            AppState {
                presets: self.presets.update(
                    at,
                    PresetInfoView { favorite: !self.presets[at].favorite, ..self.presets[at] },
                ),
                ..self
            }
        } else {
            self
        }
    }

    /// The state after an event of the core.
    pub open spec fn after_event(self, event: CoreEventView<V>) -> AppState<V> {
        match event {
            CoreEventView::Ready {
                plugin_title,
                engine_running,
                device_connected,
                presets,
                categories,
                controls,
                audio,
                engines,
            } => AppState {
                plugin_title,
                engine_running,
                device_connected,
                presets,
                categories,
                control_views: controls,
                audio,
                ..self
            },
            CoreEventView::PresetLoaded { id, name } => AppState {
                loaded: Some(id),
                selected: Some(id),
                loaded_name: Some(name),
                ..self
            },
            CoreEventView::PresetLoadFailed { name } => AppState {
                last_error: Some("load failed: "@ + name),
                ..self
            },
            CoreEventView::ControlChanged { control, normalized } => self.with_control(
                control,
                normalized,
            ),
            CoreEventView::Pad { index, down } => if index < self.pads.len() {
                AppState { pads: self.pads.update(index as int, down), ..self }
            } else {
                self
            },
            CoreEventView::BrowserSelected { id } => AppState { selected: Some(id), ..self },
            CoreEventView::ControlsRebound { controls } => AppState {
                control_views: controls,
                ..self
            },
            CoreEventView::DeviceConnected(connected) => AppState {
                device_connected: connected,
                ..self
            },
            CoreEventView::Looper { pad_mode, focused, slots, status } => AppState {
                pad_mode,
                focused,
                slots,
                loop_status: status,
                ..self
            },
            CoreEventView::LibraryRescanned { presets, categories } => AppState {
                presets,
                categories,
                ..self
            },
            CoreEventView::Stats {
                callbacks,
                overruns,
                max_callback_ms,
                min_frames,
                max_frames,
                stream_errors,
                dsp_load,
                output_peak,
            } => AppState {
                stats: Stats {
                    overruns,
                    max_callback_ms,
                    min_frames,
                    max_frames,
                    stream_errors,
                    dsp_load,
                    output_peak,
                },
                ..self
            },
            CoreEventView::Error(text) => AppState { last_error: Some(text), ..self },
        }
    }

    /// The row that an event asks to scroll to: the one that the hardware
    /// browser selected, or the end of the rendered rows for one below.
    pub open spec fn scroll_after(self, event: CoreEventView<V>) -> Seq<Effect<V>> {
        let row = self.after_event(event).selected_row();
        if event is BrowserSelected && row >= 0 {
            seq![
                Effect::ScrollTo(
                    if row < MAX_VISIBLE_ROWS {
                        row as usize
                    } else {
                        MAX_VISIBLE_ROWS
                    },
                ),
            ]
        } else {
            Seq::empty()
        }
    }

    /// A command, where there is a core to send it to.
    pub open spec fn sent(self, command: CoreCommand<V>) -> Seq<Effect<V>> {
        if self.core_started {
            seq![Effect::Send(command)]
        } else {
            Seq::empty()
        }
    }

    /// The command that loads the selected preset.
    pub open spec fn load_selected(self) -> Seq<Effect<V>> {
        match self.selected {
            Some(id) => self.sent(CoreCommand::LoadPreset(id)),
            None => Seq::empty(),
        }
    }

    /// The command that tells the core of a toggled favorite.
    pub open spec fn favorite_sent(self, id: i64) -> Seq<Effect<V>> {
        let at = preset_place(self.presets, id);
        if at >= 0 {
            self.sent(CoreCommand::SetFavorite { id, favorite: !self.presets[at].favorite })
        } else {
            Seq::empty()
        }
    }

    /// The state after a message, and what the window asks for.
    pub open spec fn after_message(self, message: Message<V>) -> (AppState<V>, Seq<Effect<V>>) {
        match message {
            Message::CoreStarted => (AppState { core_started: true, ..self }, Seq::empty()),
            Message::Core(event) => (self.after_event(event@), self.scroll_after(event@)),
            Message::CoreStopped => (
                AppState {
                    last_error: Some("core stopped"@),
                    engine_running: false,
                    ..self
                },
                Seq::empty(),
            ),
            Message::SearchChanged(search) => (
                AppState { search: search@, ..self },
                Seq::empty(),
            ),
            Message::CategorySelected(category) => (
                AppState { category: category@, ..self },
                Seq::empty(),
            ),
            Message::FavoritesOnly(on) => (AppState { favorites_only: on, ..self }, Seq::empty()),
            Message::PresetPressed(id) => if self.selected == Some(id) {
                (self, self.sent(CoreCommand::LoadPreset(id)))
            } else {
                (AppState { selected: Some(id), ..self }, Seq::empty())
            },
            Message::ToggleFavorite(id) => (self.favorite_toggled(id), self.favorite_sent(id)),
            Message::ControlDragged(control, normalized) => (
                self.with_control(control, normalized),
                self.sent(CoreCommand::SetControl { control, normalized }),
            ),
            Message::PadClicked(pad) => (self, self.sent(CoreCommand::LooperPad(pad))),
            Message::KeyPressed(key, control) => match key {
                Key::ArrowDown => (self.stepped(true), Seq::empty()),
                Key::ArrowUp => (self.stepped(false), Seq::empty()),
                Key::Enter => (self, self.load_selected()),
                Key::Character(c) => match self.selected {
                    Some(id) => if c@ == "f"@ && control {
                        (self.favorite_toggled(id), self.favorite_sent(id))
                    } else {
                        (self, Seq::empty())
                    },
                    None => (self, Seq::empty()),
                },
                Key::Other => (self, Seq::empty()),
            },
            Message::OpenSettings(open) => (
                AppState {
                    page: if open {
                        Page::Settings
                    } else {
                        Page::Main
                    },
                    ..self
                },
                Seq::empty(),
            ),
            Message::Rescan => (self, self.sent(CoreCommand::RescanLibrary)),
        }
    }
}

proof fn lemma_passing(
    presets: Seq<PresetInfoView>,
    search: Seq<char>,
    category: Seq<char>,
    favorites_only: bool,
)
    ensures
        forall|k: int|
            0 <= k < passing(presets, search, category, favorites_only).len() ==> 0 <= (
            #[trigger] passing(presets, search, category, favorites_only)[k]) < presets.len()
                && passes(
                presets[passing(presets, search, category, favorites_only)[k]],
                search,
                category,
                favorites_only,
            ),
        passing(presets, search, category, favorites_only).len() <= presets.len(),
    decreases presets.len(),
{
    if presets.len() > 0 {
        lemma_passing(presets.drop_last(), search, category, favorites_only);
    }
}

proof fn lemma_place_of(presets: Seq<PresetInfoView>, shown: Seq<int>, id: i64)
    ensures
        -1 <= place_of(presets, shown, id) < shown.len(),
        place_of(presets, shown, id) >= 0 ==> presets[shown[place_of(presets, shown, id)]].id == id,
        forall|k: int|
            0 <= k < shown.len() && (place_of(presets, shown, id) < 0 || k < place_of(
                presets,
                shown,
                id,
            )) ==> presets[#[trigger] shown[k]].id != id,
    decreases shown.len(),
{
    if shown.len() > 0 {
        lemma_place_of(presets, shown.drop_last(), id);
        assert forall|k: int| 0 <= k < shown.len() - 1 implies shown.drop_last()[k]
            == #[trigger] shown[k] by {}
    }
}

proof fn lemma_place_of_first(presets: Seq<PresetInfoView>, shown: Seq<int>, id: i64, at: int)
    requires
        0 <= at < shown.len(),
        presets[shown[at]].id == id,
        forall|k: int| 0 <= k < at ==> presets[#[trigger] shown[k]].id != id,
    ensures
        place_of(presets, shown, id) == at,
{
    lemma_place_of(presets, shown, id);
    let p = place_of(presets, shown, id);
    if p >= 0 && p < at {
        assert(presets[shown[p]].id != id);
    }
    if p < 0 || at < p {
        assert(presets[shown[at]].id != id);
    }
}

proof fn lemma_preset_place(presets: Seq<PresetInfoView>, id: i64)
    ensures
        -1 <= preset_place(presets, id) < presets.len(),
        preset_place(presets, id) >= 0 ==> presets[preset_place(presets, id)].id == id,
        forall|k: int|
            0 <= k < presets.len() && (preset_place(presets, id) < 0 || k < preset_place(
                presets,
                id,
            )) ==> (#[trigger] presets[k]).id != id,
    decreases presets.len(),
{
    if presets.len() > 0 {
        lemma_preset_place(presets.drop_last(), id);
        assert forall|k: int| 0 <= k < presets.len() - 1 implies presets.drop_last()[k]
            == #[trigger] presets[k] by {}
    }
}

proof fn lemma_control_place<V>(views: Seq<ControlInfoView<V>>, control: Control)
    ensures
        -1 <= control_place(views, control) < views.len(),
        control_place(views, control) >= 0 ==> views[control_place(views, control)].control
            == control,
        forall|k: int|
            0 <= k < views.len() && (control_place(views, control) < 0 || k < control_place(
                views,
                control,
            )) ==> (#[trigger] views[k]).control != control,
    decreases views.len(),
{
    if views.len() > 0 {
        lemma_control_place(views.drop_last(), control);
        assert forall|k: int| 0 <= k < views.len() - 1 implies views.drop_last()[k]
            == #[trigger] views[k] by {}
    }
}

/// One row of the preset list.
#[derive(Debug)]
pub struct PresetLine {
    pub id: i64,
    /// The name behind a marker: loaded, favorite, or neither.
    pub label: String,
    pub author: String,
    pub selected: bool,
    pub favorite: bool,
}

/// What a [`PresetLine`] says.
pub struct LineView {
    pub id: i64,
    pub label: Seq<char>,
    pub author: Seq<char>,
    pub selected: bool,
    pub favorite: bool,
}

impl View for PresetLine {
    type V = LineView;

    open spec fn view(&self) -> LineView {
        LineView {
            id: self.id,
            label: self.label@,
            author: self.author@,
            selected: self.selected,
            favorite: self.favorite,
        }
    }
}

/// The row of a preset.
pub open spec fn line_of(
    preset: PresetInfoView,
    selected: Option<i64>,
    loaded: Option<i64>,
) -> LineView {
    let marker = if loaded == Some(preset.id) {
        "> "@
    } else if preset.favorite {
        "* "@
    } else {
        "  "@
    };
    LineView {
        id: preset.id,
        label: marker + preset.name,
        author: match preset.author {
            Some(author) => author,
            None => ""@,
        },
        selected: selected == Some(preset.id),
        favorite: preset.favorite,
    }
}

/// How a pad is painted.
#[derive(Debug, Clone, Copy, PartialEq, Eq, Structural)]
pub enum PadPaint {
    Down,
    /// In Loops mode, by the state of its slot.
    Slot(LooperUiState),
    Off,
}

impl<V: Copy> App<V> {
    /// A window that waits for its core. `zero` is the reading that the
    /// meters start with.
    pub fn new(boot: Boot, zero: V) -> (app: Self)
        ensures
            app.boot == boot,
            app@ == (AppState {
                core_started: false,
                plugin_title: "starting..."@,
                engine_running: false,
                device_connected: false,
                presets: Seq::empty(),
                categories: Seq::empty(),
                search: ""@,
                category: ALL_CATEGORIES@,
                favorites_only: false,
                selected: None,
                loaded: None,
                loaded_name: None,
                audio: None,
                control_views: Seq::empty(),
                pads: app@.pads,
                stats: Stats {
                    overruns: 0,
                    max_callback_ms: zero,
                    min_frames: 0,
                    max_frames: 0,
                    stream_errors: 0,
                    dsp_load: zero,
                    output_peak: zero,
                },
                last_error: None,
                page: Page::Main,
                pad_mode: PadMode::Notes,
                focused: 0,
                slots: app@.slots,
                loop_status: ""@,
            }),
            forall|i: int| 0 <= i < PADS ==> !(#[trigger] app@.pads[i]),
            forall|i: int| 0 <= i < SLOTS ==> #[trigger] app@.slots@[i] == LooperUiState::Empty,
    {
        let app = App {
            boot,
            core_started: false,
            plugin_title: "starting...".to_owned(),
            engine_running: false,
            device_connected: false,
            presets: Vec::new(),
            categories: Vec::new(),
            search: "".to_owned(),
            category: ALL_CATEGORIES.to_owned(),
            favorites_only: false,
            selected: None,
            loaded: None,
            loaded_name: None,
            audio: None,
            control_views: Vec::new(),
            pads: [false, false, false, false, false, false, false, false],
            stats: Stats {
                overruns: 0,
                max_callback_ms: zero,
                min_frames: 0,
                max_frames: 0,
                stream_errors: 0,
                dsp_load: zero,
                output_peak: zero,
            },
            last_error: None,
            page: Page::Main,
            pad_mode: PadMode::Notes,
            focused: 0,
            slots: [
                LooperUiState::Empty,
                LooperUiState::Empty,
                LooperUiState::Empty,
                LooperUiState::Empty,
                LooperUiState::Empty,
                LooperUiState::Empty,
                LooperUiState::Empty,
                LooperUiState::Empty,
            ],
            loop_status: "".to_owned(),
        };
        assert(app@.presets =~= Seq::<PresetInfoView>::empty());
        assert(app@.categories =~= Seq::<Seq<char>>::empty());
        assert(app@.control_views =~= Seq::<ControlInfoView<V>>::empty());
        app
    }

    /// The presets that pass the filters, by their indices.
    pub fn filtered(&self) -> (shown: Vec<usize>)
        ensures
            shown@.map_values(|i: usize| i as int) == self@.shown(),
            forall|k: int|
                0 <= k < shown@.len() ==> #[trigger] shown@[k] < self.presets@.len() && shown@[k]
                    == self@.shown()[k],
    {
        let ghost presets = self@.presets;
        let query: String = self.search.as_str().to_lowercase();
        let all: bool = same(self.category.as_str(), ALL_CATEGORIES);
        let no_query: bool = same(query.as_str(), "");
        proof {
            reveal_strlit("");
            if query@.len() == 0 {
                assert(query@ =~= ""@);
            }
        }
        let mut shown: Vec<usize> = Vec::new();
        let mut i: usize = 0;
        assert(shown@.map_values(|k: usize| k as int) =~= Seq::<int>::empty());
        while i < self.presets.len()
            invariant
                i <= self.presets@.len(),
                presets == self@.presets,
                query@ == crate::text::lowercase(self.search@),
                all == (self.category@ == ALL_CATEGORIES@),
                no_query == (query@.len() == 0),
                shown@.map_values(|k: usize| k as int) == passing(
                    presets.take(i as int),
                    self.search@,
                    self.category@,
                    self.favorites_only,
                ),
            decreases self.presets@.len() - i,
        {
            let preset = &self.presets[i];
            proof {
                let next = presets.take(i + 1);
                assert(next.drop_last() =~= presets.take(i as int));
                assert(next.last() == preset@);
            }
            let ghost prior = shown@;
            if (no_query || contains(preset.name.as_str().to_lowercase().as_str(), query.as_str()))
                && (all || opt_is(&preset.category, self.category.as_str())) && (
            !self.favorites_only || preset.favorite) {
                shown.push(i);
                assert(shown@.map_values(|k: usize| k as int) =~= prior.map_values(
                    |k: usize| k as int,
                ).push(i as int));
            }
            i += 1;
        }
        proof {
            assert(presets.take(i as int) =~= presets);
            lemma_passing(presets, self.search@, self.category@, self.favorites_only);
            assert forall|k: int| 0 <= k < shown@.len() implies #[trigger] shown@[k]
                < self.presets@.len() && shown@[k] == self@.shown()[k] by {
                assert(self@.shown()[k] == shown@.map_values(|j: usize| j as int)[k]);
            }
        }
        shown
    }

    /// The place of a preset among those shown.
    fn row_of(&self, shown: &Vec<usize>, id: i64) -> (row: Option<usize>)
        requires
            shown@.len() == self@.shown().len(),
            forall|k: int|
                0 <= k < shown@.len() ==> #[trigger] shown@[k] < self.presets@.len() && shown@[k]
                    == self@.shown()[k],
        ensures
            match row {
                Some(r) => r < shown@.len() && r == place_of(self@.presets, self@.shown(), id),
                None => place_of(self@.presets, self@.shown(), id) == -1,
            },
    {
        let mut i: usize = 0;
        while i < shown.len()
            invariant
                i <= shown@.len(),
                shown@.len() == self@.shown().len(),
                forall|k: int|
                    0 <= k < shown@.len() ==> #[trigger] shown@[k] < self.presets@.len()
                        && shown@[k] == self@.shown()[k],
                forall|k: int| 0 <= k < i ==> self@.presets[#[trigger] self@.shown()[k]].id != id,
            decreases shown@.len() - i,
        {
            assert(self@.presets[self@.shown()[i as int]] == self.presets@[shown@[i as int] as int]@);
            if self.presets[shown[i]].id == id {
                proof {
                    lemma_place_of_first(self@.presets, self@.shown(), id, i as int);
                }
                return Some(i);
            }
            i += 1;
        }
        proof {
            lemma_place_of(self@.presets, self@.shown(), id);
            let p = place_of(self@.presets, self@.shown(), id);
            if p >= 0 {
                assert(self@.presets[self@.shown()[p]].id != id);
            }
        }
        None
    }

    /// Moves the selection to the next preset shown, or to the one before.
    pub fn move_selection(&mut self, down: bool)
        ensures
            final(self)@ == old(self)@.stepped(down),
            final(self).boot == old(self).boot,
    {
        let shown = self.filtered();
        if shown.len() == 0 {
            return;
        }
        assert(shown@.len() == self@.shown().len());
        let row: Option<usize> = match self.selected {
            Some(id) => self.row_of(&shown, id),
            None => None,
        };
        let next: usize = if down {
            match row {
                Some(r) => if r + 1 < shown.len() {
                    r + 1
                } else {
                    r
                },
                None => 0,
            }
        } else {
            match row {
                Some(r) => if r > 0 {
                    r - 1
                } else {
                    0
                },
                None => 0,
            }
        };
        assert(self@.presets[self@.shown()[next as int]] == self.presets@[shown@[next as int] as int]@);
        let id: i64 = self.presets[shown[next]].id;
        self.selected = Some(id);
    }

    /// Shows a control at another position.
    pub fn set_control_view(&mut self, control: Control, normalized: V)
        ensures
            final(self)@ == old(self)@.with_control(control, normalized),
            final(self).boot == old(self).boot,
    {
        let ghost views = self@.control_views;
        let mut i: usize = 0;
        while i < self.control_views.len()
            invariant
                i <= self.control_views@.len(),
                self@ == old(self)@,
                self.boot == old(self).boot,
                views == self@.control_views,
                forall|k: int| 0 <= k < i ==> (#[trigger] views[k]).control != control,
            decreases self.control_views@.len() - i,
        {
            assert(views[i as int] == self.control_views@[i as int]@);
            if self.control_views[i].control == control {
                proof {
                    lemma_control_place(views, control);
                    let p = control_place(views, control);
                    if p < 0 || i < p {
                        assert(views[i as int].control != control);
                    }
                    assert(p == i);
                }
                self.control_views[i].normalized = normalized;
                assert(self@.control_views =~= views.update(
                    i as int,
                    ControlInfoView { normalized, ..views[i as int] },
                ));
                return;
            }
            i += 1;
        }
        proof {
            lemma_control_place(views, control);
            let p = control_place(views, control);
            if p >= 0 {
                assert(views[p].control != control);
            }
        }
    }

    /// Turns a preset's favorite flag over; gives the new one.
    fn toggle_favorite(&mut self, id: i64) -> (favorite: Option<bool>)
        ensures
            final(self)@ == old(self)@.favorite_toggled(id),
            final(self).boot == old(self).boot,
            favorite == if preset_place(old(self)@.presets, id) >= 0 {
                Some(!old(self)@.presets[preset_place(old(self)@.presets, id)].favorite)
            } else {
                None
            },
    {
        let ghost presets = self@.presets;
        let mut i: usize = 0;
        while i < self.presets.len()
            invariant
                i <= self.presets@.len(),
                self@ == old(self)@,
                self.boot == old(self).boot,
                presets == self@.presets,
                forall|k: int| 0 <= k < i ==> (#[trigger] presets[k]).id != id,
            decreases self.presets@.len() - i,
        {
            assert(presets[i as int] == self.presets@[i as int]@);
            if self.presets[i].id == id {
                proof {
                    lemma_preset_place(presets, id);
                    let p = preset_place(presets, id);
                    if p < 0 || i < p {
                        assert(presets[i as int].id != id);
                    }
                    assert(p == i);
                }
                let favorite: bool = !self.presets[i].favorite;
                self.presets[i].favorite = favorite;
                assert(self@.presets =~= presets.update(
                    i as int,
                    PresetInfoView { favorite, ..presets[i as int] },
                ));
                return Some(favorite);
            }
            i += 1;
        }
        proof {
            lemma_preset_place(presets, id);
            let p = preset_place(presets, id);
            if p >= 0 {
                assert(presets[p].id != id);
            }
        }
        None
    }

    fn send(&self, effects: &mut Vec<Effect<V>>, command: CoreCommand<V>)
        ensures
            final(effects)@ == old(effects)@ + self@.sent(command),
    {
        if self.core_started {
            effects.push(Effect::Send(command));
        }
        assert(effects@ =~= old(effects)@ + self@.sent(command));
    }

    /// An event of the core.
    #[verifier::rlimit(60)]
    #[verifier::spinoff_prover]
    pub fn on_core_event(&mut self, event: CoreEvent<V>) -> (effects: Vec<Effect<V>>)
        ensures
            final(self)@ == old(self)@.after_event(event@),
            final(self).boot == old(self).boot,
            effects@ == old(self)@.scroll_after(event@),
    {
        let mut effects: Vec<Effect<V>> = Vec::new();
        let ghost wanted = self@.scroll_after(event@);
        let ghost state = self@.after_event(event@);
        match event {
            CoreEvent::Ready {
                plugin_title,
                engine_running,
                device_connected,
                presets,
                categories,
                controls,
                audio,
                engines: _,
            } => {
                self.audio = audio;
                self.plugin_title = plugin_title;
                self.engine_running = engine_running;
                self.device_connected = device_connected;
                self.presets = presets;
                self.categories = categories;
                self.control_views = project_controls(&controls);
            },
            CoreEvent::PresetLoaded { id, name } => {
                self.loaded = Some(id);
                self.selected = Some(id);
                self.loaded_name = Some(name);
            },
            CoreEvent::PresetLoadFailed { name } => {
                self.last_error = Some(join2("load failed: ", name.as_str()));
            },
            CoreEvent::ControlChanged { control, normalized } => {
                self.set_control_view(control, normalized);
            },
            CoreEvent::Pad { index, down } => {
                if (index as usize) < PADS {
                    self.pads[index as usize] = down;
                }
            },
            CoreEvent::BrowserSelected { id } => {
                self.selected = Some(id);
                let shown = self.filtered();
                assert(shown@.len() == self@.shown().len());
                if let Some(row) = self.row_of(&shown, id) {
                    effects.push(
                        Effect::ScrollTo(
                            if row < MAX_VISIBLE_ROWS {
                                row
                            } else {
                                MAX_VISIBLE_ROWS
                            },
                        ),
                    );
                }
            },
            CoreEvent::DeviceConnected(connected) => {
                self.device_connected = connected;
            },
            CoreEvent::ControlsRebound { controls } => {
                self.control_views = project_controls(&controls);
            },
            CoreEvent::Looper { pad_mode, focused, slots, status } => {
                self.pad_mode = pad_mode;
                self.focused = focused;
                self.slots = slots;
                self.loop_status = status;
            },
            CoreEvent::LibraryRescanned { presets, categories } => {
                self.presets = presets;
                self.categories = categories;
            },
            CoreEvent::Stats {
                callbacks: _,
                overruns,
                max_callback_ms,
                min_frames,
                max_frames,
                stream_errors,
                dsp_load,
                output_peak,
            } => {
                self.stats =
                Stats {
                    overruns,
                    max_callback_ms,
                    min_frames,
                    max_frames,
                    stream_errors,
                    dsp_load,
                    output_peak,
                };
            },
            CoreEvent::Error(e) => {
                self.last_error = Some(e);
            },
        }
        assert(self@.pads =~= state.pads);
        assert(effects@ =~= wanted);
        effects
    }

    /// A message of the window.
    pub fn update(&mut self, message: Message<V>) -> (effects: Vec<Effect<V>>)
        ensures
            (final(self)@, effects@) == old(self)@.after_message(message),
            final(self).boot == old(self).boot,
    {
        let ghost wanted = self@.after_message(message);
        let mut effects: Vec<Effect<V>> = Vec::new();
        match message {
            Message::CoreStarted => {
                self.core_started = true;
            },
            Message::CoreStopped => {
                self.last_error = Some("core stopped".to_owned());
                self.engine_running = false;
            },
            Message::Core(event) => {
                return self.on_core_event(event);
            },
            Message::SearchChanged(search) => {
                self.search = search;
            },
            Message::CategorySelected(category) => {
                self.category = category;
            },
            Message::FavoritesOnly(on) => {
                self.favorites_only = on;
            },
            Message::PresetPressed(id) => {
                let again: bool = match self.selected {
                    Some(selected) => selected == id,
                    None => false,
                };
                if again {
                    self.send(&mut effects, CoreCommand::LoadPreset(id));
                } else {
                    self.selected = Some(id);
                }
            },
            Message::ToggleFavorite(id) => {
                if let Some(favorite) = self.toggle_favorite(id) {
                    self.send(&mut effects, CoreCommand::SetFavorite { id, favorite });
                }
            },
            Message::ControlDragged(control, normalized) => {
                self.set_control_view(control, normalized);
                self.send(&mut effects, CoreCommand::SetControl { control, normalized });
            },
            Message::PadClicked(pad) => {
                self.send(&mut effects, CoreCommand::LooperPad(pad));
            },
            Message::KeyPressed(key, control) => {
                match key {
                    Key::ArrowDown => self.move_selection(true),
                    Key::ArrowUp => self.move_selection(false),
                    Key::Enter => {
                        if let Some(id) = self.selected {
                            self.send(&mut effects, CoreCommand::LoadPreset(id));
                        }
                    },
                    Key::Character(c) => {
                        if control && same(c.as_str(), "f") {
                            if let Some(id) = self.selected {
                                if let Some(favorite) = self.toggle_favorite(id) {
                                    self.send(
                                        &mut effects,
                                        CoreCommand::SetFavorite { id, favorite },
                                    );
                                }
                            }
                        }
                    },
                    Key::Other => {},
                }
            },
            Message::OpenSettings(open) => {
                self.page =
                if open {
                    Page::Settings
                } else {
                    Page::Main
                };
            },
            Message::Rescan => {
                self.send(&mut effects, CoreCommand::RescanLibrary);
            },
        }
        assert(effects@ =~= wanted.1);
        effects
    }

    /// The rows of the preset list, as far as they are rendered.
    pub fn visible(&self) -> (lines: Vec<PresetLine>)
        ensures
            lines@.len() == if self@.shown().len() < MAX_VISIBLE_ROWS {
                self@.shown().len() as int
            } else {
                MAX_VISIBLE_ROWS as int
            },
            forall|k: int|
                0 <= k < lines@.len() ==> (#[trigger] lines@[k])@ == line_of(
                    self@.presets[self@.shown()[k]],
                    self.selected,
                    self.loaded,
                ),
    {
        let shown = self.filtered();
        assert(shown@.len() == self@.shown().len());
        let mut lines: Vec<PresetLine> = Vec::new();
        let mut i: usize = 0;
        while i < shown.len() && i < MAX_VISIBLE_ROWS
            invariant
                i <= shown@.len(),
                i <= MAX_VISIBLE_ROWS,
                lines@.len() == i,
                shown@.len() == self@.shown().len(),
                forall|k: int|
                    0 <= k < shown@.len() ==> #[trigger] shown@[k] < self.presets@.len()
                        && shown@[k] == self@.shown()[k],
                forall|k: int|
                    0 <= k < i ==> (#[trigger] lines@[k])@ == line_of(
                        self@.presets[self@.shown()[k]],
                        self.selected,
                        self.loaded,
                    ),
            decreases shown@.len() - i,
        {
            let preset = &self.presets[shown[i]];
            assert(self@.presets[self@.shown()[i as int]] == preset@);
            let loaded: bool = match self.loaded {
                Some(id) => id == preset.id,
                None => false,
            };
            let selected: bool = match self.selected {
                Some(id) => id == preset.id,
                None => false,
            };
            let marker: &str = if loaded {
                "> "
            } else if preset.favorite {
                "* "
            } else {
                "  "
            };
            lines.push(
                PresetLine {
                    id: preset.id,
                    label: join2(marker, preset.name.as_str()),
                    author: match &preset.author {
                        Some(author) => author.clone(),
                        None => "".to_owned(),
                    },
                    selected,
                    favorite: preset.favorite,
                },
            );
            i += 1;
        }
        lines
    }

    /// How many presets are shown, and what stands below the last row where
    /// not all of them are rendered.
    pub fn counts(&self) -> (texts: (String, Option<String>))
        ensures
            texts.0@ == crate::text::decimal(self@.shown().len()) + " presets"@,
            crate::text::opt_text(texts.1) == if self@.shown().len() > MAX_VISIBLE_ROWS {
                Some(
                    "... "@ + crate::text::decimal((self@.shown().len() - MAX_VISIBLE_ROWS) as nat)
                        + " more; refine the search"@,
                )
            } else {
                None
            },
    {
        let shown = self.filtered();
        assert(shown@.len() == self@.shown().len());
        let total: usize = shown.len();
        let more: Option<String> = if total > MAX_VISIBLE_ROWS {
            Some(
                join3(
                    "... ",
                    decimal_text((total - MAX_VISIBLE_ROWS) as u64).as_str(),
                    " more; refine the search",
                ),
            )
        } else {
            None
        };
        (join2(decimal_text(total as u64).as_str(), " presets"), more)
    }

    /// The choices of the category selector.
    pub fn category_choices(&self) -> (choices: Vec<String>)
        ensures
            crate::text::texts(choices@) == seq![ALL_CATEGORIES@] + self@.categories,
    {
        let mut choices: Vec<String> = copy_list(&self.categories);
        choices.insert(0, ALL_CATEGORIES.to_owned());
        assert(crate::text::texts(choices@) =~= seq![ALL_CATEGORIES@] + self@.categories);
        choices
    }

    /// The preset that plays.
    pub fn now_playing(&self) -> (text: String)
        ensures
            text@ == match self@.loaded_name {
                Some(name) => name,
                None => "no preset loaded"@,
            },
    {
        match &self.loaded_name {
            Some(name) => name.clone(),
            None => "no preset loaded".to_owned(),
        }
    }

    /// The audio stream in words.
    pub fn audio_text(&self) -> (text: String)
        ensures
            text@ == audio_words(self@.audio, self.engine_running),
    {
        match &self.audio {
            Some(a) => {
                let name: &str = match &a.device_name {
                    Some(name) => name.as_str(),
                    None => "audio",
                };
                let mut text = join3(name, " ", decimal_text(a.sample_rate as u64).as_str());
                text.append(" Hz ");
                text.append(a.sample_format.as_str());
                text
            },
            None => if self.engine_running {
                "audio".to_owned()
            } else {
                "no audio (stub)".to_owned()
            },
        }
    }

    /// The status bar. The meter, the load in percent and the longest
    /// callback come as texts.
    pub fn status_text(&self, meter: &str, load: &str, longest: &str) -> (text: String)
        ensures
            text@ == status_words(self@, meter@, load@, longest@),
    {
        let midi: &str = if self.device_connected {
            "connected"
        } else {
            "absent"
        };
        let mut text = join3("MIDI: ", midi, "   ");
        text.append(self.audio_text().as_str());
        text.append("   ");
        text.append(meter);
        text.append("   dsp ");
        text.append(load);
        text.append("%   frames ");
        text.append(decimal_text(self.stats.min_frames).as_str());
        text.append("..");
        text.append(decimal_text(self.stats.max_frames).as_str());
        text.append("   overruns ");
        text.append(decimal_text(self.stats.overruns).as_str());
        text.append("   max ");
        text.append(longest);
        text.append(" ms   stream errors ");
        text.append(decimal_text(self.stats.stream_errors).as_str());
        if let Some(e) = &self.last_error {
            text.append("   [");
            text.append(e.as_str());
            text.append("]");
        }
        text
    }

    /// Whether the status bar is shown as a warning.
    pub fn warns(&self) -> (r: bool)
        ensures
            r == (self.stats.overruns > 0 || self@.last_error is Some),
    {
        self.stats.overruns > 0 || self.last_error.is_some()
    }

    /// The display state of a control, if it is bound.
    pub fn control_view(&self, control: Control) -> (view: Option<&ControlView<V>>)
        ensures
            match view {
                Some(v) => control_place(self@.control_views, control) >= 0 && v@
                    == self@.control_views[control_place(self@.control_views, control)],
                None => control_place(self@.control_views, control) < 0,
            },
    {
        let ghost views = self@.control_views;
        let mut i: usize = 0;
        while i < self.control_views.len()
            invariant
                i <= self.control_views@.len(),
                views == self@.control_views,
                forall|k: int| 0 <= k < i ==> (#[trigger] views[k]).control != control,
            decreases self.control_views@.len() - i,
        {
            assert(views[i as int] == self.control_views@[i as int]@);
            if self.control_views[i].control == control {
                proof {
                    lemma_control_place(views, control);
                    let p = control_place(views, control);
                    if p < 0 || i < p {
                        assert(views[i as int].control != control);
                    }
                }
                return Some(&self.control_views[i]);
            }
            i += 1;
        }
        proof {
            lemma_control_place(views, control);
            let p = control_place(views, control);
            if p >= 0 {
                assert(views[p].control != control);
            }
        }
        None
    }

    /// The label of a control: its own, or its place on the device.
    pub fn control_label(&self, control: Control) -> (label: String)
        ensures
            label@ == {
                let at = control_place(self@.control_views, control);
                if at >= 0 {
                    self@.control_views[at].label
                } else {
                    place_words(control)
                }
            },
    {
        match self.control_view(control) {
            Some(view) => view.label.clone(),
            None => match control {
                Control::Encoder(i) => join2("Enc ", decimal_text(i as u64 + 1).as_str()),
                Control::Fader(i) => join2("F", decimal_text(i as u64 + 1).as_str()),
            },
        }
    }

    /// How a pad is painted.
    pub fn pad_paint(&self, pad: usize) -> (paint: PadPaint)
        requires
            pad < PADS,
        ensures
            paint == if self@.pads[pad as int] {
                PadPaint::Down
            } else if self.pad_mode == PadMode::Loops {
                PadPaint::Slot(self.slots@[pad as int])
            } else {
                PadPaint::Off
            },
    {
        if self.pads[pad] {
            PadPaint::Down
        } else if self.pad_mode == PadMode::Loops {
            PadPaint::Slot(self.slots[pad])
        } else {
            PadPaint::Off
        }
    }
}

/// The text of [`App::audio_text`].
pub open spec fn audio_words(audio: Option<AudioInfoView>, running: bool) -> Seq<char> {
    match audio {
        Some(a) => (match a.device_name {
            Some(name) => name,
            None => "audio"@,
        }) + " "@ + crate::text::decimal(a.sample_rate as nat) + " Hz "@ + a.sample_format,
        None => if running {
            "audio"@
        } else {
            "no audio (stub)"@
        },
    }
}

/// The text of [`App::status_text`].
pub open spec fn status_words<V>(
    state: AppState<V>,
    meter: Seq<char>,
    load: Seq<char>,
    longest: Seq<char>,
) -> Seq<char> {
    let front = "MIDI: "@ + (if state.device_connected {
        "connected"@
    } else {
        "absent"@
    }) + "   "@ + audio_words(state.audio, state.engine_running) + "   "@ + meter + "   dsp "@
        + load + "%   frames "@ + crate::text::decimal(state.stats.min_frames as nat) + ".."@
        + crate::text::decimal(state.stats.max_frames as nat) + "   overruns "@
        + crate::text::decimal(state.stats.overruns as nat) + "   max "@ + longest
        + " ms   stream errors "@ + crate::text::decimal(state.stats.stream_errors as nat);
    match state.last_error {
        Some(e) => front + "   ["@ + e + "]"@,
        None => front,
    }
}

/// A control named by its place on the device.
pub open spec fn place_words(control: Control) -> Seq<char> {
    match control {
        Control::Encoder(i) => "Enc "@ + crate::text::decimal((i + 1) as nat),
        Control::Fader(i) => "F"@ + crate::text::decimal((i + 1) as nat),
    }
}

/// Segments of the level meter.
pub const METER_SEGMENTS: usize = 8;

/// The level meter: lit segments of eight, and the level in words.
pub fn meter_text(lit: usize, level: &str) -> (text: String)
    requires
        lit <= METER_SEGMENTS,
    ensures
        text@ == "out ["@ + crate::text::repeated('#', lit as nat) + crate::text::repeated(
            '-',
            (METER_SEGMENTS - lit) as nat,
        ) + "] "@ + level@,
{
    let mut text = "out [".to_owned();
    push_repeated(&mut text, '#', lit);
    push_repeated(&mut text, '-', METER_SEGMENTS - lit);
    text.append("] ");
    text.append(level);
    text
}

/// A fader's label; columns are narrow, so it is shortened rather than let
/// neighbouring labels collide.
pub fn fader_label(label: &str, narrow: bool) -> (text: String)
    ensures
        text@ == if narrow && label@.len() > 3 {
            label@.take(3)
        } else {
            label@
        },
{
    let chars = chars_of(label);
    if narrow && chars.len() > 3 {
        let text = slice_text(&chars, 0, 3);
        assert(text@ =~= label@.take(3));
        text
    } else {
        label.to_owned()
    }
}

/// The settings page: names and values.
pub fn settings(boot: &Boot) -> (entries: Vec<(String, String)>)
    ensures
        entries@.len() == 7,
        entries@[0].0@ == "Plugin"@,
        entries@[0].1@ == boot.plugin_match@,
        entries@[1].0@ == "Mapping file"@,
        entries@[1].1@ == match boot.mapping_path {
            Some(path) => path@,
            None => "mappings/surge-xt.toml"@,
        },
        entries@[2].0@ == "Sample rate (requested)"@,
        entries@[2].1@ == crate::text::decimal(boot.sample_rate as nat) + " Hz"@,
        entries@[3].0@ == "Buffer (requested)"@,
        entries@[3].1@ == crate::text::decimal(boot.buffer_frames as nat) + " frames"@,
        entries@[4].0@ == "Control map"@,
        entries@[4].1@ == if boot.arturia_mode {
            "Arturia mode"@
        } else {
            "DAW mode"@
        },
        entries@[5].0@ == "MIDI port match"@,
        entries@[5].1@ == "minilab3 midi (see labctl ports)"@,
        entries@[6].0@ == "Plugin search paths"@,
        entries@[6].1@ == "CLAP standard paths + $CLAP_PATH"@,
{
    let mut entries: Vec<(String, String)> = Vec::new();
    entries.push(("Plugin".to_owned(), boot.plugin_match.clone()));
    entries.push(
        (
            "Mapping file".to_owned(),
            match &boot.mapping_path {
                Some(path) => path.clone(),
                None => "mappings/surge-xt.toml".to_owned(),
            },
        ),
    );
    entries.push(
        (
            "Sample rate (requested)".to_owned(),
            join2(decimal_text(boot.sample_rate as u64).as_str(), " Hz"),
        ),
    );
    entries.push(
        (
            "Buffer (requested)".to_owned(),
            join2(decimal_text(boot.buffer_frames as u64).as_str(), " frames"),
        ),
    );
    entries.push(
        (
            "Control map".to_owned(),
            if boot.arturia_mode {
                "Arturia mode".to_owned()
            } else {
                "DAW mode".to_owned()
            },
        ),
    );
    entries.push(
        ("MIDI port match".to_owned(), "minilab3 midi (see labctl ports)".to_owned()),
    );
    entries.push(
        ("Plugin search paths".to_owned(), "CLAP standard paths + $CLAP_PATH".to_owned()),
    );
    entries
}

/// No command leaves the window before the core has started.
pub proof fn law_nothing_is_sent_before_the_core_starts<V>(
    state: AppState<V>,
    message: Message<V>,
    i: int,
)
    requires
        !state.core_started,
        0 <= i < state.after_message(message).1.len(),
    ensures
        state.after_message(message).1[i] is ScrollTo,
{
}

/// Toggling a favorite twice puts it back.
pub proof fn law_toggling_twice_undoes<V>(state: AppState<V>, id: i64)
    ensures
        state.favorite_toggled(id).favorite_toggled(id).presets == state.presets,
{
    lemma_preset_place(state.presets, id);
    let at = preset_place(state.presets, id);
    let once = state.favorite_toggled(id).presets;
    if at >= 0 {
        lemma_preset_place(once, id);
        let p = preset_place(once, id);
        if p < 0 || at < p {
            assert(once[at].id != id);
        }
        if 0 <= p < at {
            assert(state.presets[p].id != id);
        }
        assert(state.favorite_toggled(id).favorite_toggled(id).presets =~= state.presets);
    }
}

/// Arrow keys only select presets that are shown.
pub proof fn law_arrows_select_what_is_shown<V>(state: AppState<V>, down: bool)
    requires
        state.shown().len() > 0,
    ensures
        state.stepped(down).selected_row() >= 0,
{
    let shown = state.shown();
    let next = state.stepped(down);
    lemma_passing(state.presets, state.search, state.category, state.favorites_only);
    if let Some(id) = state.selected {
        lemma_place_of(state.presets, shown, id);
    }
    let id = next.selected->0;
    lemma_place_of(state.presets, shown, id);
    let row = state.selected_row();
    let k = if down {
        if row + 1 < shown.len() {
            row + 1
        } else {
            row
        }
    } else if row > 0 {
        row - 1
    } else {
        0
    };
    if place_of(state.presets, shown, id) < 0 {
        assert(state.presets[shown[k]].id != id);
    }
}

/// Without filters the list shows every preset.
pub proof fn law_no_filter_shows_everything(presets: Seq<PresetInfoView>, search: Seq<char>)
    requires
        crate::text::lowercase(search).len() == 0,
    ensures
        passing(presets, search, ALL_CATEGORIES@, false) == Seq::new(presets.len(), |i: int| i),
    decreases presets.len(),
{
    if presets.len() > 0 {
        law_no_filter_shows_everything(presets.drop_last(), search);
    }
    assert(passing(presets, search, ALL_CATEGORIES@, false) =~= Seq::new(
        presets.len(),
        |i: int| i,
    ));
}

/// A preset is shown where its name holds the search text, whatever the
/// case, it is of the chosen category, and it is a favorite where only those
/// are wanted. Everything that passes is shown once, in order.
pub proof fn law_the_filters_decide_what_is_shown<V>(state: AppState<V>, i: int)
    ensures
        state.shown().contains(i) <==> {
            &&& 0 <= i < state.presets.len()
            &&& crate::text::lowercase(state.search).len() == 0 || crate::text::occurs(
                crate::text::lowercase(state.presets[i].name),
                crate::text::lowercase(state.search),
            )
            &&& state.category == "All"@ || state.presets[i].category == Some(state.category)
            &&& state.favorites_only ==> state.presets[i].favorite
        },
        forall|a: int, b: int|
            0 <= a < b < state.shown().len() ==> (#[trigger] state.shown()[a]) < (
            #[trigger] state.shown()[b]),
{
    lemma_passing(state.presets, state.search, state.category, state.favorites_only);
    lemma_passing_all(state.presets, state.search, state.category, state.favorites_only, i);
}

proof fn lemma_passing_all(
    presets: Seq<PresetInfoView>,
    search: Seq<char>,
    category: Seq<char>,
    favorites_only: bool,
    i: int,
)
    ensures
        0 <= i < presets.len() && passes(presets[i], search, category, favorites_only) ==> passing(
            presets,
            search,
            category,
            favorites_only,
        ).contains(i),
        forall|a: int, b: int|
            0 <= a < b < passing(presets, search, category, favorites_only).len() ==> (
            #[trigger] passing(presets, search, category, favorites_only)[a]) < (#[trigger] passing(
                presets,
                search,
                category,
                favorites_only,
            )[b]),
    decreases presets.len(),
{
    if presets.len() > 0 {
        let rest = presets.drop_last();
        lemma_passing(rest, search, category, favorites_only);
        lemma_passing_all(rest, search, category, favorites_only, i);
        let front = passing(rest, search, category, favorites_only);
        let all = passing(presets, search, category, favorites_only);
        if 0 <= i < presets.len() && passes(presets[i], search, category, favorites_only) {
            if i < rest.len() {
                assert(rest[i] == presets[i]);
                let k = choose|k: int| 0 <= k < front.len() && front[k] == i;
                assert(all[k] == i);
            } else {
                assert(all[front.len() as int] == i);
            }
        }
        assert forall|a: int, b: int| 0 <= a < b < all.len() implies (#[trigger] all[a]) < (
        #[trigger] all[b]) by {
            assert(all[a] == front[a]);
            if b < front.len() {
                assert(all[b] == front[b]);
            }
        }
    }
}

/// The selected row is the first shown row that holds the selected preset.
pub proof fn law_the_selected_row_holds_the_selection<V>(state: AppState<V>, k: int)
    ensures
        state.selected is None ==> state.selected_row() == -1,
        -1 <= state.selected_row() < state.shown().len(),
        state.selected_row() >= 0 ==> state.selected == Some(
            state.presets[state.shown()[state.selected_row()]].id,
        ),
        0 <= k < state.shown().len() && state.selected == Some(state.presets[state.shown()[k]].id)
            ==> 0 <= state.selected_row() <= k,
{
    if let Some(id) = state.selected {
        lemma_place_of(state.presets, state.shown(), id);
    }
}

/// An arrow key selects the neighbouring row, and stays at the ends of the
/// list; with nothing selected, either key selects the top row. Nothing else
/// changes.
pub proof fn law_arrows_select_the_neighbour<V>(state: AppState<V>, down: bool)
    ensures
        ({
            let (rows, row, next) = (state.shown(), state.selected_row(), state.stepped(down));
            &&& next == (AppState { selected: next.selected, ..state })
            &&& rows.len() == 0 ==> next.selected == state.selected
            &&& rows.len() > 0 && row < 0 ==> next.selected == Some(state.presets[rows[0]].id)
            &&& rows.len() > 0 && row >= 0 && down && row + 1 < rows.len() ==> next.selected
                == Some(state.presets[rows[row + 1]].id)
            &&& rows.len() > 0 && row >= 0 && down && row + 1 >= rows.len() ==> next.selected
                == state.selected
            &&& row > 0 && !down ==> next.selected == Some(state.presets[rows[row - 1]].id)
            &&& row == 0 && !down ==> next.selected == state.selected
        }),
{
    law_the_selected_row_holds_the_selection(state, 0);
}

/// Toggling a favorite turns the flag of that preset over, here and in what
/// the core is told, and nothing else.
pub proof fn law_a_toggled_favorite_is_turned_over<V>(state: AppState<V>, at: int)
    requires
        0 <= at < state.presets.len(),
        forall|k: int| 0 <= k < at ==> (#[trigger] state.presets[k]).id != state.presets[at].id,
    ensures
        ({
            let id = state.presets[at].id;
            let next = state.favorite_toggled(id);
            &&& next == (AppState { presets: next.presets, ..state })
            &&& next.presets.len() == state.presets.len()
            &&& next.presets[at] == (PresetInfoView {
                favorite: !state.presets[at].favorite,
                ..state.presets[at]
            })
            &&& forall|k: int|
                0 <= k < state.presets.len() && k != at ==> (#[trigger] next.presets[k])
                    == state.presets[k]
            &&& state.core_started ==> state.favorite_sent(id) == seq![
                Effect::<V>::Send(
                    CoreCommand::SetFavorite { id, favorite: next.presets[at].favorite },
                ),
            ]
        }),
{
    let id = state.presets[at].id;
    lemma_preset_place(state.presets, id);
    let p = preset_place(state.presets, id);
    if p < 0 || at < p {
        assert(state.presets[at].id != id);
    }
    if 0 <= p < at {
        assert(state.presets[p].id != id);
    }
}

/// A preset that is not there cannot be toggled.
pub proof fn law_unknown_presets_are_not_toggled<V>(state: AppState<V>, id: i64)
    requires
        forall|k: int| 0 <= k < state.presets.len() ==> (#[trigger] state.presets[k]).id != id,
    ensures
        state.favorite_toggled(id) == state,
        state.favorite_sent(id).len() == 0,
{
    lemma_preset_place(state.presets, id);
}

/// A moved control is displayed at its new position, with its own label; the
/// others stay where they are.
pub proof fn law_a_moved_control_is_displayed<V>(state: AppState<V>, at: int, normalized: V)
    requires
        0 <= at < state.control_views.len(),
        forall|k: int|
            0 <= k < at ==> (#[trigger] state.control_views[k]).control
                != state.control_views[at].control,
    ensures
        ({
            let next = state.with_control(state.control_views[at].control, normalized);
            &&& next == (AppState { control_views: next.control_views, ..state })
            &&& next.control_views.len() == state.control_views.len()
            &&& next.control_views[at] == (ControlInfoView { normalized, ..state.control_views[at] })
            &&& forall|k: int|
                0 <= k < state.control_views.len() && k != at ==> (#[trigger] next.control_views[k])
                    == state.control_views[k]
        }),
{
    let control = state.control_views[at].control;
    lemma_control_place(state.control_views, control);
    let p = control_place(state.control_views, control);
    if p < 0 || at < p {
        assert(state.control_views[at].control != control);
    }
    if 0 <= p < at {
        assert(state.control_views[p].control != control);
    }
}

/// A control that is not displayed changes nothing when it moves.
pub proof fn law_unbound_controls_change_nothing<V>(
    state: AppState<V>,
    control: Control,
    normalized: V,
)
    requires
        forall|k: int|
            0 <= k < state.control_views.len() ==> (#[trigger] state.control_views[k]).control
                != control,
    ensures
        control_place(state.control_views, control) < 0,
        state.with_control(control, normalized) == state,
{
    lemma_control_place(state.control_views, control);
}

/// Each event of the core is shown as it says, and changes nothing else.
pub proof fn law_events_are_shown_as_they_say<V>(state: AppState<V>, event: CoreEventView<V>)
    ensures
        ({
            let next = state.after_event(event);
            match event {
                CoreEventView::Ready {
                    plugin_title,
                    engine_running,
                    device_connected,
                    presets,
                    categories,
                    controls,
                    audio,
                    engines,
                } => {
                    &&& next.plugin_title == plugin_title && next.engine_running == engine_running
                    &&& next.device_connected == device_connected && next.presets == presets
                    &&& next.categories == categories && next.control_views == controls
                    &&& next.audio == audio && next == (AppState {
                        plugin_title: next.plugin_title,
                        engine_running: next.engine_running,
                        device_connected: next.device_connected,
                        presets: next.presets,
                        categories: next.categories,
                        control_views: next.control_views,
                        audio: next.audio,
                        ..state
                    })
                },
                CoreEventView::PresetLoaded { id, name } => {
                    &&& next.loaded == Some(id) && next.selected == Some(id)
                    &&& next.loaded_name == Some(name) && next == (AppState {
                        loaded: next.loaded,
                        selected: next.selected,
                        loaded_name: next.loaded_name,
                        ..state
                    })
                },
                CoreEventView::PresetLoadFailed { name } => {
                    &&& next.last_error == Some("load failed: "@ + name)
                    &&& next == (AppState { last_error: next.last_error, ..state })
                },
                CoreEventView::ControlChanged { control, normalized } => next
                    == state.with_control(control, normalized),
                CoreEventView::Pad { index, down } => {
                    &&& next == (AppState { pads: next.pads, ..state })
                    &&& next.pads.len() == state.pads.len()
                    &&& index < state.pads.len() ==> next.pads[index as int] == down
                    &&& forall|k: int|
                        0 <= k < state.pads.len() && k != index ==> (#[trigger] next.pads[k])
                            == state.pads[k]
                },
                CoreEventView::BrowserSelected { id } => {
                    &&& next.selected == Some(id)
                    &&& next == (AppState { selected: next.selected, ..state })
                },
                CoreEventView::ControlsRebound { controls } => {
                    &&& next.control_views == controls
                    &&& next == (AppState { control_views: next.control_views, ..state })
                },
                CoreEventView::DeviceConnected(connected) => {
                    &&& next.device_connected == connected
                    &&& next == (AppState { device_connected: next.device_connected, ..state })
                },
                CoreEventView::Looper { pad_mode, focused, slots, status } => {
                    &&& next.pad_mode == pad_mode && next.focused == focused
                    &&& next.slots == slots && next.loop_status == status && next == (AppState {
                        pad_mode: next.pad_mode,
                        focused: next.focused,
                        slots: next.slots,
                        loop_status: next.loop_status,
                        ..state
                    })
                },
                CoreEventView::LibraryRescanned { presets, categories } => {
                    &&& next.presets == presets && next.categories == categories
                    &&& next == (AppState {
                        presets: next.presets,
                        categories: next.categories,
                        ..state
                    })
                },
                CoreEventView::Stats {
                    callbacks,
                    overruns,
                    max_callback_ms,
                    min_frames,
                    max_frames,
                    stream_errors,
                    dsp_load,
                    output_peak,
                } => {
                    &&& next.stats.overruns == overruns
                    &&& next.stats.max_callback_ms == max_callback_ms
                    &&& next.stats.min_frames == min_frames && next.stats.max_frames == max_frames
                    &&& next.stats.stream_errors == stream_errors
                    &&& next.stats.dsp_load == dsp_load && next.stats.output_peak == output_peak
                    &&& next == (AppState { stats: next.stats, ..state })
                },
                CoreEventView::Error(text) => {
                    &&& next.last_error == Some(text)
                    &&& next == (AppState { last_error: next.last_error, ..state })
                },
            }
        }),
{
}

/// The list follows the hardware browser: it scrolls to the selected row, or
/// to the end of what is rendered, and for no other event.
pub proof fn law_the_list_follows_the_browser<V>(state: AppState<V>, event: CoreEventView<V>)
    ensures
        !(event is BrowserSelected) ==> state.scroll_after(event).len() == 0,
        event matches CoreEventView::BrowserSelected { id } ==> {
            let row = place_of(state.presets, state.shown(), id);
            let asked = state.scroll_after(event);
            &&& row < 0 ==> asked.len() == 0
            &&& row >= 0 ==> asked.len() == 1 && asked[0] is ScrollTo
            &&& 0 <= row <= 200 ==> asked[0]->ScrollTo_0 == row
            &&& row > 200 ==> asked[0]->ScrollTo_0 == 200
        },
{
}

/// What the user does reaches the core as meant, once there is one, and
/// changes what it is about and nothing else.
pub proof fn law_messages_do_what_the_user_means<V>(state: AppState<V>, message: Message<V>)
    requires
        state.core_started,
    ensures
        ({
            let (next, asked) = state.after_message(message);
            match message {
                Message::CoreStarted => next == state && asked.len() == 0,
                Message::Core(event) => next == state.after_event(event@) && asked
                    == state.scroll_after(event@),
                Message::CoreStopped => {
                    &&& next.last_error == Some("core stopped"@) && !next.engine_running
                    &&& asked.len() == 0 && next == (AppState {
                        last_error: next.last_error,
                        engine_running: false,
                        ..state
                    })
                },
                Message::SearchChanged(search) => {
                    &&& next.search == search@ && asked.len() == 0
                    &&& next == (AppState { search: next.search, ..state })
                },
                Message::CategorySelected(category) => {
                    &&& next.category == category@ && asked.len() == 0
                    &&& next == (AppState { category: next.category, ..state })
                },
                Message::FavoritesOnly(on) => {
                    &&& next.favorites_only == on && asked.len() == 0
                    &&& next == (AppState { favorites_only: next.favorites_only, ..state })
                },
                Message::PresetPressed(id) => {
                    &&& next.selected == Some(id)
                    &&& next == (AppState { selected: next.selected, ..state })
                    &&& state.selected == Some(id) ==> asked == seq![
                        Effect::<V>::Send(CoreCommand::LoadPreset(id)),
                    ]
                    &&& state.selected != Some(id) ==> asked.len() == 0
                },
                Message::ToggleFavorite(id) => next == state.favorite_toggled(id) && asked
                    == state.favorite_sent(id),
                Message::ControlDragged(control, normalized) => {
                    &&& next == state.with_control(control, normalized)
                    &&& asked == seq![
                        Effect::<V>::Send(CoreCommand::SetControl { control, normalized }),
                    ]
                },
                Message::PadClicked(pad) => next == state && asked == seq![
                    Effect::<V>::Send(CoreCommand::LooperPad(pad)),
                ],
                Message::KeyPressed(key, control) => {
                    &&& key is ArrowDown ==> next == state.stepped(true) && asked.len() == 0
                    &&& key is ArrowUp ==> next == state.stepped(false) && asked.len() == 0
                    &&& key is Enter ==> next == state && match state.selected {
                        Some(id) => asked == seq![
                            Effect::<V>::Send(CoreCommand::LoadPreset(id)),
                        ],
                        None => asked.len() == 0,
                    }
                    &&& key is Other ==> next == state && asked.len() == 0
                    &&& key is Character ==> if control && key->Character_0@ == "f"@
                        && state.selected is Some {
                        next == state.favorite_toggled(state.selected->0) && asked
                            == state.favorite_sent(state.selected->0)
                    } else {
                        next == state && asked.len() == 0
                    }
                },
                Message::OpenSettings(open) => {
                    &&& next.page == if open {
                        Page::Settings
                    } else {
                        Page::Main
                    }
                    &&& asked.len() == 0 && next == (AppState { page: next.page, ..state })
                },
                Message::Rescan => next == state && asked == seq![
                    Effect::<V>::Send(CoreCommand::RescanLibrary),
                ],
            }
        }),
{
}

/// Once the core has started, commands are sent; nothing else starts it.
pub proof fn law_the_core_starts_once_told<V>(state: AppState<V>, message: Message<V>)
    ensures
        state.after_message(message).0.core_started <==> state.core_started
            || message is CoreStarted,
{
}

/// A row names its preset, marks it as loaded or else as a favorite, and
/// knows whether it is the selected one.
pub proof fn law_rows_name_their_preset(
    preset: PresetInfoView,
    selected: Option<i64>,
    loaded: Option<i64>,
)
    ensures
        ({
            let line = line_of(preset, selected, loaded);
            &&& line.id == preset.id && line.favorite == preset.favorite
            &&& line.label.len() == preset.name.len() + 2 && line.label.skip(2) == preset.name
            &&& line.label[1] == ' '
            &&& line.label[0] == '>' <==> loaded == Some(preset.id)
            &&& line.label[0] == '*' <==> loaded != Some(preset.id) && preset.favorite
            &&& line.label[0] == '>' || line.label[0] == '*' || line.label[0] == ' '
            &&& preset.author is Some ==> line.author == preset.author->0
            &&& preset.author is None ==> line.author.len() == 0
            &&& line.selected <==> selected == Some(preset.id)
        }),
        MAX_VISIBLE_ROWS == 200,
        METER_SEGMENTS == 8,
        PADS == 8,
{
    reveal_strlit("> ");
    reveal_strlit("* ");
    reveal_strlit("  ");
    reveal_strlit("");
    let line = line_of(preset, selected, loaded);
    assert(line.label.skip(2) =~= preset.name);
}

/// The stream is described by its device, rate and format; without one, by
/// whether an engine runs.
pub proof fn law_the_stream_is_described(audio: AudioInfoView, name: Seq<char>, running: bool)
    ensures
        audio.device_name == Some(name) ==> audio_words(Some(audio), running) == name + " "@
            + crate::text::decimal(audio.sample_rate as nat) + " Hz "@ + audio.sample_format,
        audio.device_name is None ==> audio_words(Some(audio), running) == "audio"@ + " "@
            + crate::text::decimal(audio.sample_rate as nat) + " Hz "@ + audio.sample_format,
        audio_words(None, true) == "audio"@,
        audio_words(None, false) == "no audio (stub)"@,
{
}

/// The status bar gives every reading under its name, and the last error
/// where there was one.
pub proof fn law_the_status_gives_every_reading<V>(
    state: AppState<V>,
    meter: Seq<char>,
    load: Seq<char>,
    longest: Seq<char>,
)
    ensures
        ({
            let quiet = AppState { last_error: None, ..state };
            let words = status_words(quiet, meter, load, longest);
            &&& words == "MIDI: "@ + (if state.device_connected {
                "connected"@
            } else {
                "absent"@
            }) + "   "@ + audio_words(state.audio, state.engine_running) + "   "@ + meter
                + "   dsp "@ + load + "%   frames "@ + crate::text::decimal(
                state.stats.min_frames as nat,
            ) + ".."@ + crate::text::decimal(state.stats.max_frames as nat) + "   overruns "@
                + crate::text::decimal(state.stats.overruns as nat) + "   max "@ + longest
                + " ms   stream errors "@ + crate::text::decimal(state.stats.stream_errors as nat)
            &&& state.last_error is None ==> status_words(state, meter, load, longest) == words
            &&& state.last_error matches Some(e) ==> status_words(state, meter, load, longest)
                == words + "   ["@ + e + "]"@
        }),
{
}

/// A control without a label goes by its place, counted from one.
pub proof fn law_places_are_counted_from_one(i: u8)
    ensures
        place_words(Control::Encoder(i)) == "Enc "@ + crate::text::decimal((i + 1) as nat),
        place_words(Control::Fader(i)) == "F"@ + crate::text::decimal((i + 1) as nat),
{
}

} // verus!
