//! What the core shows when it starts: presets, engines and bound controls
//! as the frontend sees them, and which mapping file applies.

use vstd::prelude::*;

use crate::app_core::browser::{BrowseItem, BrowseView};
use crate::app_core::mapping::{
    Binding, BindingView, ControlsView, MacroControls, MappingErrorView, MappingFile,
};
use crate::app_core::messages::{
    ControlInfo, ControlInfoView, CoreEvent, CoreEventView, EngineInfo, EngineInfoView, PresetInfo,
    PresetInfoView,
};
use crate::engine::audio::AudioInfo;
use crate::engine::discovery::PluginInfo;
use crate::engine::params::ParamDescription;
use crate::library::{Filter, FilterView, PresetRow, RowView};
use crate::paths::path_extension;
use crate::text::{before, copy_opt, join2, join3, same};

verus! {

// ---------------------------------------------------------------------
// Projections
// ---------------------------------------------------------------------

/// A preset as the frontend sees it: its author is the first creator.
pub open spec fn shown_preset(row: RowView) -> PresetInfoView {
    PresetInfoView {
        id: row.id,
        name: row.name,
        category: row.category,
        author: if row.creators.len() > 0 {
            Some(row.creators[0])
        } else {
            None
        },
        favorite: row.favorite,
    }
}

impl<'a> From<&'a PresetRow> for PresetInfo {
    fn from(row: &'a PresetRow) -> (info: Self) {
        PresetInfo {
            id: row.id,
            name: row.name.clone(),
            category: copy_opt(&row.category),
            author: if row.creators.len() > 0 {
                Some(row.creators[0].clone())
            } else {
                None
            },
            favorite: row.favorite,
        }
    }
}

impl<'a> vstd::std_specs::convert::FromSpecImpl<&'a PresetRow> for PresetInfo {
    open spec fn obeys_from_spec() -> bool {
        true
    }

    open spec fn from_spec(row: &'a PresetRow) -> Self {
        PresetInfo {
            id: row.id,
            name: row.name,
            category: row.category,
            author: if row.creators@.len() > 0 {
                Some(row.creators@[0])
            } else {
                None
            },
            favorite: row.favorite,
        }
    }
}

/// What a list of rows says.
pub open spec fn rows_view(rows: Seq<PresetRow>) -> Seq<RowView> {
    rows.map_values(|r: PresetRow| r@)
}

/// The presets of a list of rows, as the frontend sees them.
pub open spec fn shown_presets(rows: Seq<RowView>) -> Seq<PresetInfoView> {
    rows.map_values(|r: RowView| shown_preset(r))
}

/// Projects library rows for the frontend.
pub fn preset_infos(rows: &Vec<PresetRow>) -> (infos: Vec<PresetInfo>)
    ensures
        crate::app_core::messages::presets_view(infos@) == shown_presets(rows_view(rows@)),
{
    let mut infos: Vec<PresetInfo> = Vec::new();
    let mut i: usize = 0;
    while i < rows.len()
        invariant
            i <= rows@.len(),
            infos@.len() == i,
            forall|j: int| 0 <= j < i ==> (#[trigger] infos@[j])@ == shown_preset(rows@[j]@),
        decreases rows@.len() - i,
    {
        let info = PresetInfo::from(&rows[i]);
        assert(info@ =~= shown_preset(rows@[i as int]@));
        infos.push(info);
        i += 1;
    }
    assert(crate::app_core::messages::presets_view(infos@) =~= shown_presets(rows_view(rows@)));
    infos
}

/// A row as the hardware browser sees it.
pub open spec fn browsed(row: RowView) -> BrowseView {
    BrowseView {
        id: row.id,
        name: row.name,
        category: row.category,
        path: row.path,
        load_key: row.load_key,
    }
}

/// Projects library rows for the hardware browser.
pub fn browse_items(rows: &Vec<PresetRow>) -> (items: Vec<BrowseItem>)
    ensures
        crate::app_core::browser::items_view(items@) == rows_view(rows@).map_values(
            |r: RowView| browsed(r),
        ),
{
    let mut items: Vec<BrowseItem> = Vec::new();
    let mut i: usize = 0;
    while i < rows.len()
        invariant
            i <= rows@.len(),
            items@.len() == i,
            forall|j: int| 0 <= j < i ==> (#[trigger] items@[j])@ == browsed(rows@[j]@),
        decreases rows@.len() - i,
    {
        let row = &rows[i];
        items.push(
            BrowseItem {
                id: row.id,
                name: row.name.clone(),
                category: copy_opt(&row.category),
                path: copy_opt(&row.path),
                load_key: copy_opt(&row.load_key),
            },
        );
        i += 1;
    }
    assert(crate::app_core::browser::items_view(items@) =~= rows_view(rows@).map_values(
        |r: RowView| browsed(r),
    ));
    items
}

/// A plugin as the engine selector sees it.
pub open spec fn shown_engine(plugin: PluginInfo) -> EngineInfoView {
    EngineInfoView {
        id: plugin.id@,
        name: match plugin.name {
            Some(name) => name@,
            None => plugin.id@,
        },
    }
}

/// Projects the plugins found for the engine selector.
pub fn engine_infos(plugins: &Vec<PluginInfo>) -> (infos: Vec<EngineInfo>)
    ensures
        crate::app_core::messages::engines_view(infos@) == plugins@.map_values(
            |p: PluginInfo| shown_engine(p),
        ),
{
    let mut infos: Vec<EngineInfo> = Vec::new();
    let mut i: usize = 0;
    while i < plugins.len()
        invariant
            i <= plugins@.len(),
            infos@.len() == i,
            forall|j: int| 0 <= j < i ==> (#[trigger] infos@[j])@ == shown_engine(plugins@[j]),
        decreases plugins@.len() - i,
    {
        infos.push(EngineInfo { id: plugins[i].id.clone(), name: plugins[i].title() });
        i += 1;
    }
    assert(crate::app_core::messages::engines_view(infos@) =~= plugins@.map_values(
        |p: PluginInfo| shown_engine(p),
    ));
    infos
}

/// A bound control as the frontend sees it.
pub open spec fn shown_control<V>(binding: BindingView<V>, normalized: V) -> ControlInfoView<V> {
    ControlInfoView {
        control: binding.control,
        label: binding.label,
        normalized,
        active: binding.active,
    }
}

/// Projects the current bindings into frontend control infos. The position
/// of each control on its range comes in the order of the bindings.
pub fn control_infos<V: Copy>(controls: &MacroControls<V>, normalized: &Vec<V>) -> (infos: Vec<
    ControlInfo<V>,
>)
    requires
        normalized@.len() == controls@.bindings.len(),
    ensures
        infos@.len() == normalized@.len(),
        forall|i: int|
            0 <= i < infos@.len() ==> (#[trigger] infos@[i])@ == shown_control(
                controls@.bindings[i],
                normalized@[i],
            ),
{
    let bindings: &Vec<Binding<V>> = controls.bindings();
    assert(bindings@.len() == controls@.bindings.len());
    let mut infos: Vec<ControlInfo<V>> = Vec::new();
    let mut i: usize = 0;
    while i < bindings.len()
        invariant
            i <= bindings@.len(),
            normalized@.len() == bindings@.len(),
            crate::app_core::mapping::bindings_view(bindings@) == controls@.bindings,
            infos@.len() == i,
            forall|j: int|
                0 <= j < i ==> (#[trigger] infos@[j])@ == shown_control(
                    controls@.bindings[j],
                    normalized@[j],
                ),
        decreases bindings@.len() - i,
    {
        assert(controls@.bindings[i as int] == bindings@[i as int]@);
        infos.push(
            ControlInfo {
                control: bindings[i].control,
                label: bindings[i].label.clone(),
                normalized: normalized[i],
                active: bindings[i].active,
            },
        );
        i += 1;
    }
    infos
}

/// What the window and the device's display are titled.
pub fn plugin_title(plugin: &Option<PluginInfo>) -> (title: String)
    ensures
        title@ == match *plugin {
            Some(found) => shown_engine(found).name,
            None => "benchlab (no engine)"@,
        },
{
    match plugin {
        Some(found) => found.title(),
        None => "benchlab (no engine)".to_owned(),
    }
}

/// The presets to show: those of the engine, or all where there is none.
pub fn startup_filter(plugin_id: &str) -> (filter: Filter)
    ensures
        filter@ == (FilterView {
            engine: if plugin_id@.len() == 0 {
                None
            } else {
                Some(plugin_id@)
            },
            query: None,
            category: None,
            favorites_only: false,
        }),
{
    let none: bool = same(plugin_id, "");
    proof {
        reveal_strlit("");
        if plugin_id@.len() == 0 {
            assert(plugin_id@ =~= ""@);
        }
    }
    Filter::of_engine(
        if none {
            None
        } else {
            Some(plugin_id.to_owned())
        },
    )
}

/// The first event: everything the frontend needs to draw.
pub fn ready_event<V>(
    plugin: &Option<PluginInfo>,
    audio: Option<AudioInfo>,
    device_connected: bool,
    rows: &Vec<PresetRow>,
    categories: Vec<String>,
    controls: Vec<ControlInfo<V>>,
    plugins: &Vec<PluginInfo>,
) -> (event: CoreEvent<V>)
    ensures
        event@ == (CoreEventView::Ready {
            plugin_title: match *plugin {
                Some(found) => shown_engine(found).name,
                None => "benchlab (no engine)"@,
            },
            engine_running: audio is Some,
            device_connected,
            presets: shown_presets(rows_view(rows@)),
            categories: crate::text::texts(categories@),
            controls: crate::app_core::messages::infos_view(controls@),
            audio: crate::app_core::messages::audio_view(audio),
            engines: plugins@.map_values(|p: PluginInfo| shown_engine(p)),
        }),
{
    CoreEvent::Ready {
        plugin_title: plugin_title(plugin),
        engine_running: audio.is_some(),
        device_connected,
        presets: preset_infos(rows),
        categories,
        controls,
        audio,
        engines: engine_infos(plugins),
    }
}

/// What was found at startup.
#[derive(Debug)]
pub struct Startup<V> {
    pub plugin: Option<PluginInfo>,
    /// The audio stream, where one was started.
    pub audio: Option<AudioInfo>,
    pub device_connected: bool,
    pub rows: Vec<PresetRow>,
    pub categories: Vec<String>,
    pub controls: Vec<ControlInfo<V>>,
    /// All plugins in the search paths.
    pub plugins: Vec<PluginInfo>,
    /// The troubles on the way, in order.
    pub notices: Vec<String>,
}

/// The first events: [`CoreEvent::Ready`] before everything else, and after
/// it the troubles that there were.
pub fn startup_events<V>(found: Startup<V>) -> (events: Vec<CoreEvent<V>>)
    ensures
        events@.len() == found.notices@.len() + 1,
        events@[0]@ == (CoreEventView::Ready {
            plugin_title: match found.plugin {
                Some(plugin) => shown_engine(plugin).name,
                None => "benchlab (no engine)"@,
            },
            engine_running: found.audio is Some,
            device_connected: found.device_connected,
            presets: shown_presets(rows_view(found.rows@)),
            categories: crate::text::texts(found.categories@),
            controls: crate::app_core::messages::infos_view(found.controls@),
            audio: crate::app_core::messages::audio_view(found.audio),
            engines: found.plugins@.map_values(|p: PluginInfo| shown_engine(p)),
        }),
        forall|i: int|
            0 <= i < found.notices@.len() ==> (#[trigger] events@[i + 1])@ == CoreEventView::<
                V,
            >::Error(found.notices@[i]@),
{
    let mut events: Vec<CoreEvent<V>> = Vec::new();
    let ready = ready_event(
        &found.plugin,
        found.audio,
        found.device_connected,
        &found.rows,
        found.categories,
        found.controls,
        &found.plugins,
    );
    events.push(ready);
    let mut i: usize = 0;
    while i < found.notices.len()
        invariant
            i <= found.notices@.len(),
            events@.len() == i + 1,
            events@[0] == ready,
            forall|j: int|
                0 <= j < i ==> (#[trigger] events@[j + 1])@ == CoreEventView::<V>::Error(
                    found.notices@[j]@,
                ),
        decreases found.notices@.len() - i,
    {
        events.push(CoreEvent::Error(found.notices[i].clone()));
        i += 1;
    }
    events
}

/// Whether the engine's presets are scanned at startup: there is an engine,
/// and the library is known to hold none of its presets.
pub fn scans_at_startup(has_engine: bool, count: Option<i64>) -> (r: bool)
    ensures
        r == (has_engine && count == Some(0i64)),
{
    match count {
        Some(n) => has_engine && n == 0,
        None => false,
    }
}

/// What the frontend learns of a rescan: why it failed, or the presets and
/// categories that the library has now. Nothing where the library could not
/// be read back.
pub fn rescan_event<V>(
    outcome: Result<Option<(Vec<PresetRow>, Option<Vec<String>>)>, String>,
) -> (event: Option<CoreEvent<V>>)
    ensures
        match outcome {
            Err(e) => event matches Some(shown) && shown@ == CoreEventView::<V>::Error(
                "rescan failed: "@ + e@,
            ),
            Ok(None) => event is None,
            Ok(Some((rows, categories))) => event matches Some(shown) && shown@ == (
            CoreEventView::<V>::LibraryRescanned {
                presets: shown_presets(rows_view(rows@)),
                categories: match categories {
                    Some(list) => crate::text::texts(list@),
                    None => Seq::empty(),
                },
            }),
        },
{
    match outcome {
        Err(e) => Some(CoreEvent::Error(join2("rescan failed: ", e.as_str()))),
        Ok(None) => None,
        Ok(Some((rows, categories))) => {
            let list: Vec<String> = match categories {
                Some(list) => list,
                None => {
                    let empty: Vec<String> = Vec::new();
                    assert(crate::text::texts(empty@) =~= Seq::<Seq<char>>::empty());
                    empty
                },
            };
            Some(CoreEvent::LibraryRescanned { presets: preset_infos(&rows), categories: list })
        },
    }
}

/// Troubles at startup and while running that the user is told of.
#[derive(Debug)]
pub enum Notice {
    /// No plugin matched.
    NoPlugin(String),
    ScanFailed(String),
    NoController(String),
    /// The plugin could not be deactivated for a rebuild of the stream.
    DeactivationFailed(String),
}

impl Notice {
    /// The notice in words.
    pub fn message(&self) -> (text: String)
        ensures
            text@ == match *self {
                Notice::NoPlugin(e) => e@ + "; running with stub engine"@,
                Notice::ScanFailed(e) => "preset scan failed: "@ + e@,
                Notice::NoController(e) => "no controller ("@ + e@ + "); waiting for hotplug"@,
                Notice::DeactivationFailed(e) => "plugin deactivation failed: "@ + e@
                    + "; restart benchlab"@,
            },
    {
        match self {
            Notice::NoPlugin(e) => join2(e.as_str(), "; running with stub engine"),
            Notice::ScanFailed(e) => join2("preset scan failed: ", e.as_str()),
            Notice::NoController(e) => join3(
                "no controller (",
                e.as_str(),
                "); waiting for hotplug",
            ),
            Notice::DeactivationFailed(e) => join3(
                "plugin deactivation failed: ",
                e.as_str(),
                "; restart benchlab",
            ),
        }
    }
}

// ---------------------------------------------------------------------
// Mapping files
// ---------------------------------------------------------------------

/// Where the system keeps mapping files.
pub const SYSTEM_MAPPINGS: &'static str = "/usr/share/benchlab/mappings";

/// The directories to search for a mapping file, in order: the working
/// directory's for development, the user's, the system's.
pub fn mapping_dirs(user: &Option<String>) -> (dirs: Vec<String>)
    ensures
        crate::text::texts(dirs@) == match *user {
            Some(dir) => seq!["mappings"@, dir@, SYSTEM_MAPPINGS@],
            None => seq!["mappings"@, SYSTEM_MAPPINGS@],
        },
{
    let mut dirs: Vec<String> = Vec::new();
    dirs.push("mappings".to_owned());
    let ghost wanted = match user {
        Some(dir) => seq!["mappings"@, dir@, SYSTEM_MAPPINGS@],
        None => seq!["mappings"@, SYSTEM_MAPPINGS@],
    };
    if let Some(dir) = user {
        dirs.push(dir.clone());
    }
    dirs.push(SYSTEM_MAPPINGS.to_owned());
    assert(crate::text::texts(dirs@) =~= wanted);
    dirs
}

/// Whether texts come in order.
pub open spec fn sorted(list: Seq<Seq<char>>) -> bool {
    forall|i: int, j: int|
        0 <= i < j < list.len() ==> !crate::text::precedes(
            #[trigger] list[j],
            #[trigger] list[i],
        )
}

/// Whether a directory entry is a mapping file.
pub open spec fn is_mapping_file(path: Seq<char>) -> bool {
    crate::paths::file_extension(path) == Some("toml"@)
}

/// Puts a path into its place in a sorted list.
fn insert_sorted(list: &mut Vec<String>, path: String)
    requires
        sorted(crate::text::texts(old(list)@)),
    ensures
        sorted(crate::text::texts(final(list)@)),
        crate::text::texts(final(list)@).to_multiset() == crate::text::texts(
            old(list)@,
        ).to_multiset().insert(path@),
{
    let ghost before_list = crate::text::texts(list@);
    let mut at: usize = list.len();
    while at > 0 && before(path.as_str(), list[at - 1].as_str())
        invariant
            at <= list@.len(),
            before_list == crate::text::texts(list@),
            forall|k: int|
                at <= k < list@.len() ==> crate::text::precedes(path@, #[trigger] before_list[k]),
        decreases at,
    {
        assert(before_list[at - 1] == list@[at - 1]@);
        at -= 1;
    }
    let ghost word = path@;
    assert(at > 0 ==> !crate::text::precedes(word, before_list[at - 1])) by {
        if at > 0 {
            assert(before_list[at - 1] == list@[at - 1]@);
        }
    }
    list.insert(at, path);
    proof {
        let after_list = crate::text::texts(list@);
        assert(after_list =~= before_list.insert(at as int, word));
        before_list.to_multiset_ensures();
        vstd::seq_lib::to_multiset_insert(before_list, at as int, word);
        assert forall|i: int, j: int| 0 <= i < j < after_list.len() implies !crate::text::precedes(
            #[trigger] after_list[j],
            #[trigger] after_list[i],
        ) by {
            if i == at {
                // What stands behind the new one comes after it.
                assert(after_list[j] == before_list[j - 1]);
                if crate::text::precedes(after_list[j], after_list[i]) {
                    crate::text::lemma_precedes_transitive(word, after_list[j], word);
                    crate::text::lemma_precedes_irreflexive(word);
                }
            } else if j == at {
                assert(after_list[i] == before_list[i]);
                if crate::text::precedes(word, before_list[i]) && i < at - 1 {
                    // It would also come before the last one in front of it.
                    crate::text::lemma_precedes_total(before_list[i], before_list[at - 1]);
                    if crate::text::precedes(before_list[i], before_list[at - 1]) {
                        crate::text::lemma_precedes_transitive(
                            word,
                            before_list[i],
                            before_list[at - 1],
                        );
                    }
                }
            } else {
                let a = if i < at {
                    i
                } else {
                    i - 1
                };
                let b = if j < at {
                    j
                } else {
                    j - 1
                };
                assert(after_list[i] == before_list[a]);
                assert(after_list[j] == before_list[b]);
            }
        }
    }
}

/// The files kept of the entries of a directory: each as often as it is
/// listed where it is a mapping file, and not at all where it is none. Of an
/// entry whose name cannot be told, only that nothing is made up.
pub open spec fn keeps_mappings(entries: Seq<Seq<char>>, files: Seq<Seq<char>>) -> bool {
    &&& files.to_multiset().subset_of(entries.to_multiset())
    &&& forall|path: Seq<char>|
        crate::paths::is_told(path) ==> #[trigger] files.to_multiset().count(path)
            == if is_mapping_file(path) {
            entries.to_multiset().count(path)
        } else {
            0
        }
}

/// The mapping files among the entries of a directory, in order of their
/// names.
pub fn mapping_files(entries: &Vec<String>) -> (files: Vec<String>)
    ensures
        sorted(crate::text::texts(files@)),
        keeps_mappings(crate::text::texts(entries@), crate::text::texts(files@)),
{
    let ghost all = crate::text::texts(entries@);
    let mut files: Vec<String> = Vec::new();
    let mut i: usize = 0;
    proof {
        assert(all.take(0) =~= Seq::<Seq<char>>::empty());
        assert(crate::text::texts(files@) =~= Seq::<Seq<char>>::empty());
        Seq::<Seq<char>>::empty().to_multiset_ensures();
    }
    while i < entries.len()
        invariant
            i <= entries@.len(),
            all == crate::text::texts(entries@),
            sorted(crate::text::texts(files@)),
            keeps_mappings(all.take(i as int), crate::text::texts(files@)),
        decreases entries@.len() - i,
    {
        proof {
            let done = all.take(i as int);
            assert(all.take(i + 1) =~= done.push(entries@[i as int]@));
            done.to_multiset_ensures();
        }
        let toml: bool = match path_extension(entries[i].as_str()) {
            Some(e) => same(e.as_str(), "toml"),
            None => false,
        };
        if toml {
            insert_sorted(&mut files, entries[i].clone());
        }
        i += 1;
    }
    assert(all.take(i as int) =~= all);
    files
}

/// The index of the first file that is for a plugin, or the number of
/// files.
pub open spec fn first_for(ids: Seq<Option<String>>, plugin_id: Seq<char>, from: int) -> int
    decreases ids.len() - from,
{
    if from >= ids.len() {
        ids.len() as int
    } else if crate::text::opt_text(ids[from]) == Some(plugin_id) {
        from
    } else {
        first_for(ids, plugin_id, from + 1)
    }
}

/// Picks the first mapping file whose plugin id matches. `ids` holds for
/// each file the plugin it is for, and nothing for one that cannot be read.
pub fn pick_mapping(ids: &Vec<Option<String>>, plugin_id: &str) -> (found: Option<usize>)
    ensures
        match found {
            Some(i) => i == first_for(ids@, plugin_id@, 0) && i < ids@.len(),
            None => first_for(ids@, plugin_id@, 0) == ids@.len(),
        },
{
    let mut i: usize = 0;
    while i < ids.len()
        invariant
            i <= ids@.len(),
            first_for(ids@, plugin_id@, 0) == first_for(ids@, plugin_id@, i as int),
        decreases ids@.len() - i,
    {
        if crate::text::opt_is(&ids[i], plugin_id) {
            return Some(i);
        }
        i += 1;
    }
    None
}

/// What was found where the mapping should be.
#[derive(Debug)]
pub enum MappingSource<V> {
    /// No file was named, and none of those found is for the plugin.
    NoFile,
    /// There is no file at the path.
    Missing(String),
    /// The file at the path cannot be read; why.
    Unreadable(String),
    /// The file at the path.
    File(String, MappingFile<V>),
}

/// Why the controls stay inactive, if they do.
pub open spec fn mapping_notice<V>(
    source: MappingSource<V>,
    plugin_id: Seq<char>,
    bound: Result<ControlsView<V>, MappingErrorView>,
) -> Option<Seq<char>> {
    match source {
        MappingSource::NoFile => Some(
            "no mapping file for "@ + plugin_id + "; encoders and faders inactive"@,
        ),
        MappingSource::Missing(path) => Some(
            "no mapping file at "@ + path@ + "; encoders and faders inactive"@,
        ),
        MappingSource::Unreadable(e) => Some("mapping load failed: "@ + e@),
        MappingSource::File(path, file) => if file.plugin_id@ != plugin_id {
            Some("mapping "@ + path@ + " is for "@ + file.plugin_id@ + "; controls inactive"@)
        } else {
            match bound {
                Ok(_) => None,
                Err(e) => Some(
                    "mapping bind failed: "@ + crate::app_core::mapping::mapping_error_text(e),
                ),
            }
        },
    }
}

/// What a source binds to, where it is a file.
pub open spec fn source_bound<V>(
    source: MappingSource<V>,
    plugin_id: Seq<char>,
    params: Seq<ParamDescription<V>>,
) -> Result<ControlsView<V>, MappingErrorView> {
    match source {
        MappingSource::File(path, file) => crate::app_core::mapping::bound_file(
            file,
            plugin_id,
            crate::engine::params::params_view(params),
        ),
        _ => Err(MappingErrorView::Parse(Seq::empty())),
    }
}

/// Binds the mapping of the loaded engine, or says why its controls stay
/// inactive.
pub fn bind_mapping<V: Copy>(
    source: &MappingSource<V>,
    plugin_id: &str,
    params: &[ParamDescription<V>],
) -> (r: Result<MacroControls<V>, String>)
    ensures
        ({
            let bound = source_bound(*source, plugin_id@, params@);
            match (mapping_notice(*source, plugin_id@, bound), r) {
                (None, Ok(controls)) => bound == Ok::<ControlsView<V>, MappingErrorView>(controls@)
                    && controls@.valid(),
                (Some(text), Err(e)) => e@ == text,
                _ => false,
            }
        }),
{
    match source {
        MappingSource::NoFile => Err(
            join3("no mapping file for ", plugin_id, "; encoders and faders inactive"),
        ),
        MappingSource::Missing(path) => Err(
            join3("no mapping file at ", path.as_str(), "; encoders and faders inactive"),
        ),
        MappingSource::Unreadable(e) => Err(join2("mapping load failed: ", e.as_str())),
        MappingSource::File(path, file) => {
            if !same(file.plugin_id.as_str(), plugin_id) {
                let mut text = join3("mapping ", path.as_str(), " is for ");
                text.append(file.plugin_id.as_str());
                text.append("; controls inactive");
                return Err(text);
            }
            match MacroControls::bind(file, plugin_id, params) {
                Ok(controls) => Ok(controls),
                Err(e) => Err(join2("mapping bind failed: ", e.message().as_str())),
            }
        },
    }
}

// ---------------------------------------------------------------------
// Laws
// ---------------------------------------------------------------------

/// The frontend and the device's browser see a preset as the library has it:
/// the frontend with its first creator as author, the browser with all that
/// it takes to load it.
pub proof fn law_presets_are_seen_as_stored(row: PresetRow)
    ensures
        ({
            let seen = shown_preset(row@);
            &&& seen.id == row.id && seen.name == row.name@
            &&& seen.category == crate::text::opt_text(row.category)
            &&& seen.favorite == row.favorite
            &&& row.creators@.len() > 0 ==> seen.author == Some(row.creators@[0]@)
            &&& row.creators@.len() == 0 ==> seen.author is None
        }),
        ({
            let seen = browsed(row@);
            &&& seen.id == row.id && seen.name == row.name@
            &&& seen.category == crate::text::opt_text(row.category)
            &&& seen.path == crate::text::opt_text(row.path)
            &&& seen.load_key == crate::text::opt_text(row.load_key)
        }),
{
}

/// Lists are seen in order, each row as one entry.
pub proof fn law_lists_are_seen_in_order(rows: Seq<PresetRow>, i: int)
    requires
        0 <= i < rows.len(),
    ensures
        shown_presets(rows_view(rows)).len() == rows.len(),
        shown_presets(rows_view(rows))[i] == shown_preset(rows[i]@),
{
}

/// An engine goes by its name, or by its id where it has none.
pub proof fn law_engines_go_by_their_name(plugin: PluginInfo)
    ensures
        shown_engine(plugin).id == plugin.id@,
        plugin.name matches Some(name) ==> shown_engine(plugin).name == name@,
        plugin.name is None ==> shown_engine(plugin).name == plugin.id@,
{
}

/// A bound control is seen with its label, its position and whether it does
/// anything.
pub proof fn law_controls_are_seen_as_bound<V>(binding: Binding<V>, normalized: V)
    ensures
        ({
            let seen = shown_control(binding@, normalized);
            &&& seen.control == binding.control && seen.label == binding.label@
            &&& seen.normalized == normalized && seen.active == binding.active
        }),
{
}

/// The first mapping file that is for the plugin is picked; none only where
/// none is.
pub proof fn law_the_first_mapping_is_picked(
    ids: Seq<Option<String>>,
    plugin_id: Seq<char>,
    from: int,
)
    requires
        0 <= from <= ids.len(),
    ensures
        ({
            let at = first_for(ids, plugin_id, from);
            &&& from <= at <= ids.len()
            &&& at < ids.len() ==> (ids[at] matches Some(id) && id@ == plugin_id)
            &&& forall|j: int|
                from <= j < at ==> ((#[trigger] ids[j]) matches Some(id) ==> id@ != plugin_id)
        }),
    decreases ids.len() - from,
{
    if from < ids.len() && crate::text::opt_text(ids[from]) != Some(plugin_id) {
        law_the_first_mapping_is_picked(ids, plugin_id, from + 1);
    }
}

/// The controls are active exactly where the mapping is there, is for the
/// plugin and binds; else the user hears why, by name.
pub proof fn law_inactive_controls_have_a_reason<V>(
    source: MappingSource<V>,
    plugin_id: Seq<char>,
    params: Seq<ParamDescription<V>>,
)
    ensures
        ({
            let bound = source_bound(source, plugin_id, params);
            let why = mapping_notice(source, plugin_id, bound);
            &&& why is None <==> (source is File && source->File_1.plugin_id@ == plugin_id
                && crate::app_core::mapping::bound_file(
                source->File_1,
                plugin_id,
                crate::engine::params::params_view(params),
            ) is Ok)
            &&& source is File ==> bound == crate::app_core::mapping::bound_file(
                source->File_1,
                plugin_id,
                crate::engine::params::params_view(params),
            )
            &&& source is NoFile ==> why == Some(
                "no mapping file for "@ + plugin_id + "; encoders and faders inactive"@,
            )
            &&& source matches MappingSource::Missing(path) ==> why == Some(
                "no mapping file at "@ + path@ + "; encoders and faders inactive"@,
            )
            &&& source matches MappingSource::Unreadable(e) ==> why == Some(
                "mapping load failed: "@ + e@,
            )
            &&& source matches MappingSource::File(path, file) ==> (file.plugin_id@ != plugin_id
                ==> why == Some(
                "mapping "@ + path@ + " is for "@ + file.plugin_id@ + "; controls inactive"@,
            ))
        }),
{
}

/// A mapping file is one whose name ends in `.toml`.
pub proof fn law_mapping_files_are_toml(name: Seq<char>)
    requires
        name.len() > 0,
        !name.contains('/'),
    ensures
        is_mapping_file(name + ".toml"@),
        !is_mapping_file(name + ".toml.bak"@),
{
    reveal_strlit(".toml");
    reveal_strlit(".toml.bak");
    reveal_strlit("toml");
    reveal_strlit("bak");
    let file = name + ".toml"@;
    let other = name + ".toml.bak"@;
    lemma_no_slash(name, ".toml"@);
    lemma_no_slash(name, ".toml.bak"@);
    crate::paths::lemma_last_at_is(file, '.', name.len() as int);
    crate::paths::lemma_last_at_is(other, '.', name.len() as int + 5);
    assert(crate::paths::last_part(file) =~= file);
    assert(crate::paths::last_part(other) =~= other);
    assert(file.len() >= 6 && other.len() >= 10);
    crate::paths::law_the_last_part_is_the_name(file);
    crate::paths::law_the_last_part_is_the_name(other);
    assert(file.skip(name.len() as int + 1) =~= "toml"@);
    assert(other.skip(name.len() as int + 6) =~= "bak"@);
    assert("bak"@.len() != "toml"@.len());
}

proof fn lemma_no_slash(name: Seq<char>, end: Seq<char>)
    requires
        !name.contains('/'),
        !end.contains('/'),
    ensures
        crate::paths::last_at(name + end, '/') == -1,
{
    let all = name + end;
    assert forall|i: int| 0 <= i < all.len() implies #[trigger] all[i] != '/' by {
        if i < name.len() {
            assert(name.contains(name[i]));
        } else {
            assert(end.contains(end[i - name.len()]));
        }
    }
    crate::paths::lemma_last_at_none(all, '/');
}

} // verus!
