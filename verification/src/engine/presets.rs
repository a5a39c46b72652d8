//! Preset discovery: what a plugin's discovery provider reports, which
//! files it is asked about, and which presets are imported.

use vstd::prelude::*;

use crate::library::{ImportPreset, ImportView};
use crate::paths::{parent_name, path_extension, path_stem};
use crate::text::{copy_opt, join2, same};

verus! {

/// One preset found by the plugin's discovery provider.
#[derive(Debug, Clone)]
pub struct DiscoveredPreset {
    pub name: String,
    /// Opaque per-container key passed back to `clap.preset-load`.
    pub load_key: Option<String>,
    /// Filesystem path of the container, or `None` for plugin-internal
    /// presets.
    pub path: Option<String>,
    pub plugin_ids: Vec<String>,
    pub is_factory: bool,
    pub is_user: bool,
    pub creators: Vec<String>,
    pub description: Option<String>,
    /// CLAP preset features (categories/tags as reported by the plugin).
    pub features: Vec<String>,
}

/// What a [`DiscoveredPreset`] says.
#[verifier::ext_equal]
pub struct DiscoveredView {
    pub name: Seq<char>,
    pub load_key: Option<Seq<char>>,
    pub path: Option<Seq<char>>,
    pub plugin_ids: Seq<Seq<char>>,
    pub is_factory: bool,
    pub is_user: bool,
    pub creators: Seq<Seq<char>>,
    pub description: Option<Seq<char>>,
    pub features: Seq<Seq<char>>,
}

impl View for DiscoveredPreset {
    type V = DiscoveredView;

    open spec fn view(&self) -> DiscoveredView {
        DiscoveredView {
            name: self.name@,
            load_key: crate::text::opt_text(self.load_key),
            path: crate::text::opt_text(self.path),
            plugin_ids: crate::text::texts(self.plugin_ids@),
            is_factory: self.is_factory,
            is_user: self.is_user,
            creators: crate::text::texts(self.creators@),
            description: crate::text::opt_text(self.description),
            features: crate::text::texts(self.features@),
        }
    }
}

/// What a list of presets says.
pub open spec fn discovered_view(presets: Seq<DiscoveredPreset>) -> Seq<DiscoveredView> {
    presets.map_values(|p: DiscoveredPreset| p@)
}

impl Default for DiscoveredPreset {
    /// A preset of which nothing is known.
    fn default() -> (preset: Self)
        ensures
            preset@ == begun(
                Seq::empty(),
                None,
                None,
                ContentFlags { factory: false, user: false },
            ),
    {
        let preset = DiscoveredPreset {
            name: String::new(),
            load_key: None,
            path: None,
            plugin_ids: Vec::new(),
            is_factory: false,
            is_user: false,
            creators: Vec::new(),
            description: None,
            features: Vec::new(),
        };
        assert(preset@ =~= begun(
            Seq::empty(),
            None,
            None,
            ContentFlags { factory: false, user: false },
        ));
        preset
    }
}

/// Whether content is the plugin maker's, the user's, or both.
#[derive(Debug, Clone, Copy, PartialEq, Eq, Structural)]
pub struct ContentFlags {
    pub factory: bool,
    pub user: bool,
}

/// The state of a [`CollectingReceiver`].
#[verifier::ext_equal]
pub struct ReceiverView {
    pub current_path: Option<Seq<char>>,
    pub location_flags: ContentFlags,
    pub presets: Seq<DiscoveredView>,
}

/// Metadata receiver that accumulates presets, attaching the location path
/// that is currently being read.
pub struct CollectingReceiver {
    current_path: Option<String>,
    location_flags: ContentFlags,
    presets: Vec<DiscoveredPreset>,
}

impl View for CollectingReceiver {
    type V = ReceiverView;

    closed spec fn view(&self) -> ReceiverView {
        ReceiverView {
            current_path: crate::text::opt_text(self.current_path),
            location_flags: self.location_flags,
            presets: discovered_view(self.presets@),
        }
    }
}

impl ReceiverView {
    /// The state with the preset being described replaced; without one,
    /// nothing changes.
    pub open spec fn with_current(self, preset: DiscoveredView) -> ReceiverView {
        if self.presets.len() == 0 {
            self
        } else {
            ReceiverView { presets: self.presets.drop_last().push(preset), ..self }
        }
    }
}

/// A preset of which only the name, the key and the place are known.
pub open spec fn begun(
    name: Seq<char>,
    load_key: Option<Seq<char>>,
    path: Option<Seq<char>>,
    flags: ContentFlags,
) -> DiscoveredView {
    DiscoveredView {
        name,
        load_key,
        path,
        plugin_ids: Seq::empty(),
        is_factory: flags.factory,
        is_user: flags.user,
        creators: Seq::empty(),
        description: None,
        features: Seq::empty(),
    }
}

fn push_text(list: &mut Vec<String>, text: String)
    ensures
        crate::text::texts(final(list)@) == crate::text::texts(old(list)@).push(text@),
{
    list.push(text);
    assert(crate::text::texts(list@) =~= crate::text::texts(old(list)@).push(text@));
}

impl CollectingReceiver {
    /// A receiver without presets.
    pub fn new() -> (r: Self)
        ensures
            r@ == (ReceiverView {
                current_path: None,
                location_flags: ContentFlags { factory: false, user: false },
                presets: Seq::empty(),
            }),
    {
        let r = CollectingReceiver {
            current_path: None,
            location_flags: ContentFlags { factory: false, user: false },
            presets: Vec::new(),
        };
        assert(r@.presets =~= Seq::<DiscoveredView>::empty());
        r
    }

    /// What follows comes from a location of the provider.
    pub fn enter_location(&mut self, flags: ContentFlags)
        ensures
            final(self)@ == (ReceiverView { location_flags: flags, ..old(self)@ }),
    {
        self.location_flags = flags;
        assert(self@ =~= (ReceiverView { location_flags: flags, ..old(self)@ }));
    }

    /// What follows comes from a file, or from the plugin itself.
    pub fn enter_file(&mut self, path: Option<String>)
        ensures
            final(self)@ == (ReceiverView {
                current_path: crate::text::opt_text(path),
                ..old(self)@
            }),
    {
        let ghost text = crate::text::opt_text(path);
        self.current_path = path;
        assert(self@ =~= (ReceiverView { current_path: text, ..old(self)@ }));
    }

    /// Starts the next preset; without a name it is called after its file.
    pub fn begin_preset(&mut self, name: Option<String>, load_key: Option<String>)
        ensures
            final(self)@.current_path == old(self)@.current_path,
            final(self)@.location_flags == old(self)@.location_flags,
            final(self)@.presets.len() == old(self)@.presets.len() + 1,
            final(self)@.presets.drop_last() == old(self)@.presets,
            final(self)@.presets.last() == begun(
                final(self)@.presets.last().name,
                crate::text::opt_text(load_key),
                old(self)@.current_path,
                old(self)@.location_flags,
            ),
            match (name, old(self)@.current_path) {
                (Some(n), _) => final(self)@.presets.last().name == n@,
                (None, None) => final(self)@.presets.last().name.len() == 0,
                (None, Some(path)) => crate::paths::is_told(path)
                    ==> final(self)@.presets.last().name == match crate::paths::file_stem(path) {
                    Some(stem) => stem,
                    None => Seq::empty(),
                },
            },
    {
        let stem = match &self.current_path {
            Some(path) => path_stem(path.as_str()),
            None => None,
        };
        let title = match name {
            Some(n) => n,
            None => match stem {
                Some(s) => s,
                None => String::new(),
            },
        };
        let preset = DiscoveredPreset {
            name: title,
            load_key,
            path: copy_opt(&self.current_path),
            plugin_ids: Vec::new(),
            is_factory: self.location_flags.factory,
            is_user: self.location_flags.user,
            creators: Vec::new(),
            description: None,
            features: Vec::new(),
        };
        let ghost view = preset@;
        self.presets.push(preset);
        assert(self@.presets =~= old(self)@.presets.push(view));
        assert(self@.presets.drop_last() =~= old(self)@.presets);
        assert(view =~= begun(
            view.name,
            crate::text::opt_text(load_key),
            old(self)@.current_path,
            old(self)@.location_flags,
        ));
    }

    fn take_current(&mut self) -> (preset: Option<DiscoveredPreset>)
        ensures
            match preset {
                Some(p) => old(self)@.presets.len() > 0 && p@ == old(self)@.presets.last()
                    && final(self)@ == (ReceiverView {
                    presets: old(self)@.presets.drop_last(),
                    ..old(self)@
                }),
                None => old(self)@.presets.len() == 0 && final(self)@ == old(self)@,
            },
    {
        let preset = self.presets.pop();
        proof {
            if old(self).presets@.len() > 0 {
                assert(self@.presets =~= old(self)@.presets.drop_last());
                assert(self@ =~= (ReceiverView {
                    presets: old(self)@.presets.drop_last(),
                    ..old(self)@
                }));
            }
        }
        preset
    }

    fn put_current(&mut self, preset: DiscoveredPreset)
        ensures
            final(self)@ == (ReceiverView {
                presets: old(self)@.presets.push(preset@),
                ..old(self)@
            }),
    {
        let ghost view = preset@;
        self.presets.push(preset);
        assert(self@.presets =~= old(self)@.presets.push(view));
        assert(self@ =~= (ReceiverView { presets: old(self)@.presets.push(view), ..old(self)@ }));
    }

    /// The preset is for a plugin; only CLAP plugins count.
    pub fn add_plugin_id(&mut self, abi: &str, id: String)
        ensures
            final(self)@ == if abi@ == "clap"@ {
                old(self)@.with_current(
                    DiscoveredView {
                        plugin_ids: old(self)@.presets.last().plugin_ids.push(id@),
                        ..old(self)@.presets.last()
                    },
                )
            } else {
                old(self)@
            },
    {
        if same(abi, "clap") {
            if let Some(preset) = self.take_current() {
                let mut preset = preset;
                push_text(&mut preset.plugin_ids, id);
                self.put_current(preset);
            }
        }
    }

    /// The preset's own flags replace those of its location.
    pub fn set_flags(&mut self, flags: ContentFlags)
        ensures
            final(self)@ == old(self)@.with_current(
                DiscoveredView {
                    is_factory: flags.factory,
                    is_user: flags.user,
                    ..old(self)@.presets.last()
                },
            ),
    {
        if let Some(preset) = self.take_current() {
            let mut preset = preset;
            preset.is_factory = flags.factory;
            preset.is_user = flags.user;
            self.put_current(preset);
        }
    }

    /// One of the preset's authors.
    pub fn add_creator(&mut self, creator: String)
        ensures
            final(self)@ == old(self)@.with_current(
                DiscoveredView {
                    creators: old(self)@.presets.last().creators.push(creator@),
                    ..old(self)@.presets.last()
                },
            ),
    {
        if let Some(preset) = self.take_current() {
            let mut preset = preset;
            push_text(&mut preset.creators, creator);
            self.put_current(preset);
        }
    }

    /// The preset's description.
    pub fn set_description(&mut self, description: String)
        ensures
            final(self)@ == old(self)@.with_current(
                DiscoveredView { description: Some(description@), ..old(self)@.presets.last() },
            ),
    {
        if let Some(preset) = self.take_current() {
            let mut preset = preset;
            preset.description = Some(description);
            self.put_current(preset);
        }
    }

    /// One of the preset's features.
    pub fn add_feature(&mut self, feature: String)
        ensures
            final(self)@ == old(self)@.with_current(
                DiscoveredView {
                    features: old(self)@.presets.last().features.push(feature@),
                    ..old(self)@.presets.last()
                },
            ),
    {
        if let Some(preset) = self.take_current() {
            let mut preset = preset;
            push_text(&mut preset.features, feature);
            self.put_current(preset);
        }
    }

    /// All presets, in the order they were reported.
    pub fn into_presets(self) -> (presets: Vec<DiscoveredPreset>)
        ensures
            discovered_view(presets@) == self@.presets,
    {
        self.presets
    }
}

/// Why presets could not be discovered.
#[derive(Debug)]
pub enum PresetDiscoveryError {
    NoFactory,
    Provider(String),
}

impl PresetDiscoveryError {
    /// The error in words.
    pub fn message(&self) -> (text: String)
        ensures
            text@ == match *self {
                PresetDiscoveryError::NoFactory => "plugin has no preset discovery factory"@,
                PresetDiscoveryError::Provider(e) => "preset provider failed: "@ + e@,
            },
    {
        match self {
            PresetDiscoveryError::NoFactory => "plugin has no preset discovery factory".to_owned(),
            PresetDiscoveryError::Provider(e) => join2("preset provider failed: ", e.as_str()),
        }
    }
}

// ---------------------------------------------------------------------
// Files
// ---------------------------------------------------------------------

/// Whether a list of texts has one.
pub open spec fn lists(list: Seq<Seq<char>>, text: Seq<char>) -> bool {
    list.contains(text)
}

fn list_has(list: &Vec<String>, text: &str) -> (r: bool)
    ensures
        r == lists(crate::text::texts(list@), text@),
{
    let ghost views = crate::text::texts(list@);
    let mut i: usize = 0;
    while i < list.len()
        invariant
            i <= list@.len(),
            views == crate::text::texts(list@),
            forall|j: int| 0 <= j < i ==> #[trigger] views[j] != text@,
        decreases list@.len() - i,
    {
        assert(views[i as int] == list@[i as int]@);
        if same(list[i].as_str(), text) {
            return true;
        }
        i += 1;
    }
    false
}

/// Whether an extension in lower case is among those wanted; with none
/// wanted, any file is.
pub open spec fn is_wanted(extension: Option<Seq<char>>, wanted: Seq<Seq<char>>) -> bool {
    wanted.len() == 0 || (extension matches Some(e) && lists(wanted, e))
}

/// Whether a file with that extension (in lower case) is among those
/// wanted; with none wanted, any file is.
pub fn extension_wanted(extension: &Option<String>, wanted: &Vec<String>) -> (r: bool)
    ensures
        r == is_wanted(crate::text::opt_text(*extension), crate::text::texts(wanted@)),
{
    if wanted.len() == 0 {
        return true;
    }
    match extension {
        Some(e) => list_has(wanted, e.as_str()),
        None => false,
    }
}

/// An extension in lower case.
pub open spec fn lower_extension(extension: Option<Seq<char>>) -> Option<Seq<char>> {
    match extension {
        Some(e) => Some(crate::text::lowercase(e)),
        None => None,
    }
}

/// Whether a file's extension, in either case, is among those a provider
/// declared; all files are where it declared none.
pub fn matches_extension(path: &str, extensions: &Vec<String>) -> (r: bool)
    ensures
        extensions@.len() == 0 ==> r,
        crate::paths::is_told(path@) ==> r == is_wanted(
            lower_extension(crate::paths::file_extension(path@)),
            crate::text::texts(extensions@),
        ),
{
    let extension = match path_extension(path) {
        Some(e) => Some(e.as_str().to_lowercase()),
        None => None,
    };
    extension_wanted(&extension, extensions)
}

// ---------------------------------------------------------------------
// Import
// ---------------------------------------------------------------------

/// Whether a preset is usable by a plugin (providers may serve several).
pub open spec fn is_for(preset: DiscoveredView, plugin_id: Seq<char>) -> bool {
    preset.plugin_ids.len() == 0 || lists(preset.plugin_ids, plugin_id)
}

/// Whether a preset is usable by a plugin.
pub fn usable_by(preset: &DiscoveredPreset, plugin_id: &str) -> (r: bool)
    ensures
        r == is_for(preset@, plugin_id@),
{
    preset.plugin_ids.len() == 0 || list_has(&preset.plugin_ids, plugin_id)
}

/// What the library stores of a preset: its category is the directory it
/// lies in, or else its first feature.
pub open spec fn imported(
    preset: DiscoveredView,
    directory: Option<Seq<char>>,
    mtime: Option<i64>,
) -> ImportView {
    ImportView {
        name: preset.name,
        path: preset.path,
        load_key: preset.load_key,
        category: if directory is Some {
            directory
        } else if preset.features.len() > 0 {
            Some(preset.features[0])
        } else {
            None
        },
        features: preset.features,
        creators: preset.creators,
        description: preset.description,
        is_factory: preset.is_factory,
        mtime,
    }
}

/// Converts a discovery result to a library row, given the name of the
/// directory it lies in and its modification time.
pub fn import_from(
    preset: DiscoveredPreset,
    directory: Option<String>,
    mtime: Option<i64>,
) -> (import: ImportPreset)
    ensures
        import@ == imported(preset@, crate::text::opt_text(directory), mtime),
{
    let category = match directory {
        Some(d) => Some(d),
        None => if preset.features.len() > 0 {
            assert(preset@.features[0] == preset.features@[0]@);
            Some(preset.features[0].clone())
        } else {
            None
        },
    };
    ImportPreset {
        name: preset.name,
        path: preset.path,
        load_key: preset.load_key,
        category,
        features: preset.features,
        creators: preset.creators,
        description: preset.description,
        is_factory: preset.is_factory,
        mtime,
    }
}

/// Whether a library row is that of a preset: its directory is the parent
/// directory's name, where that can be told.
pub open spec fn imports_as(
    preset: DiscoveredView,
    mtime: Option<i64>,
    import: ImportView,
) -> bool {
    match preset.path {
        None => import == imported(preset, None, mtime),
        Some(path) => {
            &&& exists|directory: Option<Seq<char>>|
                import == #[trigger] imported(preset, directory, mtime)
            &&& crate::paths::is_parent_told(path) ==> import == imported(
                preset,
                crate::paths::parent_name_of(path),
                mtime,
            )
        },
    }
}

/// Converts a discovery result to a library row. The browsing category is
/// the preset file's parent directory name (Surge's factory tree is
/// organized that way); falls back to the first reported feature.
pub fn to_import(preset: DiscoveredPreset, mtime: Option<i64>) -> (import: ImportPreset)
    ensures
        imports_as(preset@, mtime, import@),
{
    let directory = match &preset.path {
        Some(path) => parent_name(path.as_str()),
        None => None,
    };
    import_from(preset, directory, mtime)
}

/// The presets that a plugin can use, by their indices.
pub open spec fn usable(presets: Seq<DiscoveredPreset>, plugin_id: Seq<char>) -> Seq<int>
    decreases presets.len(),
{
    if presets.len() == 0 {
        Seq::empty()
    } else {
        let front = usable(presets.drop_last(), plugin_id);
        if is_for(presets.last()@, plugin_id) {
            front.push(presets.len() - 1)
        } else {
            front
        }
    }
}

proof fn lemma_usable(presets: Seq<DiscoveredPreset>, plugin_id: Seq<char>, n: int)
    requires
        0 <= n < presets.len(),
    ensures
        usable(presets.take(n + 1), plugin_id) == if is_for(presets[n]@, plugin_id) {
            usable(presets.take(n), plugin_id).push(n)
        } else {
            usable(presets.take(n), plugin_id)
        },
{
    assert(presets.take(n + 1).drop_last() =~= presets.take(n));
}

/// Whether a library row is that of the preset at an index.
pub open spec fn is_import(
    presets: Seq<DiscoveredPreset>,
    mtimes: Seq<Option<i64>>,
    at: int,
    import: ImportView,
) -> bool {
    0 <= at < presets.len() && imports_as(presets[at]@, mtimes[at], import)
}

/// What a scan hands to the library: the discovered presets that the plugin
/// can use, each with the modification time of its file.
pub fn scan_imports(
    presets: Vec<DiscoveredPreset>,
    mtimes: &Vec<Option<i64>>,
    plugin_id: &str,
) -> (imports: Vec<ImportPreset>)
    requires
        mtimes@.len() == presets@.len(),
    ensures
        imports@.len() == usable(presets@, plugin_id@).len(),
        forall|k: int|
            0 <= k < imports@.len() ==> is_import(
                presets@,
                mtimes@,
                usable(presets@, plugin_id@)[k],
                (#[trigger] imports@[k])@,
            ),
{
    let ghost all = presets@;
    let mut presets = presets;
    let mut imports: Vec<ImportPreset> = Vec::new();
    let mut i: usize = 0;
    let n: usize = presets.len();
    while i < n
        invariant
            i <= n,
            n == all.len(),
            mtimes@.len() == n,
            presets@ == all.skip(i as int),
            imports@.len() == usable(all.take(i as int), plugin_id@).len(),
            forall|k: int|
                0 <= k < imports@.len() ==> is_import(
                    all,
                    mtimes@,
                    usable(all.take(i as int), plugin_id@)[k],
                    (#[trigger] imports@[k])@,
                ),
        decreases n - i,
    {
        proof {
            lemma_usable(all, plugin_id@, i as int);
            assert(all.skip(i as int)[0] == all[i as int]);
        }
        let preset = presets.remove(0);
        assert(presets@ =~= all.skip(i + 1));
        if usable_by(&preset, plugin_id) {
            let import = to_import(preset, mtimes[i]);
            assert(is_import(all, mtimes@, i as int, import@));
            imports.push(import);
        }
        i += 1;
    }
    assert(all.take(i as int) =~= all);
    imports
}

// ---------------------------------------------------------------------
// Laws
// ---------------------------------------------------------------------

/// A file is wanted where its extension, in lower case, is one of those
/// asked for, and always where none is asked for.
pub proof fn law_files_are_wanted_by_extension(
    extension: Option<Seq<char>>,
    wanted: Seq<Seq<char>>,
)
    ensures
        wanted.len() == 0 ==> is_wanted(extension, wanted),
        wanted.len() > 0 ==> (is_wanted(extension, wanted) <==> exists|i: int|
            0 <= i < wanted.len() && Some(#[trigger] wanted[i]) == extension),
        extension matches Some(e) ==> lower_extension(extension) == Some(
            crate::text::lowercase(e),
        ),
        lower_extension(None) is None,
{
    if let Some(e) = extension {
        if wanted.contains(e) {
            let i = choose|i: int| 0 <= i < wanted.len() && wanted[i] == e;
            assert(Some(wanted[i]) == extension);
        }
        if exists|i: int| 0 <= i < wanted.len() && Some(#[trigger] wanted[i]) == extension {
            let i = choose|i: int| 0 <= i < wanted.len() && Some(#[trigger] wanted[i]) == extension;
            assert(wanted[i] == e);
        }
    }
}

/// A preset is for a plugin that it names, and for every one where it names
/// none.
pub proof fn law_presets_are_for_their_plugins(preset: DiscoveredView, plugin_id: Seq<char>)
    ensures
        is_for(preset, plugin_id) <==> preset.plugin_ids.len() == 0 || exists|i: int|
            0 <= i < preset.plugin_ids.len() && #[trigger] preset.plugin_ids[i] == plugin_id,
{
}

/// A row of the library says what was discovered of its preset; its category
/// is the directory it lies in, or its first feature where there is none.
pub proof fn law_imports_say_what_was_discovered(
    preset: DiscoveredView,
    directory: Option<Seq<char>>,
    mtime: Option<i64>,
)
    ensures
        ({
            let row = imported(preset, directory, mtime);
            &&& row.name == preset.name && row.path == preset.path
            &&& row.load_key == preset.load_key && row.features == preset.features
            &&& row.creators == preset.creators && row.description == preset.description
            &&& row.is_factory == preset.is_factory && row.mtime == mtime
            &&& directory is Some ==> row.category == directory
            &&& directory is None && preset.features.len() > 0 ==> row.category == Some(
                preset.features[0],
            )
            &&& directory is None && preset.features.len() == 0 ==> row.category is None
        }),
{
}

/// A preset that lies in a directory is filed under that directory's name.
pub proof fn law_presets_are_filed_by_directory(
    preset: DiscoveredView,
    mtime: Option<i64>,
    import: ImportView,
    directory: Seq<char>,
    stem: Seq<char>,
    extension: Seq<char>,
)
    requires
        stem.len() > 0 && stem != seq!['.'],
        !stem.contains('/') && !extension.contains('/') && !extension.contains('.'),
        crate::paths::last_part(directory).len() > 0,
        crate::paths::last_part(directory) != seq!['.'],
        crate::paths::last_part(directory) != seq!['.', '.'],
        crate::paths::is_parent_told(directory + seq!['/'] + (stem + seq!['.'] + extension)),
        preset.path == Some(directory + seq!['/'] + (stem + seq!['.'] + extension)),
        imports_as(preset, mtime, import),
    ensures
        import.category == Some(crate::paths::last_part(directory)),
{
    crate::paths::law_paths_split_into_their_parts(directory, stem, extension);
}

/// A scan takes exactly the presets that the plugin can use, in order.
pub proof fn law_a_scan_takes_the_usable_presets(
    presets: Seq<DiscoveredPreset>,
    plugin_id: Seq<char>,
    i: int,
)
    ensures
        usable(presets, plugin_id).contains(i) <==> 0 <= i < presets.len() && is_for(
            presets[i]@,
            plugin_id,
        ),
        forall|a: int, b: int|
            0 <= a < b < usable(presets, plugin_id).len() ==> (#[trigger] usable(
                presets,
                plugin_id,
            )[a]) < (#[trigger] usable(presets, plugin_id)[b]),
        forall|a: int|
            0 <= a < usable(presets, plugin_id).len() ==> 0 <= (#[trigger] usable(
                presets,
                plugin_id,
            )[a]) < presets.len(),
    decreases presets.len(),
{
    if presets.len() > 0 {
        let rest = presets.drop_last();
        law_a_scan_takes_the_usable_presets(rest, plugin_id, i);
        let (front, all) = (usable(rest, plugin_id), usable(presets, plugin_id));
        if front.contains(i) {
            let k = choose|k: int| 0 <= k < front.len() && front[k] == i;
            assert(all[k] == i);
            assert(rest[i] == presets[i]);
        }
        if all.contains(i) && !front.contains(i) {
            let k = choose|k: int| 0 <= k < all.len() && all[k] == i;
            if k < front.len() {
                assert(front[k] == i);
            }
        }
        if 0 <= i < rest.len() {
            assert(rest[i] == presets[i]);
        } else if i == presets.len() - 1 && all.len() > front.len() {
            assert(all[front.len() as int] == i);
        }
        assert forall|a: int, b: int| 0 <= a < b < all.len() implies (#[trigger] all[a]) < (
        #[trigger] all[b]) by {
            assert(all[a] == front[a]);
            if b < front.len() {
                assert(all[b] == front[b]);
            }
        }
        assert forall|a: int| 0 <= a < all.len() implies 0 <= (#[trigger] all[a])
            < presets.len() by {
            if a < front.len() {
                assert(all[a] == front[a]);
            }
        }
    }
}

/// A preset starts with its name, key and place and the flags of its
/// location, and nothing else; what follows is said of it alone.
pub proof fn law_presets_are_described_one_by_one(
    receiver: ReceiverView,
    preset: DiscoveredView,
    name: Seq<char>,
    load_key: Option<Seq<char>>,
    path: Option<Seq<char>>,
    flags: ContentFlags,
)
    ensures
        ({
            let fresh = begun(name, load_key, path, flags);
            &&& fresh.name == name && fresh.load_key == load_key && fresh.path == path
            &&& fresh.is_factory == flags.factory && fresh.is_user == flags.user
            &&& fresh.plugin_ids.len() == 0 && fresh.creators.len() == 0
            &&& fresh.features.len() == 0 && fresh.description is None
        }),
        ({
            let next = receiver.with_current(preset);
            &&& next.current_path == receiver.current_path
            &&& next.location_flags == receiver.location_flags
            &&& next.presets.len() == receiver.presets.len()
            &&& receiver.presets.len() > 0 ==> next.presets.last() == preset
                && next.presets.drop_last() == receiver.presets.drop_last()
        }),
{
    if receiver.presets.len() > 0 {
        assert(receiver.with_current(preset).presets.drop_last()
            =~= receiver.presets.drop_last());
    }
}

/// A scanned row is that of its preset, with the time of its own file.
pub proof fn law_rows_are_those_of_their_presets(
    presets: Seq<DiscoveredPreset>,
    mtimes: Seq<Option<i64>>,
    at: int,
    import: ImportView,
)
    requires
        is_import(presets, mtimes, at, import),
    ensures
        0 <= at < presets.len(),
        import.name == presets[at]@.name,
        import.path == presets[at]@.path,
        import.load_key == presets[at]@.load_key,
        import.features == presets[at]@.features,
        import.creators == presets[at]@.creators,
        import.description == presets[at]@.description,
        import.is_factory == presets[at]@.is_factory,
        import.mtime == mtimes[at],
{
}

} // verus!
