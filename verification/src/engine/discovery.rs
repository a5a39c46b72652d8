//! CLAP plugin discovery: which plugins a file describes, and which of them
//! a user's text means. Loading the files is the caller's part.

use vstd::prelude::*;

use crate::text::{contains, join, join3, quote, same};

verus! {

/// A plugin as its descriptor names it.
#[derive(Debug, Clone)]
pub struct PluginInfo {
    pub id: String,
    pub name: Option<String>,
    pub version: Option<String>,
}

/// One plugin descriptor: the id is missing where it is no valid text.
#[derive(Debug)]
pub struct Descriptor {
    pub id: Option<String>,
    pub name: Option<String>,
    pub version: Option<String>,
}

/// The plugins of the descriptors that have an id, in order.
pub open spec fn described(descriptors: Seq<Descriptor>) -> Seq<PluginInfo>
    decreases descriptors.len(),
{
    if descriptors.len() == 0 {
        Seq::empty()
    } else {
        let front = described(descriptors.drop_last());
        let last = descriptors.last();
        match last.id {
            Some(id) => front.push(PluginInfo { id, name: last.name, version: last.version }),
            None => front,
        }
    }
}

/// Lists the plugins that a file's descriptors name; a descriptor without
/// an id names none.
pub fn list_plugins(descriptors: &Vec<Descriptor>) -> (plugins: Vec<PluginInfo>)
    ensures
        plugins@ == described(descriptors@),
{
    let mut plugins: Vec<PluginInfo> = Vec::new();
    let mut i: usize = 0;
    while i < descriptors.len()
        invariant
            i <= descriptors@.len(),
            plugins@ == described(descriptors@.take(i as int)),
        decreases descriptors@.len() - i,
    {
        assert(descriptors@.take(i + 1).drop_last() =~= descriptors@.take(i as int));
        let d = &descriptors[i];
        match &d.id {
            Some(id) => {
                plugins.push(
                    PluginInfo {
                        id: id.clone(),
                        name: crate::text::copy_opt(&d.name),
                        version: crate::text::copy_opt(&d.version),
                    },
                );
            },
            None => {},
        }
        i += 1;
    }
    assert(descriptors@.take(i as int) =~= descriptors@);
    plugins
}

/// The text of [`PluginInfo::describe`].
pub open spec fn plugin_text(
    id: Seq<char>,
    name: Option<Seq<char>>,
    version: Option<Seq<char>>,
) -> Seq<char> {
    match (name, version) {
        (Some(n), Some(v)) => n + " ("@ + id + ") v"@ + v,
        (Some(n), None) => n + " ("@ + id + ")"@,
        _ => id,
    }
}

impl PluginInfo {
    /// Name, id and version, as far as they are known.
    pub fn describe(&self) -> (text: String)
        ensures
            text@ == plugin_text(
                self.id@,
                crate::text::opt_text(self.name),
                crate::text::opt_text(self.version),
            ),
    {
        match (&self.name, &self.version) {
            (Some(name), Some(version)) => {
                let mut text = join3(name.as_str(), " (", self.id.as_str());
                text.append(") v");
                text.append(version.as_str());
                text
            },
            (Some(name), None) => {
                let mut text = join3(name.as_str(), " (", self.id.as_str());
                text.append(")");
                text
            },
            _ => self.id.clone(),
        }
    }

    /// What the plugin is called: its name, or its id where it has none.
    pub fn title(&self) -> (text: String)
        ensures
            text@ == match self.name {
                Some(name) => name@,
                None => self.id@,
            },
    {
        match &self.name {
            Some(name) => name.clone(),
            None => self.id.clone(),
        }
    }
}

/// Why no plugin was found.
#[derive(Debug)]
pub enum DiscoveryError {
    NoMatch(String),
    Ambiguous(String, Vec<String>),
}

/// What a [`DiscoveryError`] says.
pub enum DiscoveryErrorView {
    NoMatch(Seq<char>),
    Ambiguous(Seq<char>, Seq<Seq<char>>),
}

impl View for DiscoveryError {
    type V = DiscoveryErrorView;

    open spec fn view(&self) -> DiscoveryErrorView {
        match *self {
            DiscoveryError::NoMatch(m) => DiscoveryErrorView::NoMatch(m@),
            DiscoveryError::Ambiguous(m, ids) => DiscoveryErrorView::Ambiguous(
                m@,
                crate::text::texts(ids@),
            ),
        }
    }
}

impl DiscoveryError {
    /// The error in words.
    pub fn message(&self) -> (text: String)
        ensures
            text@ == match self@ {
                DiscoveryErrorView::NoMatch(m) => "no CLAP plugin matching "@ + crate::text::quoted(
                    m,
                ) + " in the search paths"@,
                DiscoveryErrorView::Ambiguous(m, ids) => "multiple CLAP plugins match "@
                    + crate::text::quoted(m) + ": "@ + crate::text::joined(ids, ", "@),
            },
    {
        match self {
            DiscoveryError::NoMatch(m) => join3(
                "no CLAP plugin matching ",
                quote(m.as_str()).as_str(),
                " in the search paths",
            ),
            DiscoveryError::Ambiguous(m, ids) => {
                let mut text = join3(
                    "multiple CLAP plugins match ",
                    quote(m.as_str()).as_str(),
                    ": ",
                );
                text.append(join(ids, ", ").as_str());
                text
            },
        }
    }
}

/// An (id, name) pair as text.
pub type Named = (Seq<char>, Option<Seq<char>>);

/// What an (id, name) pair says.
pub open spec fn pair_view(pair: (String, Option<String>)) -> Named {
    (pair.0@, crate::text::opt_text(pair.1))
}

/// What a list of pairs says.
pub open spec fn pairs_view(pairs: Seq<(String, Option<String>)>) -> Seq<Named> {
    pairs.map_values(|p: (String, Option<String>)| pair_view(p))
}

/// Whether the id or the name contains the text.
pub open spec fn mentions(pair: Named, wanted: Seq<char>) -> bool {
    crate::text::occurs(pair.0, wanted) || (pair.1 matches Some(name) && crate::text::occurs(
        name,
        wanted,
    ))
}

/// Whether the id or the name is the text.
pub open spec fn is_called(pair: Named, wanted: Seq<char>) -> bool {
    pair.0 == wanted || pair.1 == Some(wanted)
}

/// The indices of the pairs that mention the text, in order; with `exact`,
/// of those that are called so.
pub open spec fn found_in(pairs: Seq<Named>, wanted: Seq<char>, exact: bool) -> Seq<int>
    decreases pairs.len(),
{
    if pairs.len() == 0 {
        Seq::empty()
    } else {
        let front = found_in(pairs.drop_last(), wanted, exact);
        if mentions(pairs.last(), wanted) && (exact ==> is_called(pairs.last(), wanted)) {
            front.push(pairs.len() - 1)
        } else {
            front
        }
    }
}

/// What a text picks among pairs.
pub enum Pick {
    Nothing,
    One(usize),
    Several(Vec<usize>),
}

spec fn as_ints(indices: Seq<usize>) -> Seq<int> {
    indices.map_values(|i: usize| i as int)
}

/// What a [`Pick`] says.
pub enum PickView {
    Nothing,
    One(int),
    Several(Seq<int>),
}

impl View for Pick {
    type V = PickView;

    closed spec fn view(&self) -> PickView {
        match *self {
            Pick::Nothing => PickView::Nothing,
            Pick::One(i) => PickView::One(i as int),
            Pick::Several(list) => PickView::Several(as_ints(list@)),
        }
    }
}

/// The pick of a text: a single mention, or among several the single pair
/// that is called so.
pub open spec fn picked(pairs: Seq<Named>, wanted: Seq<char>) -> PickView {
    let mentioned = found_in(pairs, wanted, false);
    let called = found_in(pairs, wanted, true);
    if mentioned.len() == 0 {
        PickView::Nothing
    } else if mentioned.len() == 1 {
        PickView::One(mentioned[0])
    } else if called.len() == 1 {
        PickView::One(called[0])
    } else {
        PickView::Several(mentioned)
    }
}

fn mentions_text(pair: &(String, Option<String>), wanted: &str) -> (r: bool)
    ensures
        r == mentions(pair_view(*pair), wanted@),
{
    contains(pair.0.as_str(), wanted) || match &pair.1 {
        Some(name) => contains(name.as_str(), wanted),
        None => false,
    }
}

fn called_text(pair: &(String, Option<String>), wanted: &str) -> (r: bool)
    ensures
        r == is_called(pair_view(*pair), wanted@),
{
    same(pair.0.as_str(), wanted) || crate::text::opt_is(&pair.1, wanted)
}

fn find_in(pairs: &Vec<(String, Option<String>)>, wanted: &str, exact: bool) -> (found: Vec<usize>)
    ensures
        as_ints(found@) == found_in(pairs_view(pairs@), wanted@, exact),
        found@.len() == found_in(pairs_view(pairs@), wanted@, exact).len(),
        forall|k: int| 0 <= k < found@.len() ==> (#[trigger] found@[k]) < pairs@.len(),
{
    let ghost views = pairs_view(pairs@);
    let mut found: Vec<usize> = Vec::new();
    let mut i: usize = 0;
    while i < pairs.len()
        invariant
            i <= pairs@.len(),
            views == pairs_view(pairs@),
            as_ints(found@) == found_in(views.take(i as int), wanted@, exact),
            forall|k: int| 0 <= k < found@.len() ==> (#[trigger] found@[k]) < pairs@.len(),
        decreases pairs@.len() - i,
    {
        assert(views.take(i + 1).drop_last() =~= views.take(i as int));
        assert(views.take(i + 1).last() == pair_view(pairs@[i as int]));
        if mentions_text(&pairs[i], wanted) && (!exact || called_text(&pairs[i], wanted)) {
            let ghost before = as_ints(found@);
            found.push(i);
            assert(as_ints(found@) =~= before.push(i as int));
        }
        i += 1;
    }
    assert(views.take(i as int) =~= views);
    assert(as_ints(found@).len() == found@.len());
    found
}

/// Picks among (id, name) pairs in lower case: a single pair that mentions
/// the text, or among several the single pair that is called so.
pub fn pick_match(wanted: &str, pairs: &Vec<(String, Option<String>)>) -> (pick: Pick)
    ensures
        pick@ == picked(pairs_view(pairs@), wanted@),
        pick matches Pick::One(i) ==> i < pairs@.len(),
        pick matches Pick::Several(list) ==> list@.len() >= 2 && forall|k: int|
            0 <= k < list@.len() ==> (#[trigger] list@[k]) < pairs@.len(),
{
    let mentioned = find_in(pairs, wanted, false);
    let ghost m = as_ints(mentioned@);
    if mentioned.len() == 0 {
        Pick::Nothing
    } else if mentioned.len() == 1 {
        assert(m[0] == mentioned@[0]);
        Pick::One(mentioned[0])
    } else {
        let called = find_in(pairs, wanted, true);
        let ghost c = as_ints(called@);
        if called.len() == 1 {
            assert(c[0] == called@[0]);
            Pick::One(called[0])
        } else {
            Pick::Several(mentioned)
        }
    }
}

/// A pair in lower case.
pub open spec fn lowered(pair: Named) -> Named {
    (
        crate::text::lowercase(pair.0),
        match pair.1 {
            Some(name) => Some(crate::text::lowercase(name)),
            None => None,
        },
    )
}

/// The index that a text selects, or why none: case does not count.
pub open spec fn selected(matcher: Seq<char>, candidates: Seq<Named>) -> Result<
    int,
    DiscoveryErrorView,
> {
    match picked(candidates.map_values(|p: Named| lowered(p)), crate::text::lowercase(matcher)) {
        PickView::Nothing => Err(DiscoveryErrorView::NoMatch(matcher)),
        PickView::One(i) => Ok(i),
        PickView::Several(list) => Err(
            DiscoveryErrorView::Ambiguous(
                matcher,
                Seq::new(list.len(), |k: int| candidates[list[k]].0),
            ),
        ),
    }
}

/// The view of what [`select_match`] returns.
pub open spec fn selection_view(r: Result<usize, DiscoveryError>) -> Result<
    int,
    DiscoveryErrorView,
> {
    match r {
        Ok(i) => Ok(i as int),
        Err(e) => Err(e@),
    }
}

/// Finds a single plugin by case-insensitive match on its id or name.
/// Substring matches are accepted when unambiguous; with several substring
/// matches, an exact id or name match wins (so "Surge XT" selects Surge XT
/// even though "Surge XT Effects" also contains it).
pub fn select_match(matcher: &str, candidates: &[(String, Option<String>)]) -> (r: Result<
    usize,
    DiscoveryError,
>)
    ensures
        selection_view(r) == selected(matcher@, pairs_view(candidates@)),
        r matches Ok(i) ==> i < candidates@.len(),
{
    let ghost views = pairs_view(candidates@);
    let ghost want = views.map_values(|p: Named| lowered(p));
    let mut pairs: Vec<(String, Option<String>)> = Vec::new();
    let mut i: usize = 0;
    while i < candidates.len()
        invariant
            i <= candidates@.len(),
            pairs@.len() == i,
            forall|j: int|
                0 <= j < i ==> pair_view(#[trigger] pairs@[j]) == lowered(
                    pair_view(candidates@[j]),
                ),
        decreases candidates@.len() - i,
    {
        let name = match &candidates[i].1 {
            Some(name) => Some(name.as_str().to_lowercase()),
            None => None,
        };
        pairs.push((candidates[i].0.as_str().to_lowercase(), name));
        i += 1;
    }
    assert(pairs_view(pairs@) =~= want);
    match pick_match(matcher.to_lowercase().as_str(), &pairs) {
        Pick::Nothing => Err(DiscoveryError::NoMatch(matcher.to_owned())),
        Pick::One(i) => Ok(i),
        Pick::Several(list) => {
            let ghost indices = as_ints(list@);
            let mut ids: Vec<String> = Vec::new();
            let mut k: usize = 0;
            while k < list.len()
                invariant
                    k <= list@.len(),
                    ids@.len() == k,
                    indices == as_ints(list@),
                    views == pairs_view(candidates@),
                    pairs@.len() == candidates@.len(),
                    forall|j: int| 0 <= j < list@.len() ==> (#[trigger] list@[j]) < pairs@.len(),
                    forall|j: int|
                        0 <= j < k ==> (#[trigger] ids@[j])@ == views[indices[j]].0,
                decreases list@.len() - k,
            {
                let at: usize = list[k];
                assert(indices[k as int] == at);
                assert(views[at as int] == pair_view(candidates@[at as int]));
                ids.push(candidates[at].0.clone());
                k += 1;
            }
            assert(crate::text::texts(ids@) =~= Seq::new(
                indices.len(),
                |k: int| views[indices[k]].0,
            ));
            Err(DiscoveryError::Ambiguous(matcher.to_owned(), ids))
        },
    }
}

/// Whatever is selected mentions the text, in lower case.
pub proof fn law_selection_mentions_the_text(matcher: Seq<char>, candidates: Seq<Named>)
    ensures
        selected(matcher, candidates) matches Ok(i) ==> 0 <= i < candidates.len() && mentions(
            lowered(candidates[i]),
            crate::text::lowercase(matcher),
        ),
{
    let pairs = candidates.map_values(|p: Named| lowered(p));
    let wanted = crate::text::lowercase(matcher);
    lemma_found_in(pairs, wanted, false);
    lemma_found_in(pairs, wanted, true);
}

proof fn lemma_found_in(pairs: Seq<Named>, wanted: Seq<char>, exact: bool)
    ensures
        forall|k: int|
            0 <= k < found_in(pairs, wanted, exact).len() ==> {
                let i = #[trigger] found_in(pairs, wanted, exact)[k];
                &&& 0 <= i < pairs.len()
                &&& mentions(pairs[i], wanted)
                &&& exact ==> is_called(pairs[i], wanted)
            },
    decreases pairs.len(),
{
    if pairs.len() > 0 {
        let rest = pairs.drop_last();
        lemma_found_in(rest, wanted, exact);
        let front = found_in(rest, wanted, exact);
        let all = found_in(pairs, wanted, exact);
        assert forall|k: int| 0 <= k < all.len() implies {
            let i = #[trigger] all[k];
            &&& 0 <= i < pairs.len()
            &&& mentions(pairs[i], wanted)
            &&& exact ==> is_called(pairs[i], wanted)
        } by {
            if k < front.len() {
                assert(all[k] == front[k]);
                assert(rest[front[k]] == pairs[front[k]]);
            }
        }
    }
}

/// A text that is exactly one plugin's id or name selects it, however many
/// others mention it.
pub proof fn law_exact_match_wins(matcher: Seq<char>, candidates: Seq<Named>, i: int)
    requires
        found_in(
            candidates.map_values(|p: Named| lowered(p)),
            crate::text::lowercase(matcher),
            true,
        ) == seq![i],
    ensures
        selected(matcher, candidates) == Ok::<int, DiscoveryErrorView>(i),
{
    let pairs = candidates.map_values(|p: Named| lowered(p));
    let wanted = crate::text::lowercase(matcher);
    lemma_called_are_mentioned(pairs, wanted);
    let mentioned = found_in(pairs, wanted, false);
    assert(found_in(pairs, wanted, true)[0] == i);
    assert(mentioned.contains(i));
}

proof fn lemma_called_are_mentioned(pairs: Seq<Named>, wanted: Seq<char>)
    ensures
        forall|k: int|
            0 <= k < found_in(pairs, wanted, true).len() ==> found_in(
                pairs,
                wanted,
                false,
            ).contains(#[trigger] found_in(pairs, wanted, true)[k]),
    decreases pairs.len(),
{
    if pairs.len() > 0 {
        let rest = pairs.drop_last();
        lemma_called_are_mentioned(rest, wanted);
        let called = found_in(pairs, wanted, true);
        let mentioned = found_in(pairs, wanted, false);
        let fc = found_in(rest, wanted, true);
        let fm = found_in(rest, wanted, false);
        assert forall|k: int| 0 <= k < called.len() implies mentioned.contains(
            #[trigger] called[k],
        ) by {
            if k < fc.len() {
                assert(called[k] == fc[k]);
                let n = choose|n: int| 0 <= n < fm.len() && fm[n] == fc[k];
                assert(mentioned[n] == fc[k]);
            } else {
                assert(mentioned.last() == pairs.len() - 1);
            }
        }
    }
}

/// A file names the plugins whose descriptors have an id, each as its
/// descriptor says, in order.
pub proof fn law_files_name_their_plugins(descriptors: Seq<Descriptor>, more: Descriptor)
    ensures
        described(Seq::empty()).len() == 0,
        more.id is None ==> described(descriptors.push(more)) == described(descriptors),
        more.id matches Some(id) ==> {
            let all = described(descriptors.push(more));
            &&& all.len() == described(descriptors).len() + 1
            &&& all.drop_last() == described(descriptors)
            &&& all.last().id == id && all.last().name == more.name
            &&& all.last().version == more.version
        },
{
    assert(descriptors.push(more).drop_last() =~= descriptors);
    if more.id is Some {
        assert(described(descriptors.push(more)).drop_last() =~= described(descriptors));
    }
}

/// A plugin is described by name, id and version, as far as it has them.
pub proof fn law_plugins_are_described(
    id: Seq<char>,
    name: Seq<char>,
    version: Seq<char>,
)
    ensures
        plugin_text(id, Some(name), Some(version)) == name + " ("@ + id + ") v"@ + version,
        plugin_text(id, Some(name), None) == name + " ("@ + id + ")"@,
        plugin_text(id, None, Some(version)) == id,
        plugin_text(id, None, None) == id,
{
}

/// What is found is what mentions the text in its id or its name; exactly,
/// what is called so. Nothing else is found, and nothing twice.
pub proof fn law_finds_what_mentions_the_text(
    pairs: Seq<Named>,
    wanted: Seq<char>,
    exact: bool,
    i: int,
)
    ensures
        found_in(pairs, wanted, exact).contains(i) <==> {
            &&& 0 <= i < pairs.len()
            &&& crate::text::occurs(pairs[i].0, wanted) || (pairs[i].1 matches Some(name)
                && crate::text::occurs(name, wanted))
            &&& exact ==> pairs[i].0 == wanted || pairs[i].1 == Some(wanted)
        },
        forall|a: int, b: int|
            0 <= a < b < found_in(pairs, wanted, exact).len() ==> (#[trigger] found_in(
                pairs,
                wanted,
                exact,
            )[a]) < (#[trigger] found_in(pairs, wanted, exact)[b]),
        forall|a: int|
            0 <= a < found_in(pairs, wanted, exact).len() ==> 0 <= (#[trigger] found_in(
                pairs,
                wanted,
                exact,
            )[a]) < pairs.len(),
    decreases pairs.len(),
{
    if pairs.len() > 0 {
        let rest = pairs.drop_last();
        law_finds_what_mentions_the_text(rest, wanted, exact, i);
        let (front, all) = (found_in(rest, wanted, exact), found_in(pairs, wanted, exact));
        if front.contains(i) {
            let k = choose|k: int| 0 <= k < front.len() && front[k] == i;
            assert(all[k] == i);
            assert(rest[i] == pairs[i]);
        }
        if all.contains(i) && !front.contains(i) {
            let k = choose|k: int| 0 <= k < all.len() && all[k] == i;
            if k < front.len() {
                assert(front[k] == i);
            }
        }
        if 0 <= i < rest.len() {
            assert(rest[i] == pairs[i]);
        } else if i == pairs.len() - 1 && all.len() > front.len() {
            assert(all[front.len() as int] == i);
        }
        assert forall|a: int, b: int| 0 <= a < b < all.len() implies (#[trigger] all[a]) < (
        #[trigger] all[b]) by {
            assert(all[a] == front[a]);
            if b < front.len() {
                assert(all[b] == front[b]);
            }
        }
        assert forall|a: int| 0 <= a < all.len() implies 0 <= (#[trigger] all[a])
            < pairs.len() by {
            if a < front.len() {
                assert(all[a] == front[a]);
            }
        }
    }
}

/// A text selects the only plugin that mentions it, or among several the
/// only one that is called so; else it selects none, and the error names
/// the text, and all that mention it where there are several.
pub proof fn law_only_one_is_selected(pairs: Seq<Named>, wanted: Seq<char>)
    ensures
        ({
            let mentioned = found_in(pairs, wanted, false);
            let called = found_in(pairs, wanted, true);
            &&& mentioned.len() == 0 ==> picked(pairs, wanted) is Nothing
            &&& mentioned.len() == 1 ==> picked(pairs, wanted) == PickView::One(mentioned[0])
            &&& mentioned.len() > 1 && called.len() == 1 ==> picked(pairs, wanted)
                == PickView::One(called[0])
            &&& mentioned.len() > 1 && called.len() != 1 ==> picked(pairs, wanted)
                == PickView::Several(mentioned)
        }),
{
}

/// Selection does not look at case: text, ids and names count in lower case,
/// and errors give them as they are.
pub proof fn law_selection_ignores_case(matcher: Seq<char>, candidates: Seq<Named>, k: int)
    ensures
        ({
            let lower = Seq::new(
                candidates.len(),
                |i: int|
                    (
                        crate::text::lowercase(candidates[i].0),
                        match candidates[i].1 {
                            Some(name) => Some(crate::text::lowercase(name)),
                            None => None,
                        },
                    ),
            );
            match picked(lower, crate::text::lowercase(matcher)) {
                PickView::Nothing => selected(matcher, candidates) == Err::<
                    int,
                    DiscoveryErrorView,
                >(DiscoveryErrorView::NoMatch(matcher)),
                PickView::One(i) => selected(matcher, candidates) == Ok::<
                    int,
                    DiscoveryErrorView,
                >(i),
                PickView::Several(list) => selected(matcher, candidates) matches Err(
                    DiscoveryErrorView::Ambiguous(text, ids),
                ) && text == matcher && ids.len() == list.len() && (0 <= k < list.len() ==> ids[k]
                    == candidates[list[k]].0),
            }
        }),
{
    let lower = Seq::new(
        candidates.len(),
        |i: int|
            (
                crate::text::lowercase(candidates[i].0),
                match candidates[i].1 {
                    Some(name) => Some(crate::text::lowercase(name)),
                    None => None,
                },
            ),
    );
    assert(candidates.map_values(|p: Named| lowered(p)) =~= lower);
}

/// A selection is the index or the error that is returned.
pub proof fn law_selections_are_returned_as_they_are(r: Result<usize, DiscoveryError>)
    ensures
        r matches Ok(i) ==> selection_view(r) == Ok::<int, DiscoveryErrorView>(i as int),
        r matches Err(e) ==> selection_view(r) == Err::<int, DiscoveryErrorView>(e@),
{
}

} // verus!
