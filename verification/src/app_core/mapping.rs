//! Per-engine macro mappings and the runtime binding of hardware controls
//! to plugin parameters.
//!
//! A mapping entry references its parameter primarily by CLAP param id. The
//! parameter name is stored alongside for readability and as a fallback:
//! exact name match first, prefix match after (Surge macro names mutate
//! when a patch renames them, e.g. "M1: -" becomes "M1: Cutoff").
//!
//! Parameter values are of a type `V` that the caller chooses; scaling them
//! is the caller's part, and comes in with a [`Move`].

use std::collections::HashMap;

use vstd::prelude::*;

use crate::app_core::takeover::{Reading, SoftTakeover, TakeoverView};
use crate::engine::params::{ParamChange, ParamDescription, ParamView};
use crate::midi::event::{DeviceEvent, DeviceView};
use crate::text::{
    chars_of, decimal_text, join2, join3, quote, same, slice_text, starts_with, trim_bounds,
};

verus! {

broadcast use vstd::std_specs::hash::group_hash_axioms;

/// One of the mappable absolute controls.
#[derive(Debug, Clone, Copy, PartialEq, Eq, Structural, Hash)]
pub enum Control {
    Encoder(u8),
    Fader(u8),
}

/// The mapping file as written on disk.
#[derive(Debug)]
pub struct MappingFile<V> {
    /// CLAP plugin id this mapping applies to.
    pub plugin_id: String,
    pub encoder: Vec<ControlEntry<V>>,
    pub fader: Vec<ControlEntry<V>>,
}

/// One entry of a mapping file.
#[derive(Debug)]
pub struct ControlEntry<V> {
    /// 1-based hardware index (encoders 1..=8, faders 1..=4).
    pub index: u8,
    /// Short label shown on the device display.
    pub label: String,
    /// CLAP param id.
    pub param_id: Option<u32>,
    /// Parameter name, informational and fallback lookup.
    pub param_name: Option<String>,
    /// Optional plain-value range override (defaults to the param's range).
    pub min: Option<V>,
    pub max: Option<V>,
    /// Take the live label from the plugin's current parameter name
    /// (refreshed on preset load), stripping `param_name` as a prefix.
    pub label_from_param: bool,
}

/// What a [`ControlEntry`] says.
pub struct EntryView<V> {
    pub index: u8,
    pub label: Seq<char>,
    pub param_id: Option<u32>,
    pub param_name: Option<Seq<char>>,
    pub min: Option<V>,
    pub max: Option<V>,
    pub label_from_param: bool,
}

impl<V> View for ControlEntry<V> {
    type V = EntryView<V>;

    open spec fn view(&self) -> EntryView<V> {
        EntryView {
            index: self.index,
            label: self.label@,
            param_id: self.param_id,
            param_name: crate::text::opt_text(self.param_name),
            min: self.min,
            max: self.max,
            label_from_param: self.label_from_param,
        }
    }
}

/// The entries of a file in order, encoders first; each with whether it is
/// an encoder.
pub open spec fn file_entries<V>(file: MappingFile<V>) -> Seq<(EntryView<V>, bool)> {
    file.encoder@.map_values(|e: ControlEntry<V>| (e@, true)) + file.fader@.map_values(
        |e: ControlEntry<V>| (e@, false),
    )
}

/// Why a mapping cannot be used.
#[derive(Debug)]
pub enum MappingError {
    Io(String, String),
    Parse(String),
    WrongPlugin { expected: String, actual: String },
    UnresolvedParam { label: String },
    BadIndex { control: &'static str, index: u8 },
}

/// What a [`MappingError`] says.
pub enum MappingErrorView {
    Io(Seq<char>, Seq<char>),
    Parse(Seq<char>),
    WrongPlugin { expected: Seq<char>, actual: Seq<char> },
    UnresolvedParam { label: Seq<char> },
    BadIndex { control: Seq<char>, index: u8 },
}

impl View for MappingError {
    type V = MappingErrorView;

    open spec fn view(&self) -> MappingErrorView {
        match *self {
            MappingError::Io(path, e) => MappingErrorView::Io(path@, e@),
            MappingError::Parse(e) => MappingErrorView::Parse(e@),
            MappingError::WrongPlugin { expected, actual } => MappingErrorView::WrongPlugin {
                expected: expected@,
                actual: actual@,
            },
            MappingError::UnresolvedParam { label } => MappingErrorView::UnresolvedParam {
                label: label@,
            },
            MappingError::BadIndex { control, index } => MappingErrorView::BadIndex {
                control: control@,
                index,
            },
        }
    }
}

/// The text of [`MappingError::message`].
pub open spec fn mapping_error_text(error: MappingErrorView) -> Seq<char> {
    match error {
        MappingErrorView::Io(path, e) => "cannot read "@ + path + ": "@ + e,
        MappingErrorView::Parse(e) => "mapping parse error: "@ + e,
        MappingErrorView::WrongPlugin { expected, actual } => "mapping is for plugin "@ + expected
            + ", loaded "@ + actual,
        MappingErrorView::UnresolvedParam { label } => "mapping entry "@ + crate::text::quoted(
            label,
        ) + " matches no plugin parameter"@,
        MappingErrorView::BadIndex { control, index } => "mapping entry has out-of-range "@
            + control + " index "@ + crate::text::decimal(index as nat),
    }
}

impl MappingError {
    /// The error in words.
    pub fn message(&self) -> (text: String)
        ensures
            text@ == mapping_error_text(self@),
    {
        match self {
            MappingError::Io(path, e) => {
                let mut text = join3("cannot read ", path.as_str(), ": ");
                text.append(e.as_str());
                text
            },
            MappingError::Parse(e) => join2("mapping parse error: ", e.as_str()),
            MappingError::WrongPlugin { expected, actual } => {
                let mut text = join3("mapping is for plugin ", expected.as_str(), ", loaded ");
                text.append(actual.as_str());
                text
            },
            MappingError::UnresolvedParam { label } => join3(
                "mapping entry ",
                quote(label.as_str()).as_str(),
                " matches no plugin parameter",
            ),
            MappingError::BadIndex { control, index } => {
                let mut text = join3("mapping entry has out-of-range ", control, " index ");
                text.append(decimal_text(*index as u64).as_str());
                text
            },
        }
    }
}

// ---------------------------------------------------------------------
// Labels
// ---------------------------------------------------------------------

/// `text` without the colons it starts with.
pub open spec fn without_colons(text: Seq<char>) -> Seq<char>
    decreases text.len(),
{
    if text.len() > 0 && text[0] == ':' {
        without_colons(text.drop_first())
    } else {
        text
    }
}

/// What a parameter name says beyond its prefix: without the prefix, if it
/// has it, and without white space and colons before the rest.
pub open spec fn live_label(prefix: Option<Seq<char>>, name: Seq<char>) -> Seq<char> {
    let rest = match prefix {
        Some(p) => if crate::text::has_prefix(name, p) {
            name.skip(p.len() as int)
        } else {
            name
        },
        None => name,
    };
    crate::text::trimmed(without_colons(crate::text::trimmed(rest)))
}

/// Whether a live label marks a macro that the patch does not assign.
pub open spec fn is_unassigned(label: Seq<char>) -> bool {
    label.len() == 0 || label == "-"@
}

proof fn lemma_without_colons_is(text: Seq<char>, n: int)
    requires
        0 <= n <= text.len(),
        forall|i: int| 0 <= i < n ==> #[trigger] text[i] == ':',
        n < text.len() ==> text[n] != ':',
    ensures
        without_colons(text) == text.skip(n),
    decreases n,
{
    if n == 0 {
        assert(text.skip(0) =~= text);
    } else {
        let rest = text.drop_first();
        assert forall|i: int| 0 <= i < n - 1 implies #[trigger] rest[i] == ':' by {
            assert(rest[i] == text[i + 1]);
        }
        lemma_without_colons_is(rest, n - 1);
        assert(rest.skip(n - 1) =~= text.skip(n));
    }
}

fn live_label_of(prefix: &Option<String>, name: &str) -> (label: String)
    ensures
        label@ == live_label(crate::text::opt_text(*prefix), name@),
{
    let chars = chars_of(name);
    let size: usize = chars.len();
    let start: usize = match prefix {
        Some(p) => if starts_with(name, p.as_str()) {
            chars_of(p.as_str()).len()
        } else {
            0
        },
        None => 0,
    };
    assert(name@.skip(0) =~= name@);
    let (from, to) = trim_bounds(&chars, start, size);
    assert(chars@.subrange(start as int, size as int) =~= name@.skip(start as int));
    let ghost inner = chars@.subrange(from as int, to as int);
    let mut at: usize = from;
    while at < to && chars[at] == ':'
        invariant
            from <= at <= to <= chars@.len(),
            inner == chars@.subrange(from as int, to as int),
            forall|i: int| 0 <= i < at - from ==> #[trigger] inner[i] == ':',
        decreases to - at,
    {
        at += 1;
    }
    proof {
        lemma_without_colons_is(inner, at - from);
        assert(inner.skip(at - from) =~= chars@.subrange(at as int, to as int));
    }
    let (lo, hi) = trim_bounds(&chars, at, to);
    slice_text(&chars, lo, hi)
}

// ---------------------------------------------------------------------
// Finding a parameter
// ---------------------------------------------------------------------

/// The index of the first parameter that `wanted` holds of.
pub open spec fn first_param<V>(
    params: Seq<ParamView<V>>,
    wanted: spec_fn(ParamView<V>) -> bool,
) -> Option<int>
    decreases params.len(),
{
    if params.len() == 0 {
        None
    } else {
        match first_param(params.drop_last(), wanted) {
            Some(i) => Some(i),
            None => if wanted(params.last()) {
                Some(params.len() - 1)
            } else {
                None
            },
        }
    }
}

proof fn lemma_first_param<V>(params: Seq<ParamView<V>>, wanted: spec_fn(ParamView<V>) -> bool)
    ensures
        match first_param(params, wanted) {
            Some(i) => 0 <= i < params.len() && wanted(params[i]) && forall|j: int|
                0 <= j < i ==> !wanted(#[trigger] params[j]),
            None => forall|j: int| 0 <= j < params.len() ==> !wanted(#[trigger] params[j]),
        },
    decreases params.len(),
{
    if params.len() > 0 {
        let rest = params.drop_last();
        lemma_first_param(rest, wanted);
        assert forall|j: int| 0 <= j < rest.len() implies rest[j] == #[trigger] params[j] by {}
        match first_param(rest, wanted) {
            Some(i) => {
                assert(rest[i] == params[i]);
                assert forall|j: int| 0 <= j < i implies !wanted(#[trigger] params[j]) by {
                    assert(rest[j] == params[j]);
                }
            },
            None => {
                assert forall|j: int| 0 <= j < rest.len() implies !wanted(#[trigger] params[j]) by {
                    assert(rest[j] == params[j]);
                }
            },
        }
    }
}

proof fn lemma_first_param_is<V>(
    params: Seq<ParamView<V>>,
    wanted: spec_fn(ParamView<V>) -> bool,
    found: Option<int>,
)
    requires
        match found {
            Some(i) => 0 <= i < params.len() && wanted(params[i]) && forall|j: int|
                0 <= j < i ==> !wanted(#[trigger] params[j]),
            None => forall|j: int| 0 <= j < params.len() ==> !wanted(#[trigger] params[j]),
        },
    ensures
        first_param(params, wanted) == found,
{
    lemma_first_param(params, wanted);
    match (first_param(params, wanted), found) {
        (Some(i), Some(j)) => {
            assert(wanted(params[i]) && wanted(params[j]));
        },
        (Some(i), None) => {
            assert(wanted(params[i]));
        },
        (None, Some(j)) => {
            assert(wanted(params[j]));
        },
        _ => {},
    }
}

/// The parameter that an entry refers to: by id first, by exact name
/// second, by the start of its name last.
pub open spec fn resolved<V>(entry: EntryView<V>, params: Seq<ParamView<V>>) -> Option<int> {
    let by_id = match entry.param_id {
        Some(id) => first_param(params, |p: ParamView<V>| p.id == id),
        None => None,
    };
    if by_id is Some {
        by_id
    } else {
        match entry.param_name {
            None => None,
            Some(name) => {
                let exact = first_param(params, |p: ParamView<V>| p.name == name);
                if exact is Some {
                    exact
                } else {
                    first_param(params, |p: ParamView<V>| crate::text::has_prefix(p.name, name))
                }
            },
        }
    }
}

/// What an index found stands for.
pub open spec fn as_index(found: Option<usize>) -> Option<int> {
    match found {
        Some(i) => Some(i as int),
        None => None,
    }
}

fn find_id<V>(params: &[ParamDescription<V>], id: u32) -> (found: Option<usize>)
    ensures
        as_index(found) == first_param(
            crate::engine::params::params_view(params@),
            |p: ParamView<V>| p.id == id,
        ),
{
    let ghost views = crate::engine::params::params_view(params@);
    let ghost wanted = |p: ParamView<V>| p.id == id;
    let mut i: usize = 0;
    while i < params.len()
        invariant
            i <= params@.len(),
            views == crate::engine::params::params_view(params@),
            wanted == (|p: ParamView<V>| p.id == id),
            forall|j: int| 0 <= j < i ==> !wanted(#[trigger] views[j]),
        decreases params@.len() - i,
    {
        assert(views[i as int] == params@[i as int]@);
        if params[i].id == id {
            proof {
                lemma_first_param_is(views, wanted, Some(i as int));
            }
            return Some(i);
        }
        i += 1;
    }
    proof {
        lemma_first_param_is(views, wanted, None);
    }
    None
}

fn find_name<V>(params: &[ParamDescription<V>], name: &str) -> (found: Option<usize>)
    ensures
        as_index(found) == first_param(
            crate::engine::params::params_view(params@),
            |p: ParamView<V>| p.name == name@,
        ),
{
    let ghost views = crate::engine::params::params_view(params@);
    let ghost wanted = |p: ParamView<V>| p.name == name@;
    let mut i: usize = 0;
    while i < params.len()
        invariant
            i <= params@.len(),
            views == crate::engine::params::params_view(params@),
            wanted == (|p: ParamView<V>| p.name == name@),
            forall|j: int| 0 <= j < i ==> !wanted(#[trigger] views[j]),
        decreases params@.len() - i,
    {
        assert(views[i as int] == params@[i as int]@);
        if same(params[i].name.as_str(), name) {
            proof {
                lemma_first_param_is(views, wanted, Some(i as int));
            }
            return Some(i);
        }
        i += 1;
    }
    proof {
        lemma_first_param_is(views, wanted, None);
    }
    None
}

fn find_prefix<V>(params: &[ParamDescription<V>], name: &str) -> (found: Option<usize>)
    ensures
        as_index(found) == first_param(
            crate::engine::params::params_view(params@),
            |p: ParamView<V>| crate::text::has_prefix(p.name, name@),
        ),
{
    let ghost views = crate::engine::params::params_view(params@);
    let ghost wanted = |p: ParamView<V>| crate::text::has_prefix(p.name, name@);
    let mut i: usize = 0;
    while i < params.len()
        invariant
            i <= params@.len(),
            views == crate::engine::params::params_view(params@),
            wanted == (|p: ParamView<V>| crate::text::has_prefix(p.name, name@)),
            forall|j: int| 0 <= j < i ==> !wanted(#[trigger] views[j]),
        decreases params@.len() - i,
    {
        assert(views[i as int] == params@[i as int]@);
        if starts_with(params[i].name.as_str(), name) {
            proof {
                lemma_first_param_is(views, wanted, Some(i as int));
            }
            return Some(i);
        }
        i += 1;
    }
    proof {
        lemma_first_param_is(views, wanted, None);
    }
    None
}

/// Finds the parameter an entry refers to: by id first, by exact name
/// second, by the start of its name last.
pub fn resolve_param<V>(entry: &ControlEntry<V>, params: &[ParamDescription<V>]) -> (found: Option<
    usize,
>)
    ensures
        as_index(found) == resolved(entry@, crate::engine::params::params_view(params@)),
        found matches Some(i) ==> i < params@.len(),
{
    let ghost views = crate::engine::params::params_view(params@);
    if let Some(id) = entry.param_id {
        let found = find_id(params, id);
        if found.is_some() {
            proof {
                lemma_first_param(views, |p: ParamView<V>| p.id == id);
            }
            return found;
        }
    }
    match &entry.param_name {
        None => None,
        Some(name) => {
            let exact = find_name(params, name.as_str());
            proof {
                lemma_first_param(views, |p: ParamView<V>| p.name == name@);
                lemma_first_param(
                    views,
                    |p: ParamView<V>| crate::text::has_prefix(p.name, name@),
                );
            }
            if exact.is_some() {
                exact
            } else {
                find_prefix(params, name.as_str())
            }
        },
    }
}

// ---------------------------------------------------------------------
// Bindings
// ---------------------------------------------------------------------

/// A control bound to a live plugin parameter.
#[derive(Debug, Clone)]
pub struct Binding<V> {
    pub control: Control,
    pub label: String,
    pub param_id: u32,
    /// Plain-value range the 0..=127 control sweeps over.
    pub lo: V,
    pub hi: V,
    /// Whether the parameter appears to be doing anything in the current
    /// patch. Always true unless `label_from_param` is set and the live
    /// name is the unassigned marker.
    pub active: bool,
    /// The param's cookie, refreshed on preset loads.
    pub cookie: usize,
    /// The label from the mapping file, kept as the fallback.
    pub file_label: String,
    pub label_from_param: bool,
    pub name_prefix: Option<String>,
}

/// What a [`Binding`] holds.
#[verifier::ext_equal]
pub struct BindingView<V> {
    pub control: Control,
    pub label: Seq<char>,
    pub param_id: u32,
    pub lo: V,
    pub hi: V,
    pub active: bool,
    pub cookie: usize,
    pub file_label: Seq<char>,
    pub label_from_param: bool,
    pub name_prefix: Option<Seq<char>>,
}

impl<V> View for Binding<V> {
    type V = BindingView<V>;

    open spec fn view(&self) -> BindingView<V> {
        BindingView {
            control: self.control,
            label: self.label@,
            param_id: self.param_id,
            lo: self.lo,
            hi: self.hi,
            active: self.active,
            cookie: self.cookie,
            file_label: self.file_label@,
            label_from_param: self.label_from_param,
            name_prefix: crate::text::opt_text(self.name_prefix),
        }
    }
}

/// A binding with its label and activity taken from the parameter's
/// current name, where it wants that.
pub open spec fn relabelled<V>(binding: BindingView<V>, name: Seq<char>) -> BindingView<V> {
    let live = live_label(binding.name_prefix, name);
    if !binding.label_from_param {
        binding
    } else if is_unassigned(live) {
        BindingView { active: false, label: binding.file_label, ..binding }
    } else {
        BindingView { active: true, label: live, ..binding }
    }
}

impl<V> Binding<V> {
    /// Refreshes the live label and activity flag from the parameter's
    /// current name.
    pub fn refresh_label(&mut self, param_name: &str)
        ensures
            final(self)@ == relabelled(old(self)@, param_name@),
    {
        if !self.label_from_param {
            return;
        }
        let live = live_label_of(&self.name_prefix, param_name);
        let empty = same(live.as_str(), "");
        proof {
            reveal_strlit("");
            assert(live@ == ""@ <==> live@.len() == 0) by {
                if live@.len() == 0 {
                    assert(live@ =~= ""@);
                }
            }
        }
        if empty || same(live.as_str(), "-") {
            self.active = false;
            self.label = self.file_label.clone();
        } else {
            self.active = true;
            self.label = live;
        }
        assert(self@ =~= relabelled(old(self)@, param_name@));
    }
}

/// What a list of bindings holds.
pub open spec fn bindings_view<V>(bindings: Seq<Binding<V>>) -> Seq<BindingView<V>> {
    bindings.map_values(|b: Binding<V>| b@)
}

/// The control that an entry names, if its index is in range.
pub open spec fn entry_control(index: u8, is_encoder: bool) -> Option<Control> {
    if is_encoder {
        if 1 <= index <= 8 {
            Some(Control::Encoder((index - 1) as u8))
        } else {
            None
        }
    } else {
        if 1 <= index <= 4 {
            Some(Control::Fader((index - 1) as u8))
        } else {
            None
        }
    }
}

/// An optional value, or a default.
pub open spec fn or_else<V>(value: Option<V>, default: V) -> V {
    match value {
        Some(v) => v,
        None => default,
    }
}

/// The binding that an entry makes, with its parameter's current value.
pub open spec fn entry_binding<V>(
    entry: EntryView<V>,
    is_encoder: bool,
    params: Seq<ParamView<V>>,
) -> Result<(BindingView<V>, V), MappingErrorView> {
    match entry_control(entry.index, is_encoder) {
        None => Err(
            MappingErrorView::BadIndex {
                control: if is_encoder {
                    "encoder"@
                } else {
                    "fader"@
                },
                index: entry.index,
            },
        ),
        Some(control) => match resolved(entry, params) {
            None => Err(MappingErrorView::UnresolvedParam { label: entry.label }),
            Some(i) => {
                let param = params[i];
                Ok(
                    (
                        relabelled(
                            BindingView {
                                control,
                                label: entry.label,
                                param_id: param.id,
                                lo: or_else(entry.min, param.min_value),
                                hi: or_else(entry.max, param.max_value),
                                active: true,
                                cookie: param.cookie,
                                file_label: entry.label,
                                label_from_param: entry.label_from_param,
                                name_prefix: entry.param_name,
                            },
                            param.name,
                        ),
                        or_else(param.value, param.default_value),
                    ),
                )
            },
        },
    }
}

/// The index of a control's binding.
pub open spec fn binding_index<V>(bindings: Seq<BindingView<V>>, control: Control) -> Option<int>
    decreases bindings.len(),
{
    if bindings.len() == 0 {
        None
    } else if bindings.last().control == control {
        Some(bindings.len() - 1)
    } else {
        binding_index(bindings.drop_last(), control)
    }
}

proof fn lemma_binding_index<V>(bindings: Seq<BindingView<V>>, control: Control)
    ensures
        match binding_index(bindings, control) {
            Some(i) => 0 <= i < bindings.len() && bindings[i].control == control,
            None => forall|i: int|
                0 <= i < bindings.len() ==> (#[trigger] bindings[i]).control != control,
        },
    decreases bindings.len(),
{
    if bindings.len() > 0 && bindings.last().control != control {
        let rest = bindings.drop_last();
        lemma_binding_index(rest, control);
        match binding_index(rest, control) {
            Some(i) => {
                assert(rest[i] == bindings[i]);
            },
            None => {
                assert forall|i: int| 0 <= i < bindings.len() implies (
                #[trigger] bindings[i]).control != control by {
                    if i < rest.len() {
                        assert(rest[i] == bindings[i]);
                    }
                }
            },
        }
    }
}

proof fn lemma_binding_index_is<V>(bindings: Seq<BindingView<V>>, control: Control, i: int)
    requires
        0 <= i < bindings.len(),
        bindings[i].control == control,
        forall|j: int| i < j < bindings.len() ==> (#[trigger] bindings[j]).control != control,
    ensures
        binding_index(bindings, control) == Some(i),
    decreases bindings.len(),
{
    if i < bindings.len() - 1 {
        let rest = bindings.drop_last();
        assert(bindings.last().control != control);
        assert(rest[i] == bindings[i]);
        assert forall|j: int| i < j < rest.len() implies (#[trigger] rest[j]).control
            != control by {
            assert(rest[j] == bindings[j]);
        }
        lemma_binding_index_is(rest, control, i);
    }
}

/// The bindings with one more; it takes the place of an earlier one of the
/// same control.
pub open spec fn with_binding<V>(bindings: Seq<BindingView<V>>, binding: BindingView<V>) -> Seq<
    BindingView<V>,
> {
    match binding_index(bindings, binding.control) {
        Some(i) => bindings.update(i, binding),
        None => bindings.push(binding),
    }
}

/// The state of a [`MacroControls`].
#[verifier::ext_equal]
pub struct ControlsView<V> {
    pub bindings: Seq<BindingView<V>>,
    /// The pickup state of each binding.
    pub takeover: Seq<TakeoverView>,
    /// The last known plain value of each bound parameter.
    pub values: Map<u32, V>,
}

/// A control surface without bindings.
pub open spec fn unbound<V>() -> ControlsView<V> {
    ControlsView { bindings: Seq::empty(), takeover: Seq::empty(), values: Map::empty() }
}

impl<V> ControlsView<V> {
    /// Each control is bound at most once, every binding has its pickup
    /// state, and the value of every bound parameter is known.
    pub open spec fn valid(self) -> bool {
        &&& self.takeover.len() == self.bindings.len()
        &&& forall|i: int, j: int|
            0 <= i < j < self.bindings.len() ==> (#[trigger] self.bindings[i]).control != (
            #[trigger] self.bindings[j]).control
        &&& forall|i: int|
            0 <= i < self.bindings.len() ==> self.values.contains_key(
                (#[trigger] self.bindings[i]).param_id,
            )
    }

    /// The surface with one more binding and its parameter's value.
    pub open spec fn bound(self, binding: BindingView<V>, value: V) -> ControlsView<V> {
        ControlsView {
            bindings: with_binding(self.bindings, binding),
            takeover: if binding_index(self.bindings, binding.control) is Some {
                self.takeover
            } else {
                self.takeover.push(crate::app_core::takeover::released())
            },
            values: self.values.insert(binding.param_id, value),
        }
    }
}

/// The surface that entries make, or the first error among them.
pub open spec fn bound_entries<V>(
    entries: Seq<(EntryView<V>, bool)>,
    params: Seq<ParamView<V>>,
) -> Result<ControlsView<V>, MappingErrorView>
    decreases entries.len(),
{
    if entries.len() == 0 {
        Ok(unbound())
    } else {
        match bound_entries(entries.drop_last(), params) {
            Err(e) => Err(e),
            Ok(controls) => match entry_binding(entries.last().0, entries.last().1, params) {
                Err(e) => Err(e),
                Ok((binding, value)) => Ok(controls.bound(binding, value)),
            },
        }
    }
}

/// The surface that a file makes for a plugin.
pub open spec fn bound_file<V>(
    file: MappingFile<V>,
    plugin_id: Seq<char>,
    params: Seq<ParamView<V>>,
) -> Result<ControlsView<V>, MappingErrorView> {
    if file.plugin_id@ != plugin_id {
        Err(MappingErrorView::WrongPlugin { expected: file.plugin_id@, actual: plugin_id })
    } else {
        bound_entries(file_entries(file), params)
    }
}

proof fn lemma_first_error<V>(
    entries: Seq<(EntryView<V>, bool)>,
    params: Seq<ParamView<V>>,
    n: int,
    error: MappingErrorView,
)
    requires
        0 <= n <= entries.len(),
        bound_entries(entries.take(n), params) == Err::<ControlsView<V>, MappingErrorView>(error),
    ensures
        bound_entries(entries, params) == Err::<ControlsView<V>, MappingErrorView>(error),
    decreases entries.len() - n,
{
    if n == entries.len() {
        assert(entries.take(n) =~= entries);
    } else {
        let next = entries.take(n + 1);
        assert(next.drop_last() =~= entries.take(n));
        lemma_first_error(entries, params, n + 1, error);
    }
}

/// The result of a handled control move.
#[derive(Debug, Clone)]
pub struct ParamUpdate<V> {
    pub control: Control,
    pub change: ParamChange<V>,
    /// The control's new normalized position.
    pub normalized: V,
    /// `label` for the display's top line.
    pub label: String,
    /// Percent text for the display's bottom line.
    pub display_value: String,
}

/// What a [`ParamUpdate`] says.
#[verifier::ext_equal]
pub struct UpdateView<V> {
    pub control: Control,
    pub change: ParamChange<V>,
    pub normalized: V,
    pub label: Seq<char>,
    pub display_value: Seq<char>,
}

impl<V> View for ParamUpdate<V> {
    type V = UpdateView<V>;

    open spec fn view(&self) -> UpdateView<V> {
        UpdateView {
            control: self.control,
            change: self.change,
            normalized: self.normalized,
            label: self.label@,
            display_value: self.display_value@,
        }
    }
}

/// What an optional update says.
pub open spec fn update_view<V>(update: Option<ParamUpdate<V>>) -> Option<UpdateView<V>> {
    match update {
        Some(u) => Some(u@),
        None => None,
    }
}

/// A control move in the caller's numbers: how the knob stands to the
/// parameter's current value, the normalized position it asks for, the
/// plain value that is in the binding's range, and its percent text.
pub struct Move<V> {
    pub reading: Reading,
    pub normalized: V,
    pub value: V,
    pub display_value: String,
}

/// What the caller needs to work out a [`Move`].
pub struct Target<V> {
    pub control: Control,
    /// The control's position.
    pub cc: u8,
    /// The plain-value range it sweeps over.
    pub lo: V,
    pub hi: V,
    /// The parameter's current plain value.
    pub current: V,
    /// The control's previous position, if it counts.
    pub last_cc: Option<u8>,
}

/// The control that an event moves, and its position.
pub open spec fn moved_control(event: DeviceView) -> Option<(Control, u8)> {
    match event {
        DeviceView::Encoder { index, value } => Some((Control::Encoder(index), value)),
        DeviceView::Fader { index, value } => Some((Control::Fader(index), value)),
        _ => None,
    }
}

fn moved(event: &DeviceEvent) -> (r: Option<(Control, u8)>)
    ensures
        r == moved_control(event@),
{
    match event {
        DeviceEvent::Encoder { index, value } => Some((Control::Encoder(*index), *value)),
        DeviceEvent::Fader { index, value } => Some((Control::Fader(*index), *value)),
        _ => None,
    }
}

/// The update that a binding and a move make.
pub open spec fn update_of<V>(
    binding: BindingView<V>,
    normalized: V,
    value: V,
    display_value: Seq<char>,
) -> UpdateView<V> {
    UpdateView {
        control: binding.control,
        change: ParamChange { param_id: binding.param_id, value, cookie: binding.cookie },
        normalized,
        label: binding.label,
        display_value,
    }
}

impl<V> ControlsView<V> {
    /// The surface after an event, and the update it makes: a bound
    /// control that has picked up its parameter sets it.
    pub open spec fn handled(self, event: DeviceView, m: Move<V>) -> (
        ControlsView<V>,
        Option<UpdateView<V>>,
    ) {
        match moved_control(event) {
            None => (self, None),
            Some((control, cc)) => match binding_index(self.bindings, control) {
                None => (self, None),
                Some(i) => {
                    let takeover = self.takeover.update(i, self.takeover[i].updated(cc, m.reading));
                    if self.takeover[i].picks_up(m.reading) {
                        let binding = self.bindings[i];
                        (
                            ControlsView {
                                takeover,
                                values: self.values.insert(binding.param_id, m.value),
                                ..self
                            },
                            Some(update_of(binding, m.normalized, m.value, m.display_value@)),
                        )
                    } else {
                        (ControlsView { takeover, ..self }, None)
                    }
                },
            },
        }
    }

    /// The surface after a control was set directly, and the update it
    /// makes: the pickup latch is released.
    pub open spec fn set(self, control: Control, normalized: V, value: V, display: Seq<char>) -> (
        ControlsView<V>,
        Option<UpdateView<V>>,
    ) {
        match binding_index(self.bindings, control) {
            None => (self, None),
            Some(i) => (
                ControlsView {
                    takeover: self.takeover.update(i, crate::app_core::takeover::released()),
                    values: self.values.insert(self.bindings[i].param_id, value),
                    ..self
                },
                Some(update_of(self.bindings[i], normalized, value, display)),
            ),
        }
    }

    /// The surface after a preset load: values, labels and cookies are the
    /// plugin's, and no control is picked up.
    pub open spec fn reset(self, params: Seq<ParamView<V>>) -> ControlsView<V> {
        ControlsView {
            values: reset_map(self.values, params),
            bindings: self.bindings.map_values(|b: BindingView<V>| rebound(b, params)),
            takeover: Seq::new(
                self.takeover.len(),
                |i: int| crate::app_core::takeover::released(),
            ),
        }
    }
}

/// Known values, overwritten by those that parameters report.
pub open spec fn reset_map<V>(values: Map<u32, V>, params: Seq<ParamView<V>>) -> Map<u32, V>
    decreases params.len(),
{
    if params.len() == 0 {
        values
    } else {
        let before = reset_map(values, params.drop_last());
        match params.last().value {
            Some(v) => if before.contains_key(params.last().id) {
                before.insert(params.last().id, v)
            } else {
                before
            },
            None => before,
        }
    }
}

/// A binding brought up to date with its parameter, if it is listed.
pub open spec fn rebound<V>(binding: BindingView<V>, params: Seq<ParamView<V>>) -> BindingView<V> {
    match first_param(params, |p: ParamView<V>| p.id == binding.param_id) {
        Some(i) => BindingView {
            cookie: params[i].cookie,
            ..relabelled(binding, params[i].name)
        },
        None => binding,
    }
}

/// Live control surface state: bindings, pickup state, and the last known
/// plain value of each bound parameter.
pub struct MacroControls<V> {
    bindings: Vec<Binding<V>>,
    takeover: Vec<SoftTakeover>,
    values: HashMap<u32, V>,
}

spec fn takeovers_view(takeover: Seq<SoftTakeover>) -> Seq<TakeoverView> {
    takeover.map_values(|t: SoftTakeover| t@)
}

impl<V> View for MacroControls<V> {
    type V = ControlsView<V>;

    closed spec fn view(&self) -> ControlsView<V> {
        ControlsView {
            bindings: bindings_view(self.bindings@),
            takeover: takeovers_view(self.takeover@),
            values: self.values@,
        }
    }
}

/// The view of what [`MacroControls::bind`] returns.
pub open spec fn bind_view<V>(r: Result<MacroControls<V>, MappingError>) -> Result<
    ControlsView<V>,
    MappingErrorView,
> {
    match r {
        Ok(controls) => Ok(controls@),
        Err(e) => Err(e@),
    }
}

fn control_of(index: u8, is_encoder: bool) -> (control: Option<Control>)
    ensures
        control == entry_control(index, is_encoder),
{
    if is_encoder {
        if 1 <= index && index <= 8 {
            Some(Control::Encoder(index - 1))
        } else {
            None
        }
    } else {
        if 1 <= index && index <= 4 {
            Some(Control::Fader(index - 1))
        } else {
            None
        }
    }
}

/// Binds one entry.
fn bind_entry<V: Copy>(
    entry: &ControlEntry<V>,
    is_encoder: bool,
    params: &[ParamDescription<V>],
) -> (r: Result<(Binding<V>, V), MappingError>)
    ensures
        match r {
            Ok((binding, value)) => entry_binding(
                entry@,
                is_encoder,
                crate::engine::params::params_view(params@),
            ) == Ok::<(BindingView<V>, V), MappingErrorView>((binding@, value)),
            Err(e) => entry_binding(
                entry@,
                is_encoder,
                crate::engine::params::params_view(params@),
            ) == Err::<(BindingView<V>, V), MappingErrorView>(e@),
        },
{
    match control_of(entry.index, is_encoder) {
        None => Err(
            MappingError::BadIndex {
                control: if is_encoder {
                    "encoder"
                } else {
                    "fader"
                },
                index: entry.index,
            },
        ),
        Some(control) => match resolve_param(entry, params) {
            None => Err(MappingError::UnresolvedParam { label: entry.label.clone() }),
            Some(i) => {
                let param = &params[i];
                assert(crate::engine::params::params_view(params@)[i as int] == param@);
                let value = match param.value {
                    Some(v) => v,
                    None => param.default_value,
                };
                let mut binding = Binding {
                    control,
                    label: entry.label.clone(),
                    param_id: param.id,
                    lo: match entry.min {
                        Some(v) => v,
                        None => param.min_value,
                    },
                    hi: match entry.max {
                        Some(v) => v,
                        None => param.max_value,
                    },
                    active: true,
                    cookie: param.cookie,
                    file_label: entry.label.clone(),
                    label_from_param: entry.label_from_param,
                    name_prefix: crate::text::copy_opt(&entry.param_name),
                };
                binding.refresh_label(param.name.as_str());
                Ok((binding, value))
            },
        },
    }
}

impl<V: Copy> MacroControls<V> {
    fn find(&self, control: Control) -> (found: Option<usize>)
        ensures
            as_index(found) == binding_index(self@.bindings, control),
            found matches Some(i) ==> i < self.bindings@.len(),
    {
        let mut i: usize = self.bindings.len();
        while i > 0
            invariant
                i <= self.bindings@.len(),
                forall|j: int|
                    i <= j < self.bindings@.len() ==> (#[trigger] self@.bindings[j]).control
                        != control,
            decreases i,
        {
            i -= 1;
            assert(self@.bindings[i as int] == self.bindings@[i as int]@);
            if self.bindings[i].control == control {
                proof {
                    lemma_binding_index_is(self@.bindings, control, i as int);
                }
                return Some(i);
            }
        }
        proof {
            lemma_binding_index(self@.bindings, control);
        }
        None
    }

    fn add_binding(&mut self, binding: Binding<V>, value: V)
        requires
            old(self)@.valid(),
        ensures
            final(self)@ == old(self)@.bound(binding@, value),
            final(self)@.valid(),
    {
        let ghost view = binding@;
        let found = self.find(binding.control);
        proof {
            lemma_binding_index(self@.bindings, view.control);
        }
        self.values.insert(binding.param_id, value);
        match found {
            Some(i) => {
                self.bindings.set(i, binding);
                assert(bindings_view(self.bindings@) =~= old(self)@.bindings.update(
                    i as int,
                    view,
                ));
            },
            None => {
                self.bindings.push(binding);
                self.takeover.push(SoftTakeover::new());
                assert(bindings_view(self.bindings@) =~= old(self)@.bindings.push(view));
                assert(takeovers_view(self.takeover@) =~= old(self)@.takeover.push(
                    crate::app_core::takeover::released(),
                ));
            },
        }
        assert(self@ =~= old(self)@.bound(view, value));
        proof {
            lemma_bound_valid(old(self)@, view, value);
        }
    }

    /// Resolves a mapping file against the plugin's enumerated parameters.
    pub fn bind(file: &MappingFile<V>, plugin_id: &str, params: &[ParamDescription<V>]) -> (r:
        Result<Self, MappingError>)
        ensures
            bind_view(r) == bound_file(
                *file,
                plugin_id@,
                crate::engine::params::params_view(params@),
            ),
            r matches Ok(controls) ==> controls@.valid(),
    {
        if !same(file.plugin_id.as_str(), plugin_id) {
            return Err(
                MappingError::WrongPlugin {
                    expected: file.plugin_id.clone(),
                    actual: plugin_id.to_owned(),
                },
            );
        }
        let ghost entries = file_entries(*file);
        let ghost views = crate::engine::params::params_view(params@);
        let mut controls = MacroControls {
            bindings: Vec::new(),
            takeover: Vec::new(),
            values: HashMap::new(),
        };
        assert(controls@ =~= unbound::<V>());
        let encoders: usize = file.encoder.len();
        let faders: usize = file.fader.len();
        let mut i: usize = 0;
        while i < encoders
            invariant
                i <= encoders,
                encoders == file.encoder@.len(),
                controls@.valid(),
                entries == file_entries(*file),
                views == crate::engine::params::params_view(params@),
                file.plugin_id@ == plugin_id@,
                bound_entries(entries.take(i as int), views) == Ok::<
                    ControlsView<V>,
                    MappingErrorView,
                >(controls@),
            decreases encoders - i,
        {
            assert(entries.take(i + 1).drop_last() =~= entries.take(i as int));
            assert(entries.take(i + 1).last() == (file.encoder@[i as int]@, true));
            match bind_entry(&file.encoder[i], true, params) {
                Ok((binding, value)) => {
                    controls.add_binding(binding, value);
                },
                Err(e) => {
                    proof {
                        lemma_first_error(entries, views, i + 1, e@);
                    }
                    return Err(e);
                },
            }
            i += 1;
        }
        let mut k: usize = 0;
        while k < faders
            invariant
                k <= faders,
                faders == file.fader@.len(),
                encoders == file.encoder@.len(),
                controls@.valid(),
                entries == file_entries(*file),
                views == crate::engine::params::params_view(params@),
                file.plugin_id@ == plugin_id@,
                bound_entries(entries.take(encoders + k), views) == Ok::<
                    ControlsView<V>,
                    MappingErrorView,
                >(controls@),
            decreases faders - k,
        {
            assert(entries.take(encoders + k + 1).drop_last() =~= entries.take(encoders + k));
            assert(entries.take(encoders + k + 1).last() == (file.fader@[k as int]@, false));
            match bind_entry(&file.fader[k], false, params) {
                Ok((binding, value)) => {
                    controls.add_binding(binding, value);
                },
                Err(e) => {
                    proof {
                        lemma_first_error(entries, views, encoders + k + 1, e@);
                    }
                    return Err(e);
                },
            }
            k += 1;
        }
        assert(entries.take(encoders + k) =~= entries);
        Ok(controls)
    }

    /// What the caller needs to work out the move that an event asks for:
    /// `None` where the event moves no bound control.
    pub fn target(&self, event: &DeviceEvent) -> (target: Option<Target<V>>)
        requires
            self@.valid(),
        ensures
            match target {
                Some(t) => {
                    &&& moved_control(event@) == Some((t.control, t.cc))
                    &&& binding_index(self@.bindings, t.control) matches Some(i)
                    &&& t.lo == self@.bindings[i].lo
                    &&& t.hi == self@.bindings[i].hi
                    &&& t.current == self@.values[self@.bindings[i].param_id]
                    &&& t.last_cc == self@.takeover[i].last_cc
                },
                None => match moved_control(event@) {
                    None => true,
                    Some((control, _)) => binding_index(self@.bindings, control) is None,
                },
            },
    {
        let (control, cc) = match moved(event) {
            Some(m) => m,
            None => {
                return None;
            },
        };
        match self.find(control) {
            None => None,
            Some(i) => {
                assert(self@.bindings[i as int] == self.bindings@[i as int]@);
                assert(self@.takeover[i as int] == self.takeover@[i as int]@);
                let binding = &self.bindings[i];
                match self.values.get(&binding.param_id) {
                    Some(current) => Some(
                        Target {
                            control,
                            cc,
                            lo: binding.lo,
                            hi: binding.hi,
                            current: *current,
                            last_cc: self.takeover[i].last_cc(),
                        },
                    ),
                    None => None,
                }
            },
        }
    }

    fn update_from(&self, i: usize, normalized: V, value: V, display_value: String) -> (update:
        ParamUpdate<V>)
        requires
            i < self.bindings@.len(),
        ensures
            update@ == update_of(self@.bindings[i as int], normalized, value, display_value@),
    {
        let binding = &self.bindings[i];
        assert(self@.bindings[i as int] == binding@);
        ParamUpdate {
            control: binding.control,
            change: ParamChange { param_id: binding.param_id, value, cookie: binding.cookie },
            normalized,
            label: binding.label.clone(),
            display_value,
        }
    }

    /// Handles a typed device event. Returns a parameter update when the
    /// event is a bound control move that has picked up its parameter.
    pub fn handle(&mut self, event: &DeviceEvent, m: Move<V>) -> (update: Option<ParamUpdate<V>>)
        requires
            old(self)@.valid(),
        ensures
            final(self)@.valid(),
            (final(self)@, update_view(update)) == old(self)@.handled(event@, m),
    {
        let (control, cc) = match moved(event) {
            Some(m) => m,
            None => {
                return None;
            },
        };
        match self.find(control) {
            None => None,
            Some(i) => {
                let ghost want = old(self)@.handled(event@, m);
                assert(self@.takeover[i as int] == self.takeover@[i as int]@);
                let position = self.takeover[i].update(cc, m.reading);
                assert(takeovers_view(self.takeover@) =~= old(self)@.takeover.update(
                    i as int,
                    old(self)@.takeover[i as int].updated(cc, m.reading),
                ));
                match position {
                    None => {
                        assert(self@ =~= want.0);
                        None
                    },
                    Some(_) => {
                        let id: u32 = self.bindings[i].param_id;
                        assert(self@.bindings[i as int] == self.bindings@[i as int]@);
                        self.values.insert(id, m.value);
                        assert(self@ =~= want.0);
                        Some(self.update_from(i, m.normalized, m.value, m.display_value))
                    },
                }
            },
        }
    }

    /// Sets a bound control's value directly (e.g. an on-screen knob drag),
    /// bypassing soft takeover. The control's hardware pickup latch is
    /// released so the physical knob cannot make the value jump afterwards.
    pub fn set_normalized(
        &mut self,
        control: Control,
        normalized: V,
        value: V,
        display_value: String,
    ) -> (update: Option<ParamUpdate<V>>)
        requires
            old(self)@.valid(),
        ensures
            final(self)@.valid(),
            (final(self)@, update_view(update)) == old(self)@.set(
                control,
                normalized,
                value,
                display_value@,
            ),
    {
        match self.find(control) {
            None => None,
            Some(i) => {
                let id: u32 = self.bindings[i].param_id;
                assert(self@.bindings[i as int] == self.bindings@[i as int]@);
                self.values.insert(id, value);
                self.takeover[i].release();
                assert(takeovers_view(self.takeover@) =~= old(self)@.takeover.update(
                    i as int,
                    crate::app_core::takeover::released(),
                ));
                assert(self@ =~= old(self)@.set(control, normalized, value, display_value@).0);
                Some(self.update_from(i, normalized, value, display_value))
            },
        }
    }

    /// The range of a control's binding, if it is bound.
    pub fn range(&self, control: Control) -> (range: Option<(V, V)>)
        ensures
            range == match binding_index(self@.bindings, control) {
                Some(i) => Some((self@.bindings[i].lo, self@.bindings[i].hi)),
                None => None,
            },
    {
        match self.find(control) {
            None => None,
            Some(i) => {
                assert(self@.bindings[i as int] == self.bindings@[i as int]@);
                Some((self.bindings[i].lo, self.bindings[i].hi))
            },
        }
    }

    /// The current plain value of a parameter, the given default where it
    /// is not known.
    pub fn value_of(&self, param_id: u32, default: V) -> (value: V)
        ensures
            value == if self@.values.contains_key(param_id) {
                self@.values[param_id]
            } else {
                default
            },
    {
        match self.values.get(&param_id) {
            Some(v) => *v,
            None => default,
        }
    }

    /// Records externally-changed parameter values (preset load), refreshes
    /// live labels, and drops all pickup latches so controls do not jump.
    pub fn reset_values(&mut self, params: &[ParamDescription<V>])
        requires
            old(self)@.valid(),
        ensures
            final(self)@.valid(),
            final(self)@ == old(self)@.reset(crate::engine::params::params_view(params@)),
    {
        let ghost views = crate::engine::params::params_view(params@);
        let mut i: usize = 0;
        while i < params.len()
            invariant
                i <= params@.len(),
                views == crate::engine::params::params_view(params@),
                self.bindings == old(self).bindings,
                self.takeover == old(self).takeover,
                self.values@ == reset_map(old(self).values@, views.take(i as int)),
            decreases params@.len() - i,
        {
            assert(views.take(i + 1).drop_last() =~= views.take(i as int));
            assert(views.take(i + 1).last() == params@[i as int]@);
            if let Some(value) = params[i].value {
                if self.values.contains_key(&params[i].id) {
                    self.values.insert(params[i].id, value);
                }
            }
            i += 1;
        }
        assert(views.take(i as int) =~= views);
        let size: usize = self.bindings.len();
        let mut k: usize = 0;
        while k < size
            invariant
                k <= size,
                size == self.bindings@.len(),
                size == old(self).bindings@.len(),
                views == crate::engine::params::params_view(params@),
                self.takeover == old(self).takeover,
                self.values@ == reset_map(old(self).values@, views),
                forall|j: int|
                    0 <= j < k ==> (#[trigger] self.bindings@[j])@ == rebound(
                        old(self).bindings@[j]@,
                        views,
                    ),
                forall|j: int|
                    k <= j < size ==> #[trigger] self.bindings@[j] == old(self).bindings@[j],
            decreases size - k,
        {
            let id: u32 = self.bindings[k].param_id;
            proof {
                lemma_first_param(views, |p: ParamView<V>| p.id == id);
            }
            match find_id(params, id) {
                Some(at) => {
                    assert(views[at as int] == params@[at as int]@);
                    self.bindings[k].refresh_label(params[at].name.as_str());
                    self.bindings[k].cookie = params[at].cookie;
                    assert(self.bindings@[k as int]@ =~= rebound(
                        old(self).bindings@[k as int]@,
                        views,
                    ));
                },
                None => {},
            }
            k += 1;
        }
        let count: usize = self.takeover.len();
        let mut t: usize = 0;
        while t < count
            invariant
                t <= count,
                count == self.takeover@.len(),
                count == old(self).takeover@.len(),
                size == self.bindings@.len(),
                size == old(self).bindings@.len(),
                self.values@ == reset_map(old(self).values@, views),
                forall|j: int|
                    0 <= j < size ==> (#[trigger] self.bindings@[j])@ == rebound(
                        old(self).bindings@[j]@,
                        views,
                    ),
                forall|j: int|
                    0 <= j < t ==> (#[trigger] self.takeover@[j])@
                        == crate::app_core::takeover::released(),
            decreases count - t,
        {
            self.takeover[t].release();
            t += 1;
        }
        let ghost want = old(self)@.reset(views);
        assert(self@.bindings =~= want.bindings);
        assert(self@.takeover =~= want.takeover);
        proof {
            lemma_reset_valid(old(self)@, views);
        }
    }

    /// The bindings, in the order of the file.
    pub fn bindings(&self) -> (bindings: &Vec<Binding<V>>)
        ensures
            bindings_view(bindings@) == self@.bindings,
    {
        &self.bindings
    }
}

proof fn lemma_bound_valid<V>(controls: ControlsView<V>, binding: BindingView<V>, value: V)
    requires
        controls.valid(),
    ensures
        controls.bound(binding, value).valid(),
{
    let next = controls.bound(binding, value);
    lemma_binding_index(controls.bindings, binding.control);
    assert forall|i: int, j: int| 0 <= i < j < next.bindings.len() implies (
    #[trigger] next.bindings[i]).control != (#[trigger] next.bindings[j]).control by {
        match binding_index(controls.bindings, binding.control) {
            Some(k) => {
                assert(controls.bindings[i].control != controls.bindings[j].control);
            },
            None => {
                if j < controls.bindings.len() {
                    assert(controls.bindings[i].control != controls.bindings[j].control);
                } else {
                    assert(controls.bindings[i].control != binding.control);
                }
            },
        }
    }
    assert forall|i: int| 0 <= i < next.bindings.len() implies next.values.contains_key(
        (#[trigger] next.bindings[i]).param_id,
    ) by {
        if i < controls.bindings.len() {
            assert(controls.values.contains_key(controls.bindings[i].param_id));
        }
    }
}

proof fn lemma_reset_map_dom<V>(values: Map<u32, V>, params: Seq<ParamView<V>>)
    ensures
        reset_map(values, params).dom() == values.dom(),
    decreases params.len(),
{
    if params.len() > 0 {
        lemma_reset_map_dom(values, params.drop_last());
        assert(reset_map(values, params).dom() =~= values.dom());
    }
}

proof fn lemma_reset_valid<V>(controls: ControlsView<V>, params: Seq<ParamView<V>>)
    requires
        controls.valid(),
    ensures
        controls.reset(params).valid(),
{
    let next = controls.reset(params);
    lemma_reset_map_dom(controls.values, params);
    assert forall|i: int, j: int| 0 <= i < j < next.bindings.len() implies (
    #[trigger] next.bindings[i]).control != (#[trigger] next.bindings[j]).control by {
        assert(controls.bindings[i].control != controls.bindings[j].control);
    }
    assert forall|i: int| 0 <= i < next.bindings.len() implies next.values.contains_key(
        (#[trigger] next.bindings[i]).param_id,
    ) by {
        assert(controls.values.contains_key(controls.bindings[i].param_id));
    }
}

// ---------------------------------------------------------------------
// Laws
// ---------------------------------------------------------------------

/// Binding either resolves every entry or names the first that it cannot,
/// and the surface has a binding for every control that the file names.
pub proof fn law_every_entry_is_bound<V>(
    entries: Seq<(EntryView<V>, bool)>,
    params: Seq<ParamView<V>>,
    i: int,
)
    requires
        0 <= i < entries.len(),
        bound_entries(entries, params) is Ok,
    ensures
        entry_control(entries[i].0.index, entries[i].1) matches Some(control) && binding_index(
            (bound_entries(entries, params)->Ok_0).bindings,
            control,
        ) is Some,
        resolved(entries[i].0, params) is Some,
    decreases entries.len(),
{
    let rest = entries.drop_last();
    let before = bound_entries(rest, params)->Ok_0;
    let (binding, value) = entry_binding(entries.last().0, entries.last().1, params)->Ok_0;
    lemma_binding_index(before.bindings, binding.control);
    let after = with_binding(before.bindings, binding);
    if i < rest.len() {
        law_every_entry_is_bound(rest, params, i);
        assert(rest[i] == entries[i]);
        let control = entry_control(entries[i].0.index, entries[i].1)->Some_0;
        lemma_binding_index(before.bindings, control);
        lemma_binding_index(after, control);
        let k = binding_index(before.bindings, control)->Some_0;
        match binding_index(before.bindings, binding.control) {
            Some(at) => {
                if k == at {
                    assert(after[at].control == control);
                } else {
                    assert(after[k].control == control);
                }
            },
            None => {
                assert(after[k].control == control);
            },
        }
    } else {
        lemma_binding_index(after, binding.control);
        match binding_index(before.bindings, binding.control) {
            Some(at) => {
                assert(after[at].control == binding.control);
            },
            None => {
                assert(after[before.bindings.len() as int].control == binding.control);
            },
        }
    }
}

/// A parameter moves only when its control has picked it up: where an
/// event gives no update, every value stays as it was.
pub proof fn law_no_update_no_change<V>(controls: ControlsView<V>, event: DeviceView, m: Move<V>)
    ensures
        controls.handled(event, m).1 is None ==> controls.handled(event, m).0.values
            == controls.values,
{
}

/// After a preset load a control takes effect only on the parameter's
/// value itself, or after it was swept there: its first message cannot
/// make the value jump.
pub proof fn law_preset_load_prevents_jumps<V>(
    controls: ControlsView<V>,
    params: Seq<ParamView<V>>,
    event: DeviceView,
    m: Move<V>,
)
    requires
        controls.valid(),
        !m.reading.close,
    ensures
        controls.reset(params).handled(event, m).1 is None,
{
    let next = controls.reset(params);
    if let Some((control, cc)) = moved_control(event) {
        lemma_binding_index(next.bindings, control);
    }
}

/// Setting a control on screen cannot be undone by a stale knob: its next
/// message takes effect only on the value itself.
pub proof fn law_screen_move_releases_the_knob<V>(
    controls: ControlsView<V>,
    control: Control,
    normalized: V,
    value: V,
    display: Seq<char>,
    event: DeviceView,
    m: Move<V>,
)
    requires
        controls.valid(),
        moved_control(event) matches Some((c, _)) && c == control,
        !m.reading.close,
    ensures
        controls.set(control, normalized, value, display).0.handled(event, m).1 is None,
{
    lemma_binding_index(controls.bindings, control);
}

/// Events that move no bound control change nothing.
pub proof fn law_unbound_events_pass_through<V>(
    controls: ControlsView<V>,
    event: DeviceView,
    m: Move<V>,
)
    requires
        moved_control(event) matches Some((control, _)) ==> binding_index(
            controls.bindings,
            control,
        ) is None,
    ensures
        controls.handled(event, m) == (controls, None::<UpdateView<V>>),
{
}

/// A label that comes from the file stays; one that comes from the
/// parameter is never empty and never the unassigned marker unless the
/// file's own label is shown instead.
pub proof fn law_live_labels_follow_the_patch<V>(binding: BindingView<V>, name: Seq<char>)
    ensures
        !binding.label_from_param ==> relabelled(binding, name) == binding,
        binding.label_from_param ==> relabelled(binding, name).active == !is_unassigned(
            live_label(binding.name_prefix, name),
        ),
        binding.label_from_param && !relabelled(binding, name).active ==> relabelled(
            binding,
            name,
        ).label == binding.file_label,
{
}

/// Whether no parameter of a list is wanted.
pub open spec fn none_wanted<V>(
    params: Seq<ParamView<V>>,
    wanted: spec_fn(ParamView<V>) -> bool,
) -> bool {
    forall|j: int| 0 <= j < params.len() ==> !wanted(#[trigger] params[j])
}

/// An entry finds its parameter by id where one has it; else by its exact
/// name; else by the start of its name. Of several the first counts. It
/// finds none only where no parameter fits in any of these ways.
pub proof fn law_parameters_are_found_by_id_first<V>(
    entry: EntryView<V>,
    params: Seq<ParamView<V>>,
)
    ensures
        ({
            let by_id = |p: ParamView<V>| entry.param_id == Some(p.id);
            let by_name = |p: ParamView<V>| entry.param_name == Some(p.name);
            let by_start = |p: ParamView<V>|
                entry.param_name matches Some(name) && name.len() <= p.name.len() && p.name.take(
                    name.len() as int,
                ) == name;
            match resolved(entry, params) {
                Some(i) => {
                    &&& 0 <= i < params.len()
                    &&& {
                        ||| by_id(params[i]) && none_wanted(params.take(i), by_id)
                        ||| none_wanted(params, by_id) && by_name(params[i]) && none_wanted(
                            params.take(i),
                            by_name,
                        )
                        ||| none_wanted(params, by_id) && none_wanted(params, by_name) && by_start(
                            params[i],
                        ) && none_wanted(params.take(i), by_start)
                    }
                },
                None => none_wanted(params, by_id) && none_wanted(params, by_name) && none_wanted(
                    params,
                    by_start,
                ),
            }
        }),
{
    if let Some(id) = entry.param_id {
        lemma_first_param(params, |p: ParamView<V>| p.id == id);
    }
    if let Some(name) = entry.param_name {
        lemma_first_param(params, |p: ParamView<V>| p.name == name);
        lemma_first_param(params, |p: ParamView<V>| crate::text::has_prefix(p.name, name));
        assert forall|p: ParamView<V>| #[trigger]
            crate::text::has_prefix(p.name, name) <==> (name.len() <= p.name.len() && p.name.take(
                name.len() as int,
            ) == name) by {
            if name.len() <= p.name.len() {
                assert(p.name.subrange(0, name.len() as int) =~= p.name.take(name.len() as int));
            }
        }
    }
    if let Some(i) = resolved(entry, params) {
        let front = params.take(i);
        assert forall|j: int| 0 <= j < front.len() implies #[trigger] front[j] == params[j] by {}
    }
}

/// Encoders 1 to 8 and faders 1 to 4 can be bound, and no others.
pub proof fn law_entries_name_their_control(index: u8, is_encoder: bool)
    ensures
        entry_control(index, is_encoder) == if is_encoder && 1 <= index <= 8 {
            Some(Control::Encoder((index - 1) as u8))
        } else if !is_encoder && 1 <= index <= 4 {
            Some(Control::Fader((index - 1) as u8))
        } else {
            None
        },
{
}

/// The last entry of a control decides what it is bound to.
proof fn lemma_last_entry_decides<V>(
    entries: Seq<(EntryView<V>, bool)>,
    params: Seq<ParamView<V>>,
    i: int,
)
    requires
        0 <= i < entries.len(),
        bound_entries(entries, params) is Ok,
        forall|j: int|
            i < j < entries.len() ==> entry_control((#[trigger] entries[j]).0.index, entries[j].1)
                != entry_control(entries[i].0.index, entries[i].1),
    ensures
        entry_binding(entries[i].0, entries[i].1, params) is Ok,
        ({
            let binding = (entry_binding(entries[i].0, entries[i].1, params)->Ok_0).0;
            (bound_entries(entries, params)->Ok_0).bindings.contains(binding)
        }),
    decreases entries.len(),
{
    let rest = entries.drop_last();
    let before = bound_entries(rest, params)->Ok_0;
    let (added, value) = entry_binding(entries.last().0, entries.last().1, params)->Ok_0;
    let after = with_binding(before.bindings, added);
    lemma_binding_index(before.bindings, added.control);
    assert(added.control == entry_control(entries.last().0.index, entries.last().1)->0);
    if i == entries.len() - 1 {
        match binding_index(before.bindings, added.control) {
            Some(at) => {
                assert(after[at] == added);
            },
            None => {
                assert(after[before.bindings.len() as int] == added);
            },
        }
    } else {
        assert(rest[i] == entries[i]);
        assert forall|j: int| i < j < rest.len() implies entry_control(
            (#[trigger] rest[j]).0.index,
            rest[j].1,
        ) != entry_control(rest[i].0.index, rest[i].1) by {
            assert(rest[j] == entries[j]);
        }
        lemma_last_entry_decides(rest, params, i);
        let binding = (entry_binding(entries[i].0, entries[i].1, params)->Ok_0).0;
        assert(binding.control == entry_control(entries[i].0.index, entries[i].1)->0);
        let k = choose|k: int| 0 <= k < before.bindings.len() && before.bindings[k] == binding;
        assert(entries[entries.len() - 1] == entries.last());
        assert(added.control != binding.control);
        assert(after[k] == binding);
    }
}

/// A control sweeps the whole range of its parameter, or the range that its
/// entry gives instead: a file that binds has, for the last entry of each
/// control, a binding of that control to the parameter that the entry
/// refers to, from the entry's least value or else the parameter's own, to
/// the entry's greatest or else the parameter's own.
pub proof fn law_controls_sweep_their_parameter<V>(
    file: MappingFile<V>,
    plugin_id: Seq<char>,
    params: Seq<ParamView<V>>,
    i: int,
)
    requires
        bound_file(file, plugin_id, params) is Ok,
        0 <= i < file_entries(file).len(),
        forall|j: int|
            i < j < file_entries(file).len() ==> {
                ||| (#[trigger] file_entries(file)[j]).1 != file_entries(file)[i].1
                ||| file_entries(file)[j].0.index != file_entries(file)[i].0.index
            },
    ensures
        file.plugin_id@ == plugin_id,
        ({
            let (entry, is_encoder) = file_entries(file)[i];
            let bindings = (bound_file(file, plugin_id, params)->Ok_0).bindings;
            &&& resolved(entry, params) matches Some(p)
            &&& exists|b: BindingView<V>| #[trigger]
                bindings.contains(b) && {
                    &&& b.control == if is_encoder {
                        Control::Encoder((entry.index - 1) as u8)
                    } else {
                        Control::Fader((entry.index - 1) as u8)
                    }
                    &&& b.param_id == params[p].id && b.cookie == params[p].cookie
                    &&& entry.min matches Some(least) ==> b.lo == least
                    &&& entry.min is None ==> b.lo == params[p].min_value
                    &&& entry.max matches Some(most) ==> b.hi == most
                    &&& entry.max is None ==> b.hi == params[p].max_value
                    &&& b.file_label == entry.label
                    &&& b.label_from_param == entry.label_from_param
                    &&& b.name_prefix == entry.param_name
                    &&& !entry.label_from_param ==> b.label == entry.label && b.active
                }
        }),
{
    let entries = file_entries(file);
    let (entry, is_encoder) = entries[i];
    law_every_entry_is_bound(entries, params, i);
    assert forall|j: int| i < j < entries.len() implies entry_control(
        (#[trigger] entries[j]).0.index,
        entries[j].1,
    ) != entry_control(entry.index, is_encoder) by {
        law_every_entry_is_bound(entries, params, j);
        assert(entries[j].1 != is_encoder || entries[j].0.index != entry.index);
    }
    lemma_last_entry_decides(entries, params, i);
}

/// A file's entries are its encoders and its faders, as they stand there.
pub proof fn law_files_hold_their_entries<V>(file: MappingFile<V>, i: int)
    ensures
        file_entries(file).len() == file.encoder@.len() + file.fader@.len(),
        0 <= i < file.encoder@.len() ==> file_entries(file)[i] == (file.encoder@[i]@, true),
        0 <= i < file.fader@.len() ==> file_entries(file)[file.encoder@.len() + i] == (
            file.fader@[i]@,
            false,
        ),
{
}

/// A file for another plugin, an index out of range and an entry without a
/// parameter are refused, each by name.
pub proof fn law_unusable_files_are_refused<V>(
    file: MappingFile<V>,
    plugin_id: Seq<char>,
    params: Seq<ParamView<V>>,
    entry: EntryView<V>,
    is_encoder: bool,
)
    ensures
        file.plugin_id@ != plugin_id ==> bound_file(file, plugin_id, params) == Err::<
            ControlsView<V>,
            MappingErrorView,
        >(MappingErrorView::WrongPlugin { expected: file.plugin_id@, actual: plugin_id }),
        entry.index == 0 || entry.index > (if is_encoder {
            8
        } else {
            4int
        }) ==> entry_binding(entry, is_encoder, params) == Err::<
            (BindingView<V>, V),
            MappingErrorView,
        >(
            MappingErrorView::BadIndex {
                control: if is_encoder {
                    "encoder"@
                } else {
                    "fader"@
                },
                index: entry.index,
            },
        ),
        1 <= entry.index <= 4 && resolved(entry, params) is None ==> entry_binding(
            entry,
            is_encoder,
            params,
        ) == Err::<(BindingView<V>, V), MappingErrorView>(
            MappingErrorView::UnresolvedParam { label: entry.label },
        ),
{
}

/// A bound parameter's value is known from the start: what the plugin
/// reports, or else its default.
pub proof fn law_bound_values_are_the_plugins<V>(
    entry: EntryView<V>,
    is_encoder: bool,
    params: Seq<ParamView<V>>,
    controls: ControlsView<V>,
)
    requires
        entry_binding(entry, is_encoder, params) is Ok,
    ensures
        ({
            let (binding, value) = entry_binding(entry, is_encoder, params)->Ok_0;
            &&& resolved(entry, params) matches Some(p)
            &&& params[p].value matches Some(v) ==> value == v
            &&& params[p].value is None ==> value == params[p].default_value
            &&& controls.bound(binding, value).values == controls.values.insert(
                params[p].id,
                value,
            )
        }),
{
}

/// Moving a bound encoder or fader that has picked its parameter up sets
/// that parameter, to the value asked for, with the parameter's own cookie,
/// and shows the binding's label; nothing else changes its value.
pub proof fn law_a_move_sets_its_parameter<V>(
    controls: ControlsView<V>,
    event: DeviceView,
    m: Move<V>,
    i: int,
)
    requires
        controls.valid(),
        0 <= i < controls.bindings.len(),
        event matches DeviceView::Encoder { index, .. } ==> controls.bindings[i].control
            == Control::Encoder(index),
        event matches DeviceView::Fader { index, .. } ==> controls.bindings[i].control
            == Control::Fader(index),
        event is Encoder || event is Fader,
    ensures
        ({
            let (next, update) = controls.handled(event, m);
            let binding = controls.bindings[i];
            let cc = if event is Encoder {
                event->Encoder_value
            } else {
                event->Fader_value
            };
            &&& update is Some <==> controls.takeover[i].picks_up(m.reading)
            &&& update matches Some(u) ==> {
                &&& u.control == binding.control
                &&& u.change.param_id == binding.param_id
                &&& u.change.value == m.value
                &&& u.change.cookie == binding.cookie
                &&& u.normalized == m.normalized
                &&& u.label == binding.label
                &&& u.display_value == m.display_value@
                &&& next.values[binding.param_id] == m.value
            }
            &&& next.bindings == controls.bindings
            &&& next.takeover[i].last_cc == Some(cc)
            &&& next.takeover[i].latched == (update is Some)
            &&& forall|j: int|
                0 <= j < controls.takeover.len() && j != i ==> #[trigger] next.takeover[j]
                    == controls.takeover[j]
            &&& forall|id: u32|
                id != binding.param_id && controls.values.contains_key(id)
                    ==> #[trigger] next.values[id] == controls.values[id]
        }),
{
    let control = controls.bindings[i].control;
    lemma_binding_index(controls.bindings, control);
    let k = binding_index(controls.bindings, control)->0;
    assert(k == i) by {
        if k < i {
            assert(controls.bindings[k].control != controls.bindings[i].control);
        } else if i < k {
            assert(controls.bindings[i].control != controls.bindings[k].control);
        }
    }
}

/// A control set on screen sets its parameter at once, whatever the knob
/// does, and lets go of the knob.
pub proof fn law_a_screen_move_sets_its_parameter<V>(
    controls: ControlsView<V>,
    i: int,
    normalized: V,
    value: V,
    display: Seq<char>,
)
    requires
        controls.valid(),
        0 <= i < controls.bindings.len(),
    ensures
        ({
            let binding = controls.bindings[i];
            let (next, update) = controls.set(binding.control, normalized, value, display);
            &&& update matches Some(u) && {
                &&& u.control == binding.control
                &&& u.change.param_id == binding.param_id
                &&& u.change.value == value
                &&& u.change.cookie == binding.cookie
                &&& u.normalized == normalized
                &&& u.label == binding.label
                &&& u.display_value == display
            }
            &&& next.values[binding.param_id] == value
            &&& next.bindings == controls.bindings
            &&& !next.takeover[i].latched && next.takeover[i].last_cc is None
        }),
{
    let control = controls.bindings[i].control;
    lemma_binding_index(controls.bindings, control);
    let k = binding_index(controls.bindings, control)->0;
    assert(k == i) by {
        if k < i {
            assert(controls.bindings[k].control != controls.bindings[i].control);
        } else if i < k {
            assert(controls.bindings[i].control != controls.bindings[k].control);
        }
    }
}

proof fn lemma_reset_value<V>(values: Map<u32, V>, params: Seq<ParamView<V>>, i: int)
    requires
        0 <= i < params.len(),
        values.contains_key(params[i].id),
        params[i].value is Some,
        forall|j: int| i < j < params.len() ==> (#[trigger] params[j]).id != params[i].id,
    ensures
        reset_map(values, params)[params[i].id] == params[i].value->0,
    decreases params.len(),
{
    let rest = params.drop_last();
    lemma_reset_map_dom(values, rest);
    if i < params.len() - 1 {
        assert(rest[i] == params[i]);
        assert forall|j: int| i < j < rest.len() implies (#[trigger] rest[j]).id != rest[i].id by {
            assert(rest[j] == params[j]);
        }
        lemma_reset_value(values, rest, i);
        assert(params[params.len() - 1].id != params[i].id);
    }
}

proof fn lemma_reset_keeps<V>(values: Map<u32, V>, params: Seq<ParamView<V>>, id: u32)
    requires
        forall|j: int| 0 <= j < params.len() ==> (#[trigger] params[j]).id != id,
    ensures
        reset_map(values, params)[id] == values[id],
    decreases params.len(),
{
    if params.len() > 0 {
        let rest = params.drop_last();
        assert forall|j: int| 0 <= j < rest.len() implies (#[trigger] rest[j]).id != id by {
            assert(rest[j] == params[j]);
        }
        lemma_reset_keeps(values, rest, id);
        assert(params[params.len() - 1].id != id);
    }
}

/// After a preset load a bound parameter has the value that the plugin
/// reports for it, its binding has the parameter's cookie, and no control
/// is picked up. What the plugin does not list stays as it was.
pub proof fn law_a_preset_load_brings_its_values<V>(
    controls: ControlsView<V>,
    params: Seq<ParamView<V>>,
    k: int,
    i: int,
)
    requires
        controls.valid(),
        0 <= k < controls.bindings.len(),
        0 <= i < params.len(),
        forall|j: int|
            0 <= j < params.len() && j != i ==> (#[trigger] params[j]).id != params[i].id,
    ensures
        ({
            let (before, after) = (controls.bindings[k], controls.reset(params).bindings[k]);
            let values = controls.reset(params).values;
            &&& controls.reset(params).bindings.len() == controls.bindings.len()
            &&& after.control == before.control && after.param_id == before.param_id
            &&& after.lo == before.lo && after.hi == before.hi
            &&& before.param_id == params[i].id ==> after.cookie == params[i].cookie
            &&& before.param_id == params[i].id ==> (params[i].value matches Some(v)
                ==> values[before.param_id] == v)
            &&& !controls.reset(params).takeover[k].latched
            &&& controls.reset(params).takeover[k].last_cc is None
        }),
        (forall|j: int|
            0 <= j < params.len() ==> (#[trigger] params[j]).id != controls.bindings[k].param_id)
            ==> controls.reset(params).bindings[k] == controls.bindings[k] && controls.reset(
            params,
        ).values[controls.bindings[k].param_id] == controls.values[controls.bindings[k].param_id],
{
    let id = controls.bindings[k].param_id;
    lemma_first_param(params, |p: ParamView<V>| p.id == id);
    if id == params[i].id {
        assert(controls.values.contains_key(id));
        match first_param(params, |p: ParamView<V>| p.id == id) {
            Some(f) => {
                assert(f == i);
            },
            None => {
                let wanted = |p: ParamView<V>| p.id == id;
                assert(wanted(params[i]));
            },
        }
        if params[i].value is Some {
            lemma_reset_value(controls.values, params, i);
        }
    }
    if forall|j: int| 0 <= j < params.len() ==> (#[trigger] params[j]).id != id {
        lemma_reset_keeps(controls.values, params, id);
    }
}

/// A live label is what the parameter's name says beyond its prefix: the
/// colon and the space between the two do not count.
pub proof fn law_live_labels_drop_the_prefix(prefix: Seq<char>, label: Seq<char>)
    requires
        label.len() > 0,
        crate::text::is_trimmed(label),
        label[0] != ':',
    ensures
        live_label(Some(prefix), prefix + ": "@ + label) == label,
        live_label(Some(prefix), prefix + label) == label,
        !crate::text::has_prefix(label, prefix) ==> live_label(Some(prefix), label) == label,
        live_label(None, label) == label,
        is_unassigned("-"@) && is_unassigned(Seq::empty()),
        is_unassigned(label) <==> label == "-"@,
{
    reveal_strlit(": ");
    reveal_strlit("-");
    crate::text::lemma_trimmed_fixed(label);
    assert(without_colons(label) == label);
    let name = prefix + ": "@ + label;
    assert(name.subrange(0, prefix.len() as int) =~= prefix);
    let rest = name.skip(prefix.len() as int);
    assert(rest =~= ": "@ + label);
    assert(rest[0] == ':' && rest.last() == label.last());
    assert(!crate::text::is_whitespace(':'));
    crate::text::lemma_trimmed_fixed(rest);
    let spaced = rest.drop_first();
    assert(spaced =~= seq![' '] + label);
    assert(without_colons(rest) == without_colons(spaced));
    assert(without_colons(spaced) == spaced);
    assert(spaced.drop_first() =~= label);
    assert(crate::text::is_whitespace(' '));
    assert(crate::text::trimmed_start(spaced) == crate::text::trimmed_start(label));
    assert(crate::text::trimmed(spaced) == label);
    let plain = prefix + label;
    assert(plain.subrange(0, prefix.len() as int) =~= prefix);
    assert(plain.skip(prefix.len() as int) =~= label);
}

/// A live label is shown where the patch gives one, and the binding counts
/// as active then; all else of a binding stays.
pub proof fn law_relabelling_touches_the_label_only<V>(binding: BindingView<V>, name: Seq<char>)
    ensures
        ({
            let next = relabelled(binding, name);
            let live = live_label(binding.name_prefix, name);
            &&& next.control == binding.control && next.param_id == binding.param_id
            &&& next.lo == binding.lo && next.hi == binding.hi && next.cookie == binding.cookie
            &&& next.file_label == binding.file_label
            &&& binding.label_from_param && live.len() > 0 && live != "-"@ ==> next.active
                && next.label == live
            &&& binding.label_from_param && (live.len() == 0 || live == "-"@) ==> !next.active
                && next.label == binding.file_label
        }),
{
}

/// An error says which file, entry or plugin it is about.
pub proof fn law_mapping_errors_say_what_is_wrong(
    path: Seq<char>,
    reason: Seq<char>,
    control: Seq<char>,
    index: u8,
)
    ensures
        mapping_error_text(MappingErrorView::Io(path, reason)) == "cannot read "@ + path + ": "@
            + reason,
        mapping_error_text(MappingErrorView::Parse(reason)) == "mapping parse error: "@ + reason,
        mapping_error_text(MappingErrorView::WrongPlugin { expected: path, actual: reason })
            == "mapping is for plugin "@ + path + ", loaded "@ + reason,
        mapping_error_text(MappingErrorView::UnresolvedParam { label: path })
            == "mapping entry "@ + crate::text::quoted(path) + " matches no plugin parameter"@,
        mapping_error_text(MappingErrorView::BadIndex { control, index })
            == "mapping entry has out-of-range "@ + control + " index "@ + crate::text::decimal(
            index as nat,
        ),
{
}

} // verus!
