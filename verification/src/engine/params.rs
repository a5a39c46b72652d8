//! Plugin parameters. Their values are of a type `V` that the caller
//! chooses: the library carries them and never computes with them.

use vstd::prelude::*;

verus! {

/// Owned description of one plugin parameter.
#[derive(Debug, Clone)]
pub struct ParamDescription<V> {
    pub id: u32,
    pub name: String,
    pub module: String,
    pub min_value: V,
    pub max_value: V,
    pub default_value: V,
    /// Current plain value, when the plugin reports one.
    pub value: Option<V>,
    /// Human-readable rendering of `value`, when the plugin provides one.
    pub value_text: Option<String>,
    pub is_automatable: bool,
    /// The plugin's opaque per-param cookie pointer, carried as usize so it
    /// can cross threads. Must be passed back in param events: some plugins
    /// dereference it without a null check.
    pub cookie: usize,
}

/// What binding a control reads of a [`ParamDescription`].
pub struct ParamView<V> {
    pub id: u32,
    pub name: Seq<char>,
    pub min_value: V,
    pub max_value: V,
    pub default_value: V,
    pub value: Option<V>,
    pub cookie: usize,
}

impl<V> View for ParamDescription<V> {
    type V = ParamView<V>;

    open spec fn view(&self) -> ParamView<V> {
        ParamView {
            id: self.id,
            name: self.name@,
            min_value: self.min_value,
            max_value: self.max_value,
            default_value: self.default_value,
            value: self.value,
            cookie: self.cookie,
        }
    }
}

/// What a list of parameters holds.
pub open spec fn params_view<V>(params: Seq<ParamDescription<V>>) -> Seq<ParamView<V>> {
    params.map_values(|p: ParamDescription<V>| p@)
}

/// A new plain value for a parameter, on its way to the audio thread.
#[derive(Debug, Clone, PartialEq)]
pub struct ParamChange<V> {
    pub param_id: u32,
    pub value: V,
    /// The parameter's cookie, as the plugin gave it.
    pub cookie: usize,
}

} // verus!
