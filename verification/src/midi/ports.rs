//! MIDI ports: finding the controller by name.

use vstd::prelude::*;

use crate::text::{contains, join2, quote};

verus! {

/// The default case-insensitive substring used to find the controller.
///
/// The device exposes four ALSA port pairs: `Minilab3:Minilab3 MIDI 36:0`,
/// `... DIN THRU 36:1`, `... MCU/HUI 36:2`, and `... ALV 36:3`. Notes,
/// controllers, and the verified SysEx feedback all go through the `MIDI`
/// port, so the matcher names it, to be independent of the enumeration
/// order.
pub const DEFAULT_PORT_MATCH: &'static str = "minilab3 midi";

/// Why the MIDI layer failed.
#[derive(Debug)]
pub enum MidiError {
    Init(String),
    NoMatchingPort { matcher: String },
    Connect(String),
    Send(String),
    Disconnected,
}

/// The text of [`MidiError::message`].
pub open spec fn midi_error_text(error: MidiError) -> Seq<char> {
    match error {
        MidiError::Init(e) => "MIDI init failed: "@ + e@,
        MidiError::NoMatchingPort { matcher } => "no MIDI port matching "@ + crate::text::quoted(
            matcher@,
        ),
        MidiError::Connect(e) => "MIDI connect failed: "@ + e@,
        MidiError::Send(e) => "MIDI send failed: "@ + e@,
        MidiError::Disconnected => "device disconnected"@,
    }
}

impl MidiError {
    /// The error in words.
    pub fn message(&self) -> (text: String)
        ensures
            text@ == midi_error_text(*self),
    {
        match self {
            MidiError::Init(e) => join2("MIDI init failed: ", e.as_str()),
            MidiError::NoMatchingPort { matcher } => join2(
                "no MIDI port matching ",
                quote(matcher.as_str()).as_str(),
            ),
            MidiError::Connect(e) => join2("MIDI connect failed: ", e.as_str()),
            MidiError::Send(e) => join2("MIDI send failed: ", e.as_str()),
            MidiError::Disconnected => "device disconnected".to_owned(),
        }
    }
}

/// Names of all MIDI ports currently visible to the system.
#[derive(Debug, Clone)]
pub struct PortListing {
    pub inputs: Vec<String>,
    pub outputs: Vec<String>,
}

/// The names that could be read, in order.
pub open spec fn read_names(names: Seq<Option<String>>) -> Seq<String>
    decreases names.len(),
{
    if names.len() == 0 {
        Seq::empty()
    } else {
        match names.last() {
            Some(name) => read_names(names.drop_last()).push(name),
            None => read_names(names.drop_last()),
        }
    }
}

fn readable(names: Vec<Option<String>>) -> (r: Vec<String>)
    ensures
        r@ == read_names(names@),
{
    let mut r: Vec<String> = Vec::new();
    let mut i: usize = 0;
    while i < names.len()
        invariant
            i <= names@.len(),
            r@ == read_names(names@.take(i as int)),
        decreases names@.len() - i,
    {
        assert(names@.take(i + 1).drop_last() =~= names@.take(i as int));
        match &names[i] {
            Some(name) => {
                r.push(name.clone());
            },
            None => {},
        }
        i += 1;
    }
    assert(names@.take(i as int) =~= names@);
    r
}

impl Default for PortListing {
    /// No ports.
    fn default() -> (listing: Self)
        ensures
            listing.inputs@ == Seq::<String>::empty(),
            listing.outputs@ == Seq::<String>::empty(),
    {
        PortListing { inputs: Vec::new(), outputs: Vec::new() }
    }
}

impl PortListing {
    /// The listing of the ports whose names could be read.
    pub fn from_names(inputs: Vec<Option<String>>, outputs: Vec<Option<String>>) -> (
        listing: PortListing)
        ensures
            listing.inputs@ == read_names(inputs@),
            listing.outputs@ == read_names(outputs@),
    {
        PortListing { inputs: readable(inputs), outputs: readable(outputs) }
    }
}

/// Whether a port name contains the matcher, both in lower case.
pub open spec fn matches_name(port_name: Seq<char>, matcher: Seq<char>) -> bool {
    crate::text::occurs(crate::text::lowercase(port_name), crate::text::lowercase(matcher))
}

/// Case-insensitive substring match on a port name.
pub fn name_matches(port_name: &str, matcher: &str) -> (r: bool)
    ensures
        r == matches_name(port_name@, matcher@),
{
    lower_contains(port_name.to_lowercase().as_str(), matcher.to_lowercase().as_str())
}

/// Whether one lower-case text contains another.
pub fn lower_contains(name: &str, matcher: &str) -> (r: bool)
    ensures
        r == crate::text::occurs(name@, matcher@),
{
    contains(name, matcher)
}

/// Whether a name that may be missing is there and matches.
pub open spec fn named(name: Option<String>, matcher: Seq<char>) -> bool {
    name matches Some(n) && matches_name(n@, matcher)
}

/// The index of the first port whose name matches; a port whose name could
/// not be read matches nothing.
pub fn first_matching(names: &Vec<Option<String>>, matcher: &str) -> (r: Option<usize>)
    ensures
        match r {
            Some(i) => {
                &&& i < names@.len()
                &&& named(names@[i as int], matcher@)
                &&& forall|j: int| 0 <= j < i ==> !named(#[trigger] names@[j], matcher@)
            },
            None => forall|j: int|
                0 <= j < names@.len() ==> !named(#[trigger] names@[j], matcher@),
        },
{
    let mut i: usize = 0;
    while i < names.len()
        invariant
            i <= names@.len(),
            forall|j: int| 0 <= j < i ==> !named(#[trigger] names@[j], matcher@),
        decreases names@.len() - i,
    {
        let hit = match &names[i] {
            Some(name) => name_matches(name.as_str(), matcher),
            None => false,
        };
        if hit {
            return Some(i);
        }
        i += 1;
    }
    None
}

/// A listing holds every name that could be read, in order, and no other.
pub proof fn law_listings_hold_the_readable_names(names: Seq<Option<String>>, name: String)
    ensures
        read_names(names).contains(name) <==> names.contains(Some(name)),
        (forall|i: int| 0 <= i < names.len() ==> (#[trigger] names[i]) is Some) ==> read_names(
            names,
        ).len() == names.len() && forall|i: int|
            0 <= i < names.len() ==> Some(#[trigger] read_names(names)[i]) == names[i],
    decreases names.len(),
{
    if names.len() > 0 {
        let front = names.drop_last();
        law_listings_hold_the_readable_names(front, name);
        let (before, all) = (read_names(front), read_names(names));
        assert(front.push(names.last()) =~= names);
        if before.contains(name) {
            let k = choose|k: int| 0 <= k < before.len() && before[k] == name;
            assert(all[k] == name);
            let j = choose|j: int| 0 <= j < front.len() && front[j] == Some(name);
            assert(names[j] == Some(name));
        }
        if all.contains(name) && !before.contains(name) {
            let k = choose|k: int| 0 <= k < all.len() && all[k] == name;
            if k < before.len() {
                assert(before[k] == name);
            }
            assert(names[names.len() - 1] == Some(name));
        }
        if names.contains(Some(name)) {
            let j = choose|j: int| 0 <= j < names.len() && names[j] == Some(name);
            if j < front.len() {
                assert(front[j] == Some(name));
            } else {
                assert(all[all.len() - 1] == name);
            }
        }
        if forall|i: int| 0 <= i < names.len() ==> (#[trigger] names[i]) is Some {
            assert forall|i: int| 0 <= i < front.len() implies (#[trigger] front[i]) is Some by {
                assert(front[i] == names[i]);
            }
            assert(names[names.len() - 1] is Some);
            assert forall|i: int| 0 <= i < names.len() implies Some(#[trigger] all[i])
                == names[i] by {
                if i < front.len() {
                    assert(all[i] == before[i]);
                    assert(front[i] == names[i]);
                }
            }
        }
    }
}

/// A port matches exactly where the text, in lower case, stands somewhere in
/// its name, in lower case; a port without a name matches nothing.
pub proof fn law_a_port_matches_by_substring(name: String, matcher: Seq<char>)
    ensures
        named(Some(name), matcher) <==> exists|at: int|
            crate::text::occurs_at(
                crate::text::lowercase(name@),
                crate::text::lowercase(matcher),
                at,
            ),
        !named(None, matcher),
{
}

/// An error says what failed and why.
pub proof fn law_errors_say_what_failed(error: MidiError)
    ensures
        match error {
            MidiError::Init(e) => midi_error_text(error) == "MIDI init failed: "@ + e@,
            MidiError::NoMatchingPort { matcher } => midi_error_text(error)
                == "no MIDI port matching "@ + crate::text::quoted(matcher@),
            MidiError::Connect(e) => midi_error_text(error) == "MIDI connect failed: "@ + e@,
            MidiError::Send(e) => midi_error_text(error) == "MIDI send failed: "@ + e@,
            MidiError::Disconnected => midi_error_text(error) == "device disconnected"@,
        },
{
}

} // verus!
