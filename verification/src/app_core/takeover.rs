//! Soft takeover (pickup) for absolute hardware controls.
//!
//! The MiniLab 3 encoders and faders send absolute 0..=127 in both captured
//! modes, so after a preset change the knob position rarely matches the
//! parameter value. A control stays inert until its position reaches or
//! crosses the parameter's current value, and then latches and tracks.

use vstd::prelude::*;

verus! {

/// Where a knob position lies against a parameter's current value, both
/// normalized.
#[derive(Debug, Clone, Copy, PartialEq, Eq, Structural)]
pub enum Side {
    Below,
    At,
    Above,
    /// The value is not a number.
    Unordered,
}

/// How one knob message stands to the parameter's current value.
#[derive(Debug, Clone, Copy, PartialEq, Eq, Structural)]
pub struct Reading {
    /// Where the new position lies.
    pub position: Side,
    /// Where the position of the previous message lies; it counts only
    /// where there was one.
    pub last: Side,
    /// Whether the new position is within half a step of the value.
    pub close: bool,
}

/// Pickup state for one absolute control.
#[derive(Debug, Clone, Copy, PartialEq, Eq, Structural)]
pub struct SoftTakeover {
    latched: bool,
    last_cc: Option<u8>,
}

/// The state of a [`SoftTakeover`].
pub struct TakeoverView {
    pub latched: bool,
    pub last_cc: Option<u8>,
}

impl View for SoftTakeover {
    type V = TakeoverView;

    closed spec fn view(&self) -> TakeoverView {
        TakeoverView { latched: self.latched, last_cc: self.last_cc }
    }
}

/// Not picked up, and no position known.
pub open spec fn released() -> TakeoverView {
    TakeoverView { latched: false, last_cc: None }
}

/// Whether a knob that moved from one position to another swept across the
/// value, or onto it.
pub open spec fn crossed(reading: Reading) -> bool {
    ||| reading.last == Side::Below && (reading.position == Side::At || reading.position
        == Side::Above)
    ||| reading.last == Side::Above && (reading.position == Side::At || reading.position
        == Side::Below)
}

impl TakeoverView {
    /// Whether a message takes effect: the knob has picked the parameter
    /// up, or does so now.
    pub open spec fn picks_up(self, reading: Reading) -> bool {
        self.latched || reading.close || (self.last_cc is Some && crossed(reading))
    }

    /// The state after a message.
    pub open spec fn updated(self, cc: u8, reading: Reading) -> TakeoverView {
        TakeoverView { latched: self.picks_up(reading), last_cc: Some(cc) }
    }
}

impl Default for SoftTakeover {
    /// A control that has not picked up its parameter.
    fn default() -> (t: Self)
        ensures
            t@ == released(),
    {
        SoftTakeover::new()
    }
}

impl SoftTakeover {
    /// A control that has not picked up its parameter.
    pub fn new() -> (t: Self)
        ensures
            t@ == released(),
    {
        SoftTakeover { latched: false, last_cc: None }
    }

    /// The position of the last message since the latch was forgotten.
    pub fn last_cc(&self) -> (cc: Option<u8>)
        ensures
            cc == self@.last_cc,
    {
        self.last_cc
    }

    /// Forgets the latch (call when the underlying parameter changed
    /// without the hardware moving, e.g. preset load).
    pub fn release(&mut self)
        ensures
            final(self)@ == released(),
    {
        self.latched = false;
        self.last_cc = None;
    }

    /// Feeds one absolute CC value; `reading` says how it stands to the
    /// parameter's current value. Returns the position to apply (in
    /// 127ths), or `None` while the control has not picked up the parameter
    /// yet.
    pub fn update(&mut self, cc: u8, reading: Reading) -> (position: Option<u8>)
        ensures
            final(self)@ == old(self)@.updated(cc, reading),
            position == if old(self)@.picks_up(reading) {
                Some(cc)
            } else {
                None
            },
    {
        if self.latched {
            self.last_cc = Some(cc);
            return Some(cc);
        }
        // Latch when the knob lands on the value (within half a step) or
        // sweeps across it between two consecutive messages.
        let swept = match self.last_cc {
            Some(_) => match reading.last {
                Side::Below => reading.position == Side::At || reading.position == Side::Above,
                Side::Above => reading.position == Side::At || reading.position == Side::Below,
                _ => false,
            },
            None => false,
        };
        self.last_cc = Some(cc);
        if reading.close || swept {
            self.latched = true;
            Some(cc)
        } else {
            None
        }
    }
}

/// Once picked up, a control follows every move until it is released.
pub proof fn law_latched_control_tracks(t: TakeoverView, cc: u8, reading: Reading, next: Reading)
    requires
        t.picks_up(reading),
    ensures
        t.updated(cc, reading).picks_up(next),
{
}

/// The first message after a release cannot claim a sweep from stale
/// state: it takes effect only on the value itself.
pub proof fn law_release_requires_new_pickup(cc: u8, reading: Reading)
    ensures
        released().picks_up(reading) == reading.close,
{
}

/// A knob that stays on one side of the value, and not close to it, has no
/// effect, however often it moves.
pub proof fn law_no_jump_before_pickup(cc: u8, reading: Reading, side: Side)
    requires
        side == Side::Below || side == Side::Above,
        reading.position == side,
        reading.last == side,
        !reading.close,
    ensures
        forall|t: TakeoverView| !t.latched ==> !#[trigger] t.picks_up(reading) && !t.updated(
            cc,
            reading,
        ).latched,
{
}

/// A control takes effect exactly where it has picked its parameter up
/// before, lands on the value, or sweeps across it or onto it from either
/// side; then it stays picked up, and every position is remembered.
pub proof fn law_pickup_is_by_landing_or_sweeping(t: TakeoverView, cc: u8, reading: Reading)
    ensures
        t.picks_up(reading) <==> {
            ||| t.latched
            ||| reading.close
            ||| t.last_cc is Some && reading.last == Side::Below && (reading.position == Side::At
                || reading.position == Side::Above)
            ||| t.last_cc is Some && reading.last == Side::Above && (reading.position == Side::At
                || reading.position == Side::Below)
        },
        t.updated(cc, reading).latched == t.picks_up(reading),
        t.updated(cc, reading).last_cc == Some(cc),
        !released().latched && released().last_cc is None,
{
}

} // verus!
