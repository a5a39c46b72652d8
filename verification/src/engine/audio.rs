//! Audio output: port layouts, buffer planning, stream negotiation and the
//! bookkeeping of the audio callback.

use vstd::prelude::*;

use crate::text::{decimal_text, join2, join3};

verus! {

/// The negotiated audio stream, for display.
#[derive(Debug, Clone)]
pub struct AudioInfo {
    pub device_name: Option<String>,
    pub sample_rate: u32,
    pub buffer_frames: u32,
    pub sample_format: String,
}

/// What an [`AudioInfo`] says.
pub struct AudioInfoView {
    pub device_name: Option<Seq<char>>,
    pub sample_rate: u32,
    pub buffer_frames: u32,
    pub sample_format: Seq<char>,
}

impl View for AudioInfo {
    type V = AudioInfoView;

    open spec fn view(&self) -> AudioInfoView {
        AudioInfoView {
            device_name: crate::text::opt_text(self.device_name),
            sample_rate: self.sample_rate,
            buffer_frames: self.buffer_frames,
            sample_format: self.sample_format@,
        }
    }
}

/// Requested engine configuration.
#[derive(Debug, Clone, Copy, PartialEq, Eq, Structural)]
pub struct EngineConfig {
    pub sample_rate: u32,
    pub buffer_frames: u32,
}

impl Default for EngineConfig {
    fn default() -> (config: Self)
        ensures
            config == (EngineConfig { sample_rate: 48_000, buffer_frames: 256 }),
    {
        EngineConfig { sample_rate: 48_000, buffer_frames: 256 }
    }
}

/// Why there is no audio.
#[derive(Debug)]
pub enum AudioError {
    NoOutputDevice,
    NoStereoConfig,
    UnsupportedMainPort(u16),
    Backend(String),
}

impl AudioError {
    /// The error in words.
    pub fn message(&self) -> (text: String)
        ensures
            text@ == match *self {
                AudioError::NoOutputDevice => "no default audio output device"@,
                AudioError::NoStereoConfig => {
                    "output device offers no supported stereo f32/i16 config"@
                },
                AudioError::UnsupportedMainPort(c) => "plugin main output port has "@
                    + crate::text::decimal(c as nat) + " channels; only 1 or 2 supported"@,
                AudioError::Backend(e) => "audio backend error: "@ + e@,
            },
    {
        match self {
            AudioError::NoOutputDevice => "no default audio output device".to_owned(),
            AudioError::NoStereoConfig => {
                "output device offers no supported stereo f32/i16 config".to_owned()
            },
            AudioError::UnsupportedMainPort(c) => join3(
                "plugin main output port has ",
                decimal_text(*c as u64).as_str(),
                " channels; only 1 or 2 supported",
            ),
            AudioError::Backend(e) => join2("audio backend error: ", e.as_str()),
        }
    }
}

// ---------------------------------------------------------------------
// Port layouts
// ---------------------------------------------------------------------

/// Number of channels and per-port channel layout of the plugin's ports.
#[derive(Debug, Clone)]
pub struct PortLayout {
    /// Channel count for each port, in port order.
    pub port_channels: Vec<u16>,
    /// Index of the main port in `port_channels`.
    pub main_port: usize,
}

/// What a plugin says of one port.
#[derive(Debug, Clone, Copy, PartialEq, Eq, Structural)]
pub struct PortInfo {
    pub is_main: bool,
    pub channel_count: u32,
}

/// The sum of channel counts.
pub open spec fn channel_sum(channels: Seq<u16>) -> nat
    decreases channels.len(),
{
    if channels.len() == 0 {
        0
    } else {
        channel_sum(channels.drop_last()) + channels.last() as nat
    }
}

proof fn lemma_channel_sum_grows(channels: Seq<u16>, n: int)
    requires
        0 <= n <= channels.len(),
    ensures
        channel_sum(channels.take(n)) <= channel_sum(channels),
    decreases channels.len() - n,
{
    if n < channels.len() {
        let rest = channels.drop_last();
        lemma_channel_sum_grows(rest, n);
        assert(rest.take(n) =~= channels.take(n));
    } else {
        assert(channels.take(n) =~= channels);
    }
}

/// The ports that the plugin describes, in order.
pub open spec fn described_ports(ports: Seq<Option<PortInfo>>) -> Seq<PortInfo>
    decreases ports.len(),
{
    if ports.len() == 0 {
        Seq::empty()
    } else {
        let front = described_ports(ports.drop_last());
        match ports.last() {
            Some(info) => front.push(info),
            None => front,
        }
    }
}

/// The channel counts of ports.
pub open spec fn channel_counts(ports: Seq<PortInfo>) -> Seq<u16> {
    ports.map_values(|info: PortInfo| info.channel_count as u16)
}

/// The index of the first main port, or 0.
pub open spec fn main_index(ports: Seq<PortInfo>) -> int
    decreases ports.len(),
{
    if ports.len() == 0 {
        0
    } else if has_main(ports.drop_last()) {
        main_index(ports.drop_last())
    } else if ports.last().is_main {
        ports.len() - 1
    } else {
        0
    }
}

/// Whether one of the ports is a main one.
pub open spec fn has_main(ports: Seq<PortInfo>) -> bool {
    exists|i: int| 0 <= i < ports.len() && (#[trigger] ports[i]).is_main
}

/// The main port's index is that of the first port described as one.
proof fn lemma_main_index(ports: Seq<PortInfo>)
    ensures
        0 <= main_index(ports),
        ports.len() > 0 ==> main_index(ports) < ports.len(),
        has_main(ports) ==> main_index(ports) < ports.len() && ports[main_index(ports)].is_main,
        !has_main(ports) ==> main_index(ports) == 0,
        forall|i: int| 0 <= i < main_index(ports) ==> !(#[trigger] ports[i]).is_main,
    decreases ports.len(),
{
    if ports.len() > 0 {
        let front = ports.drop_last();
        lemma_main_index(front);
        if has_main(front) {
            assert(ports[main_index(front)].is_main);
            assert forall|i: int| 0 <= i < main_index(ports) implies !(
            #[trigger] ports[i]).is_main by {
                assert(!front[i].is_main);
            }
        } else {
            assert forall|i: int| 0 <= i < front.len() implies !(#[trigger] ports[i]).is_main by {
                assert(front[i] == ports[i]);
            }
        }
    }
}

/// The layout of ports that a plugin describes, and a single stereo port
/// where it lacks the extension (`ports` is `None`) or describes no output.
/// Ports that it says nothing of do not count.
pub fn port_layout(ports: &Option<Vec<Option<PortInfo>>>, is_input: bool) -> (layout: PortLayout)
    ensures
        match *ports {
            None => layout.main_port == 0 && layout.port_channels@ == seq![2u16],
            Some(list) => {
                let described = described_ports(list@);
                if described.len() == 0 && !is_input {
                    layout.main_port == 0 && layout.port_channels@ == seq![2u16]
                } else {
                    layout.main_port == main_index(described) && layout.port_channels@
                        == channel_counts(described)
                }
            },
        },
        !is_input ==> layout.port_channels@.len() > 0,
        layout.port_channels@.len() > 0 ==> layout.main_port < layout.port_channels@.len(),
{
    let mut port_channels: Vec<u16> = Vec::new();
    let mut main_port: Option<usize> = None;
    match ports {
        None => {
            port_channels.push(2);
            assert(port_channels@ =~= seq![2u16]);
            return PortLayout { port_channels, main_port: 0 };
        },
        Some(list) => {
            let mut i: usize = 0;
            while i < list.len()
                invariant
                    i <= list@.len(),
                    port_channels@ == channel_counts(described_ports(list@.take(i as int))),
                    match main_port {
                        Some(k) => has_main(described_ports(list@.take(i as int))) && k
                            == main_index(described_ports(list@.take(i as int))),
                        None => !has_main(described_ports(list@.take(i as int))),
                    },
                decreases list@.len() - i,
            {
                let ghost before = described_ports(list@.take(i as int));
                assert(list@.take(i + 1).drop_last() =~= list@.take(i as int));
                if let Some(info) = list[i] {
                    let ghost after = described_ports(list@.take(i + 1));
                    proof {
                        assert(after == before.push(info));
                        assert(after.drop_last() =~= before);
                        assert(after.last() == info);
                        if has_main(before) {
                            let k = choose|k: int| 0 <= k < before.len() && (
                            #[trigger] before[k]).is_main;
                            assert(after[k].is_main);
                        }
                        if has_main(after) && !info.is_main {
                            let k = choose|k: int| 0 <= k < after.len() && (
                            #[trigger] after[k]).is_main;
                            assert(before[k].is_main);
                        }
                    }
                    if info.is_main && main_port.is_none() {
                        main_port = Some(port_channels.len());
                    }
                    port_channels.push(info.channel_count as u16);
                    assert(port_channels@ =~= channel_counts(after));
                }
                i += 1;
            }
            assert(list@.take(i as int) =~= list@);
            proof {
                lemma_main_index(described_ports(list@));
            }
        },
    }
    if port_channels.len() == 0 && !is_input {
        port_channels.push(2);
        assert(port_channels@ =~= seq![2u16]);
        return PortLayout { port_channels, main_port: 0 };
    }
    PortLayout {
        port_channels,
        main_port: match main_port {
            Some(k) => k,
            None => 0,
        },
    }
}

/// The main port is the first that the plugin describes as one, wherever
/// it describes one.
pub proof fn law_main_port_is_the_first_main_one(ports: Seq<PortInfo>, i: int)
    requires
        0 <= i < ports.len(),
        ports[i].is_main,
    ensures
        main_index(ports) <= i,
        ports[main_index(ports)].is_main,
{
    lemma_main_index(ports);
}

impl PortLayout {
    /// The number of channels of all ports.
    pub fn total_channels(&self) -> (n: usize)
        requires
            channel_sum(self.port_channels@) <= usize::MAX,
        ensures
            n == channel_sum(self.port_channels@),
    {
        let mut n: usize = 0;
        let mut i: usize = 0;
        while i < self.port_channels.len()
            invariant
                i <= self.port_channels@.len(),
                channel_sum(self.port_channels@) <= usize::MAX,
                n == channel_sum(self.port_channels@.take(i as int)),
            decreases self.port_channels@.len() - i,
        {
            proof {
                lemma_channel_sum_grows(self.port_channels@, i + 1);
                assert(self.port_channels@.take(i + 1).drop_last() =~= self.port_channels@.take(
                    i as int,
                ));
            }
            n = n + self.port_channels[i] as usize;
            i += 1;
        }
        assert(self.port_channels@.take(i as int) =~= self.port_channels@);
        n
    }

    /// The number of channels of the main port.
    pub fn main_channel_count(&self) -> (n: u16)
        requires
            self.main_port < self.port_channels@.len(),
        ensures
            n == self.port_channels@[self.main_port as int],
    {
        self.port_channels[self.main_port]
    }

    /// Whether the main port can be played in stereo: it is there, and has
    /// one channel or two.
    pub fn check_main(&self) -> (r: Result<u16, AudioError>)
        requires
            self.main_port < self.port_channels@.len(),
        ensures
            match r {
                Ok(n) => n == self.port_channels@[self.main_port as int] && (n == 1 || n == 2),
                Err(e) => e == AudioError::UnsupportedMainPort(
                    self.port_channels@[self.main_port as int],
                ) && !(1 <= self.port_channels@[self.main_port as int] <= 2),
            },
    {
        let n: u16 = self.main_channel_count();
        if n == 0 || n > 2 {
            Err(AudioError::UnsupportedMainPort(n))
        } else {
            Ok(n)
        }
    }
}

// ---------------------------------------------------------------------
// Buffers
// ---------------------------------------------------------------------

/// The size of the per-port buffers: room for `max_frames` frames of each
/// channel, one channel after the other.
#[derive(Debug, Clone, Copy, PartialEq, Eq, Structural)]
pub struct BufferPlan {
    pub max_frames: usize,
}

impl BufferPlan {
    /// The length of the buffer of a port.
    pub fn buffer_len(&self, channels: u16) -> (n: usize)
        requires
            self.max_frames * channels <= usize::MAX,
        ensures
            n == self.max_frames * channels,
    {
        self.max_frames * channels as usize
    }

    /// Makes room for a bigger block than planned; true where the buffers
    /// have to grow.
    pub fn ensure_frames(&mut self, frames: usize) -> (grown: bool)
        ensures
            grown == (frames > old(self).max_frames),
            final(self).max_frames == if frames > old(self).max_frames {
                frames
            } else {
                old(self).max_frames
            },
    {
        if frames <= self.max_frames {
            return false;
        }
        self.max_frames = frames;
        true
    }

    /// Where a channel's samples start in its port's buffer.
    pub fn channel_start(&self, channel: u16) -> (at: usize)
        requires
            self.max_frames * channel <= usize::MAX,
        ensures
            at == self.max_frames * channel,
    {
        self.max_frames * channel as usize
    }
}

/// The samples of one channel lie within the port's buffer, and behind
/// those of the channels before it.
pub proof fn law_channels_do_not_overlap(
    max_frames: nat,
    channels: nat,
    channel: nat,
    frame: nat,
    other: nat,
    other_frame: nat,
)
    requires
        channel < other < channels,
        frame < max_frames,
        other_frame < max_frames,
    ensures
        max_frames * channel + frame < max_frames * other + other_frame < max_frames * channels,
{
    assert(max_frames * channel + max_frames <= max_frames * other) by (nonlinear_arith)
        requires
            channel < other,
    ;
    assert(max_frames * other + max_frames <= max_frames * channels) by (nonlinear_arith)
        requires
            other < channels,
    ;
}

/// How many frames of the main port go into a buffer: as many as asked for,
/// as far as the buffer has room and a mono port has samples.
pub open spec fn mixed_frames(max_frames: int, channels: u16, frames: int, room: int) -> int {
    let pairs = room / 2;
    let n = if frames < pairs {
        frames
    } else {
        pairs
    };
    if channels == 1 && max_frames < n {
        max_frames
    } else {
        n
    }
}

/// Mixes the main port of `channels` channels into the first `frames`
/// frames of an interleaved stereo buffer: `combine` puts each sample
/// together with what is there. A mono main port goes to both channels; of
/// more than two channels the first two are taken.
pub fn mix_main<V: Copy, F: Fn(V, V) -> V>(
    plan: &BufferPlan,
    channels: u16,
    main: &Vec<V>,
    frames: usize,
    out: &mut Vec<V>,
    combine: F,
)
    requires
        1 <= channels,
        main@.len() == plan.max_frames * channels,
        mixed_frames(plan.max_frames as int, channels, frames as int, old(out)@.len() as int)
            <= plan.max_frames,
        forall|a: V, b: V| #[trigger] call_requires(combine, (a, b)),
    ensures
        ({
            let n = mixed_frames(
                plan.max_frames as int,
                channels,
                frames as int,
                old(out)@.len() as int,
            );
            let right = if channels == 1 {
                0int
            } else {
                plan.max_frames as int
            };
            &&& final(out)@.len() == old(out)@.len()
            &&& forall|i: int|
                0 <= i < n ==> call_ensures(
                    combine,
                    (old(out)@[2 * i], main@[i]),
                    #[trigger] final(out)@[2 * i],
                )
            &&& forall|i: int|
                0 <= i < n ==> call_ensures(
                    combine,
                    (old(out)@[2 * i + 1], main@[right + i]),
                    #[trigger] final(out)@[2 * i + 1],
                )
            &&& forall|k: int|
                2 * n <= k < old(out)@.len() ==> #[trigger] final(out)@[k] == old(out)@[k]
        }),
{
    let size: usize = out.len();
    let room: usize = main.len();
    let mono: bool = channels == 1;
    let right: usize = if mono {
        0
    } else {
        plan.max_frames
    };
    let pairs: usize = size / 2;
    let asked: usize = if frames < pairs {
        frames
    } else {
        pairs
    };
    let n: usize = if mono && plan.max_frames < asked {
        plan.max_frames
    } else {
        asked
    };
    assert(!mono ==> 2 * plan.max_frames <= room) by (nonlinear_arith)
        requires
            mono == (channels == 1),
            1 <= channels,
            room == plan.max_frames * channels,
    ;
    let mut i: usize = 0;
    while i < n
        invariant
            i <= n,
            n <= plan.max_frames,
            room == main@.len(),
            room >= right + plan.max_frames,
            size == out@.len(),
            size == old(out)@.len(),
            2 * n <= size,
            forall|a: V, b: V| #[trigger] call_requires(combine, (a, b)),
            forall|k: int|
                0 <= k < i ==> call_ensures(
                    combine,
                    (old(out)@[2 * k], main@[k]),
                    #[trigger] out@[2 * k],
                ),
            forall|k: int|
                0 <= k < i ==> call_ensures(
                    combine,
                    (old(out)@[2 * k + 1], main@[right + k]),
                    #[trigger] out@[2 * k + 1],
                ),
            forall|k: int| 2 * i <= k < size ==> #[trigger] out@[k] == old(out)@[k],
        decreases n - i,
    {
        let l = combine(out[2 * i], main[i]);
        let r = combine(out[2 * i + 1], main[right + i]);
        out.set(2 * i, l);
        out.set(2 * i + 1, r);
        i += 1;
    }
}

/// What a plugin has rendered: its main port of `channels` channels.
#[derive(Debug, Clone, Copy)]
pub struct Rendered<'a, V> {
    pub plan: BufferPlan,
    pub channels: u16,
    pub samples: &'a Vec<V>,
}

impl<'a, V> Rendered<'a, V> {
    /// How many frames of it go into a buffer.
    pub open spec fn frames_in(self, frames: int, room: int) -> int {
        mixed_frames(self.plan.max_frames as int, self.channels, frames, room)
    }

    /// Where the samples of the right channel start.
    pub open spec fn right(self) -> int {
        if self.channels == 1 {
            0
        } else {
            self.plan.max_frames as int
        }
    }

    /// Whether it is as long as planned, and the block lies within it.
    pub open spec fn fits(self, frames: int, room: int) -> bool {
        &&& 1 <= self.channels
        &&& self.samples@.len() == self.plan.max_frames * self.channels
        &&& self.frames_in(frames, room) <= self.plan.max_frames
    }

    /// The mix with the rendered block in place of what was there.
    pub open spec fn over(self, frames: int, mix: Seq<V>) -> Seq<V> {
        let n = self.frames_in(frames, mix.len() as int);
        Seq::new(
            mix.len(),
            |k: int|
                if k < 2 * n {
                    if k % 2 == 0 {
                        self.samples@[k / 2]
                    } else {
                        self.samples@[self.right() + k / 2]
                    }
                } else {
                    mix[k]
                },
        )
    }

    /// Whether `after` is the mix with the rendered block on top, each pair
    /// of samples put together by `add`.
    pub open spec fn is_added<F: Fn(V, V) -> V>(
        self,
        frames: int,
        add: F,
        before: Seq<V>,
        after: Seq<V>,
    ) -> bool {
        let n = self.frames_in(frames, before.len() as int);
        &&& after.len() == before.len()
        &&& forall|i: int|
            0 <= i < n ==> call_ensures(
                add,
                (before[2 * i], self.samples@[i]),
                #[trigger] after[2 * i],
            )
        &&& forall|i: int|
            0 <= i < n ==> call_ensures(
                add,
                (before[2 * i + 1], self.samples@[self.right() + i]),
                #[trigger] after[2 * i + 1],
            )
        &&& forall|k: int| 2 * n <= k < before.len() ==> #[trigger] after[k] == before[k]
    }
}

/// The mix that the slots' plugins add to: the live plugin's block, or
/// silence where it failed.
pub open spec fn live_mix<V>(
    live: Option<Rendered<V>>,
    frames: int,
    silence: V,
    mix: Seq<V>,
) -> Seq<V> {
    match live {
        Some(rendered) => rendered.over(frames, mix),
        None => Seq::new(
            mix.len(),
            |k: int|
                if k < 2 * frames {
                    silence
                } else {
                    mix[k]
                },
        ),
    }
}

/// Whether the mixes lead from the first to the last, slot by slot: a slot
/// that rendered is added, one that did not leaves the mix as it is.
pub open spec fn adds_up<V, F: Fn(V, V) -> V>(
    slots: Seq<Option<Rendered<V>>>,
    frames: int,
    add: F,
    mixes: Seq<Seq<V>>,
) -> bool {
    &&& mixes.len() == slots.len() + 1
    &&& forall|k: int|
        0 <= k < slots.len() ==> match #[trigger] slots[k] {
            Some(rendered) => rendered.is_added(frames, add, mixes[k], mixes[k + 1]),
            None => mixes[k + 1] == mixes[k],
        }
}

/// Mixes one block: the live plugin's block (silence where it failed), and
/// on top of it those of the slots that rendered, in order.
pub fn mix_block<'a, V: Copy, F: Fn(V, V) -> V + Copy>(
    live: &Option<Rendered<'a, V>>,
    slots: &[Option<Rendered<'a, V>>],
    frames: usize,
    silence: V,
    add: F,
    out: &mut Vec<V>,
)
    requires
        2 * frames <= old(out)@.len(),
        live matches Some(r) ==> r.fits(frames as int, old(out)@.len() as int),
        forall|k: int|
            0 <= k < slots@.len() ==> (#[trigger] slots@[k] matches Some(r) ==> r.fits(
                frames as int,
                old(out)@.len() as int,
            )),
        forall|a: V, b: V| #[trigger] call_requires(add, (a, b)),
    ensures
        final(out)@.len() == old(out)@.len(),
        exists|mixes: Seq<Seq<V>>| #[trigger]
            adds_up(slots@, frames as int, add, mixes) && mixes[0] == live_mix(
                *live,
                frames as int,
                silence,
                old(out)@,
            ) && mixes.last() == final(out)@,
{
    let size: usize = out.len();
    let ghost start = out@;
    match live {
        Some(r) => {
            let replace = |there: V, sample: V| -> (kept: V)
                ensures
                    kept == sample,
                { sample };
            mix_main(&r.plan, r.channels, r.samples, frames, out, replace);
            proof {
                let n = r.frames_in(frames as int, start.len() as int);
                let want = r.over(frames as int, start);
                assert forall|k: int| 0 <= k < start.len() implies out@[k] == want[k] by {
                    if k < 2 * n {
                        let i = k / 2;
                        if k % 2 == 0 {
                            assert(out@[2 * i] == r.samples@[i]);
                        } else {
                            assert(out@[2 * i + 1] == r.samples@[r.right() + i]);
                        }
                    }
                }
                assert(out@ =~= want);
            }
        },
        None => {
            let mut k: usize = 0;
            while k < 2 * frames
                invariant
                    k <= 2 * frames <= size,
                    size == start.len(),
                    out@.len() == size,
                    forall|j: int| 0 <= j < k ==> #[trigger] out@[j] == silence,
                    forall|j: int| k <= j < size ==> #[trigger] out@[j] == start[j],
                decreases 2 * frames - k,
            {
                out.set(k, silence);
                k += 1;
            }
            assert(out@ =~= live_mix(*live, frames as int, silence, start));
        },
    }
    let ghost mut mixes: Seq<Seq<V>> = seq![out@];
    let mut i: usize = 0;
    while i < slots.len()
        invariant
            i <= slots@.len(),
            size == start.len(),
            out@.len() == size,
            forall|k: int|
                0 <= k < slots@.len() ==> (#[trigger] slots@[k] matches Some(r) ==> r.fits(
                    frames as int,
                    size as int,
                )),
            forall|a: V, b: V| #[trigger] call_requires(add, (a, b)),
            adds_up(slots@.take(i as int), frames as int, add, mixes),
            mixes[0] == live_mix(*live, frames as int, silence, start),
            mixes.last() == out@,
        decreases slots@.len() - i,
    {
        let ghost before = out@;
        let ghost passed = mixes;
        let slot = &slots[i];
        assert(slots@[i as int] == *slot);
        if let Some(r) = slot {
            mix_main(&r.plan, r.channels, r.samples, frames, out, add);
            assert(r.is_added(frames as int, add, before, out@));
        }
        proof {
            mixes = mixes.push(out@);
            let done = slots@.take(i + 1);
            assert forall|k: int| 0 <= k < done.len() implies match #[trigger] done[k] {
                Some(rendered) => rendered.is_added(frames as int, add, mixes[k], mixes[k + 1]),
                None => mixes[k + 1] == mixes[k],
            } by {
                if k < i {
                    assert(slots@.take(i as int)[k] == done[k]);
                    assert(mixes[k] == passed[k] && mixes[k + 1] == passed[k + 1]);
                } else {
                    assert(mixes[k] == before);
                }
            }
        }
        i += 1;
    }
    proof {
        assert(slots@.take(i as int) =~= slots@);
        assert(adds_up(slots@, frames as int, add, mixes));
    }
}

/// The first `frames` samples of each channel, one channel after the other.
pub open spec fn block_samples<V>(
    main: Seq<V>,
    max_frames: int,
    channels: int,
    frames: int,
) -> Seq<V>
    decreases channels,
{
    if channels <= 0 {
        Seq::empty()
    } else {
        let start = max_frames * (channels - 1);
        block_samples(main, max_frames, channels - 1, frames) + main.subrange(start, start + frames)
    }
}

/// The samples of a block in the buffer of a port of `channels` channels,
/// to be measured: levels are taken over all of them.
pub fn main_samples<V: Copy>(
    plan: &BufferPlan,
    channels: u16,
    main: &Vec<V>,
    frames: usize,
) -> (samples: Vec<V>)
    requires
        main@.len() == plan.max_frames * channels,
        frames <= plan.max_frames,
    ensures
        samples@ == block_samples(main@, plan.max_frames as int, channels as int, frames as int),
{
    let room: usize = main.len();
    let mut samples: Vec<V> = Vec::new();
    let mut channel: u16 = 0;
    while channel < channels
        invariant
            channel <= channels,
            room == main@.len(),
            main@.len() == plan.max_frames * channels,
            frames <= plan.max_frames,
            samples@ == block_samples(
                main@,
                plan.max_frames as int,
                channel as int,
                frames as int,
            ),
        decreases channels - channel,
    {
        proof {
            assert(plan.max_frames * channel + plan.max_frames <= plan.max_frames * channels)
                by (nonlinear_arith)
                requires
                    channel < channels,
            ;
        }
        let start: usize = plan.channel_start(channel);
        let ghost before = samples@;
        let mut i: usize = 0;
        while i < frames
            invariant
                i <= frames,
                start + frames <= room == main@.len(),
                samples@ == before + main@.subrange(start as int, start + i),
            decreases frames - i,
        {
            samples.push(main[start + i]);
            i += 1;
            assert(samples@ =~= before + main@.subrange(start as int, start + i));
        }
        channel += 1;
    }
    samples
}

/// A block's samples are as many as its channels have frames, and those of
/// each channel stand in order.
pub proof fn law_block_samples_hold_every_channel<V>(
    main: Seq<V>,
    max_frames: int,
    channels: int,
    frames: int,
    channel: int,
    frame: int,
)
    requires
        0 <= channel < channels,
        0 <= frame < frames <= max_frames,
        main.len() == max_frames * channels,
    ensures
        block_samples(main, max_frames, channels, frames).len() == frames * channels,
        0 <= frames * channel + frame < frames * channels,
        block_samples(main, max_frames, channels, frames)[frames * channel + frame]
            == main[max_frames * channel + frame],
{
    lemma_block_samples(main, max_frames, channels, channels, frames, channel, frame);
}

proof fn lemma_block_samples<V>(
    main: Seq<V>,
    max_frames: int,
    all: int,
    channels: int,
    frames: int,
    channel: int,
    frame: int,
)
    requires
        0 <= channels <= all,
        0 <= frame < frames <= max_frames,
        main.len() == max_frames * all,
    ensures
        block_samples(main, max_frames, channels, frames).len() == frames * channels,
        0 <= channel < channels ==> 0 <= frames * channel + frame < frames * channels
            && block_samples(main, max_frames, channels, frames)[frames * channel + frame]
            == main[max_frames * channel + frame],
    decreases channels,
{
    if channels > 0 {
        lemma_block_samples(main, max_frames, all, channels - 1, frames, channel, frame);
        assert(0 <= max_frames * (channels - 1) && max_frames * (channels - 1) + max_frames
            <= max_frames * all) by (nonlinear_arith)
            requires
                1 <= channels <= all,
                0 < max_frames,
        ;
        assert(frames * (channels - 1) + frames == frames * channels) by (nonlinear_arith);
        if 0 <= channel < channels {
            assert(0 <= frames * channel && frames * channel + frames <= frames * channels)
                by (nonlinear_arith)
                requires
                    0 <= channel < channels,
                    0 < frames,
            ;
        }
    } else {
        assert(frames * 0 == 0);
    }
}

// ---------------------------------------------------------------------
// Stream negotiation
// ---------------------------------------------------------------------

/// The sample formats that matter.
#[derive(Debug, Clone, Copy, PartialEq, Eq, Structural)]
pub enum SampleFormat {
    /// 32-bit floating point.
    Float,
    /// 16-bit signed.
    I16,
    /// 16-bit unsigned.
    U16,
    Other,
}

/// One range of output configurations that a device supports.
#[derive(Debug, Clone, Copy)]
pub struct OutputRange {
    pub channels: u16,
    pub format: SampleFormat,
    pub min_rate: u32,
    pub max_rate: u32,
    /// The range of buffer sizes, where the device tells.
    pub buffer: Option<(u32, u32)>,
}

/// The preference of a format, the lower the better.
pub open spec fn rank(format: SampleFormat) -> Option<int> {
    match format {
        SampleFormat::Float => Some(0int),
        SampleFormat::I16 => Some(1int),
        SampleFormat::U16 => Some(2int),
        SampleFormat::Other => None,
    }
}

/// Whether a range can be used: stereo, in a known format.
pub open spec fn is_usable(range: OutputRange) -> bool {
    range.channels == 2 && rank(range.format) is Some
}

/// A value held within a range.
pub open spec fn held(value: u32, min: u32, max: u32) -> u32 {
    if value < min {
        min
    } else if value > max {
        max
    } else {
        value
    }
}

/// Whether a range is one: its ends in order, with at least one frame.
pub open spec fn is_sound(range: OutputRange) -> bool {
    &&& range.min_rate <= range.max_rate
    &&& range.buffer matches Some((min, max)) ==> min <= max && 1 <= max
}

/// The buffer size nearest the request.
pub open spec fn held_frames(range: OutputRange, frames: u32) -> u32 {
    match range.buffer {
        Some((min, max)) => held(
            frames,
            if min < 1 {
                1
            } else {
                min
            },
            max,
        ),
        None => frames,
    }
}

/// How far two numbers lie apart.
pub open spec fn gap(a: u32, b: u32) -> int {
    if a < b {
        b - a
    } else {
        a - b
    }
}

/// How far the rate that a range gives lies from the request.
pub open spec fn rate_gap(range: OutputRange, config: EngineConfig) -> int {
    gap(held(config.sample_rate, range.min_rate, range.max_rate), config.sample_rate)
}

/// How far the buffer size that a range gives lies from the request.
pub open spec fn frames_gap(range: OutputRange, config: EngineConfig) -> int {
    gap(held_frames(range, config.buffer_frames), config.buffer_frames)
}

/// Whether a usable range suits a request better than another: by its
/// format, in the same format by its rate, at the same rate by its buffer
/// size.
pub open spec fn suits_better(a: OutputRange, b: OutputRange, config: EngineConfig) -> bool {
    let (ra, rb) = (rank(a.format)->0, rank(b.format)->0);
    ||| ra < rb
    ||| ra == rb && rate_gap(a, config) < rate_gap(b, config)
    ||| ra == rb && rate_gap(a, config) == rate_gap(b, config) && frames_gap(a, config)
        < frames_gap(b, config)
}

/// The usable range that suits a request best, the first of several; -1
/// where there is none.
pub open spec fn best_range(ranges: Seq<OutputRange>, config: EngineConfig) -> int
    decreases ranges.len(),
{
    if ranges.len() == 0 {
        -1
    } else {
        let best = best_range(ranges.drop_last(), config);
        let last = ranges.last();
        if is_usable(last) && (best < 0 || suits_better(last, ranges[best], config)) {
            ranges.len() - 1
        } else {
            best
        }
    }
}

/// A negotiated configuration.
#[derive(Debug, Clone, Copy, PartialEq, Eq, Structural)]
pub struct Negotiated {
    pub format: SampleFormat,
    pub sample_rate: u32,
    pub buffer_frames: u32,
}

fn clamp(value: u32, min: u32, max: u32) -> (r: u32)
    ensures
        r == held(value, min, max),
{
    if value < min {
        min
    } else if value > max {
        max
    } else {
        value
    }
}

fn rank_of(format: SampleFormat) -> (r: Option<u8>)
    ensures
        r is Some == rank(format) is Some,
        r matches Some(k) ==> rank(format) == Some(k as int),
{
    match format {
        SampleFormat::Float => Some(0),
        SampleFormat::I16 => Some(1),
        SampleFormat::U16 => Some(2),
        SampleFormat::Other => None,
    }
}

fn distance(a: u32, b: u32) -> (n: u32)
    ensures
        n == gap(a, b),
{
    if a < b {
        b - a
    } else {
        a - b
    }
}

fn frames_of(range: &OutputRange, frames: u32) -> (n: u32)
    ensures
        n == held_frames(*range, frames),
{
    match range.buffer {
        Some((min, max)) => {
            let low: u32 = if min < 1 {
                1
            } else {
                min
            };
            clamp(frames, low, max)
        },
        None => frames,
    }
}

fn is_better(a: &OutputRange, b: &OutputRange, config: EngineConfig) -> (r: bool)
    requires
        is_usable(*a),
        is_usable(*b),
    ensures
        r == suits_better(*a, *b, config),
{
    if let (Some(ra), Some(rb)) = (rank_of(a.format), rank_of(b.format)) {
        if ra != rb {
            return ra < rb;
        }
    }
    let rate: u32 = config.sample_rate;
    let a_rate: u32 = distance(clamp(rate, a.min_rate, a.max_rate), rate);
    let b_rate: u32 = distance(clamp(rate, b.min_rate, b.max_rate), rate);
    if a_rate != b_rate {
        return a_rate < b_rate;
    }
    let frames: u32 = config.buffer_frames;
    distance(frames_of(a, frames), frames) < distance(frames_of(b, frames), frames)
}

proof fn lemma_best_range(ranges: Seq<OutputRange>, config: EngineConfig)
    ensures
        -1 <= best_range(ranges, config) < ranges.len(),
        best_range(ranges, config) >= 0 ==> is_usable(ranges[best_range(ranges, config)]),
        best_range(ranges, config) < 0 ==> forall|i: int|
            0 <= i < ranges.len() ==> !is_usable(#[trigger] ranges[i]),
        forall|i: int|
            0 <= i < ranges.len() && is_usable(#[trigger] ranges[i]) ==> !suits_better(
                ranges[i],
                ranges[best_range(ranges, config)],
                config,
            ),
    decreases ranges.len(),
{
    if ranges.len() > 0 {
        let rest = ranges.drop_last();
        lemma_best_range(rest, config);
        assert forall|i: int| 0 <= i < rest.len() implies rest[i] == #[trigger] ranges[i] by {}
        assert forall|i: int|
            0 <= i < ranges.len() && is_usable(#[trigger] ranges[i]) implies !suits_better(
            ranges[i],
            ranges[best_range(ranges, config)],
            config,
        ) by {
            if i < rest.len() {
                assert(is_usable(rest[i]));
            }
        }
        if best_range(ranges, config) < 0 {
            assert forall|i: int| 0 <= i < ranges.len() implies !is_usable(
                #[trigger] ranges[i],
            ) by {
                if i < rest.len() {
                    assert(!is_usable(rest[i]));
                }
            }
        }
    }
}

/// The best format of all that are usable is the one chosen.
pub proof fn law_negotiation_prefers_the_best_format(
    ranges: Seq<OutputRange>,
    config: EngineConfig,
    i: int,
)
    requires
        0 <= i < ranges.len(),
        is_usable(ranges[i]),
    ensures
        best_range(ranges, config) >= 0,
        rank(ranges[best_range(ranges, config)].format)->0 <= rank(ranges[i].format)->0,
{
    lemma_best_range(ranges, config);
}

/// Among the ranges of the chosen format none lies closer to the requested
/// rate, and none at the same rate closer to the requested buffer size.
pub proof fn law_negotiation_comes_closest(
    ranges: Seq<OutputRange>,
    config: EngineConfig,
    i: int,
)
    requires
        0 <= i < ranges.len(),
        is_usable(ranges[i]),
        ranges[i].format == ranges[best_range(ranges, config)].format,
    ensures
        ({
            let best = ranges[best_range(ranges, config)];
            &&& rate_gap(best, config) <= rate_gap(ranges[i], config)
            &&& rate_gap(best, config) == rate_gap(ranges[i], config) ==> frames_gap(best, config)
                <= frames_gap(ranges[i], config)
        }),
{
    lemma_best_range(ranges, config);
}

/// Picks a supported stereo output configuration closest to the request.
/// Prefers floating point, falls back to 16-bit.
pub fn negotiate(ranges: &Vec<OutputRange>, config: EngineConfig) -> (r: Result<
    Negotiated,
    AudioError,
>)
    requires
        forall|i: int|
            0 <= i < ranges@.len() && is_usable(#[trigger] ranges@[i]) ==> is_sound(ranges@[i]),
    ensures
        match r {
            Ok(n) => {
                let best = best_range(ranges@, config);
                &&& best >= 0
                &&& n.format == ranges@[best].format
                &&& n.sample_rate == held(
                    config.sample_rate,
                    ranges@[best].min_rate,
                    ranges@[best].max_rate,
                )
                &&& n.buffer_frames == held_frames(ranges@[best], config.buffer_frames)
            },
            Err(e) => best_range(ranges@, config) < 0 && e == AudioError::NoStereoConfig,
        },
{
    let mut best: Option<usize> = None;
    let mut i: usize = 0;
    while i < ranges.len()
        invariant
            i <= ranges@.len(),
            match best {
                Some(b) => b < i && best_range(ranges@.take(i as int), config) == b && is_usable(
                    ranges@[b as int],
                ),
                None => best_range(ranges@.take(i as int), config) < 0,
            },
        decreases ranges@.len() - i,
    {
        proof {
            let next = ranges@.take(i + 1);
            assert(next.drop_last() =~= ranges@.take(i as int));
            assert(next.last() == ranges@[i as int]);
            if let Some(b) = best {
                assert(next[b as int] == ranges@[b as int]);
            }
            lemma_best_range(ranges@.take(i as int), config);
        }
        if ranges[i].channels == 2 && rank_of(ranges[i].format).is_some() {
            let better: bool = match best {
                Some(b) => is_better(&ranges[i], &ranges[b], config),
                None => true,
            };
            if better {
                best = Some(i);
            }
        }
        i += 1;
    }
    assert(ranges@.take(i as int) =~= ranges@);
    match best {
        None => Err(AudioError::NoStereoConfig),
        Some(b) => {
            let range = ranges[b];
            Ok(
                Negotiated {
                    format: range.format,
                    sample_rate: clamp(config.sample_rate, range.min_rate, range.max_rate),
                    buffer_frames: frames_of(&range, config.buffer_frames),
                },
            )
        },
    }
}

// ---------------------------------------------------------------------
// Callback bookkeeping
// ---------------------------------------------------------------------

/// Audio-callback health counters.
#[derive(Debug, Clone, Copy, PartialEq, Eq, Structural)]
pub struct AudioStats {
    /// Number of processed blocks.
    pub callbacks: u64,
    /// Number of blocks whose wall time exceeded their frame budget.
    pub overruns: u64,
    /// Worst block duration seen, in nanoseconds.
    pub max_callback_ns: u64,
    /// Backend stream errors.
    pub stream_errors: u64,
    /// Smallest block the backend delivered, in frames (0 = none yet).
    pub min_frames: u64,
    /// Largest block the backend delivered, in frames.
    pub max_frames: u64,
    /// Total wall time spent processing, in nanoseconds.
    pub busy_ns: u64,
    /// Total frame-time budget of all processed blocks, in nanoseconds.
    /// busy/budget is the load.
    pub budget_ns: u64,
}

/// The time that frames last at a rate, in nanoseconds.
pub open spec fn budget(frames: u64, sample_rate: u64) -> int {
    (frames * 1_000_000_000) / sample_rate as int
}

/// The greater of two counts.
pub open spec fn greater(a: u64, b: u64) -> u64 {
    if a < b {
        b
    } else {
        a
    }
}

impl Default for AudioStats {
    fn default() -> (stats: Self)
        ensures
            stats == (AudioStats {
                callbacks: 0,
                overruns: 0,
                max_callback_ns: 0,
                stream_errors: 0,
                min_frames: 0,
                max_frames: 0,
                busy_ns: 0,
                budget_ns: 0,
            }),
    {
        AudioStats {
            callbacks: 0,
            overruns: 0,
            max_callback_ns: 0,
            stream_errors: 0,
            min_frames: 0,
            max_frames: 0,
            busy_ns: 0,
            budget_ns: 0,
        }
    }
}

fn greater_of(a: u64, b: u64) -> (r: u64)
    ensures
        r == greater(a, b),
{
    if a < b {
        b
    } else {
        a
    }
}

impl AudioStats {
    /// Counts one processed block. Counters that reach their end start
    /// over.
    pub fn count_block(&mut self, frames: u64, elapsed_ns: u64, sample_rate: u64)
        requires
            sample_rate > 0,
            frames * 1_000_000_000 <= u64::MAX,
        ensures
            *final(self) == (AudioStats {
                callbacks: old(self).callbacks.wrapping_add(1),
                overruns: if elapsed_ns > budget(frames, sample_rate) {
                    old(self).overruns.wrapping_add(1)
                } else {
                    old(self).overruns
                },
                max_callback_ns: greater(old(self).max_callback_ns, elapsed_ns),
                stream_errors: old(self).stream_errors,
                min_frames: if old(self).min_frames == 0 || frames < old(self).min_frames {
                    frames
                } else {
                    old(self).min_frames
                },
                max_frames: greater(old(self).max_frames, frames),
                busy_ns: old(self).busy_ns.wrapping_add(elapsed_ns),
                budget_ns: old(self).budget_ns.wrapping_add(budget(frames, sample_rate) as u64),
            }),
    {
        let budget_ns: u64 = frames * 1_000_000_000 / sample_rate;
        self.callbacks = self.callbacks.wrapping_add(1);
        self.max_callback_ns = greater_of(self.max_callback_ns, elapsed_ns);
        if elapsed_ns > budget_ns {
            self.overruns = self.overruns.wrapping_add(1);
        }
        self.busy_ns = self.busy_ns.wrapping_add(elapsed_ns);
        self.budget_ns = self.budget_ns.wrapping_add(budget_ns);
        self.max_frames = greater_of(self.max_frames, frames);
        if self.min_frames == 0 || frames < self.min_frames {
            self.min_frames = frames;
        }
    }
}

/// The loop slots' engines in the audio callback.
pub struct SlotTable<E> {
    slots: Vec<Option<E>>,
}

impl<E> View for SlotTable<E> {
    type V = Seq<Option<E>>;

    closed spec fn view(&self) -> Seq<Option<E>> {
        self.slots@
    }
}

impl<E> SlotTable<E> {
    /// A table of empty slots.
    pub fn new(count: usize) -> (table: Self)
        ensures
            table@ == Seq::new(count as nat, |i: int| None::<E>),
    {
        let mut slots: Vec<Option<E>> = Vec::new();
        let mut i: usize = 0;
        while i < count
            invariant
                i <= count,
                slots@ == Seq::new(i as nat, |j: int| None::<E>),
            decreases count - i,
        {
            slots.push(None);
            assert(slots@ =~= Seq::new((i + 1) as nat, |j: int| None::<E>));
            i += 1;
        }
        SlotTable { slots }
    }

    /// Installs an engine; returns the one it replaces. A slot past the
    /// last one counts as the last.
    pub fn install(&mut self, slot: usize, engine: E) -> (old_engine: Option<E>)
        requires
            old(self)@.len() > 0,
        ensures
            ({
                let at = if slot < old(self)@.len() {
                    slot as int
                } else {
                    old(self)@.len() - 1
                };
                &&& final(self)@ == old(self)@.update(at, Some(engine))
                &&& old_engine == old(self)@[at]
            }),
    {
        let at: usize = if slot < self.slots.len() {
            slot
        } else {
            self.slots.len() - 1
        };
        let mut entry: Option<E> = Some(engine);
        self.slots.set_and_swap(at, &mut entry);
        entry
    }

    /// Takes an engine out of its slot, if there is one.
    pub fn remove(&mut self, slot: usize) -> (engine: Option<E>)
        ensures
            if slot < old(self)@.len() {
                final(self)@ == old(self)@.update(slot as int, None) && engine == old(
                    self,
                )@[slot as int]
            } else {
                final(self)@ == old(self)@ && engine is None
            },
    {
        if slot < self.slots.len() {
            let mut entry: Option<E> = None;
            self.slots.set_and_swap(slot, &mut entry);
            entry
        } else {
            None
        }
    }

    /// The number of slots.
    pub fn len(&self) -> (n: usize)
        ensures
            n == self@.len(),
    {
        self.slots.len()
    }

    /// The engine of a slot, if there is one, to be looked at.
    pub fn get(&self, slot: usize) -> (engine: Option<&E>)
        ensures
            engine is Some == (slot < self@.len() && self@[slot as int] is Some),
            engine matches Some(e) ==> *e == self@[slot as int]->0,
    {
        if slot < self.slots.len() {
            match &self.slots[slot] {
                Some(e) => Some(e),
                None => None,
            }
        } else {
            None
        }
    }

    /// The engine of a slot, if there is one.
    pub fn get_mut(&mut self, slot: usize) -> (engine: Option<&mut E>)
        ensures
            engine is Some == (slot < old(self)@.len() && old(self)@[slot as int] is Some),
            engine matches Some(e) ==> {
                &&& *e == old(self)@[slot as int]->0
                &&& final(self)@ == old(self)@.update(slot as int, Some(*final(e)))
            },
            engine is None ==> final(self)@ == old(self)@,
    {
        if slot < self.slots.len() {
            match &mut self.slots[slot] {
                Some(e) => Some(e),
                None => None,
            }
        } else {
            None
        }
    }
}

// ---------------------------------------------------------------------
// Laws
// ---------------------------------------------------------------------

/// A layout has the ports that the plugin describes, in order, each with its
/// channels; a port that it says nothing of leaves no trace.
pub proof fn law_layouts_hold_the_described_ports(
    ports: Seq<Option<PortInfo>>,
    info: PortInfo,
    i: int,
)
    ensures
        described_ports(Seq::empty()).len() == 0,
        described_ports(ports.push(Some(info))) == described_ports(ports).push(info),
        described_ports(ports.push(None)) == described_ports(ports),
        0 <= i < described_ports(ports).len() && described_ports(ports)[i].channel_count
            <= u16::MAX ==> channel_counts(described_ports(ports))[i] == described_ports(
            ports,
        )[i].channel_count,
        channel_counts(described_ports(ports)).len() == described_ports(ports).len(),
{
    assert(ports.push(Some(info)).drop_last() =~= ports);
    assert(ports.push(None).drop_last() =~= ports);
}

/// The number of channels of all ports is that of the first ones and that
/// of the last.
pub proof fn law_channels_add_up(channels: Seq<u16>, more: u16)
    ensures
        channel_sum(Seq::empty()) == 0,
        channel_sum(channels.push(more)) == channel_sum(channels) + more,
{
    assert(channels.push(more).drop_last() =~= channels);
}

/// A block is mixed as far as it was asked for, as the buffer has room for
/// pairs of samples and as a mono port has samples, and no less.
pub proof fn law_blocks_are_mixed_whole(max_frames: int, channels: u16, frames: int, room: int)
    requires
        0 <= frames && 0 <= room && 0 <= max_frames,
    ensures
        ({
            let n = mixed_frames(max_frames, channels, frames, room);
            &&& 0 <= n <= frames && 2 * n <= room
            &&& channels == 1 ==> n <= max_frames
            &&& n == frames || 2 * (n + 1) > room || (channels == 1 && n == max_frames)
        }),
{
}

/// The live plugin's block takes the place of what was there: its left
/// channel on the left and its right on the right, a mono port on both.
/// Where it failed there is silence.
pub proof fn law_the_live_block_comes_first<V>(
    live: Option<Rendered<V>>,
    frames: int,
    silence: V,
    mix: Seq<V>,
    i: int,
)
    requires
        0 <= i < frames,
        2 * frames <= mix.len(),
        live matches Some(r) ==> 1 <= r.channels && frames <= r.plan.max_frames,
    ensures
        ({
            let out = live_mix(live, frames, silence, mix);
            &&& out.len() == mix.len()
            &&& live matches Some(r) ==> {
                &&& out[2 * i] == r.samples@[i]
                &&& r.channels == 1 ==> out[2 * i + 1] == r.samples@[i]
                &&& r.channels >= 2 ==> out[2 * i + 1] == r.samples@[r.plan.max_frames + i]
            }
            &&& live is None ==> out[2 * i] == silence && out[2 * i + 1] == silence
            &&& forall|k: int| 2 * frames <= k < mix.len() ==> #[trigger] out[k] == mix[k]
        }),
{
    if let Some(r) = live {
        assert(r.frames_in(frames, mix.len() as int) == frames);
        assert((2 * i) / 2 == i && (2 * i) % 2 == 0);
        assert((2 * i + 1) / 2 == i && (2 * i + 1) % 2 == 1);
    }
}

/// A slot's block is added to what is there, sample by sample: its left
/// channel to the left and its right to the right, a mono port to both. A
/// slot that rendered nothing changes nothing.
pub proof fn law_slots_are_added_on_top<V, F: Fn(V, V) -> V>(
    slots: Seq<Option<Rendered<V>>>,
    frames: int,
    add: F,
    mixes: Seq<Seq<V>>,
    k: int,
    i: int,
)
    requires
        adds_up(slots, frames, add, mixes),
        0 <= k < slots.len(),
        0 <= i < frames,
        2 * frames <= mixes[k].len(),
        slots[k] matches Some(r) ==> 1 <= r.channels && frames <= r.plan.max_frames,
    ensures
        slots[k] is None ==> mixes[k + 1] == mixes[k],
        slots[k] matches Some(r) ==> {
            let (before, after) = (mixes[k], mixes[k + 1]);
            &&& after.len() == before.len()
            &&& call_ensures(add, (before[2 * i], r.samples@[i]), after[2 * i])
            &&& r.channels == 1 ==> call_ensures(
                add,
                (before[2 * i + 1], r.samples@[i]),
                after[2 * i + 1],
            )
            &&& r.channels >= 2 ==> call_ensures(
                add,
                (before[2 * i + 1], r.samples@[r.plan.max_frames + i]),
                after[2 * i + 1],
            )
        },
{
    if let Some(r) = slots[k] {
        assert(r.is_added(frames, add, mixes[k], mixes[k + 1]));
        assert(r.frames_in(frames, mixes[k].len() as int) == frames);
    }
}

/// Stereo in floating point is preferred to signed and that to unsigned 16
/// bits; nothing else is used.
pub proof fn law_formats_are_preferred_in_order(range: OutputRange)
    ensures
        is_usable(range) <==> range.channels == 2 && range.format != SampleFormat::Other,
        rank(SampleFormat::Float)->0 < rank(SampleFormat::I16)->0,
        rank(SampleFormat::I16)->0 < rank(SampleFormat::U16)->0,
        rank(range.format) is None <==> range.format == SampleFormat::Other,
{
}

/// A range gives the rate and the buffer size that were asked for wherever
/// it has them, and else the nearest it has; a buffer has at least one
/// frame.
pub proof fn law_a_range_gives_the_nearest(
    range: OutputRange,
    config: EngineConfig,
    rate: u32,
    frames: u32,
)
    requires
        is_sound(range),
        range.min_rate <= rate <= range.max_rate,
        range.buffer matches Some((min, max)) ==> min <= frames <= max && 1 <= frames,
    ensures
        ({
            let (given, asked) = (
                held(config.sample_rate, range.min_rate, range.max_rate),
                config.sample_rate,
            );
            let distance = if given < asked {
                asked - given
            } else {
                given - asked
            };
            &&& range.min_rate <= given <= range.max_rate
            &&& distance <= (if rate < asked {
                asked - rate
            } else {
                rate - asked
            })
            &&& rate_gap(range, config) == distance
        }),
        ({
            let (given, asked) = (
                held_frames(range, config.buffer_frames),
                config.buffer_frames,
            );
            let distance = if given < asked {
                asked - given
            } else {
                given - asked
            };
            &&& range.buffer is None ==> given == asked
            &&& range.buffer matches Some((min, max)) ==> min <= given <= max && 1 <= given
                && distance <= (if frames < asked {
                asked - frames
            } else {
                frames - asked
            })
            &&& frames_gap(range, config) == distance
        }),
{
}

/// A configuration is found exactly where some range is stereo in a known
/// format, and it is one of those.
pub proof fn law_negotiation_finds_what_there_is(ranges: Seq<OutputRange>, config: EngineConfig)
    ensures
        best_range(ranges, config) >= 0 <==> exists|i: int|
            0 <= i < ranges.len() && (#[trigger] ranges[i]).channels == 2 && ranges[i].format
                != SampleFormat::Other,
        best_range(ranges, config) >= 0 ==> {
            let best = ranges[best_range(ranges, config)];
            best.channels == 2 && best.format != SampleFormat::Other
        },
{
    lemma_best_range(ranges, config);
    if exists|i: int|
        0 <= i < ranges.len() && (#[trigger] ranges[i]).channels == 2 && ranges[i].format
            != SampleFormat::Other {
        let i = choose|i: int|
            0 <= i < ranges.len() && (#[trigger] ranges[i]).channels == 2 && ranges[i].format
                != SampleFormat::Other;
        assert(is_usable(ranges[i]));
    }
}

/// The budget of a block is the time that its frames last, in whole
/// nanoseconds.
pub proof fn law_a_budget_is_the_time_of_its_frames(frames: u64, sample_rate: u64)
    requires
        sample_rate > 0,
    ensures
        budget(frames, sample_rate) * sample_rate <= frames * 1_000_000_000,
        frames * 1_000_000_000 < (budget(frames, sample_rate) + 1) * sample_rate,
        greater(frames, sample_rate) >= frames && greater(frames, sample_rate) >= sample_rate,
        greater(frames, sample_rate) == frames || greater(frames, sample_rate) == sample_rate,
{
    let (n, d) = (frames * 1_000_000_000, sample_rate as int);
    vstd::arithmetic::div_mod::lemma_fundamental_div_mod(n, d);
    assert(d * (n / d) == (n / d) * d) by (nonlinear_arith);
    assert((n / d + 1) * d == (n / d) * d + d) by (nonlinear_arith);
}

} // verus!
