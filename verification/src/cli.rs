//! The command lines of the application and of its debug tool: what the
//! arguments ask for, and the lines that are printed.

use vstd::prelude::*;

use crate::engine::audio::EngineConfig;
use crate::gui::Boot;
use crate::library::{Filter, FilterView, PresetRow, RowView};
use crate::midi::capture::hex_char;
use crate::midi::event::{MidiMessage, TimedMessage, TimedView};
use crate::midi::ports::name_matches;
use crate::text::{
    decimal_text, join2, join3, parse_decimal, parse_signed, push_left_aligned,
    push_right_aligned, quote, same, signed_text, trim,
};
use crate::time::{Duration, Instant};

verus! {

/// The name that the MIDI backend shows for us.
pub const CLIENT_NAME: &'static str = "benchlab";

/// The plugin that presets are scanned for where none is named.
pub const DEFAULT_PLUGIN: &'static str = "Surge XT";

/// The part of a port's name that is monitored where none is given.
pub const MONITOR_MATCH: &'static str = "minilab";

/// How the application is called.
pub const APP_USAGE: &'static str = "Zoog [--plugin MATCH] [--mapping FILE] [--arturia-mode]
         [--rate HZ] [--frames N] [--mock-device] [--stub-engine]
";

/// How the debug tool is called.
pub const USAGE: &'static str = "labctl: benchlab debug CLI

USAGE:
    labctl ports
        List all MIDI input and output ports.

    labctl monitor [--match SUBSTR] [--capture FILE]
        Connect to the controller (default match: \"minilab\",
        case-insensitive) and print every incoming message, raw hex and
        decoded. Waits and reconnects when the device is missing. With
        --capture, messages are also written to FILE in the capture format;
        typing a line of text + Enter inserts it as a '# marker' comment.
        Ctrl-C to stop.

    labctl display LINE1 [LINE2]
        Send the init handshake, then show two lines of text on the device
        display. DAW mode only.

    labctl pad <1-8|all> R G B
        Set a pad's temporary color (bank A IDs, DAW-mode message).
        Components are 0-127.

    labctl plugins
        Scan the CLAP search paths and list every plugin found.

    labctl play [--plugin MATCH] [--rate HZ] [--frames N]
        Load a CLAP plugin (default match: \"surge\"), connect the
        controller's notes to it, and play. Prints callback stats every 5
        seconds. Ctrl-C to stop.
";

/// How the debug tool's preset commands are called.
pub const PRESETS_USAGE: &'static str = "labctl presets subcommands:
    scan [--plugin MATCH]         discover and index the plugin's presets
    list [--category C] [--favorites]
    search QUERY
    categories
    load <ID|NAME>                load into a fresh instance (headless check)
    favorite <ID> [on|off]
";

/// What the debug tool is asked to do.
#[derive(Debug, PartialEq, Eq)]
pub enum Command {
    Ports,
    Monitor,
    Display,
    Pad,
    Plugins,
    Play,
    Presets,
    /// Print the usage and succeed.
    Help,
    /// Nothing was asked: print the usage and fail.
    Nothing,
    Unknown(String),
}

/// What a first argument asks for.
pub open spec fn command_of(args: Seq<Seq<char>>) -> CommandView {
    if args.len() == 0 {
        CommandView::Nothing
    } else if args[0] == "ports"@ {
        CommandView::Ports
    } else if args[0] == "monitor"@ {
        CommandView::Monitor
    } else if args[0] == "display"@ {
        CommandView::Display
    } else if args[0] == "pad"@ {
        CommandView::Pad
    } else if args[0] == "plugins"@ {
        CommandView::Plugins
    } else if args[0] == "play"@ {
        CommandView::Play
    } else if args[0] == "presets"@ {
        CommandView::Presets
    } else if args[0] == "--help"@ || args[0] == "-h"@ || args[0] == "help"@ {
        CommandView::Help
    } else {
        CommandView::Unknown(args[0])
    }
}

/// What a [`Command`] says.
pub enum CommandView {
    Ports,
    Monitor,
    Display,
    Pad,
    Plugins,
    Play,
    Presets,
    Help,
    Nothing,
    Unknown(Seq<char>),
}

impl View for Command {
    type V = CommandView;

    open spec fn view(&self) -> CommandView {
        match *self {
            Command::Ports => CommandView::Ports,
            Command::Monitor => CommandView::Monitor,
            Command::Display => CommandView::Display,
            Command::Pad => CommandView::Pad,
            Command::Plugins => CommandView::Plugins,
            Command::Play => CommandView::Play,
            Command::Presets => CommandView::Presets,
            Command::Help => CommandView::Help,
            Command::Nothing => CommandView::Nothing,
            Command::Unknown(word) => CommandView::Unknown(word@),
        }
    }
}

/// What the debug tool is asked to do.
pub fn parse_command(args: &Vec<String>) -> (command: Command)
    ensures
        command@ == command_of(crate::text::texts(args@)),
{
    if args.len() == 0 {
        return Command::Nothing;
    }
    assert(crate::text::texts(args@)[0] == args@[0]@);
    let word: &str = args[0].as_str();
    if same(word, "ports") {
        Command::Ports
    } else if same(word, "monitor") {
        Command::Monitor
    } else if same(word, "display") {
        Command::Display
    } else if same(word, "pad") {
        Command::Pad
    } else if same(word, "plugins") {
        Command::Plugins
    } else if same(word, "play") {
        Command::Play
    } else if same(word, "presets") {
        Command::Presets
    } else if same(word, "--help") || same(word, "-h") || same(word, "help") {
        Command::Help
    } else {
        Command::Unknown(args[0].clone())
    }
}

/// The complaint about an argument that is not understood.
pub open spec fn unknown_words(arg: Seq<char>) -> Seq<char> {
    "unknown argument "@ + crate::text::quoted(arg)
}

fn unknown(arg: &str) -> (text: String)
    ensures
        text@ == unknown_words(arg@),
{
    join2("unknown argument ", quote(arg).as_str())
}

// ---------------------------------------------------------------------
// monitor
// ---------------------------------------------------------------------

/// The arguments of `monitor`.
#[derive(Debug)]
pub struct MonitorArgs {
    pub matcher: String,
    pub capture_path: Option<String>,
}

/// What [`MonitorArgs`] say.
pub struct MonitorView {
    pub matcher: Seq<char>,
    pub capture_path: Option<Seq<char>>,
}

impl View for MonitorArgs {
    type V = MonitorView;

    open spec fn view(&self) -> MonitorView {
        MonitorView {
            matcher: self.matcher@,
            capture_path: crate::text::opt_text(self.capture_path),
        }
    }
}

/// What the arguments from an index on make of `so_far`.
pub open spec fn monitor_args(args: Seq<Seq<char>>, from: int, so_far: MonitorView) -> Result<
    MonitorView,
    Seq<char>,
>
    decreases args.len() - from,
{
    if from >= args.len() {
        Ok(so_far)
    } else if args[from] == "--match"@ {
        if from + 1 < args.len() {
            monitor_args(args, from + 2, MonitorView { matcher: args[from + 1], ..so_far })
        } else {
            Err("--match needs a value"@)
        }
    } else if args[from] == "--capture"@ {
        if from + 1 < args.len() {
            monitor_args(
                args,
                from + 2,
                MonitorView { capture_path: Some(args[from + 1]), ..so_far },
            )
        } else {
            Err("--capture needs a value"@)
        }
    } else {
        Err(unknown_words(args[from]))
    }
}

/// Reads the arguments of `monitor`.
#[verifier::loop_isolation(false)]
pub fn parse_monitor_args(args: &Vec<String>) -> (r: Result<MonitorArgs, String>)
    ensures
        ({
            let wanted = monitor_args(
                crate::text::texts(args@),
                0,
                MonitorView { matcher: MONITOR_MATCH@, capture_path: None },
            );
            match r {
                Ok(parsed) => wanted == Ok::<MonitorView, Seq<char>>(parsed@),
                Err(e) => wanted == Err::<MonitorView, Seq<char>>(e@),
            }
        }),
{
    let ghost texts = crate::text::texts(args@);
    let mut out = MonitorArgs { matcher: MONITOR_MATCH.to_owned(), capture_path: None };
    let ghost wanted = monitor_args(texts, 0, out@);
    let n: usize = args.len();
    let mut i: usize = 0;
    while i < n
        invariant
            i <= n,
            n == args@.len(),
            texts == crate::text::texts(args@),
            wanted == monitor_args(texts, i as int, out@),
        decreases n - i,
    {
        assert(texts[i as int] == args@[i as int]@);
        let arg: &str = args[i].as_str();
        if same(arg, "--match") {
            if n - i < 2 {
                return Err("--match needs a value".to_owned());
            }
            assert(texts[i + 1] == args@[i + 1]@);
            out.matcher = args[i + 1].clone();
        } else if same(arg, "--capture") {
            if n - i < 2 {
                return Err("--capture needs a value".to_owned());
            }
            assert(texts[i + 1] == args@[i + 1]@);
            out.capture_path = Some(args[i + 1].clone());
        } else {
            return Err(unknown(arg));
        }
        i += 2;
    }
    Ok(out)
}

/// A line typed while monitoring: its text without the space around it,
/// where there is any.
pub fn marker_text(line: &str) -> (marker: Option<String>)
    ensures
        crate::text::opt_text(marker) == if crate::text::trimmed(line@).len() > 0 {
            Some(crate::text::trimmed(line@))
        } else {
            None
        },
{
    let text = trim(line);
    proof {
        reveal_strlit("");
        if text@.len() == 0 {
            assert(text@ =~= ""@);
        }
    }
    if same(text.as_str(), "") {
        None
    } else {
        Some(text)
    }
}

/// Whether one of the input ports matches.
pub fn port_still_present(inputs: &Vec<String>, matcher: &str) -> (r: bool)
    ensures
        r == exists|i: int|
            0 <= i < inputs@.len() && crate::midi::ports::matches_name(
                (#[trigger] inputs@[i])@,
                matcher@,
            ),
{
    let mut i: usize = 0;
    while i < inputs.len()
        invariant
            i <= inputs@.len(),
            forall|j: int|
                0 <= j < i ==> !crate::midi::ports::matches_name(
                    (#[trigger] inputs@[j])@,
                    matcher@,
                ),
        decreases inputs@.len() - i,
    {
        if name_matches(inputs[i].as_str(), matcher) {
            return true;
        }
        i += 1;
    }
    false
}

/// Bytes in hexadecimal with one space between them.
pub open spec fn spaced_hex(bytes: Seq<u8>) -> Seq<char> {
    if bytes.len() == 0 {
        Seq::empty()
    } else {
        crate::midi::capture::hex_bytes(bytes).drop_first()
    }
}

/// What monitoring has to do next.
#[derive(Debug, Clone, Copy, PartialEq, Eq, Structural)]
pub enum MonitorStep {
    /// Try to open the port.
    Open,
    /// Wait for a message of the device for a moment.
    Receive,
    /// Look whether the port is still there.
    Probe,
}

/// Nanoseconds between two looks for the port; a look is expensive.
pub const PROBE_NANOS: u64 = 2_000_000_000;

/// Nanoseconds before a port that could not be opened is tried again.
pub const RETRY_NANOS: u64 = 1_000_000_000;

/// Monitoring across disconnections: when the port was last looked for,
/// where it is open.
#[derive(Debug, Clone, Copy, PartialEq, Eq, Structural)]
pub struct Monitor {
    pub last_probe: Option<Instant>,
}

/// The step of a monitor at `now`.
pub open spec fn monitor_step(monitor: Monitor, now: Instant) -> MonitorStep {
    match monitor.last_probe {
        None => MonitorStep::Open,
        Some(last) => if crate::time::nanos_between(last, now) >= PROBE_NANOS {
            MonitorStep::Probe
        } else {
            MonitorStep::Receive
        },
    }
}

impl Monitor {
    /// Waiting for the port.
    pub fn new() -> (monitor: Self)
        ensures
            monitor == (Monitor { last_probe: None }),
    {
        Monitor { last_probe: None }
    }

    /// What to do at `now`.
    pub fn next(&mut self, now: Instant) -> (step: MonitorStep)
        ensures
            step == monitor_step(*old(self), now),
            *final(self) == if step == MonitorStep::Probe {
                Monitor { last_probe: Some(now) }
            } else {
                *old(self)
            },
    {
        match self.last_probe {
            None => MonitorStep::Open,
            Some(last) => if now.duration_since(last).nanos >= PROBE_NANOS {
                self.last_probe = Some(now);
                MonitorStep::Probe
            } else {
                MonitorStep::Receive
            },
        }
    }

    /// How opening the port went; how long to wait before the next try
    /// where it failed.
    pub fn on_opened(&mut self, opened: bool, now: Instant) -> (wait: Option<Duration>)
        ensures
            *final(self) == if opened {
                Monitor { last_probe: Some(now) }
            } else {
                Monitor { last_probe: None }
            },
            wait == if opened {
                None
            } else {
                Some(Duration { nanos: RETRY_NANOS })
            },
    {
        if opened {
            self.last_probe = Some(now);
            None
        } else {
            self.last_probe = None;
            Some(Duration { nanos: RETRY_NANOS })
        }
    }

    /// Whether the port was still there; true where the device is lost and
    /// has to be opened again.
    pub fn on_probed(&mut self, present: bool) -> (lost: bool)
        ensures
            lost == !present,
            *final(self) == if present {
                *old(self)
            } else {
                Monitor { last_probe: None }
            },
    {
        if !present {
            self.last_probe = None;
        }
        !present
    }
}

/// A port that is gone is waited for, and one that is there is left open
/// and not looked for again too soon.
pub proof fn law_monitor_follows_the_port(monitor: Monitor, now: Instant, later: Instant)
    requires
        monitor_step(monitor, now) == MonitorStep::Probe,
    ensures
        monitor_step(Monitor { last_probe: None }, later) == MonitorStep::Open,
        crate::time::nanos_between(now, later) < PROBE_NANOS ==> monitor_step(
            Monitor { last_probe: Some(now) },
            later,
        ) == MonitorStep::Receive,
{
}

/// The line that `monitor` prints for a message.
pub open spec fn message_words(message: TimedView) -> Seq<char> {
    "["@ + crate::text::right_aligned(crate::text::decimal(message.timestamp_us as nat), 12)
        + "] "@ + crate::text::left_aligned(spaced_hex(message.bytes), 24) + " "@
        + crate::midi::event::described(crate::midi::event::decoded(message.bytes))
}

fn hex_text(bytes: &Vec<u8>) -> (text: String)
    ensures
        text@ == spaced_hex(bytes@),
{
    let mut text = "".to_owned();
    proof {
        reveal_strlit("");
    }
    assert(text@ =~= Seq::<char>::empty());
    let mut i: usize = 0;
    while i < bytes.len()
        invariant
            i <= bytes@.len(),
            text@ == spaced_hex(bytes@.take(i as int)),
        decreases bytes@.len() - i,
    {
        let byte: u8 = bytes[i];
        let ghost prior = text@;
        let ghost next = bytes@.take(i + 1);
        assert(next.drop_last() =~= bytes@.take(i as int));
        if i > 0 {
            text.push(' ');
        }
        text.push(hex_char(byte / 16));
        text.push(hex_char(byte % 16));
        proof {
            let front = crate::midi::capture::hex_bytes(next.drop_last());
            let whole = crate::midi::capture::hex_bytes(next);
            assert(whole == front + seq![' '] + crate::midi::capture::hex_byte(byte));
            if i > 0 {
                assert(next.drop_last().len() > 0);
                assert(front.len() >= 3) by {
                    let f = next.drop_last();
                    assert(front == crate::midi::capture::hex_bytes(f.drop_last()) + seq![' ']
                        + crate::midi::capture::hex_byte(f.last()));
                }
                assert(text@ =~= whole.drop_first());
            } else {
                assert(front =~= Seq::<char>::empty());
                assert(text@ =~= whole.drop_first());
            }
        }
        i += 1;
    }
    assert(bytes@.take(i as int) =~= bytes@);
    text
}

/// The line that `monitor` prints for a message: time, bytes, meaning.
pub fn message_line(message: &TimedMessage) -> (text: String)
    ensures
        text@ == message_words(message@),
{
    let mut text = "[".to_owned();
    push_right_aligned(&mut text, decimal_text(message.timestamp_us).as_str(), 12);
    text.append("] ");
    push_left_aligned(&mut text, hex_text(&message.bytes).as_str(), 24);
    text.append(" ");
    text.append(MidiMessage::decode(message.bytes.as_slice()).describe().as_str());
    text
}

// ---------------------------------------------------------------------
// play
// ---------------------------------------------------------------------

/// The arguments of `play`.
#[derive(Debug)]
pub struct PlayArgs {
    pub plugin: String,
    pub config: EngineConfig,
}

/// What [`PlayArgs`] say.
pub struct PlayView {
    pub plugin: Seq<char>,
    pub config: EngineConfig,
}

impl View for PlayArgs {
    type V = PlayView;

    open spec fn view(&self) -> PlayView {
        PlayView { plugin: self.plugin@, config: self.config }
    }
}

/// What the arguments from an index on make of `so_far`.
pub open spec fn play_args(args: Seq<Seq<char>>, from: int, so_far: PlayView) -> Result<
    PlayView,
    Seq<char>,
>
    decreases args.len() - from,
{
    if from >= args.len() {
        Ok(so_far)
    } else if args[from] == "--plugin"@ {
        if from + 1 < args.len() {
            play_args(args, from + 2, PlayView { plugin: args[from + 1], ..so_far })
        } else {
            Err("--plugin needs a value"@)
        }
    } else if args[from] == "--rate"@ {
        if from + 1 < args.len() {
            match crate::text::parsed_number(args[from + 1], 10, u32::MAX as nat) {
                Some(n) => play_args(
                    args,
                    from + 2,
                    PlayView {
                        config: EngineConfig { sample_rate: n as u32, ..so_far.config },
                        ..so_far
                    },
                ),
                None => Err("--rate must be a number"@),
            }
        } else {
            Err("--rate needs a value"@)
        }
    } else if args[from] == "--frames"@ {
        if from + 1 < args.len() {
            match crate::text::parsed_number(args[from + 1], 10, u32::MAX as nat) {
                Some(n) => play_args(
                    args,
                    from + 2,
                    PlayView {
                        config: EngineConfig { buffer_frames: n as u32, ..so_far.config },
                        ..so_far
                    },
                ),
                None => Err("--frames must be a number"@),
            }
        } else {
            Err("--frames needs a value"@)
        }
    } else {
        Err(unknown_words(args[from]))
    }
}

/// Reads the arguments of `play`.
#[verifier::loop_isolation(false)]
pub fn parse_play_args(args: &Vec<String>) -> (r: Result<PlayArgs, String>)
    ensures
        ({
            let wanted = play_args(
                crate::text::texts(args@),
                0,
                PlayView {
                    plugin: "surge"@,
                    config: EngineConfig { sample_rate: 48_000, buffer_frames: 256 },
                },
            );
            match r {
                Ok(parsed) => wanted == Ok::<PlayView, Seq<char>>(parsed@),
                Err(e) => wanted == Err::<PlayView, Seq<char>>(e@),
            }
        }),
{
    let ghost texts = crate::text::texts(args@);
    let mut out = PlayArgs { plugin: "surge".to_owned(), config: EngineConfig::default() };
    let ghost wanted = play_args(texts, 0, out@);
    let n: usize = args.len();
    let mut i: usize = 0;
    while i < n
        invariant
            i <= n,
            n == args@.len(),
            texts == crate::text::texts(args@),
            wanted == play_args(texts, i as int, out@),
        decreases n - i,
    {
        assert(texts[i as int] == args@[i as int]@);
        let arg: &str = args[i].as_str();
        if same(arg, "--plugin") {
            if n - i < 2 {
                return Err("--plugin needs a value".to_owned());
            }
            assert(texts[i + 1] == args@[i + 1]@);
            out.plugin = args[i + 1].clone();
        } else if same(arg, "--rate") {
            if n - i < 2 {
                return Err("--rate needs a value".to_owned());
            }
            assert(texts[i + 1] == args@[i + 1]@);
            match parse_decimal(args[i + 1].as_str(), u32::MAX as u64) {
                Some(rate) => {
                    out.config.sample_rate = rate as u32;
                },
                None => return Err("--rate must be a number".to_owned()),
            }
        } else if same(arg, "--frames") {
            if n - i < 2 {
                return Err("--frames needs a value".to_owned());
            }
            assert(texts[i + 1] == args@[i + 1]@);
            match parse_decimal(args[i + 1].as_str(), u32::MAX as u64) {
                Some(frames) => {
                    out.config.buffer_frames = frames as u32;
                },
                None => return Err("--frames must be a number".to_owned()),
            }
        } else {
            return Err(unknown(arg));
        }
        i += 2;
    }
    Ok(out)
}

// ---------------------------------------------------------------------
// The application
// ---------------------------------------------------------------------

/// What the application's arguments ask for.
#[derive(Debug)]
pub enum BootChoice {
    Run(Boot),
    /// Print the usage.
    Help,
    /// Print a complaint and fail.
    Refuse(String),
}

/// What a [`Boot`] says.
pub struct BootView {
    pub plugin_match: Seq<char>,
    pub mapping_path: Option<Seq<char>>,
    pub arturia_mode: bool,
    pub sample_rate: u32,
    pub buffer_frames: u32,
    pub mock_device: bool,
    pub stub_engine: bool,
}

/// What a [`Boot`] says.
pub open spec fn boot_view(boot: Boot) -> BootView {
    BootView {
        plugin_match: boot.plugin_match@,
        mapping_path: crate::text::opt_text(boot.mapping_path),
        arturia_mode: boot.arturia_mode,
        sample_rate: boot.sample_rate,
        buffer_frames: boot.buffer_frames,
        mock_device: boot.mock_device,
        stub_engine: boot.stub_engine,
    }
}

/// What a [`BootChoice`] says.
pub enum ChoiceView {
    Run(BootView),
    Help,
    Refuse(Seq<char>),
}

impl View for BootChoice {
    type V = ChoiceView;

    open spec fn view(&self) -> ChoiceView {
        match *self {
            BootChoice::Run(boot) => ChoiceView::Run(boot_view(boot)),
            BootChoice::Help => ChoiceView::Help,
            BootChoice::Refuse(text) => ChoiceView::Refuse(text@),
        }
    }
}

/// The complaint about an argument without its value.
pub open spec fn needs_value(name: Seq<char>) -> ChoiceView {
    ChoiceView::Refuse(name + " needs a value\n"@ + APP_USAGE@)
}

/// What the arguments from an index on make of `so_far`.
pub open spec fn boot_args(args: Seq<Seq<char>>, from: int, so_far: BootView) -> ChoiceView
    decreases args.len() - from,
{
    if from >= args.len() {
        ChoiceView::Run(so_far)
    } else if args[from] == "--plugin"@ {
        if from + 1 < args.len() {
            boot_args(args, from + 2, BootView { plugin_match: args[from + 1], ..so_far })
        } else {
            needs_value("--plugin"@)
        }
    } else if args[from] == "--mapping"@ {
        if from + 1 < args.len() {
            boot_args(args, from + 2, BootView { mapping_path: Some(args[from + 1]), ..so_far })
        } else {
            needs_value("--mapping"@)
        }
    } else if args[from] == "--arturia-mode"@ {
        boot_args(args, from + 1, BootView { arturia_mode: true, ..so_far })
    } else if args[from] == "--rate"@ {
        if from + 1 < args.len() {
            match crate::text::parsed_number(args[from + 1], 10, u32::MAX as nat) {
                Some(n) => boot_args(
                    args,
                    from + 2,
                    BootView { sample_rate: n as u32, ..so_far },
                ),
                None => ChoiceView::Refuse("--rate must be a number"@),
            }
        } else {
            needs_value("--rate"@)
        }
    } else if args[from] == "--frames"@ {
        if from + 1 < args.len() {
            match crate::text::parsed_number(args[from + 1], 10, u32::MAX as nat) {
                Some(n) => boot_args(
                    args,
                    from + 2,
                    BootView { buffer_frames: n as u32, ..so_far },
                ),
                None => ChoiceView::Refuse("--frames must be a number"@),
            }
        } else {
            needs_value("--frames"@)
        }
    } else if args[from] == "--mock-device"@ {
        boot_args(args, from + 1, BootView { mock_device: true, ..so_far })
    } else if args[from] == "--stub-engine"@ {
        boot_args(args, from + 1, BootView { stub_engine: true, ..so_far })
    } else if args[from] == "--help"@ || args[from] == "-h"@ {
        ChoiceView::Help
    } else {
        ChoiceView::Refuse(unknown_words(args[from]) + "\n"@ + APP_USAGE@)
    }
}

fn refuse_missing(name: &str) -> (choice: BootChoice)
    ensures
        choice@ == needs_value(name@),
{
    BootChoice::Refuse(join3(name, " needs a value\n", APP_USAGE))
}

/// Reads the application's arguments.
#[verifier::loop_isolation(false)]
pub fn parse_boot_args(args: &Vec<String>) -> (choice: BootChoice)
    ensures
        choice@ == boot_args(
            crate::text::texts(args@),
            0,
            BootView {
                plugin_match: "Surge XT"@,
                mapping_path: None,
                arturia_mode: false,
                sample_rate: 48_000,
                buffer_frames: 256,
                mock_device: false,
                stub_engine: false,
            },
        ),
{
    let ghost texts = crate::text::texts(args@);
    let mut boot = Boot::default();
    let ghost wanted = boot_args(texts, 0, boot_view(boot));
    let n: usize = args.len();
    let mut i: usize = 0;
    while i < n
        invariant
            i <= n,
            n == args@.len(),
            texts == crate::text::texts(args@),
            wanted == boot_args(texts, i as int, boot_view(boot)),
        decreases n - i,
    {
        assert(texts[i as int] == args@[i as int]@);
        let arg: &str = args[i].as_str();
        let last: bool = n - i < 2;
        assert(!last ==> texts[i + 1] == args@[i + 1]@);
        if same(arg, "--plugin") {
            if last {
                return refuse_missing("--plugin");
            }
            boot.plugin_match = args[i + 1].clone();
            i += 2;
        } else if same(arg, "--mapping") {
            if last {
                return refuse_missing("--mapping");
            }
            boot.mapping_path = Some(args[i + 1].clone());
            i += 2;
        } else if same(arg, "--arturia-mode") {
            boot.arturia_mode = true;
            i += 1;
        } else if same(arg, "--rate") {
            if last {
                return refuse_missing("--rate");
            }
            match parse_decimal(args[i + 1].as_str(), u32::MAX as u64) {
                Some(rate) => {
                    boot.sample_rate = rate as u32;
                },
                None => return BootChoice::Refuse("--rate must be a number".to_owned()),
            }
            i += 2;
        } else if same(arg, "--frames") {
            if last {
                return refuse_missing("--frames");
            }
            match parse_decimal(args[i + 1].as_str(), u32::MAX as u64) {
                Some(frames) => {
                    boot.buffer_frames = frames as u32;
                },
                None => return BootChoice::Refuse("--frames must be a number".to_owned()),
            }
            i += 2;
        } else if same(arg, "--mock-device") {
            boot.mock_device = true;
            i += 1;
        } else if same(arg, "--stub-engine") {
            boot.stub_engine = true;
            i += 1;
        } else if same(arg, "--help") || same(arg, "-h") {
            return BootChoice::Help;
        } else {
            return BootChoice::Refuse(join3(unknown(arg).as_str(), "\n", APP_USAGE));
        }
    }
    BootChoice::Run(boot)
}

// ---------------------------------------------------------------------
// display and pad
// ---------------------------------------------------------------------

/// Reads the arguments of `display`: one line or two.
pub fn parse_display_args(args: &Vec<String>) -> (lines: Option<(String, String)>)
    ensures
        match lines {
            Some((one, two)) => {
                &&& 1 <= args@.len() <= 2
                &&& one@ == args@[0]@
                &&& two@ == if args@.len() == 2 {
                    args@[1]@
                } else {
                    ""@
                }
            },
            None => args@.len() == 0 || args@.len() > 2,
        },
{
    if args.len() == 1 {
        Some((args[0].clone(), "".to_owned()))
    } else if args.len() == 2 {
        Some((args[0].clone(), args[1].clone()))
    } else {
        None
    }
}

/// The arguments of `pad`.
#[derive(Debug)]
pub struct PadArgs {
    /// The pads to color, counted from 0.
    pub pads: Vec<u8>,
    pub r: u8,
    pub g: u8,
    pub b: u8,
}

/// A color component: 0 to 127.
pub open spec fn component(text: Seq<char>) -> Option<nat> {
    crate::text::parsed_number(text, 10, 127)
}

/// The pads that a text means: all of them, or one by its number.
pub open spec fn pads_of(text: Seq<char>) -> Option<Seq<u8>> {
    if text == "all"@ {
        Some(seq![0u8, 1u8, 2u8, 3u8, 4u8, 5u8, 6u8, 7u8])
    } else {
        match crate::text::parsed_number(text, 10, 8) {
            Some(n) => if n >= 1 {
                Some(seq![(n - 1) as u8])
            } else {
                None
            },
            None => None,
        }
    }
}

fn parse_pads(text: &str) -> (pads: Option<Vec<u8>>)
    ensures
        match pads {
            Some(list) => pads_of(text@) == Some(list@),
            None => pads_of(text@) is None,
        },
{
    let mut pads: Vec<u8> = Vec::new();
    if same(text, "all") {
        let mut i: u8 = 0;
        while i < 8
            invariant
                i <= 8,
                pads@ == Seq::new(i as nat, |k: int| k as u8),
            decreases 8 - i,
        {
            pads.push(i);
            assert(pads@ =~= Seq::new((i + 1) as nat, |k: int| k as u8));
            i += 1;
        }
        assert(pads@ =~= seq![0u8, 1u8, 2u8, 3u8, 4u8, 5u8, 6u8, 7u8]);
        return Some(pads);
    }
    match parse_decimal(text, 8) {
        Some(n) => {
            if n >= 1 {
                pads.push((n - 1) as u8);
                assert(pads@ =~= seq![(n - 1) as u8]);
                Some(pads)
            } else {
                None
            }
        },
        None => None,
    }
}

/// What is printed where the arguments of `pad` are not understood.
pub const PAD_USAGE: &'static str = "labctl pad: expected <1-8|all> R G B (components 0-127)";

/// Reads the arguments of `pad`: which pads, and the color.
pub fn parse_pad_args(args: &Vec<String>) -> (r: Option<PadArgs>)
    ensures
        match r {
            Some(p) => {
                &&& args@.len() == 4
                &&& pads_of(args@[0]@) == Some(p.pads@)
                &&& component(args@[1]@) == Some(p.r as nat)
                &&& component(args@[2]@) == Some(p.g as nat)
                &&& component(args@[3]@) == Some(p.b as nat)
            },
            None => args@.len() != 4 || pads_of(args@[0]@) is None || component(args@[1]@) is None
                || component(args@[2]@) is None || component(args@[3]@) is None,
        },
{
    if args.len() != 4 {
        return None;
    }
    let r = parse_decimal(args[1].as_str(), 127);
    let g = parse_decimal(args[2].as_str(), 127);
    let b = parse_decimal(args[3].as_str(), 127);
    match (parse_pads(args[0].as_str()), r, g, b) {
        (Some(pads), Some(r), Some(g), Some(b)) => Some(
            PadArgs { pads, r: r as u8, g: g as u8, b: b as u8 },
        ),
        _ => None,
    }
}

// ---------------------------------------------------------------------
// presets
// ---------------------------------------------------------------------

/// What `presets` is asked to do.
#[derive(Debug, Clone, Copy, PartialEq, Eq, Structural)]
pub enum PresetsCommand {
    Scan,
    List,
    Search,
    Categories,
    Load,
    Favorite,
    /// Print the usage and fail.
    Usage,
}

/// What a first argument of `presets` asks for.
pub fn parse_presets_command(args: &Vec<String>) -> (command: PresetsCommand)
    ensures
        command == if args@.len() == 0 {
            PresetsCommand::Usage
        } else if args@[0]@ == "scan"@ {
            PresetsCommand::Scan
        } else if args@[0]@ == "list"@ {
            PresetsCommand::List
        } else if args@[0]@ == "search"@ {
            PresetsCommand::Search
        } else if args@[0]@ == "categories"@ {
            PresetsCommand::Categories
        } else if args@[0]@ == "load"@ {
            PresetsCommand::Load
        } else if args@[0]@ == "favorite"@ {
            PresetsCommand::Favorite
        } else {
            PresetsCommand::Usage
        },
{
    if args.len() == 0 {
        return PresetsCommand::Usage;
    }
    let word: &str = args[0].as_str();
    if same(word, "scan") {
        PresetsCommand::Scan
    } else if same(word, "list") {
        PresetsCommand::List
    } else if same(word, "search") {
        PresetsCommand::Search
    } else if same(word, "categories") {
        PresetsCommand::Categories
    } else if same(word, "load") {
        PresetsCommand::Load
    } else if same(word, "favorite") {
        PresetsCommand::Favorite
    } else {
        PresetsCommand::Usage
    }
}

/// The plugin to scan presets for.
pub fn parse_scan_args(args: &Vec<String>) -> (r: Result<String, String>)
    ensures
        match r {
            Ok(plugin) => {
                ||| args@.len() == 0 && plugin@ == DEFAULT_PLUGIN@
                ||| args@.len() == 2 && args@[0]@ == "--plugin"@ && plugin@ == args@[1]@
            },
            Err(e) => {
                &&& e@ == "usage: labctl presets scan [--plugin MATCH]"@
                &&& args@.len() != 0
                &&& !(args@.len() == 2 && args@[0]@ == "--plugin"@)
            },
        },
{
    if args.len() == 0 {
        Ok(DEFAULT_PLUGIN.to_owned())
    } else if args.len() == 2 && same(args[0].as_str(), "--plugin") {
        Ok(args[1].clone())
    } else {
        Err("usage: labctl presets scan [--plugin MATCH]".to_owned())
    }
}

/// What the arguments of `presets list` from an index on make of `so_far`.
pub open spec fn list_args(args: Seq<Seq<char>>, from: int, so_far: FilterView) -> Result<
    FilterView,
    Seq<char>,
>
    decreases args.len() - from,
{
    if from >= args.len() {
        Ok(so_far)
    } else if args[from] == "--category"@ {
        if from + 1 < args.len() {
            list_args(args, from + 2, FilterView { category: Some(args[from + 1]), ..so_far })
        } else {
            Err("--category needs a value"@)
        }
    } else if args[from] == "--favorites"@ {
        list_args(args, from + 1, FilterView { favorites_only: true, ..so_far })
    } else {
        Err(unknown_words(args[from]))
    }
}

/// The filter that matches everything.
pub open spec fn everything() -> FilterView {
    FilterView { engine: None, query: None, category: None, favorites_only: false }
}

/// The presets to list.
#[verifier::loop_isolation(false)]
pub fn parse_list_args(args: &Vec<String>) -> (r: Result<Filter, String>)
    ensures
        ({
            let wanted = list_args(crate::text::texts(args@), 0, everything());
            match r {
                Ok(filter) => wanted == Ok::<FilterView, Seq<char>>(filter@),
                Err(e) => wanted == Err::<FilterView, Seq<char>>(e@),
            }
        }),
{
    let ghost texts = crate::text::texts(args@);
    let mut filter = Filter::of_engine(None);
    let ghost wanted = list_args(texts, 0, filter@);
    let n: usize = args.len();
    let mut i: usize = 0;
    while i < n
        invariant
            i <= n,
            n == args@.len(),
            texts == crate::text::texts(args@),
            wanted == list_args(texts, i as int, filter@),
        decreases n - i,
    {
        assert(texts[i as int] == args@[i as int]@);
        let arg: &str = args[i].as_str();
        if same(arg, "--category") {
            if n - i < 2 {
                return Err("--category needs a value".to_owned());
            }
            assert(texts[i + 1] == args@[i + 1]@);
            filter.category = Some(args[i + 1].clone());
            i += 2;
        } else if same(arg, "--favorites") {
            filter.favorites_only = true;
            i += 1;
        } else {
            return Err(unknown(arg));
        }
    }
    Ok(filter)
}

/// The presets whose name contains a text.
pub fn name_filter(query: &str) -> (filter: Filter)
    ensures
        filter@ == (FilterView { query: Some(query@), ..everything() }),
{
    Filter { engine: None, query: Some(query.to_owned()), category: None, favorites_only: false }
}

/// The presets to search for.
pub fn parse_search_args(args: &Vec<String>) -> (r: Result<Filter, String>)
    ensures
        match r {
            Ok(filter) => args@.len() == 1 && filter@ == (FilterView {
                query: Some(args@[0]@),
                ..everything()
            }),
            Err(e) => args@.len() != 1 && e@ == "usage: labctl presets search QUERY"@,
        },
{
    if args.len() == 1 {
        Ok(name_filter(args[0].as_str()))
    } else {
        Err("usage: labctl presets search QUERY".to_owned())
    }
}

/// The preset to load.
pub fn parse_load_args(args: &Vec<String>) -> (r: Result<String, String>)
    ensures
        match r {
            Ok(key) => args@.len() == 1 && key@ == args@[0]@,
            Err(e) => args@.len() != 1 && e@ == "usage: labctl presets load <ID|NAME>"@,
        },
{
    if args.len() == 1 {
        Ok(args[0].clone())
    } else {
        Err("usage: labctl presets load <ID|NAME>".to_owned())
    }
}

/// Whether the arguments of `presets favorite` make sense, and the flag.
pub open spec fn favorite_flag(args: Seq<Seq<char>>) -> Option<bool> {
    if args.len() == 1 {
        Some(true)
    } else if args.len() == 2 && args[1] == "on"@ {
        Some(true)
    } else if args.len() == 2 && args[1] == "off"@ {
        Some(false)
    } else {
        None
    }
}

/// The preset to flag, and the flag.
pub fn parse_favorite_args(args: &Vec<String>) -> (r: Result<(String, bool), String>)
    ensures
        match r {
            Ok((key, on)) => favorite_flag(crate::text::texts(args@)) == Some(on) && key@
                == args@[0]@,
            Err(e) => favorite_flag(crate::text::texts(args@)) is None && e@
                == "usage: labctl presets favorite <ID> [on|off]"@,
        },
{
    let ghost texts = crate::text::texts(args@);
    assert(args@.len() > 1 ==> texts[1] == args@[1]@);
    if args.len() == 1 {
        Ok((args[0].clone(), true))
    } else if args.len() == 2 && same(args[1].as_str(), "on") {
        Ok((args[0].clone(), true))
    } else if args.len() == 2 && same(args[1].as_str(), "off") {
        Ok((args[0].clone(), false))
    } else {
        Err("usage: labctl presets favorite <ID> [on|off]".to_owned())
    }
}

/// The id that a text spells, if it does.
pub fn preset_id(key: &str) -> (id: Option<i64>)
    ensures
        match id {
            Some(n) => crate::text::parsed_signed(key@) == Some(n as int),
            None => crate::text::parsed_signed(key@) is None,
        },
{
    parse_signed(key)
}

/// Picks the preset that a text means out of those whose name contains it:
/// there has to be exactly one.
pub fn pick_row(key: &str, rows: Vec<PresetRow>) -> (r: Result<PresetRow, String>)
    ensures
        match r {
            Ok(row) => rows@.len() == 1 && row == rows@[0],
            Err(e) => rows@.len() != 1 && e@ == if rows@.len() == 0 {
                "no preset matches "@ + crate::text::quoted(key@)
            } else {
                crate::text::decimal(rows@.len()) + " presets match "@ + crate::text::quoted(key@)
                    + "; use the ID"@
            },
        },
{
    let n: usize = rows.len();
    if n == 0 {
        Err(join2("no preset matches ", quote(key).as_str()))
    } else if n == 1 {
        let mut rows = rows;
        Ok(rows.remove(0))
    } else {
        let mut text = join3(
            decimal_text(n as u64).as_str(),
            " presets match ",
            quote(key).as_str(),
        );
        text.append("; use the ID");
        Err(text)
    }
}

/// The line that `presets` prints for a preset.
pub open spec fn row_words(row: RowView) -> Seq<char> {
    "  "@ + crate::text::right_aligned(crate::text::signed_decimal(row.id as int), 6) + "  "@
        + crate::text::left_aligned(row.name, 32) + " "@ + crate::text::left_aligned(
        match row.category {
            Some(category) => category,
            None => "-"@,
        },
        16,
    ) + " "@ + (if row.favorite {
        "* "@
    } else {
        ""@
    }) + (match row.path {
        Some(path) => path,
        None => ""@,
    })
}

/// The line that `presets` prints for a preset.
pub fn row_line(row: &PresetRow) -> (text: String)
    ensures
        text@ == row_words(row@),
{
    let mut text = "  ".to_owned();
    push_right_aligned(&mut text, signed_text(row.id).as_str(), 6);
    text.append("  ");
    push_left_aligned(&mut text, row.name.as_str(), 32);
    text.append(" ");
    let category: &str = match &row.category {
        Some(category) => category.as_str(),
        None => "-",
    };
    push_left_aligned(&mut text, category, 16);
    text.append(" ");
    text.append(
        if row.favorite {
            "* "
        } else {
            ""
        },
    );
    text.append(
        match &row.path {
            Some(path) => path.as_str(),
            None => "",
        },
    );
    text
}

// ---------------------------------------------------------------------
// Laws
// ---------------------------------------------------------------------

/// The first word says what the tool does; any other word is named back.
pub proof fn law_the_first_word_is_the_command(args: Seq<Seq<char>>)
    requires
        args.len() > 0,
    ensures
        args[0] == "ports"@ ==> command_of(args) is Ports,
        args[0] == "monitor"@ ==> command_of(args) is Monitor,
        args[0] == "display"@ ==> command_of(args) is Display,
        args[0] == "pad"@ ==> command_of(args) is Pad,
        args[0] == "plugins"@ ==> command_of(args) is Plugins,
        args[0] == "play"@ ==> command_of(args) is Play,
        args[0] == "presets"@ ==> command_of(args) is Presets,
        args[0] == "help"@ || args[0] == "--help"@ || args[0] == "-h"@ ==> command_of(args) is Help,
        command_of(args) matches CommandView::Unknown(word) ==> word == args[0],
        !(command_of(args) is Nothing),
        command_of(Seq::empty()) is Nothing,
{
    lemma_words_differ();
}

/// The words of the tools are different words.
proof fn lemma_words_differ()
    ensures
        "ports"@ != "monitor"@ && "ports"@ != "display"@ && "ports"@ != "pad"@,
        "ports"@ != "plugins"@ && "ports"@ != "play"@ && "ports"@ != "presets"@,
        "monitor"@ != "display"@ && "monitor"@ != "pad"@ && "monitor"@ != "plugins"@,
        "monitor"@ != "play"@ && "monitor"@ != "presets"@,
        "display"@ != "pad"@ && "display"@ != "plugins"@ && "display"@ != "play"@,
        "display"@ != "presets"@ && "pad"@ != "plugins"@ && "pad"@ != "play"@,
        "pad"@ != "presets"@ && "plugins"@ != "play"@ && "plugins"@ != "presets"@,
        "play"@ != "presets"@,
        "help"@ != "ports"@ && "help"@ != "monitor"@ && "help"@ != "display"@ && "help"@ != "pad"@,
        "help"@ != "plugins"@ && "help"@ != "play"@ && "help"@ != "presets"@,
        "--help"@ != "ports"@ && "--help"@ != "monitor"@ && "--help"@ != "display"@,
        "--help"@ != "pad"@ && "--help"@ != "plugins"@ && "--help"@ != "play"@,
        "--help"@ != "presets"@,
        "-h"@ != "ports"@ && "-h"@ != "monitor"@ && "-h"@ != "display"@ && "-h"@ != "pad"@,
        "-h"@ != "plugins"@ && "-h"@ != "play"@ && "-h"@ != "presets"@,
{
    reveal_strlit("ports");
    reveal_strlit("monitor");
    reveal_strlit("display");
    reveal_strlit("pad");
    reveal_strlit("plugins");
    reveal_strlit("play");
    reveal_strlit("presets");
    reveal_strlit("help");
    reveal_strlit("--help");
    reveal_strlit("-h");
    assert("ports"@.len() == 5);
    assert("monitor"@.len() == 7);
    assert("display"@.len() == 7);
    assert("pad"@.len() == 3);
    assert("plugins"@.len() == 7);
    assert("play"@.len() == 4);
    assert("presets"@.len() == 7);
    assert("help"@.len() == 4);
    assert("--help"@.len() == 6);
    assert("-h"@.len() == 2);
    assert("monitor"@[0] != "display"@[0]);
    assert("monitor"@[0] != "plugins"@[0]);
    assert("monitor"@[0] != "presets"@[0]);
    assert("display"@[0] != "plugins"@[0]);
    assert("display"@[0] != "presets"@[0]);
    assert("plugins"@[1] != "presets"@[1]);
    assert("play"@[0] != "help"@[0]);
}

/// The options of the tools and of the application are different words.
proof fn lemma_options_differ()
    ensures
        "--match"@ != "--capture"@,
        "--plugin"@ != "--rate"@ && "--plugin"@ != "--frames"@ && "--rate"@ != "--frames"@,
        "--plugin"@ != "--mapping"@ && "--plugin"@ != "--arturia-mode"@,
        "--plugin"@ != "--mock-device"@ && "--plugin"@ != "--stub-engine"@,
        "--mapping"@ != "--arturia-mode"@ && "--mapping"@ != "--rate"@,
        "--mapping"@ != "--frames"@ && "--mapping"@ != "--mock-device"@,
        "--mapping"@ != "--stub-engine"@ && "--arturia-mode"@ != "--rate"@,
        "--arturia-mode"@ != "--frames"@ && "--arturia-mode"@ != "--mock-device"@,
        "--arturia-mode"@ != "--stub-engine"@ && "--rate"@ != "--mock-device"@,
        "--rate"@ != "--stub-engine"@ && "--frames"@ != "--mock-device"@,
        "--frames"@ != "--stub-engine"@ && "--mock-device"@ != "--stub-engine"@,
        "--category"@ != "--favorites"@,
{
    reveal_strlit("--match");
    reveal_strlit("--capture");
    reveal_strlit("--plugin");
    reveal_strlit("--rate");
    reveal_strlit("--frames");
    reveal_strlit("--mapping");
    reveal_strlit("--arturia-mode");
    reveal_strlit("--mock-device");
    reveal_strlit("--stub-engine");
    reveal_strlit("--category");
    reveal_strlit("--favorites");
    assert("--match"@.len() == 7);
    assert("--capture"@.len() == 9);
    assert("--plugin"@.len() == 8);
    assert("--rate"@.len() == 6);
    assert("--frames"@.len() == 8);
    assert("--mapping"@.len() == 9);
    assert("--arturia-mode"@.len() == 14);
    assert("--mock-device"@.len() == 13);
    assert("--stub-engine"@.len() == 13);
    assert("--category"@.len() == 10);
    assert("--favorites"@.len() == 11);
    assert("--capture"@[2] != "--mapping"@[2]);
    assert("--plugin"@[2] != "--frames"@[2]);
    assert("--mock-device"@[2] != "--stub-engine"@[2]);
}

/// Each option of `monitor` sets what it is named after and leaves the rest;
/// of one given twice the last counts, and one without its value is refused.
pub proof fn law_monitor_options_set_what_they_name(
    args: Seq<Seq<char>>,
    from: int,
    so_far: MonitorView,
)
    requires
        0 <= from < args.len(),
    ensures
        ({
            let has_value = from + 1 < args.len();
            &&& args[from] == "--match"@ && has_value ==> monitor_args(args, from, so_far)
                == monitor_args(
                args,
                from + 2,
                MonitorView { matcher: args[from + 1], ..so_far },
            )
            &&& args[from] == "--capture"@ && has_value ==> monitor_args(args, from, so_far)
                == monitor_args(
                args,
                from + 2,
                MonitorView { capture_path: Some(args[from + 1]), ..so_far },
            )
            &&& args[from] == "--match"@ && !has_value ==> monitor_args(args, from, so_far)
                == Err::<MonitorView, Seq<char>>("--match needs a value"@)
            &&& args[from] == "--capture"@ && !has_value ==> monitor_args(args, from, so_far)
                == Err::<MonitorView, Seq<char>>("--capture needs a value"@)
            &&& args[from] != "--match"@ && args[from] != "--capture"@ ==> monitor_args(
                args,
                from,
                so_far,
            ) == Err::<MonitorView, Seq<char>>(
                "unknown argument "@ + crate::text::quoted(args[from]),
            )
        }),
        monitor_args(args, args.len() as int, so_far) == Ok::<MonitorView, Seq<char>>(so_far),
        MONITOR_MATCH@ == "minilab"@,
{
    lemma_options_differ();
}

/// Each option of `play` sets what it is named after and leaves the rest; a
/// number has to be one.
pub proof fn law_play_options_set_what_they_name(
    args: Seq<Seq<char>>,
    from: int,
    so_far: PlayView,
)
    requires
        0 <= from < args.len() - 1,
    ensures
        ({
            let number = crate::text::parsed_number(args[from + 1], 10, u32::MAX as nat);
            let config = so_far.config;
            &&& args[from] == "--plugin"@ ==> play_args(args, from, so_far) == play_args(
                args,
                from + 2,
                PlayView { plugin: args[from + 1], config },
            )
            &&& args[from] == "--rate"@ && number is Some ==> play_args(args, from, so_far)
                == play_args(
                args,
                from + 2,
                PlayView {
                    plugin: so_far.plugin,
                    config: EngineConfig {
                        sample_rate: number->0 as u32,
                        buffer_frames: config.buffer_frames,
                    },
                },
            )
            &&& args[from] == "--frames"@ && number is Some ==> play_args(args, from, so_far)
                == play_args(
                args,
                from + 2,
                PlayView {
                    plugin: so_far.plugin,
                    config: EngineConfig {
                        sample_rate: config.sample_rate,
                        buffer_frames: number->0 as u32,
                    },
                },
            )
            &&& args[from] == "--rate"@ && number is None ==> play_args(args, from, so_far)
                == Err::<PlayView, Seq<char>>("--rate must be a number"@)
            &&& args[from] == "--frames"@ && number is None ==> play_args(args, from, so_far)
                == Err::<PlayView, Seq<char>>("--frames must be a number"@)
        }),
        play_args(args, args.len() as int, so_far) == Ok::<PlayView, Seq<char>>(so_far),
{
    lemma_options_differ();
}

/// Each option of the application sets what it is named after and leaves the
/// rest; asking for help is answered, whatever follows.
pub proof fn law_boot_options_set_what_they_name(
    args: Seq<Seq<char>>,
    from: int,
    so_far: BootView,
)
    requires
        0 <= from < args.len() - 1,
    ensures
        ({
            let value = args[from + 1];
            let number = crate::text::parsed_number(value, 10, u32::MAX as nat);
            let now = boot_args(args, from, so_far);
            &&& args[from] == "--plugin"@ ==> now == boot_args(
                args,
                from + 2,
                BootView { plugin_match: value, ..so_far },
            )
            &&& args[from] == "--mapping"@ ==> now == boot_args(
                args,
                from + 2,
                BootView { mapping_path: Some(value), ..so_far },
            )
            &&& args[from] == "--rate"@ && number is Some ==> now == boot_args(
                args,
                from + 2,
                BootView { sample_rate: number->0 as u32, ..so_far },
            )
            &&& args[from] == "--frames"@ && number is Some ==> now == boot_args(
                args,
                from + 2,
                BootView { buffer_frames: number->0 as u32, ..so_far },
            )
            &&& args[from] == "--rate"@ && number is None ==> now == ChoiceView::Refuse(
                "--rate must be a number"@,
            )
            &&& args[from] == "--frames"@ && number is None ==> now == ChoiceView::Refuse(
                "--frames must be a number"@,
            )
            &&& args[from] == "--arturia-mode"@ ==> now == boot_args(
                args,
                from + 1,
                BootView { arturia_mode: true, ..so_far },
            )
            &&& args[from] == "--mock-device"@ ==> now == boot_args(
                args,
                from + 1,
                BootView { mock_device: true, ..so_far },
            )
            &&& args[from] == "--stub-engine"@ ==> now == boot_args(
                args,
                from + 1,
                BootView { stub_engine: true, ..so_far },
            )
        }),
        boot_args(args, args.len() as int, so_far) == ChoiceView::Run(so_far),
{
    lemma_options_differ();
}

/// Listing presets takes a category and the wish for favorites only.
pub proof fn law_list_options_set_what_they_name(
    args: Seq<Seq<char>>,
    from: int,
    so_far: FilterView,
)
    requires
        0 <= from < args.len(),
    ensures
        args[from] == "--category"@ && from + 1 < args.len() ==> list_args(args, from, so_far)
            == list_args(
            args,
            from + 2,
            FilterView {
                engine: so_far.engine,
                query: so_far.query,
                category: Some(args[from + 1]),
                favorites_only: so_far.favorites_only,
            },
        ),
        args[from] == "--favorites"@ ==> list_args(args, from, so_far) == list_args(
            args,
            from + 1,
            FilterView {
                engine: so_far.engine,
                query: so_far.query,
                category: so_far.category,
                favorites_only: true,
            },
        ),
        list_args(args, args.len() as int, so_far) == Ok::<FilterView, Seq<char>>(so_far),
        everything().engine is None && everything().query is None && everything().category is None
            && !everything().favorites_only,
{
    lemma_options_differ();
}

/// A preset is flagged with `on` or without a word, and unflagged with
/// `off`; anything else is not understood.
pub proof fn law_favorites_go_on_and_off(args: Seq<Seq<char>>)
    ensures
        args.len() == 1 ==> favorite_flag(args) == Some(true),
        args.len() == 2 && args[1] == "on"@ ==> favorite_flag(args) == Some(true),
        args.len() == 2 && args[1] == "off"@ ==> favorite_flag(args) == Some(false),
        args.len() == 0 || args.len() > 2 ==> favorite_flag(args) is None,
        args.len() == 2 && args[1] != "on"@ && args[1] != "off"@ ==> favorite_flag(args) is None,
{
    reveal_strlit("on");
    reveal_strlit("off");
    assert("on"@.len() != "off"@.len());
}

/// Pads are named 1 to 8, or all at once; a color component is a number from
/// 0 to 127.
pub proof fn law_pads_are_named_from_one(text: Seq<char>)
    ensures
        text == "all"@ ==> pads_of(text) == Some(
            seq![0u8, 1u8, 2u8, 3u8, 4u8, 5u8, 6u8, 7u8],
        ),
        text != "all"@ ==> match crate::text::parsed_number(text, 10, 8) {
            Some(n) => if n >= 1 {
                pads_of(text) == Some(seq![(n - 1) as u8])
            } else {
                pads_of(text) is None
            },
            None => pads_of(text) is None,
        },
        component(text) == crate::text::parsed_number(text, 10, 127),
{
}

/// A message is printed with its time, its bytes in hexadecimal and what it
/// says, in columns.
pub proof fn law_messages_are_printed_in_columns(message: TimedView)
    ensures
        message_words(message) == "["@ + crate::text::right_aligned(
            crate::text::decimal(message.timestamp_us as nat),
            12,
        ) + "] "@ + crate::text::left_aligned(spaced_hex(message.bytes), 24) + " "@
            + crate::midi::event::described(crate::midi::event::decoded(message.bytes)),
        message.bytes.len() > 0 ==> seq![' '] + spaced_hex(message.bytes)
            == crate::midi::capture::hex_bytes(message.bytes),
        message.bytes.len() == 0 ==> spaced_hex(message.bytes).len() == 0,
{
    if message.bytes.len() > 0 {
        crate::midi::capture::law_messages_are_written_in_hex(0, message.bytes, 0);
        assert(seq![' '] + spaced_hex(message.bytes) =~= crate::midi::capture::hex_bytes(
            message.bytes,
        ));
    }
}

/// A preset is printed with its id, name and category, a star where it is a
/// favorite, and its path.
pub proof fn law_presets_are_printed_in_columns(row: RowView)
    ensures
        row_words(row) == "  "@ + crate::text::right_aligned(
            crate::text::signed_decimal(row.id as int),
            6,
        ) + "  "@ + crate::text::left_aligned(row.name, 32) + " "@ + crate::text::left_aligned(
            if row.category is Some {
                row.category->0
            } else {
                "-"@
            },
            16,
        ) + " "@ + (if row.favorite {
            "* "@
        } else {
            ""@
        }) + (if row.path is Some {
            row.path->0
        } else {
            ""@
        }),
{
}

/// Monitoring opens the port first, looks for it every two seconds, and
/// listens in between.
pub proof fn law_monitoring_looks_for_the_port(monitor: Monitor, now: Instant)
    ensures
        monitor.last_probe is None ==> monitor_step(monitor, now) == MonitorStep::Open,
        monitor.last_probe matches Some(last) ==> (last.nanos <= now.nanos ==> monitor_step(
            monitor,
            now,
        ) == if now.nanos - last.nanos >= 2_000_000_000 {
            MonitorStep::Probe
        } else {
            MonitorStep::Receive
        }),
        RETRY_NANOS == 1_000_000_000,
{
}

} // verus!
