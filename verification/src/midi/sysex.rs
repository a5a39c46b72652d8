//! SysEx encoders for MiniLab 3 feedback (display text, pad colors, init).
//!
//! Every byte layout here is transcribed from community documentation.
//! Nothing undocumented is sent. Display text only works in DAW mode.

use vstd::prelude::*;

use crate::text::chars_of;

verus! {

/// Start byte, and the vendor and device prefix of every message.
pub open spec fn header() -> Seq<u8> {
    seq![0xF0u8, 0x00u8, 0x20u8, 0x6Bu8, 0x7Fu8, 0x42u8]
}

/// A complete message: the header, the payload, the end byte.
pub open spec fn framed(payload: Seq<u8>) -> Seq<u8> {
    header() + payload + seq![0xF7u8]
}

fn start() -> (message: Vec<u8>)
    ensures
        message@ == header(),
{
    let message: Vec<u8> = vec![0xF0, 0x00, 0x20, 0x6B, 0x7F, 0x42];
    assert(message@ =~= header());
    message
}

/// The payload of [`init`].
pub open spec fn init_payload() -> Seq<u8> {
    seq![0x02u8, 0x02u8, 0x40u8, 0x6Au8, 0x21u8]
}

/// Init / handshake. Only needed before display text; send once after
/// connecting.
pub fn init() -> (message: Vec<u8>)
    ensures
        message@ == framed(init_payload()),
{
    let mut message = start();
    message.push(0x02);
    message.push(0x02);
    message.push(0x40);
    message.push(0x6A);
    message.push(0x21);
    message.push(0xF7);
    assert(message@ =~= framed(init_payload()));
    message
}

/// Targets of the pad/button color message. Temporary pad colors revert
/// when the device redraws the pad; persistent ones survive bank/program
/// changes but not a power cycle.
#[derive(Debug, Clone, Copy, PartialEq, Eq, Structural)]
pub enum ColorTarget {
    ShiftButton,
    OctaveMinusButton,
    HoldButton,
    OctavePlusButton,
    /// Pad 0..=7 on bank A, temporary color.
    PadTemporary(u8),
    /// Pad 0..=7 on bank B, temporary color.
    PadBTemporary(u8),
    /// Pad 0..=7 on bank A, persistent color.
    PadPersistent(u8),
    /// Pad 0..=7 on bank B, persistent color.
    PadBPersistent(u8),
}

/// The ID byte of a target; a pad number counts modulo 8.
pub open spec fn target_id(target: ColorTarget) -> u8 {
    match target {
        ColorTarget::ShiftButton => 0x00,
        ColorTarget::OctaveMinusButton => 0x01,
        ColorTarget::HoldButton => 0x02,
        ColorTarget::OctavePlusButton => 0x03,
        ColorTarget::PadTemporary(pad) => (0x04 + pad % 8) as u8,
        ColorTarget::PadBTemporary(pad) => (0x14 + pad % 8) as u8,
        ColorTarget::PadPersistent(pad) => (0x34 + pad % 8) as u8,
        ColorTarget::PadBPersistent(pad) => (0x44 + pad % 8) as u8,
    }
}

/// Different targets have different IDs, counting pads modulo 8.
pub proof fn law_target_ids_differ(a: ColorTarget, b: ColorTarget)
    requires
        target_id(a) == target_id(b),
        a matches ColorTarget::PadTemporary(p) ==> p < 8,
        a matches ColorTarget::PadBTemporary(p) ==> p < 8,
        a matches ColorTarget::PadPersistent(p) ==> p < 8,
        a matches ColorTarget::PadBPersistent(p) ==> p < 8,
        b matches ColorTarget::PadTemporary(p) ==> p < 8,
        b matches ColorTarget::PadBTemporary(p) ==> p < 8,
        b matches ColorTarget::PadPersistent(p) ==> p < 8,
        b matches ColorTarget::PadBPersistent(p) ==> p < 8,
    ensures
        a == b,
{
}

impl ColorTarget {
    /// The target's ID byte.
    pub fn id(self) -> (id: u8)
        ensures
            id == target_id(self),
            id < 128,
    {
        match self {
            ColorTarget::ShiftButton => 0x00,
            ColorTarget::OctaveMinusButton => 0x01,
            ColorTarget::HoldButton => 0x02,
            ColorTarget::OctavePlusButton => 0x03,
            ColorTarget::PadTemporary(pad) => 0x04 + pad % 8,
            ColorTarget::PadBTemporary(pad) => 0x14 + pad % 8,
            ColorTarget::PadPersistent(pad) => 0x34 + pad % 8,
            ColorTarget::PadBPersistent(pad) => 0x44 + pad % 8,
        }
    }
}

/// The payload of [`pad_color`].
pub open spec fn color_payload(target: ColorTarget, r: u8, g: u8, b: u8) -> Seq<u8> {
    seq![
        0x02u8,
        0x02u8,
        0x16u8,
        target_id(target),
        (r % 128) as u8,
        (g % 128) as u8,
        (b % 128) as u8,
    ]
}

/// Pad/button color in DAW mode. Components are 7-bit; the higher bit is
/// cut off.
pub fn pad_color(target: ColorTarget, r: u8, g: u8, b: u8) -> (message: Vec<u8>)
    ensures
        message@ == framed(color_payload(target, r, g, b)),
{
    let mut message = start();
    message.push(0x02);
    message.push(0x02);
    message.push(0x16);
    message.push(target.id());
    message.push(r % 128);
    message.push(g % 128);
    message.push(b % 128);
    message.push(0xF7);
    assert(message@ =~= framed(color_payload(target, r, g, b)));
    message
}

/// One character as the display shows it: printable ASCII as it is,
/// anything else as a space.
pub open spec fn display_byte(c: char) -> u8 {
    if 0x20 <= c as u32 <= 0x7E {
        (c as u32) as u8
    } else {
        0x20
    }
}

/// A line as the display shows it.
pub open spec fn display_bytes(text: Seq<char>) -> Seq<u8> {
    text.map_values(|c: char| display_byte(c))
}

/// The payload of [`display_text`].
pub open spec fn display_payload(line1: Seq<char>, line2: Seq<char>) -> Seq<u8> {
    seq![0x04u8, 0x02u8, 0x60u8, 0x01u8] + display_bytes(line1) + seq![0x00u8, 0x02u8]
        + display_bytes(line2)
}

/// Two-line left-aligned display text (DAW mode only). Text is reduced to
/// printable ASCII; anything else becomes a space. No length limit is
/// documented; the display clips.
pub fn display_text(line1: &str, line2: &str) -> (message: Vec<u8>)
    ensures
        message@ == framed(display_payload(line1@, line2@)),
{
    let mut message = start();
    message.push(0x04);
    message.push(0x02);
    message.push(0x60);
    message.push(0x01);
    push_ascii(&mut message, line1);
    message.push(0x00);
    message.push(0x02);
    push_ascii(&mut message, line2);
    message.push(0xF7);
    assert(message@ =~= framed(display_payload(line1@, line2@)));
    message
}

fn push_ascii(message: &mut Vec<u8>, text: &str)
    ensures
        final(message)@ == old(message)@ + display_bytes(text@),
{
    let chars = chars_of(text);
    let mut i: usize = 0;
    while i < chars.len()
        invariant
            i <= chars@.len(),
            chars@ == text@,
            message@ == old(message)@ + display_bytes(text@.take(i as int)),
        decreases chars@.len() - i,
    {
        let n: u32 = chars[i] as u32;
        if 0x20 <= n && n <= 0x7E {
            message.push(n as u8);
        } else {
            message.push(0x20);
        }
        assert(display_bytes(text@.take(i + 1)) =~= display_bytes(text@.take(i as int)).push(
            display_byte(text@[i as int]),
        ));
        i += 1;
    }
    assert(text@.take(i as int) =~= text@);
}

/// Between the start byte and the end byte of every message stand 7-bit
/// data bytes only, whatever the texts and colors.
pub proof fn law_data_bytes_are_7bit(
    target: ColorTarget,
    r: u8,
    g: u8,
    b: u8,
    line1: Seq<char>,
    line2: Seq<char>,
)
    ensures
        forall|i: int|
            1 <= i < framed(init_payload()).len() - 1 ==> (#[trigger] framed(init_payload())[i])
                < 128,
        forall|i: int|
            1 <= i < framed(color_payload(target, r, g, b)).len() - 1 ==> (#[trigger] framed(
                color_payload(target, r, g, b),
            )[i]) < 128,
        forall|i: int|
            1 <= i < framed(display_payload(line1, line2)).len() - 1 ==> (#[trigger] framed(
                display_payload(line1, line2),
            )[i]) < 128,
{
    let message = framed(display_payload(line1, line2));
    assert forall|i: int| 1 <= i < message.len() - 1 implies (#[trigger] message[i]) < 128 by {
        let n = line1.len() as int;
        if 10 <= i < 10 + n {
            assert(message[i] == display_byte(line1[i - 10]));
        } else if 12 + n <= i {
            assert(message[i] == display_byte(line2[i - 12 - n]));
        }
    }
}

/// Every message decodes as one complete SysEx message.
pub proof fn law_messages_are_sysex(payload: Seq<u8>)
    ensures
        crate::midi::event::decoded(framed(payload)) == crate::midi::event::MidiView::SysEx(
            framed(payload),
        ),
{
    let message = framed(payload);
    assert(message[0] == 0xF0);
    assert(message.last() == 0xF7);
}

/// Both display lines can be read back from the message, in the
/// characters that the display has.
pub proof fn law_display_text_keeps_both_lines(line1: Seq<char>, line2: Seq<char>)
    ensures
        framed(display_payload(line1, line2)).subrange(10, 10 + line1.len() as int) == display_bytes(
            line1,
        ),
        framed(display_payload(line1, line2)).subrange(
            12 + line1.len() as int,
            12 + line1.len() as int + line2.len(),
        ) == display_bytes(line2),
        framed(display_payload(line1, line2)).len() == 13 + line1.len() + line2.len(),
{
    assert(framed(display_payload(line1, line2)).subrange(10, 10 + line1.len() as int) =~= display_bytes(
        line1,
    ));
    assert(framed(display_payload(line1, line2)).subrange(
        12 + line1.len() as int,
        12 + line1.len() as int + line2.len(),
    ) =~= display_bytes(line2));
}

/// A color message names its target and carries the color as it is: the
/// buttons are 0 to 3, the pads of bank A from 4 (for good from 0x34), those
/// of bank B from 0x14 (for good from 0x44).
pub proof fn law_colors_reach_their_target(target: ColorTarget, r: u8, g: u8, b: u8)
    requires
        r < 128 && g < 128 && b < 128,
    ensures
        ({
            let id: u8 = match target {
                ColorTarget::ShiftButton => 0,
                ColorTarget::OctaveMinusButton => 1,
                ColorTarget::HoldButton => 2,
                ColorTarget::OctavePlusButton => 3,
                ColorTarget::PadTemporary(pad) => (4 + pad % 8) as u8,
                ColorTarget::PadBTemporary(pad) => (20 + pad % 8) as u8,
                ColorTarget::PadPersistent(pad) => (52 + pad % 8) as u8,
                ColorTarget::PadBPersistent(pad) => (68 + pad % 8) as u8,
            };
            framed(color_payload(target, r, g, b)) == seq![
                0xF0u8,
                0x00u8,
                0x20u8,
                0x6Bu8,
                0x7Fu8,
                0x42u8,
                0x02u8,
                0x02u8,
                0x16u8,
                id,
                r,
                g,
                b,
                0xF7u8,
            ]
        }),
{
    let id = target_id(target);
    assert(framed(color_payload(target, r, g, b)) =~= seq![
        0xF0u8,
        0x00u8,
        0x20u8,
        0x6Bu8,
        0x7Fu8,
        0x42u8,
        0x02u8,
        0x02u8,
        0x16u8,
        id,
        r,
        g,
        b,
        0xF7u8,
    ]);
}

/// The handshake, and the frame that a display text stands in, byte for
/// byte.
pub proof fn law_messages_are_as_documented(line1: Seq<char>, line2: Seq<char>)
    ensures
        framed(init_payload()) == seq![
            0xF0u8,
            0x00u8,
            0x20u8,
            0x6Bu8,
            0x7Fu8,
            0x42u8,
            0x02u8,
            0x02u8,
            0x40u8,
            0x6Au8,
            0x21u8,
            0xF7u8,
        ],
        ({
            let message = framed(display_payload(line1, line2));
            let n = line1.len() as int;
            &&& message.take(10) == seq![
                0xF0u8,
                0x00u8,
                0x20u8,
                0x6Bu8,
                0x7Fu8,
                0x42u8,
                0x04u8,
                0x02u8,
                0x60u8,
                0x01u8,
            ]
            &&& message[10 + n] == 0x00 && message[11 + n] == 0x02
            &&& message.last() == 0xF7
        }),
{
    assert(framed(init_payload()) =~= seq![
        0xF0u8,
        0x00u8,
        0x20u8,
        0x6Bu8,
        0x7Fu8,
        0x42u8,
        0x02u8,
        0x02u8,
        0x40u8,
        0x6Au8,
        0x21u8,
        0xF7u8,
    ]);
    let message = framed(display_payload(line1, line2));
    assert(message.take(10) =~= seq![
        0xF0u8,
        0x00u8,
        0x20u8,
        0x6Bu8,
        0x7Fu8,
        0x42u8,
        0x04u8,
        0x02u8,
        0x60u8,
        0x01u8,
    ]);
}

/// The display shows printable ASCII as it is, and a space for anything
/// else, one character for one.
pub proof fn law_display_shows_ascii(text: Seq<char>, i: int)
    requires
        0 <= i < text.len(),
    ensures
        display_bytes(text).len() == text.len(),
        0x20 <= text[i] as u32 <= 0x7E ==> display_bytes(text)[i] == text[i] as u32,
        (text[i] as u32) < 0x20 || text[i] as u32 > 0x7E ==> display_bytes(text)[i] == 0x20,
{
}

} // verus!
