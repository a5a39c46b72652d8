//! Plain-text capture format for MIDI sessions.
//!
//! One message per line: `<timestamp_us> <hex bytes>`, e.g.
//! `123456 90 3C 64`. Lines starting with `#` are comments (used as section
//! markers during scripted captures). Blank lines are ignored. A capture is
//! replayed through [`MockDevice`](crate::midi::device::MockDevice).

use vstd::prelude::*;

use crate::midi::event::{TimedMessage, TimedView};
use crate::text::{
    chars_of, decimal_text, join2, parse_number, push_decimal, quote, slice_text, trim_bounds,
    white,
};

verus! {

/// One line of a capture.
#[derive(Debug, PartialEq, Eq)]
pub enum CaptureLine {
    Message(TimedMessage),
    Comment(String),
}

/// What a [`CaptureLine`] says.
pub enum CaptureView {
    Message(TimedView),
    Comment(Seq<char>),
}

impl View for CaptureLine {
    type V = CaptureView;

    open spec fn view(&self) -> CaptureView {
        match *self {
            CaptureLine::Message(m) => CaptureView::Message(m@),
            CaptureLine::Comment(text) => CaptureView::Comment(text@),
        }
    }
}

impl Clone for CaptureLine {
    fn clone(&self) -> (r: Self)
        ensures
            r@ == self@,
    {
        match self {
            CaptureLine::Message(m) => CaptureLine::Message(m.clone()),
            CaptureLine::Comment(text) => CaptureLine::Comment(text.clone()),
        }
    }
}

/// What a list of lines says.
pub open spec fn lines_view(lines: Seq<CaptureLine>) -> Seq<CaptureView> {
    lines.map_values(|line: CaptureLine| line@)
}

/// A line that is neither blank, a comment, nor a message.
#[derive(Debug)]
pub struct CaptureError {
    /// 1-based.
    pub line: usize,
    /// The line without the white space around it.
    pub content: String,
}

impl CaptureError {
    /// The error in words.
    pub fn message(&self) -> (text: String)
        ensures
            text@ == "capture line "@ + crate::text::decimal(self.line as nat) + ": cannot parse "@
                + crate::text::quoted(self.content@),
    {
        let mut text = join2("capture line ", decimal_text(self.line as u64).as_str());
        text.append(": cannot parse ");
        text.append(quote(self.content.as_str()).as_str());
        text
    }
}

// ---------------------------------------------------------------------
// Writing
// ---------------------------------------------------------------------

/// The character of one upper-case hexadecimal digit.
pub open spec fn hex_digit(d: int) -> char {
    if d < 10 {
        (0x30 + d) as char
    } else {
        (0x41 + d - 10) as char
    }
}

/// A byte as two hexadecimal digits.
pub open spec fn hex_byte(byte: u8) -> Seq<char> {
    seq![hex_digit(byte as int / 16), hex_digit(byte as int % 16)]
}

/// Bytes in hexadecimal, each after one space.
pub open spec fn hex_bytes(bytes: Seq<u8>) -> Seq<char>
    decreases bytes.len(),
{
    if bytes.len() == 0 {
        Seq::empty()
    } else {
        hex_bytes(bytes.drop_last()) + seq![' '] + hex_byte(bytes.last())
    }
}

/// A line without its line end.
pub open spec fn line_text(line: CaptureView) -> Seq<char> {
    match line {
        CaptureView::Comment(text) => seq!['#', ' '] + text,
        CaptureView::Message(m) => crate::text::decimal(m.timestamp_us as nat) + hex_bytes(m.bytes),
    }
}

/// The text of a capture.
pub open spec fn written(lines: Seq<CaptureView>) -> Seq<char>
    decreases lines.len(),
{
    if lines.len() == 0 {
        Seq::empty()
    } else {
        written(lines.drop_last()) + line_text(lines.last()).push('\n')
    }
}

pub(crate) fn hex_char(d: u8) -> (c: char)
    requires
        d < 16,
    ensures
        c == hex_digit(d as int),
{
    if d < 10 {
        (0x30 + d) as char
    } else {
        (0x41 + (d - 10)) as char
    }
}

/// Writes one line at the end of `out`.
pub fn write_line(out: &mut String, line: &CaptureLine)
    ensures
        final(out)@ == old(out)@ + line_text(line@).push('\n'),
{
    match line {
        CaptureLine::Comment(text) => {
            out.push('#');
            out.push(' ');
            out.append(text.as_str());
        },
        CaptureLine::Message(m) => {
            push_decimal(out, m.timestamp_us);
            let mut i: usize = 0;
            while i < m.bytes.len()
                invariant
                    i <= m.bytes@.len(),
                    out@ == old(out)@ + crate::text::decimal(m.timestamp_us as nat) + hex_bytes(
                        m.bytes@.take(i as int),
                    ),
                decreases m.bytes@.len() - i,
            {
                let byte: u8 = m.bytes[i];
                out.push(' ');
                out.push(hex_char(byte / 16));
                out.push(hex_char(byte % 16));
                proof {
                    let next = m.bytes@.take(i + 1);
                    assert(next.drop_last() =~= m.bytes@.take(i as int));
                    assert(hex_bytes(next) =~= hex_bytes(m.bytes@.take(i as int)).push(' ').push(
                        hex_digit(byte as int / 16),
                    ).push(hex_digit(byte as int % 16)));
                }
                i += 1;
            }
            assert(m.bytes@.take(i as int) =~= m.bytes@);
        },
    }
    out.push('\n');
    assert(out@ =~= old(out)@ + line_text(line@).push('\n'));
}

/// Writes all lines at the end of `out`.
pub fn write_capture(out: &mut String, lines: &[CaptureLine])
    ensures
        final(out)@ == old(out)@ + written(lines_view(lines@)),
{
    let mut i: usize = 0;
    while i < lines.len()
        invariant
            i <= lines@.len(),
            out@ == old(out)@ + written(lines_view(lines@.take(i as int))),
        decreases lines@.len() - i,
    {
        write_line(out, &lines[i]);
        proof {
            let next = lines_view(lines@.take(i + 1));
            assert(next.drop_last() =~= lines_view(lines@.take(i as int)));
            assert(out@ =~= old(out)@ + written(next));
        }
        i += 1;
    }
    assert(lines@.take(i as int) =~= lines@);
}

// ---------------------------------------------------------------------
// Reading
// ---------------------------------------------------------------------

/// The length of the first line of `text`.
pub open spec fn line_end(text: Seq<char>) -> int
    decreases text.len(),
{
    if text.len() == 0 || text[0] == '\n' {
        0
    } else {
        1 + line_end(text.drop_first())
    }
}

/// What follows the first line of `text` and its line end.
pub open spec fn after_line(text: Seq<char>) -> Seq<char> {
    if line_end(text) < text.len() {
        text.skip(line_end(text) + 1)
    } else {
        Seq::empty()
    }
}

/// The length of the run of non-space characters that `text` starts with.
pub open spec fn word_end(text: Seq<char>) -> int
    decreases text.len(),
{
    if text.len() == 0 || crate::text::is_whitespace(text[0]) {
        0
    } else {
        1 + word_end(text.drop_first())
    }
}

/// The fields of a line: what white space separates.
pub open spec fn fields(text: Seq<char>) -> Seq<Seq<char>>
    decreases text.len(),
{
    let rest = crate::text::trimmed_start(text);
    if rest.len() == 0 {
        Seq::empty()
    } else {
        proof {
            lemma_trimmed_start_shrinks(text);
            lemma_word_end(rest);
        }
        seq![rest.take(word_end(rest))] + fields(rest.skip(word_end(rest)))
    }
}

/// Trimming the front leaves no white space there.
pub proof fn lemma_trimmed_start_shrinks(text: Seq<char>)
    ensures
        crate::text::trimmed_start(text).len() <= text.len(),
        crate::text::trimmed_start(text).len() > 0 ==> !crate::text::is_whitespace(
            crate::text::trimmed_start(text)[0],
        ),
    decreases text.len(),
{
    if text.len() > 0 && crate::text::is_whitespace(text[0]) {
        lemma_trimmed_start_shrinks(text.drop_first());
    }
}

/// A word lies within its text, and is not empty where it starts one.
pub proof fn lemma_word_end(text: Seq<char>)
    ensures
        0 <= word_end(text) <= text.len(),
        text.len() > 0 && !crate::text::is_whitespace(text[0]) ==> word_end(text) >= 1,
    decreases text.len(),
{
    if text.len() > 0 && !crate::text::is_whitespace(text[0]) {
        lemma_word_end(text.drop_first());
    }
}

proof fn lemma_word_end_is(text: Seq<char>, n: int)
    requires
        0 <= n <= text.len(),
        forall|i: int| 0 <= i < n ==> !crate::text::is_whitespace(#[trigger] text[i]),
        n < text.len() ==> crate::text::is_whitespace(text[n]),
    ensures
        word_end(text) == n,
    decreases n,
{
    if n > 0 {
        let rest = text.drop_first();
        assert forall|i: int| 0 <= i < n - 1 implies !crate::text::is_whitespace(
            #[trigger] rest[i],
        ) by {
            assert(rest[i] == text[i + 1]);
        }
        lemma_word_end_is(rest, n - 1);
    }
}

proof fn lemma_line_end_is(text: Seq<char>, n: int)
    requires
        0 <= n <= text.len(),
        forall|i: int| 0 <= i < n ==> #[trigger] text[i] != '\n',
        n < text.len() ==> text[n] == '\n',
    ensures
        line_end(text) == n,
    decreases n,
{
    if n > 0 {
        let rest = text.drop_first();
        assert forall|i: int| 0 <= i < n - 1 implies #[trigger] rest[i] != '\n' by {
            assert(rest[i] == text[i + 1]);
        }
        lemma_line_end_is(rest, n - 1);
    }
}

/// The first line lies within the text.
pub proof fn lemma_line_end_bound(text: Seq<char>)
    ensures
        0 <= line_end(text) <= text.len(),
    decreases text.len(),
{
    if text.len() > 0 && text[0] != '\n' {
        lemma_line_end_bound(text.drop_first());
    }
}

/// The number that one field spells as a byte.
pub open spec fn field_byte(field: Seq<char>) -> Option<nat> {
    crate::text::parsed_number(field, 16, 255)
}

/// The bytes that hexadecimal fields spell, if all of them do.
pub open spec fn bytes_of(fields: Seq<Seq<char>>) -> Option<Seq<u8>> {
    if forall|i: int| 0 <= i < fields.len() ==> (#[trigger] field_byte(fields[i])) is Some {
        Some(Seq::new(fields.len(), |i: int| field_byte(fields[i])->0 as u8))
    } else {
        None
    }
}

/// What one line says.
pub enum LineView {
    Blank,
    Line(CaptureView),
    Bad,
}

/// What a line without the white space around it says.
pub open spec fn parsed_line(line: Seq<char>) -> LineView {
    if line.len() == 0 {
        LineView::Blank
    } else if line[0] == '#' {
        LineView::Line(CaptureView::Comment(crate::text::trimmed(line.drop_first())))
    } else {
        let fs = fields(line);
        match (
            crate::text::parsed_number(fs[0], 10, u64::MAX as nat),
            bytes_of(fs.drop_first()),
        ) {
            (Some(timestamp), Some(bytes)) => if bytes.len() == 0 {
                LineView::Bad
            } else {
                LineView::Line(
                    CaptureView::Message(TimedView { timestamp_us: timestamp as u64, bytes }),
                )
            },
            _ => LineView::Bad,
        }
    }
}

/// What a capture says from line `skipped + 1` on: its lines, or the number
/// and the content of the first bad one.
pub open spec fn parsed(text: Seq<char>, skipped: nat) -> Result<
    Seq<CaptureView>,
    (nat, Seq<char>),
>
    decreases text.len(),
{
    if text.len() == 0 {
        Ok(Seq::empty())
    } else {
        proof {
            lemma_line_end_bound(text);
        }
        let line = crate::text::trimmed(text.take(line_end(text)));
        let rest = parsed(after_line(text), skipped + 1);
        match parsed_line(line) {
            LineView::Blank => rest,
            LineView::Line(view) => after_lines(seq![view], rest),
            LineView::Bad => Err((skipped + 1, line)),
        }
    }
}

/// A result with lines put before those it holds.
pub open spec fn after_lines(
    lines: Seq<CaptureView>,
    rest: Result<Seq<CaptureView>, (nat, Seq<char>)>,
) -> Result<Seq<CaptureView>, (nat, Seq<char>)> {
    match rest {
        Ok(more) => Ok(lines + more),
        Err(e) => Err(e),
    }
}

/// The view of what [`read_capture`] returns.
pub open spec fn result_view(r: Result<Vec<CaptureLine>, CaptureError>) -> Result<
    Seq<CaptureView>,
    (nat, Seq<char>),
> {
    match r {
        Ok(lines) => Ok(lines_view(lines@)),
        Err(e) => Err((e.line as nat, e.content@)),
    }
}

/// The texts between pairs of bounds.
spec fn spans(chars: Seq<char>, bounds: Seq<(usize, usize)>) -> Seq<Seq<char>> {
    bounds.map_values(|b: (usize, usize)| chars.subrange(b.0 as int, b.1 as int))
}

/// The bounds of the fields of `chars[from..to]`.
fn split_fields(chars: &Vec<char>, from: usize, to: usize) -> (bounds: Vec<(usize, usize)>)
    requires
        from <= to <= chars@.len(),
    ensures
        spans(chars@, bounds@) == fields(chars@.subrange(from as int, to as int)),
        forall|i: int|
            0 <= i < bounds@.len() ==> (#[trigger] bounds@[i]).0 <= bounds@[i].1 <= chars@.len(),
{
    let ghost whole = fields(chars@.subrange(from as int, to as int));
    let mut bounds: Vec<(usize, usize)> = Vec::new();
    let mut at: usize = from;
    assert(spans(chars@, bounds@) + fields(chars@.subrange(at as int, to as int)) =~= whole);
    while at < to
        invariant
            from <= at <= to <= chars@.len(),
            spans(chars@, bounds@) + fields(chars@.subrange(at as int, to as int)) == whole,
            forall|i: int|
                0 <= i < bounds@.len() ==> (#[trigger] bounds@[i]).0 <= bounds@[i].1
                    <= chars@.len(),
        decreases to - at,
    {
        let ghost tail = chars@.subrange(at as int, to as int);
        let mut start: usize = at;
        while start < to && white(chars[start])
            invariant
                at <= start <= to <= chars@.len(),
                tail == chars@.subrange(at as int, to as int),
                forall|i: int|
                    0 <= i < start - at ==> crate::text::is_whitespace(#[trigger] tail[i]),
            decreases to - start,
        {
            start += 1;
        }
        let ghost rest = tail.skip(start - at);
        proof {
            crate::text::lemma_trimmed_start_skip(tail, start - at);
            assert(rest =~= chars@.subrange(start as int, to as int));
        }
        let mut end: usize = start;
        while end < to && !white(chars[end])
            invariant
                at <= start <= end <= to <= chars@.len(),
                rest == chars@.subrange(start as int, to as int),
                forall|i: int|
                    0 <= i < end - start ==> !crate::text::is_whitespace(#[trigger] rest[i]),
            decreases to - end,
        {
            end += 1;
        }
        proof {
            lemma_word_end_is(rest, end - start);
            assert(rest.skip(end - start) =~= chars@.subrange(end as int, to as int));
        }
        let ghost before = spans(chars@, bounds@);
        if start < to {
            bounds.push((start, end));
            proof {
                let word = rest.take(end - start);
                assert(word =~= chars@.subrange(start as int, end as int));
                assert(spans(chars@, bounds@) =~= before.push(word));
                assert(fields(tail) == seq![word] + fields(
                    chars@.subrange(end as int, to as int),
                ));
                assert(before.push(word) + fields(chars@.subrange(end as int, to as int))
                    =~= before + fields(tail));
            }
        } else {
            assert(rest.len() == 0);
            assert(chars@.subrange(end as int, to as int) =~= Seq::<char>::empty());
            assert(crate::text::trimmed_start(Seq::<char>::empty()).len() == 0);
            assert(fields(chars@.subrange(end as int, to as int)) =~= Seq::<Seq<char>>::empty());
        }
        at = end;
    }
    assert(chars@.subrange(at as int, to as int) =~= Seq::<char>::empty());
    assert(crate::text::trimmed_start(Seq::<char>::empty()).len() == 0);
    assert(spans(chars@, bounds@) =~= whole);
    bounds
}

/// The bytes that the fields from the second on spell.
fn parse_bytes(chars: &Vec<char>, bounds: &Vec<(usize, usize)>) -> (r: Option<Vec<u8>>)
    requires
        bounds@.len() >= 1,
        forall|i: int|
            0 <= i < bounds@.len() ==> (#[trigger] bounds@[i]).0 <= bounds@[i].1 <= chars@.len(),
    ensures
        match r {
            Some(bytes) => bytes_of(spans(chars@, bounds@).drop_first()) == Some(bytes@),
            None => bytes_of(spans(chars@, bounds@).drop_first()) is None,
        },
{
    let ghost fs = spans(chars@, bounds@).drop_first();
    let mut bytes: Vec<u8> = Vec::new();
    let mut i: usize = 1;
    while i < bounds.len()
        invariant
            1 <= i <= bounds@.len(),
            fs == spans(chars@, bounds@).drop_first(),
            bytes@.len() == i - 1,
            forall|j: int|
                0 <= j < bounds@.len() ==> (#[trigger] bounds@[j]).0 <= bounds@[j].1
                    <= chars@.len(),
            forall|j: int|
                0 <= j < i - 1 ==> (#[trigger] field_byte(fs[j])) == Some(bytes@[j] as nat),
        decreases bounds@.len() - i,
    {
        let (from, to) = bounds[i];
        assert(fs[i - 1] == chars@.subrange(from as int, to as int));
        match parse_number(chars, from, to, 16, 255) {
            Some(n) => {
                bytes.push(n as u8);
            },
            None => {
                assert(field_byte(fs[i - 1]) is None);
                return None;
            },
        }
        i += 1;
    }
    assert(bytes@ =~= Seq::new(fs.len(), |j: int| field_byte(fs[j])->0 as u8));
    Some(bytes)
}

/// One line between the bounds that trimming left of it.
enum Parsed {
    Blank,
    Line(CaptureLine),
    Bad,
}

spec fn parsed_view(p: Parsed) -> LineView {
    match p {
        Parsed::Blank => LineView::Blank,
        Parsed::Line(line) => LineView::Line(line@),
        Parsed::Bad => LineView::Bad,
    }
}

fn parse_line(chars: &Vec<char>, from: usize, to: usize) -> (p: Parsed)
    requires
        from <= to <= chars@.len(),
        from < to ==> !crate::text::is_whitespace(chars@[from as int]),
    ensures
        parsed_view(p) == parsed_line(chars@.subrange(from as int, to as int)),
{
    let ghost line = chars@.subrange(from as int, to as int);
    if from == to {
        return Parsed::Blank;
    }
    if chars[from] == '#' {
        let (lo, hi) = trim_bounds(chars, from + 1, to);
        assert(line.drop_first() =~= chars@.subrange(from + 1, to as int));
        return Parsed::Line(CaptureLine::Comment(slice_text(chars, lo, hi)));
    }
    let bounds = split_fields(chars, from, to);
    assert(line[0] == chars@[from as int]);
    assert(fields(line).len() >= 1);
    let (start, end) = bounds[0];
    assert(fields(line)[0] == chars@.subrange(start as int, end as int));
    let timestamp = parse_number(chars, start, end, 10, u64::MAX);
    let bytes = parse_bytes(chars, &bounds);
    match (timestamp, bytes) {
        (Some(timestamp_us), Some(bytes)) => if bytes.len() == 0 {
            Parsed::Bad
        } else {
            Parsed::Line(CaptureLine::Message(TimedMessage { timestamp_us, bytes }))
        },
        _ => Parsed::Bad,
    }
}

/// Reads a capture. The error is the first line that says nothing.
pub fn read_capture(text: &str) -> (r: Result<Vec<CaptureLine>, CaptureError>)
    ensures
        result_view(r) == parsed(text@, 0),
{
    let chars = chars_of(text);
    let mut lines: Vec<CaptureLine> = Vec::new();
    let mut at: usize = 0;
    let mut count: usize = 0;
    assert(chars@.skip(0) =~= text@);
    proof {
        let rest = parsed(text@, 0);
        assert(lines_view(lines@) =~= Seq::<CaptureView>::empty());
        if let Ok(more) = rest {
            assert(lines_view(lines@) + more =~= more);
        }
    }
    while at < chars.len()
        invariant
            at <= chars@.len(),
            count <= at,
            after_lines(lines_view(lines@), parsed(chars@.skip(at as int), count as nat)) == parsed(
                text@,
                0,
            ),
        decreases chars@.len() - at,
    {
        let ghost tail = chars@.skip(at as int);
        let size: usize = chars.len();
        let mut end: usize = at;
        while end < size && chars[end] != '\n'
            invariant
                at <= end <= size,
                size == chars@.len(),
                tail == chars@.skip(at as int),
                forall|i: int| 0 <= i < end - at ==> #[trigger] tail[i] != '\n',
            decreases size - end,
        {
            end += 1;
        }
        let (from, to) = trim_bounds(&chars, at, end);
        let ghost line = chars@.subrange(from as int, to as int);
        let ghost before = lines_view(lines@);
        proof {
            lemma_line_end_is(tail, end - at);
            assert(tail.take(end - at) =~= chars@.subrange(at as int, end as int));
            lemma_trimmed_head(tail.take(end - at));
        }
        let next: usize = if end < size {
            end + 1
        } else {
            end
        };
        assert(after_line(tail) =~= chars@.skip(next as int));
        let ghost rest = parsed(chars@.skip(next as int), count as nat + 1);
        assert(from < to ==> line[0] == chars@[from as int]);
        match parse_line(&chars, from, to) {
            Parsed::Blank => {},
            Parsed::Line(l) => {
                lines.push(l);
                proof {
                    let view = lines@.last()@;
                    assert(lines_view(lines@) =~= before.push(view));
                    if let Ok(more) = rest {
                        assert(before.push(view) + more =~= before + (seq![view] + more));
                    }
                }
            },
            Parsed::Bad => {
                return Err(
                    CaptureError { line: count + 1, content: slice_text(&chars, from, to) },
                );
            },
        }
        count += 1;
        at = next;
    }
    assert(chars@.skip(at as int) =~= Seq::<char>::empty());
    assert(lines_view(lines@) + Seq::<CaptureView>::empty() =~= lines_view(lines@));
    Ok(lines)
}

proof fn lemma_trimmed_head(text: Seq<char>)
    ensures
        crate::text::trimmed(text).len() > 0 ==> !crate::text::is_whitespace(
            crate::text::trimmed(text)[0],
        ),
{
    lemma_trimmed_start_shrinks(text);
    lemma_trimmed_end_keeps_head(crate::text::trimmed_start(text));
}

proof fn lemma_trimmed_end_keeps_head(text: Seq<char>)
    ensures
        crate::text::trimmed_end(text).len() > 0 ==> crate::text::trimmed_end(text)[0] == text[0],
    decreases text.len(),
{
    if text.len() > 0 && crate::text::is_whitespace(text.last()) {
        lemma_trimmed_end_keeps_head(text.drop_last());
    }
}

// ---------------------------------------------------------------------
// Round trip
// ---------------------------------------------------------------------

/// A line that the format can hold: a comment on one line, without white
/// space around it, or a message of at least one byte.
pub open spec fn storable(line: CaptureView) -> bool {
    match line {
        CaptureView::Comment(text) => crate::text::is_trimmed(text) && !text.contains('\n'),
        CaptureView::Message(m) => m.bytes.len() > 0,
    }
}

/// Reading what was written gives back the lines, whatever lines the
/// format can hold.
pub proof fn law_round_trip(lines: Seq<CaptureView>, skipped: nat)
    requires
        forall|i: int| 0 <= i < lines.len() ==> storable(#[trigger] lines[i]),
    ensures
        parsed(written(lines), skipped) == Ok::<Seq<CaptureView>, (nat, Seq<char>)>(lines),
    decreases lines.len(),
{
    if lines.len() == 0 {
        assert(lines =~= Seq::<CaptureView>::empty());
    } else {
        let first = line_text(lines[0]);
        let rest = lines.drop_first();
        let text = written(lines);
        lemma_written_front(lines);
        lemma_line_text(lines[0]);
        assert forall|i: int| 0 <= i < first.len() implies #[trigger] text[i] != '\n' by {
            assert(text[i] == first[i]);
        }
        lemma_line_end_is(text, first.len() as int);
        assert(text.take(first.len() as int) =~= first);
        assert(text.skip(first.len() as int + 1) =~= written(rest));
        law_round_trip(rest, skipped + 1);
        assert(seq![lines[0]] + rest =~= lines);
    }
}

proof fn lemma_written_front(lines: Seq<CaptureView>)
    requires
        lines.len() > 0,
    ensures
        written(lines) == line_text(lines[0]).push('\n') + written(lines.drop_first()),
    decreases lines.len(),
{
    let first = line_text(lines[0]).push('\n');
    if lines.len() == 1 {
        assert(lines.drop_last() =~= Seq::<CaptureView>::empty());
        assert(lines.drop_first() =~= Seq::<CaptureView>::empty());
        assert(written(lines) =~= first + written(lines.drop_first()));
    } else {
        lemma_written_front(lines.drop_last());
        assert(lines.drop_last().drop_first() =~= lines.drop_first().drop_last());
        assert(written(lines) =~= first + written(lines.drop_first()));
    }
}

/// No character is white space or ends a line.
spec fn is_word(text: Seq<char>) -> bool {
    text.len() > 0 && forall|i: int|
        0 <= i < text.len() ==> !crate::text::is_whitespace(#[trigger] text[i])
}

proof fn lemma_digits_are_a_word(text: Seq<char>, radix: nat)
    requires
        text.len() > 0,
        crate::text::all_digits(text, radix),
    ensures
        is_word(text),
        text[0] != '+',
        text[0] != '#',
{
    assert forall|i: int| 0 <= i < text.len() implies !crate::text::is_whitespace(
        #[trigger] text[i],
    ) by {
        assert(crate::text::digit_value(text[i]) is Some);
    }
    assert(crate::text::digit_value(text[0]) is Some);
}

proof fn lemma_hex_byte(byte: u8)
    ensures
        is_word(hex_byte(byte)),
        field_byte(hex_byte(byte)) == Some(byte as nat),
{
    let text = hex_byte(byte);
    let hi = byte as int / 16;
    let lo = byte as int % 16;
    assert(crate::text::digit_value(text[0]) == Some(hi as nat));
    assert(crate::text::digit_value(text[1]) == Some(lo as nat));
    assert(crate::text::all_digits(text, 16));
    lemma_digits_are_a_word(text, 16);
    reveal_with_fuel(crate::text::number_of, 3);
    assert(text.drop_last().last() == text[0]);
    assert(crate::text::number_of(text, 16) == hi * 16 + lo);
}

/// The hexadecimal form of each byte.
spec fn hex_fields(bytes: Seq<u8>) -> Seq<Seq<char>> {
    bytes.map_values(|b: u8| hex_byte(b))
}

proof fn lemma_message_fields(timestamp: nat, bytes: Seq<u8>)
    ensures
        fields(crate::text::decimal(timestamp) + hex_bytes(bytes)) == seq![
            crate::text::decimal(timestamp),
        ] + hex_fields(bytes),
    decreases bytes.len(),
{
    let head = crate::text::decimal(timestamp);
    crate::text::lemma_decimal(timestamp);
    lemma_digits_are_a_word(head, 10);
    if bytes.len() == 0 {
        assert(head + hex_bytes(bytes) =~= head);
        lemma_one_field(head);
        assert(seq![head] + hex_fields(bytes) =~= seq![head]);
    } else {
        let front = head + hex_bytes(bytes.drop_last());
        let last = hex_byte(bytes.last());
        lemma_message_fields(timestamp, bytes.drop_last());
        lemma_hex_byte(bytes.last());
        lemma_fields_append(front, last);
        assert(head + hex_bytes(bytes) =~= front + seq![' '] + last);
        assert((seq![head] + hex_fields(bytes.drop_last())).push(last) =~= seq![head] + hex_fields(
            bytes,
        ));
    }
}

proof fn lemma_one_field(word: Seq<char>)
    requires
        is_word(word),
    ensures
        fields(word) == seq![word],
{
    lemma_word_end_is(word, word.len() as int);
    assert(word.take(word.len() as int) =~= word);
    assert(word.skip(word.len() as int) =~= Seq::<char>::empty());
    assert(crate::text::trimmed_start(Seq::<char>::empty()).len() == 0);
    assert(fields(Seq::<char>::empty()) =~= Seq::<Seq<char>>::empty());
    assert(seq![word] + Seq::<Seq<char>>::empty() =~= seq![word]);
}

proof fn lemma_trimmed_start_append(a: Seq<char>, b: Seq<char>)
    ensures
        crate::text::trimmed_start(a + b) == if crate::text::trimmed_start(a).len() == 0 {
            crate::text::trimmed_start(b)
        } else {
            crate::text::trimmed_start(a) + b
        },
    decreases a.len(),
{
    if a.len() == 0 {
        assert(a + b =~= b);
    } else if crate::text::is_whitespace(a[0]) {
        lemma_trimmed_start_append(a.drop_first(), b);
        assert((a + b).drop_first() =~= a.drop_first() + b);
    }
}

proof fn lemma_fields_append(text: Seq<char>, word: Seq<char>)
    requires
        is_word(word),
    ensures
        fields(text + seq![' '] + word) == fields(text).push(word),
    decreases text.len(),
{
    let tail = seq![' '] + word;
    let full = text + seq![' '] + word;
    assert(full =~= text + tail);
    lemma_trimmed_start_append(text, tail);
    lemma_trimmed_start_shrinks(text);
    let rest = crate::text::trimmed_start(text);
    if rest.len() == 0 {
        assert(tail.drop_first() =~= word);
        assert(crate::text::trimmed_start(tail) == crate::text::trimmed_start(word));
        lemma_one_field(word);
        assert(fields(full) == fields(word));
        assert(Seq::<Seq<char>>::empty().push(word) =~= seq![word]);
    } else {
        lemma_word_end(rest);
        let n = word_end(rest);
        lemma_word_end_stops(rest);
        let all = rest + tail;
        assert forall|i: int| 0 <= i < n implies !crate::text::is_whitespace(
            #[trigger] all[i],
        ) by {
            assert(all[i] == rest[i]);
        }
        lemma_word_end_is(all, n);
        assert(all.take(n) =~= rest.take(n));
        assert(all.skip(n) =~= rest.skip(n) + seq![' '] + word);
        lemma_fields_append(rest.skip(n), word);
        assert(seq![rest.take(n)] + fields(rest.skip(n)).push(word) =~= (seq![rest.take(n)]
            + fields(rest.skip(n))).push(word));
    }
}

proof fn lemma_word_end_stops(text: Seq<char>)
    ensures
        forall|i: int|
            0 <= i < word_end(text) ==> !crate::text::is_whitespace(#[trigger] text[i]),
        0 <= word_end(text) <= text.len(),
        word_end(text) < text.len() ==> crate::text::is_whitespace(text[word_end(text)]),
    decreases text.len(),
{
    if text.len() > 0 && !crate::text::is_whitespace(text[0]) {
        let rest = text.drop_first();
        lemma_word_end_stops(rest);
        assert forall|i: int| 0 <= i < word_end(text) implies !crate::text::is_whitespace(
            #[trigger] text[i],
        ) by {
            if i > 0 {
                assert(text[i] == rest[i - 1]);
            }
        }
    }
}

proof fn lemma_hex_bytes_chars(bytes: Seq<u8>)
    ensures
        forall|i: int| 0 <= i < hex_bytes(bytes).len() ==> #[trigger] hex_bytes(bytes)[i] != '\n',
        bytes.len() > 0 ==> hex_bytes(bytes).len() > 0 && !crate::text::is_whitespace(
            hex_bytes(bytes).last(),
        ),
    decreases bytes.len(),
{
    if bytes.len() > 0 {
        let front = hex_bytes(bytes.drop_last());
        let last = hex_byte(bytes.last());
        lemma_hex_bytes_chars(bytes.drop_last());
        lemma_hex_byte(bytes.last());
        let all = hex_bytes(bytes);
        assert forall|i: int| 0 <= i < all.len() implies #[trigger] all[i] != '\n' by {
            if i < front.len() {
                assert(all[i] == front[i]);
            } else if i > front.len() {
                assert(all[i] == last[i - front.len() - 1]);
            }
        }
        assert(all.last() == last[1]);
    }
}

proof fn lemma_line_text(line: CaptureView)
    requires
        storable(line),
    ensures
        line_text(line).len() > 0,
        forall|i: int| 0 <= i < line_text(line).len() ==> #[trigger] line_text(line)[i] != '\n',
        parsed_line(crate::text::trimmed(line_text(line))) == LineView::Line(line),
{
    let text = line_text(line);
    match line {
        CaptureView::Comment(comment) => {
            assert forall|i: int| 0 <= i < text.len() implies #[trigger] text[i] != '\n' by {
                if i >= 2 {
                    assert(text[i] == comment[i - 2]);
                    assert(comment.contains(comment[i - 2]));
                }
            }
            if comment.len() == 0 {
                crate::text::lemma_trimmed_end_take(text, 1);
                let hash = text.take(1);
                assert(crate::text::trimmed(text) == hash);
                assert(hash.drop_first() =~= comment);
                crate::text::lemma_trimmed_fixed(comment);
            } else {
                assert(text.last() == comment.last());
                crate::text::lemma_trimmed_fixed(text);
                let body = text.drop_first();
                assert(body =~= seq![' '] + comment);
                assert(body.drop_first() =~= comment);
                assert(crate::text::trimmed_start(body) == crate::text::trimmed_start(comment));
                crate::text::lemma_trimmed_fixed(comment);
            }
        },
        CaptureView::Message(m) => {
            let head = crate::text::decimal(m.timestamp_us as nat);
            let tail = hex_bytes(m.bytes);
            crate::text::lemma_decimal(m.timestamp_us as nat);
            lemma_digits_are_a_word(head, 10);
            lemma_hex_bytes_chars(m.bytes);
            assert forall|i: int| 0 <= i < text.len() implies #[trigger] text[i] != '\n' by {
                if i < head.len() {
                    assert(text[i] == head[i]);
                } else {
                    assert(text[i] == tail[i - head.len()]);
                }
            }
            assert(text[0] == head[0]);
            assert(text.last() == tail.last());
            crate::text::lemma_trimmed_fixed(text);
            lemma_message_fields(m.timestamp_us as nat, m.bytes);
            let fs = fields(text);
            assert(fs[0] == head);
            assert(fs.drop_first() =~= hex_fields(m.bytes));
            assert forall|i: int| 0 <= i < m.bytes.len() implies (#[trigger] field_byte(
                hex_fields(m.bytes)[i],
            )) == Some(m.bytes[i] as nat) by {
                lemma_hex_byte(m.bytes[i]);
            }
            assert(Seq::new(
                m.bytes.len(),
                |i: int| field_byte(hex_fields(m.bytes)[i])->0 as u8,
            ) =~= m.bytes);
        },
    }
}

/// Reading goes on after lines that were written: they come first, and what
/// follows is counted from there, so that an error names its own line.
pub proof fn law_reading_goes_on(lines: Seq<CaptureView>, rest: Seq<char>, skipped: nat)
    requires
        forall|i: int| 0 <= i < lines.len() ==> storable(#[trigger] lines[i]),
    ensures
        parsed(written(lines) + rest, skipped) == after_lines(
            lines,
            parsed(rest, skipped + lines.len()),
        ),
    decreases lines.len(),
{
    if lines.len() == 0 {
        assert(written(lines) + rest =~= rest);
        if let Ok(more) = parsed(rest, skipped) {
            assert(lines + more =~= more);
        }
    } else {
        let first = line_text(lines[0]);
        let others = lines.drop_first();
        let text = written(lines) + rest;
        lemma_written_front(lines);
        lemma_line_text(lines[0]);
        assert forall|i: int| 0 <= i < first.len() implies #[trigger] text[i] != '\n' by {
            assert(text[i] == first[i]);
        }
        lemma_line_end_is(text, first.len() as int);
        assert(text.take(first.len() as int) =~= first);
        assert(text.skip(first.len() as int + 1) =~= written(others) + rest);
        law_reading_goes_on(others, rest, skipped + 1);
        if let Ok(more) = parsed(rest, skipped + lines.len()) {
            assert(seq![lines[0]] + (others + more) =~= lines + more);
        }
    }
}

/// A line that is no message is an error of its line: one whose number or
/// bytes cannot be read, or that has no bytes. Blank lines do not count for
/// anything, and a line after a number sign is a comment.
pub proof fn law_bad_lines_are_named(line: Seq<char>, skipped: nat)
    requires
        crate::text::is_trimmed(line),
        !line.contains('\n'),
    ensures
        line.len() > 0 && parsed_line(line) is Bad ==> parsed(line, skipped) == Err::<
            Seq<CaptureView>,
            (nat, Seq<char>),
        >((skipped + 1, line)),
        line.len() > 0 && line[0] == '#' ==> parsed_line(line) == LineView::Line(
            CaptureView::Comment(crate::text::trimmed(line.drop_first())),
        ),
        line.len() == 0 ==> parsed_line(line) is Blank,
        line.len() > 0 && line[0] != '#' && fields(line).len() < 2 ==> parsed_line(line) is Bad,
{
    if line.len() > 0 {
        assert forall|i: int| 0 <= i < line.len() implies #[trigger] line[i] != '\n' by {
            assert(line.contains(line[i]));
        }
        lemma_line_end_is(line, line.len() as int);
        assert(line.take(line.len() as int) =~= line);
        crate::text::lemma_trimmed_fixed(line);
        let fs = fields(line);
        if line[0] != '#' && fs.len() < 2 {
            assert(fs.drop_first().len() == 0 || fs.len() == 0);
            assert(crate::text::trimmed_start(line) == line);
            assert(fs.len() >= 1);
        }
    }
}

/// A message is written as its time in decimal and each byte as a space and
/// two upper-case hexadecimal digits.
pub proof fn law_messages_are_written_in_hex(timestamp_us: u64, bytes: Seq<u8>, i: int)
    requires
        0 <= i < bytes.len(),
    ensures
        line_text(CaptureView::Message(TimedView { timestamp_us, bytes }))
            == crate::text::decimal(timestamp_us as nat) + hex_bytes(bytes),
        hex_bytes(bytes).len() == 3 * bytes.len(),
        hex_bytes(bytes)[3 * i] == ' ',
        hex_bytes(bytes)[3 * i + 1] == "0123456789ABCDEF"@[bytes[i] as int / 16],
        hex_bytes(bytes)[3 * i + 2] == "0123456789ABCDEF"@[bytes[i] as int % 16],
        line_text(CaptureView::Comment(hex_bytes(bytes))) == "# "@ + hex_bytes(bytes),
    decreases bytes.len(),
{
    reveal_strlit("0123456789ABCDEF");
    reveal_strlit("# ");
    assert("# "@ =~= seq!['#', ' ']);
    let front = bytes.drop_last();
    lemma_hex_len(front);
    if i < front.len() {
        law_messages_are_written_in_hex(timestamp_us, front, i);
        assert(front[i] == bytes[i]);
    } else {
        assert(bytes[i] == bytes.last());
        let (hi, lo) = (bytes[i] as int / 16, bytes[i] as int % 16);
        assert(hex_digit(hi) == "0123456789ABCDEF"@[hi]);
        assert(hex_digit(lo) == "0123456789ABCDEF"@[lo]);
    }
}

proof fn lemma_hex_len(bytes: Seq<u8>)
    ensures
        hex_bytes(bytes).len() == 3 * bytes.len(),
    decreases bytes.len(),
{
    if bytes.len() > 0 {
        lemma_hex_len(bytes.drop_last());
    }
}

/// The fields of a line hold no white space, and white space around a line
/// or more of it between two fields makes no difference.
pub proof fn law_fields_are_what_white_space_separates(
    word: Seq<char>,
    space: Seq<char>,
    rest: Seq<char>,
)
    requires
        word.len() > 0 && space.len() > 0,
        forall|i: int|
            0 <= i < word.len() ==> !crate::text::is_whitespace(#[trigger] word[i]),
        forall|i: int|
            0 <= i < space.len() ==> crate::text::is_whitespace(#[trigger] space[i]),
    ensures
        fields(word + space + rest) == seq![word] + fields(space + rest),
        fields(space + rest) == fields(rest),
        fields(word) == seq![word],
        fields(space).len() == 0,
{
    lemma_spaces_are_skipped(space, rest);
    lemma_spaces_are_skipped(space, Seq::empty());
    assert(space + Seq::<char>::empty() =~= space);
    let all = word + space + rest;
    assert forall|i: int| 0 <= i < word.len() implies !crate::text::is_whitespace(
        #[trigger] all[i],
    ) by {
        assert(all[i] == word[i]);
    }
    assert(all[0] == word[0] && all[word.len() as int] == space[0]);
    lemma_word_ends(all, word.len() as int);
    assert(crate::text::trimmed_start(all) == all);
    assert(all.take(word.len() as int) =~= word);
    assert(all.skip(word.len() as int) =~= space + rest);
    lemma_word_ends(word, word.len() as int);
    assert(word[0] == word[0] && !crate::text::is_whitespace(word[0]));
    assert(crate::text::trimmed_start(word) == word);
    assert(word.take(word.len() as int) =~= word);
    assert(word.skip(word.len() as int) =~= Seq::<char>::empty());
    assert(crate::text::trimmed_start(Seq::<char>::empty()).len() == 0);
    assert(fields(Seq::<char>::empty()) =~= Seq::<Seq<char>>::empty());
    assert(seq![word] + Seq::<Seq<char>>::empty() =~= seq![word]);
    assert(fields(word) == seq![word] + fields(Seq::<char>::empty()));
}

proof fn lemma_spaces_are_skipped(space: Seq<char>, rest: Seq<char>)
    requires
        forall|i: int|
            0 <= i < space.len() ==> crate::text::is_whitespace(#[trigger] space[i]),
    ensures
        crate::text::trimmed_start(space + rest) == crate::text::trimmed_start(rest),
        fields(space + rest) == fields(rest),
    decreases space.len(),
{
    if space.len() == 0 {
        assert(space + rest =~= rest);
    } else {
        let less = space.drop_first();
        assert forall|i: int| 0 <= i < less.len() implies crate::text::is_whitespace(
            #[trigger] less[i],
        ) by {
            assert(less[i] == space[i + 1]);
        }
        lemma_spaces_are_skipped(less, rest);
        assert((space + rest).drop_first() =~= less + rest);
        assert((space + rest)[0] == space[0]);
        assert(crate::text::trimmed_start(space + rest) == crate::text::trimmed_start(
            less + rest,
        ));
    }
}

proof fn lemma_word_ends(text: Seq<char>, n: int)
    requires
        0 <= n <= text.len(),
        forall|i: int| 0 <= i < n ==> !crate::text::is_whitespace(#[trigger] text[i]),
        n < text.len() ==> crate::text::is_whitespace(text[n]),
    ensures
        word_end(text) == n,
    decreases n,
{
    if n > 0 {
        assert(!crate::text::is_whitespace(text[0]));
        let less = text.drop_first();
        assert forall|i: int| 0 <= i < n - 1 implies !crate::text::is_whitespace(
            #[trigger] less[i],
        ) by {
            assert(less[i] == text[i + 1]);
        }
        lemma_word_ends(less, n - 1);
    }
}

/// A line says a message exactly where its first field is a time in decimal
/// and all others, of which there is one at least, are bytes in hexadecimal;
/// the message has that time and those bytes.
pub proof fn law_a_line_is_a_time_and_bytes(line: Seq<char>, i: int)
    requires
        line.len() > 0 && line[0] != '#',
        fields(line).len() > 0,
    ensures
        ({
            let fs = fields(line);
            let time = crate::text::parsed_number(fs[0], 10, u64::MAX as nat);
            &&& !(parsed_line(line) is Blank)
            &&& fs.len() == 1 || time is None ==> parsed_line(line) is Bad
            &&& 1 <= i < fs.len() && crate::text::parsed_number(fs[i], 16, 255) is None
                ==> parsed_line(line) is Bad
            &&& parsed_line(line) matches LineView::Line(said) ==> {
                &&& said is Message
                &&& Some(said->Message_0.timestamp_us as nat) == time
                &&& said->Message_0.bytes.len() == fs.len() - 1
                &&& 1 <= i < fs.len() ==> Some(said->Message_0.bytes[i - 1] as nat)
                    == crate::text::parsed_number(fs[i], 16, 255)
            }
            &&& fs.len() > 1 && time is Some && (forall|k: int|
                1 <= k < fs.len() ==> crate::text::parsed_number(
                    #[trigger] fs[k],
                    16,
                    255,
                ) is Some) ==> parsed_line(line) is Line
        }),
{
    let fs = fields(line);
    let rest = fs.drop_first();
    if 1 <= i < fs.len() {
        assert(rest[i - 1] == fs[i]);
        assert(field_byte(rest[i - 1]) == crate::text::parsed_number(fs[i], 16, 255));
    }
    if forall|k: int|
        1 <= k < fs.len() ==> crate::text::parsed_number(#[trigger] fs[k], 16, 255) is Some {
        assert forall|k: int| 0 <= k < rest.len() implies (#[trigger] field_byte(
            rest[k],
        )) is Some by {
            assert(rest[k] == fs[k + 1]);
            assert(crate::text::parsed_number(fs[k + 1], 16, 255) is Some);
        }
    }
}

/// A capture that cannot be read is refused with the number and the content
/// of the line, as the error holds them.
pub proof fn law_refusals_hold_line_and_content(r: Result<Vec<CaptureLine>, CaptureError>, i: int)
    ensures
        r matches Err(e) ==> result_view(r) == Err::<Seq<CaptureView>, (nat, Seq<char>)>(
            (e.line as nat, e.content@),
        ),
        r matches Ok(lines) ==> (result_view(r) matches Ok(said) && said.len() == lines@.len() && (0
            <= i < said.len() ==> said[i] == lines@[i]@)),
{
}

} // verus!
