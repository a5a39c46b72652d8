//! Text helpers on Unicode scalar values: whitespace trimming, substring
//! search, decimal and hexadecimal rendering and parsing.

use vstd::prelude::*;

verus! {

// ---------------------------------------------------------------------
// Outside functions
// ---------------------------------------------------------------------

/// What `str::to_lowercase` makes of a text (Unicode `Lowercase` mapping,
/// with the final-sigma rule).
pub uninterp spec fn lowercase(text: Seq<char>) -> Seq<char>;

/// `str::to_lowercase`: the result is named [`lowercase`]; nothing is said
/// here of the mapping itself.
pub assume_specification[ str::to_lowercase ](text: &str) -> (lower: String)
    ensures
        lower@ == lowercase(text@),
;

/// `String::push`: appends one character.
pub assume_specification[ String::push ](text: &mut String, ch: char)
    ensures
        final(text)@ == old(text)@.push(ch),
;

/// The text between quotes that `{:?}` prints for a string.
pub uninterp spec fn quoted(text: Seq<char>) -> Seq<char>;

/// `<str as Debug>::fmt`: the quoted and escaped form of a text, named
/// [`quoted`]; nothing is said here of the escapes.
#[verifier::external_body]
pub(crate) fn quote(text: &str) -> (shown: String)
    ensures
        shown@ == quoted(text@),
{
    format!("{text:?}")
}

// ---------------------------------------------------------------------
// Characters
// ---------------------------------------------------------------------

/// The Unicode `White_Space` characters.
pub open spec fn is_whitespace(c: char) -> bool {
    let n = c as u32;
    ||| 0x09 <= n <= 0x0d
    ||| n == 0x20
    ||| n == 0x85
    ||| n == 0xa0
    ||| n == 0x1680
    ||| 0x2000 <= n <= 0x200a
    ||| n == 0x2028
    ||| n == 0x2029
    ||| n == 0x202f
    ||| n == 0x205f
    ||| n == 0x3000
}

/// Whether `c` is white space.
pub fn white(c: char) -> (r: bool)
    ensures
        r == is_whitespace(c),
{
    let n: u32 = c as u32;
    (0x09 <= n && n <= 0x0d) || n == 0x20 || n == 0x85 || n == 0xa0 || n == 0x1680 || (0x2000 <= n
        && n <= 0x200a) || n == 0x2028 || n == 0x2029 || n == 0x202f || n == 0x205f || n == 0x3000
}

/// The characters of a text.
pub fn chars_of(text: &str) -> (chars: Vec<char>)
    ensures
        chars@ == text@,
{
    let mut chars: Vec<char> = Vec::new();
    for c in it: text.chars()
        invariant
            it.seq() == text@,
            chars@ == text@.take(it.index() as int),
    {
        chars.push(c);
    }
    chars
}

/// The text that `chars[from..to]` spells.
pub fn slice_text(chars: &Vec<char>, from: usize, to: usize) -> (text: String)
    requires
        from <= to <= chars@.len(),
    ensures
        text@ == chars@.subrange(from as int, to as int),
{
    let mut text = String::new();
    let mut i: usize = from;
    while i < to
        invariant
            from <= i <= to <= chars@.len(),
            text@ == chars@.subrange(from as int, i as int),
        decreases to - i,
    {
        text.push(chars[i]);
        i += 1;
    }
    text
}

/// Whether two texts are equal.
pub fn same(a: &str, b: &str) -> (r: bool)
    ensures
        r == (a@ == b@),
{
    let x = a.to_owned();
    let y = b.to_owned();
    x == y
}

// ---------------------------------------------------------------------
// Order
// ---------------------------------------------------------------------

/// The order of texts by code points: the first difference decides, and a
/// prefix comes before what it starts.
pub open spec fn precedes(a: Seq<char>, b: Seq<char>) -> bool
    decreases a.len(),
{
    if b.len() == 0 {
        false
    } else if a.len() == 0 {
        true
    } else if a[0] == b[0] {
        precedes(a.drop_first(), b.drop_first())
    } else {
        a[0] < b[0]
    }
}

/// No text precedes itself.
pub proof fn lemma_precedes_irreflexive(a: Seq<char>)
    ensures
        !precedes(a, a),
    decreases a.len(),
{
    if a.len() > 0 {
        lemma_precedes_irreflexive(a.drop_first());
    }
}

/// The order is transitive.
pub proof fn lemma_precedes_transitive(a: Seq<char>, b: Seq<char>, c: Seq<char>)
    requires
        precedes(a, b),
        precedes(b, c),
    ensures
        precedes(a, c),
    decreases a.len(),
{
    if a.len() > 0 && a[0] == b[0] && b[0] == c[0] {
        lemma_precedes_transitive(a.drop_first(), b.drop_first(), c.drop_first());
    }
}

/// Of two texts that differ, one precedes the other.
pub proof fn lemma_precedes_total(a: Seq<char>, b: Seq<char>)
    ensures
        a == b || precedes(a, b) || precedes(b, a),
    decreases a.len(),
{
    if a.len() == 0 {
        if b.len() == 0 {
            assert(a =~= b);
        }
    } else if b.len() > 0 && a[0] == b[0] {
        lemma_precedes_total(a.drop_first(), b.drop_first());
        if a.drop_first() == b.drop_first() {
            assert(a =~= seq![a[0]] + a.drop_first());
            assert(b =~= seq![b[0]] + b.drop_first());
        }
    }
}

proof fn lemma_precedes_skip(a: Seq<char>, b: Seq<char>, n: int)
    requires
        0 <= n <= a.len(),
        n <= b.len(),
        forall|i: int| 0 <= i < n ==> #[trigger] a[i] == b[i],
    ensures
        precedes(a, b) == precedes(a.skip(n), b.skip(n)),
    decreases n,
{
    if n == 0 {
        assert(a.skip(0) =~= a);
        assert(b.skip(0) =~= b);
    } else {
        let x = a.drop_first();
        let y = b.drop_first();
        assert(a[0] == b[0]);
        assert forall|i: int| 0 <= i < n - 1 implies #[trigger] x[i] == y[i] by {
            assert(a[i + 1] == b[i + 1]);
        }
        lemma_precedes_skip(x, y, n - 1);
        assert(x.skip(n - 1) =~= a.skip(n));
        assert(y.skip(n - 1) =~= b.skip(n));
    }
}

/// Whether `a` comes before `b`.
pub fn before(a: &str, b: &str) -> (r: bool)
    ensures
        r == precedes(a@, b@),
{
    let x = chars_of(a);
    let y = chars_of(b);
    let mut i: usize = 0;
    while i < x.len() && i < y.len() && x[i] == y[i]
        invariant
            i <= x@.len(),
            i <= y@.len(),
            x@ == a@,
            y@ == b@,
            forall|j: int| 0 <= j < i ==> #[trigger] x@[j] == y@[j],
        decreases x@.len() - i,
    {
        i += 1;
    }
    proof {
        lemma_precedes_skip(a@, b@, i as int);
    }
    if i >= y.len() {
        false
    } else if i >= x.len() {
        true
    } else {
        x[i] < y[i]
    }
}

// ---------------------------------------------------------------------
// Trimming
// ---------------------------------------------------------------------

/// `text` without its leading white space.
pub open spec fn trimmed_start(text: Seq<char>) -> Seq<char>
    decreases text.len(),
{
    if text.len() > 0 && is_whitespace(text[0]) {
        trimmed_start(text.drop_first())
    } else {
        text
    }
}

/// `text` without its trailing white space.
pub open spec fn trimmed_end(text: Seq<char>) -> Seq<char>
    decreases text.len(),
{
    if text.len() > 0 && is_whitespace(text.last()) {
        trimmed_end(text.drop_last())
    } else {
        text
    }
}

/// `text` without the white space around it.
pub open spec fn trimmed(text: Seq<char>) -> Seq<char> {
    trimmed_end(trimmed_start(text))
}

/// A text that neither starts nor ends with white space.
pub open spec fn is_trimmed(text: Seq<char>) -> bool {
    text.len() > 0 ==> !is_whitespace(text[0]) && !is_whitespace(text.last())
}

/// Trimming leaves a trimmed text as it is.
pub proof fn lemma_trimmed_fixed(text: Seq<char>)
    requires
        is_trimmed(text),
    ensures
        trimmed(text) == text,
{
}

/// Leading white space goes first.
pub proof fn lemma_trimmed_start_skip(text: Seq<char>, n: int)
    requires
        0 <= n <= text.len(),
        forall|i: int| 0 <= i < n ==> is_whitespace(#[trigger] text[i]),
        n < text.len() ==> !is_whitespace(text[n]),
    ensures
        trimmed_start(text) == text.skip(n),
    decreases n,
{
    if n == 0 {
        assert(text.skip(0) =~= text);
    } else {
        let rest = text.drop_first();
        assert forall|i: int| 0 <= i < n - 1 implies is_whitespace(#[trigger] rest[i]) by {
            assert(rest[i] == text[i + 1]);
        }
        lemma_trimmed_start_skip(rest, n - 1);
        assert(rest.skip(n - 1) =~= text.skip(n));
    }
}

/// Trailing white space goes last.
pub proof fn lemma_trimmed_end_take(text: Seq<char>, n: int)
    requires
        0 <= n <= text.len(),
        forall|i: int| n <= i < text.len() ==> is_whitespace(#[trigger] text[i]),
        n > 0 ==> !is_whitespace(text[n - 1]),
    ensures
        trimmed_end(text) == text.take(n),
    decreases text.len() - n,
{
    if n == text.len() {
        assert(text.take(n) =~= text);
    } else {
        let rest = text.drop_last();
        lemma_trimmed_end_take(rest, n);
        assert(rest.take(n) =~= text.take(n));
    }
}

/// The bounds `(from, to)` of what trimming leaves of `chars[lo..hi]`.
pub fn trim_bounds(chars: &Vec<char>, lo: usize, hi: usize) -> (bounds: (usize, usize))
    requires
        lo <= hi <= chars@.len(),
    ensures
        lo <= bounds.0 <= bounds.1 <= hi,
        chars@.subrange(bounds.0 as int, bounds.1 as int) == trimmed(
            chars@.subrange(lo as int, hi as int),
        ),
{
    let ghost whole = chars@.subrange(lo as int, hi as int);
    let mut from: usize = lo;
    while from < hi && white(chars[from])
        invariant
            lo <= from <= hi <= chars@.len(),
            whole == chars@.subrange(lo as int, hi as int),
            forall|i: int| 0 <= i < from - lo ==> is_whitespace(#[trigger] whole[i]),
        decreases hi - from,
    {
        from += 1;
    }
    proof {
        lemma_trimmed_start_skip(whole, from - lo);
    }
    let ghost front = whole.skip(from - lo);
    assert(front == chars@.subrange(from as int, hi as int));
    let mut to: usize = hi;
    while from < to && white(chars[to - 1])
        invariant
            lo <= from <= to <= hi <= chars@.len(),
            front == chars@.subrange(from as int, hi as int),
            forall|i: int| to - from <= i < front.len() ==> is_whitespace(#[trigger] front[i]),
        decreases to,
    {
        to -= 1;
    }
    proof {
        lemma_trimmed_end_take(front, to - from);
        assert(front.take(to - from) =~= chars@.subrange(from as int, to as int));
    }
    (from, to)
}

/// `text` without the white space around it.
pub fn trim(text: &str) -> (r: String)
    ensures
        r@ == trimmed(text@),
{
    let chars = chars_of(text);
    let (from, to) = trim_bounds(&chars, 0, chars.len());
    assert(chars@.subrange(0, chars@.len() as int) =~= chars@);
    slice_text(&chars, from, to)
}

// ---------------------------------------------------------------------
// Substrings
// ---------------------------------------------------------------------

/// Whether `needle` stands in `hay` from index `at` on.
pub open spec fn occurs_at(hay: Seq<char>, needle: Seq<char>, at: int) -> bool {
    &&& 0 <= at
    &&& at + needle.len() <= hay.len()
    &&& hay.subrange(at, at + needle.len()) == needle
}

/// Whether `needle` stands anywhere in `hay`.
pub open spec fn occurs(hay: Seq<char>, needle: Seq<char>) -> bool {
    exists|at: int| occurs_at(hay, needle, at)
}

fn matches_at(hay: &Vec<char>, needle: &Vec<char>, at: usize) -> (r: bool)
    requires
        at + needle@.len() <= hay@.len(),
    ensures
        r == occurs_at(hay@, needle@, at as int),
{
    let size: usize = hay.len();
    let mut i: usize = 0;
    while i < needle.len()
        invariant
            i <= needle@.len(),
            at + needle@.len() <= hay@.len(),
            size == hay@.len(),
            forall|j: int| 0 <= j < i ==> hay@[at + j] == #[trigger] needle@[j],
        decreases needle@.len() - i,
    {
        if hay[at + i] != needle[i] {
            assert(hay@.subrange(at as int, at + needle@.len())[i as int] != needle@[i as int]);
            return false;
        }
        i += 1;
    }
    assert(hay@.subrange(at as int, at + needle@.len()) =~= needle@);
    true
}

/// Whether `needle` occurs in `hay`.
pub fn contains(hay: &str, needle: &str) -> (r: bool)
    ensures
        r == occurs(hay@, needle@),
{
    let h = chars_of(hay);
    let n = chars_of(needle);
    if n.len() > h.len() {
        return false;
    }
    let last: usize = h.len() - n.len();
    let mut at: usize = 0;
    loop
        invariant
            at <= last,
            last + n@.len() == h@.len(),
            h@ == hay@,
            n@ == needle@,
            forall|k: int| 0 <= k < at ==> !occurs_at(hay@, needle@, k),
        decreases last - at,
    {
        if matches_at(&h, &n, at) {
            return true;
        }
        if at == last {
            return false;
        }
        at += 1;
    }
}

/// Whether `text` starts with `prefix`.
pub open spec fn has_prefix(text: Seq<char>, prefix: Seq<char>) -> bool {
    occurs_at(text, prefix, 0)
}

/// Whether `text` starts with `prefix`.
pub fn starts_with(text: &str, prefix: &str) -> (r: bool)
    ensures
        r == has_prefix(text@, prefix@),
{
    let t = chars_of(text);
    let p = chars_of(prefix);
    if p.len() > t.len() {
        return false;
    }
    matches_at(&t, &p, 0)
}

/// `text` without `prefix` at its start, however often it stands there.
pub open spec fn without_prefixes(text: Seq<char>, prefix: Seq<char>) -> Seq<char>
    decreases text.len(),
{
    if prefix.len() > 0 && has_prefix(text, prefix) {
        without_prefixes(text.skip(prefix.len() as int), prefix)
    } else {
        text
    }
}

/// Takes `prefix` off the start of `text` as often as it stands there.
pub fn strip_prefixes(text: &str, prefix: &str) -> (r: String)
    ensures
        r@ == without_prefixes(text@, prefix@),
{
    let t = chars_of(text);
    let p = chars_of(prefix);
    let size: usize = t.len();
    let step: usize = p.len();
    let mut at: usize = 0;
    assert(t@.skip(0) =~= text@);
    while step > 0 && step <= size - at && matches_at(&t, &p, at)
        invariant
            at <= size,
            size == t@.len(),
            step == p@.len(),
            p@ == prefix@,
            without_prefixes(t@.skip(at as int), prefix@) == without_prefixes(text@, prefix@),
        decreases size - at,
    {
        proof {
            let rest = t@.skip(at as int);
            assert(rest.subrange(0, step as int) =~= t@.subrange(at as int, at + step));
            assert(rest.skip(step as int) =~= t@.skip(at + step));
        }
        at += step;
    }
    proof {
        let rest = t@.skip(at as int);
        if step > 0 && step <= size - at {
            assert(rest.subrange(0, step as int) =~= t@.subrange(at as int, at + step));
        }
        assert(rest =~= t@.subrange(at as int, size as int));
    }
    slice_text(&t, at, size)
}

// ---------------------------------------------------------------------
// Joining
// ---------------------------------------------------------------------

/// `a` followed by `b`.
pub fn join2(a: &str, b: &str) -> (r: String)
    ensures
        r@ == a@ + b@,
{
    let mut r = a.to_owned();
    r.append(b);
    r
}

/// `a`, `b` and `c` in a row.
pub fn join3(a: &str, b: &str, c: &str) -> (r: String)
    ensures
        r@ == a@ + b@ + c@,
{
    let mut r = a.to_owned();
    r.append(b);
    r.append(c);
    r
}

/// The texts of `parts`, in order.
pub open spec fn texts(parts: Seq<String>) -> Seq<Seq<char>> {
    parts.map_values(|s: String| s@)
}

/// The parts with `separator` between each two.
pub open spec fn joined(parts: Seq<Seq<char>>, separator: Seq<char>) -> Seq<char>
    decreases parts.len(),
{
    if parts.len() == 0 {
        Seq::empty()
    } else if parts.len() == 1 {
        parts[0]
    } else {
        joined(parts.drop_last(), separator) + separator + parts.last()
    }
}

/// Joins `parts` with `separator` between each two.
pub fn join(parts: &Vec<String>, separator: &str) -> (r: String)
    ensures
        r@ == joined(texts(parts@), separator@),
{
    let mut r = String::new();
    let mut i: usize = 0;
    while i < parts.len()
        invariant
            i <= parts@.len(),
            r@ == joined(texts(parts@.take(i as int)), separator@),
        decreases parts@.len() - i,
    {
        let ghost now = texts(parts@.take(i + 1));
        assert(now.drop_last() =~= texts(parts@.take(i as int)));
        if i > 0 {
            r.append(separator);
        }
        r.append(parts[i].as_str());
        i += 1;
    }
    assert(parts@.take(i as int) =~= parts@);
    r
}

/// A copy of a list of texts.
pub fn copy_list(list: &Vec<String>) -> (r: Vec<String>)
    ensures
        r@ == list@,
{
    let mut r: Vec<String> = Vec::new();
    let mut i: usize = 0;
    while i < list.len()
        invariant
            i <= list@.len(),
            r@ == list@.take(i as int),
        decreases list@.len() - i,
    {
        r.push(list[i].clone());
        i += 1;
    }
    r
}

/// The text of an optional string.
pub open spec fn opt_text(text: Option<String>) -> Option<Seq<char>> {
    match text {
        Some(s) => Some(s@),
        None => None,
    }
}

/// A copy of an optional text.
pub fn copy_opt(text: &Option<String>) -> (r: Option<String>)
    ensures
        r == *text,
{
    match text {
        Some(s) => Some(s.clone()),
        None => None,
    }
}

/// Whether an optional text is `Some` of exactly `wanted`.
pub fn opt_is(text: &Option<String>, wanted: &str) -> (r: bool)
    ensures
        r == (opt_text(*text) == Some(wanted@)),
{
    match text {
        Some(s) => same(s.as_str(), wanted),
        None => false,
    }
}

// ---------------------------------------------------------------------
// Numbers
// ---------------------------------------------------------------------

/// The character of one decimal digit.
pub open spec fn digit(d: int) -> char {
    (0x30 + d) as char
}

/// A number in decimal, without leading zeros.
pub open spec fn decimal(n: nat) -> Seq<char>
    decreases n,
{
    if n < 10 {
        seq![digit(n as int)]
    } else {
        decimal(n / 10).push(digit(n as int % 10))
    }
}

fn digit_char(d: u8) -> (c: char)
    requires
        d < 10,
    ensures
        c == digit(d as int),
{
    (0x30 + d) as char
}

/// Writes `n` in decimal at the end of `out`.
pub fn push_decimal(out: &mut String, n: u64)
    ensures
        final(out)@ == old(out)@ + decimal(n as nat),
    decreases n,
{
    if n < 10 {
        out.push(digit_char(n as u8));
    } else {
        push_decimal(out, n / 10);
        out.push(digit_char((n % 10) as u8));
    }
    assert(out@ =~= old(out)@ + decimal(n as nat));
}

/// `n` in decimal.
pub fn decimal_text(n: u64) -> (r: String)
    ensures
        r@ == decimal(n as nat),
{
    let mut r = String::new();
    push_decimal(&mut r, n);
    assert(r@ =~= decimal(n as nat));
    r
}

/// The value of a digit in bases up to 16, letters in either case.
pub open spec fn digit_value(c: char) -> Option<nat> {
    let n = c as u32;
    if 0x30 <= n <= 0x39 {
        Some((n - 0x30) as nat)
    } else if 0x41 <= n <= 0x46 {
        Some((n - 0x41 + 10) as nat)
    } else if 0x61 <= n <= 0x66 {
        Some((n - 0x61 + 10) as nat)
    } else {
        None
    }
}

/// Whether every character is a digit below `radix`.
pub open spec fn all_digits(text: Seq<char>, radix: nat) -> bool {
    forall|i: int|
        0 <= i < text.len() ==> (#[trigger] digit_value(text[i]) matches Some(d) && d < radix)
}

/// The number that digits spell in base `radix`.
pub open spec fn number_of(text: Seq<char>, radix: nat) -> nat
    decreases text.len(),
{
    if text.len() == 0 {
        0
    } else {
        let d = match digit_value(text.last()) {
            Some(d) => d,
            None => 0,
        };
        number_of(text.drop_last(), radix) * radix + d
    }
}

/// Reading an unsigned number: an optional `+`, one digit or more, and a
/// value of at most `max`.
pub open spec fn parsed_number(text: Seq<char>, radix: nat, max: nat) -> Option<nat> {
    let body = if text.len() > 0 && text[0] == '+' {
        text.drop_first()
    } else {
        text
    };
    if body.len() == 0 || !all_digits(body, radix) || number_of(body, radix) > max {
        None
    } else {
        Some(number_of(body, radix))
    }
}

/// Decimal digits spell the number they were made of.
pub proof fn lemma_decimal(n: nat)
    ensures
        decimal(n).len() >= 1,
        all_digits(decimal(n), 10),
        number_of(decimal(n), 10) == n,
    decreases n,
{
    let text = decimal(n);
    if n < 10 {
        assert(text.drop_last() =~= Seq::<char>::empty());
        assert(number_of(text.drop_last(), 10) == 0);
        assert(digit_value(text[0]) == Some(n));
    } else {
        lemma_decimal(n / 10);
        let front = decimal(n / 10);
        assert(text.drop_last() =~= front);
        assert(digit_value(text.last()) == Some(n % 10));
        assert forall|i: int| 0 <= i < text.len() implies (#[trigger] digit_value(text[i]) matches Some(
            d,
        ) && d < 10) by {
            if i < front.len() {
                assert(text[i] == front[i]);
                assert(digit_value(front[i]) is Some);
            }
        }
    }
}

fn digit_of(c: char) -> (r: Option<u64>)
    ensures
        r is Some == digit_value(c) is Some,
        r matches Some(d) ==> digit_value(c) == Some(d as nat) && d < 16,
{
    let n: u32 = c as u32;
    if 0x30 <= n && n <= 0x39 {
        Some((n - 0x30) as u64)
    } else if 0x41 <= n && n <= 0x46 {
        Some((n - 0x41 + 10) as u64)
    } else if 0x61 <= n && n <= 0x66 {
        Some((n - 0x61 + 10) as u64)
    } else {
        None
    }
}

/// Digits written before others do not make a number smaller.
proof fn lemma_number_grows(text: Seq<char>, n: int, radix: nat)
    requires
        0 <= n <= text.len(),
        radix >= 1,
    ensures
        number_of(text.take(n), radix) <= number_of(text, radix),
    decreases text.len() - n,
{
    if n < text.len() {
        let rest = text.drop_last();
        lemma_number_grows(rest, n, radix);
        assert(rest.take(n) =~= text.take(n));
        let v = number_of(rest, radix);
        assert(v * radix >= v) by (nonlinear_arith)
            requires
                radix >= 1,
                v >= 0,
        ;
    } else {
        assert(text.take(n) =~= text);
    }
}

/// Reads the number that `chars[from..to]` spells.
pub fn parse_number(chars: &Vec<char>, from: usize, to: usize, radix: u64, max: u64) -> (r: Option<
    u64,
>)
    requires
        from <= to <= chars@.len(),
        2 <= radix <= 16,
    ensures
        match r {
            Some(n) => parsed_number(
                chars@.subrange(from as int, to as int),
                radix as nat,
                max as nat,
            ) == Some(n as nat),
            None => parsed_number(
                chars@.subrange(from as int, to as int),
                radix as nat,
                max as nat,
            ) is None,
        },
{
    let ghost whole = chars@.subrange(from as int, to as int);
    let mut start: usize = from;
    if from < to && chars[from] == '+' {
        start = from + 1;
    }
    if start == to {
        return None;
    }
    let ghost body = chars@.subrange(start as int, to as int);
    assert(start > from ==> body =~= whole.drop_first());
    let mut value: u64 = 0;
    let mut i: usize = start;
    while i < to
        invariant
            from <= start <= i <= to <= chars@.len(),
            start < to,
            2 <= radix <= 16,
            body == chars@.subrange(start as int, to as int),
            all_digits(body.take(i - start), radix as nat),
            value == number_of(body.take(i - start), radix as nat),
            value <= max,
            parsed_number(whole, radix as nat, max as nat) == if body.len() == 0 || !all_digits(
                body,
                radix as nat,
            ) || number_of(body, radix as nat) > max {
                None::<nat>
            } else {
                Some(number_of(body, radix as nat))
            },
            whole == chars@.subrange(from as int, to as int),
        decreases to - i,
    {
        let ghost done = body.take(i - start);
        let ghost next = body.take(i - start + 1);
        proof {
            assert(next.drop_last() =~= done);
            assert(next.last() == chars@[i as int]);
            assert(body[i - start] == chars@[i as int]);
        }
        match digit_of(chars[i]) {
            Some(d) => {
                if d >= radix {
                    return None;
                }
                assert(0 <= value as int * radix as int <= 0xffff_ffff_ffff_ffff * 16) by (nonlinear_arith)
                    requires
                        0 <= value <= 0xffff_ffff_ffff_ffff,
                        0 <= radix <= 16,
                ;
                let wide: u128 = value as u128 * radix as u128 + d as u128;
                proof {
                    assert(wide == number_of(next, radix as nat));
                }
                if wide > max as u128 {
                    proof {
                        lemma_number_grows(body, i - start + 1, radix as nat);
                    }
                    return None;
                }
                value = wide as u64;
                assert forall|j: int| 0 <= j < next.len() implies (
                #[trigger] digit_value(next[j]) matches Some(e) && e < radix as nat) by {
                    if j < done.len() {
                        assert(next[j] == done[j]);
                        assert(digit_value(done[j]) is Some);
                    }
                }
            },
            None => {
                return None;
            },
        }
        i += 1;
    }
    assert(body.take(i - start) =~= body);
    Some(value)
}

/// A character over and over.
pub open spec fn repeated(c: char, n: nat) -> Seq<char> {
    Seq::new(n, |i: int| c)
}

/// Appends a character over and over.
pub fn push_repeated(text: &mut String, c: char, n: usize)
    ensures
        final(text)@ == old(text)@ + repeated(c, n as nat),
{
    let ghost front = text@;
    let mut i: usize = 0;
    assert(front =~= front + repeated(c, 0));
    while i < n
        invariant
            i <= n,
            text@ == front + repeated(c, i as nat),
        decreases n - i,
    {
        text.push(c);
        assert(text@ =~= front + repeated(c, (i + 1) as nat));
        i += 1;
    }
}

/// Text filled up with spaces on the left.
pub open spec fn right_aligned(text: Seq<char>, width: nat) -> Seq<char> {
    if text.len() < width {
        repeated(' ', (width - text.len()) as nat) + text
    } else {
        text
    }
}

/// Text filled up with spaces on the right.
pub open spec fn left_aligned(text: Seq<char>, width: nat) -> Seq<char> {
    if text.len() < width {
        text + repeated(' ', (width - text.len()) as nat)
    } else {
        text
    }
}

/// Appends text, filled up with spaces on the left.
pub fn push_right_aligned(out: &mut String, text: &str, width: usize)
    ensures
        final(out)@ == old(out)@ + right_aligned(text@, width as nat),
{
    let n: usize = chars_of(text).len();
    if n < width {
        push_repeated(out, ' ', width - n);
    }
    out.append(text);
    assert(out@ =~= old(out)@ + right_aligned(text@, width as nat));
}

/// Appends text, filled up with spaces on the right.
pub fn push_left_aligned(out: &mut String, text: &str, width: usize)
    ensures
        final(out)@ == old(out)@ + left_aligned(text@, width as nat),
{
    let n: usize = chars_of(text).len();
    out.append(text);
    if n < width {
        push_repeated(out, ' ', width - n);
    }
    assert(out@ =~= old(out)@ + left_aligned(text@, width as nat));
}

/// A whole number in decimal digits, behind a sign where it is negative.
pub open spec fn signed_decimal(n: int) -> Seq<char> {
    if n < 0 {
        "-"@ + decimal((-n) as nat)
    } else {
        decimal(n as nat)
    }
}

/// A whole number in decimal digits.
pub fn signed_text(n: i64) -> (r: String)
    ensures
        r@ == signed_decimal(n as int),
{
    if n < 0 {
        let size: u64 = (-(n + 1)) as u64 + 1;
        join2("-", decimal_text(size).as_str())
    } else {
        decimal_text(n as u64)
    }
}

/// Reading a whole number: an optional sign, one digit or more, and a value
/// that a 64-bit integer can hold.
pub open spec fn parsed_signed(text: Seq<char>) -> Option<int> {
    if text.len() > 0 && text[0] == '-' {
        let body = text.drop_first();
        if body.len() == 0 || !all_digits(body, 10) || number_of(body, 10) > i64::MAX + 1 {
            None
        } else {
            Some(-number_of(body, 10))
        }
    } else {
        match parsed_number(text, 10, i64::MAX as nat) {
            Some(n) => Some(n as int),
            None => None,
        }
    }
}

/// Reads a whole number.
pub fn parse_signed(text: &str) -> (r: Option<i64>)
    ensures
        match r {
            Some(n) => parsed_signed(text@) == Some(n as int),
            None => parsed_signed(text@) is None,
        },
{
    let chars = chars_of(text);
    let n: usize = chars.len();
    if n > 0 && chars[0] == '-' {
        let ghost body = chars@.subrange(1, n as int);
        assert(body =~= text@.drop_first());
        if n > 1 && chars[1] == '+' {
            assert(digit_value(body[0]) is None);
            return None;
        }
        match parse_number(&chars, 1, n, 10, 0x8000_0000_0000_0000) {
            Some(size) => {
                if size == 0x8000_0000_0000_0000 {
                    Some(i64::MIN)
                } else {
                    Some(-(size as i64))
                }
            },
            None => None,
        }
    } else {
        assert(chars@.subrange(0, n as int) =~= text@);
        match parse_number(&chars, 0, n, 10, 0x7fff_ffff_ffff_ffff) {
            Some(size) => Some(size as i64),
            None => None,
        }
    }
}

/// Reads an unsigned decimal number of at most `max`.
pub fn parse_decimal(text: &str, max: u64) -> (r: Option<u64>)
    ensures
        match r {
            Some(n) => parsed_number(text@, 10, max as nat) == Some(n as nat),
            None => parsed_number(text@, 10, max as nat) is None,
        },
        r matches Some(n) ==> n <= max,
{
    let chars = chars_of(text);
    let n: usize = chars.len();
    assert(chars@.subrange(0, n as int) =~= text@);
    parse_number(&chars, 0, n, 10, max)
}

// ---------------------------------------------------------------------
// Laws
// ---------------------------------------------------------------------

/// A text stands in another exactly where its characters do, one after the
/// other.
pub proof fn law_occurrences_are_character_by_character(
    hay: Seq<char>,
    needle: Seq<char>,
    at: int,
)
    ensures
        occurs_at(hay, needle, at) <==> {
            &&& 0 <= at <= hay.len() - needle.len()
            &&& forall|i: int| 0 <= i < needle.len() ==> #[trigger] needle[i] == hay[at + i]
        },
        occurs(hay, needle) <==> exists|k: int| occurs_at(hay, needle, k),
        has_prefix(hay, needle) <==> occurs_at(hay, needle, 0),
{
    if 0 <= at <= hay.len() - needle.len() {
        let part = hay.subrange(at, at + needle.len());
        if forall|i: int| 0 <= i < needle.len() ==> #[trigger] needle[i] == hay[at + i] {
            assert(part =~= needle);
        }
        if part == needle {
            assert forall|i: int| 0 <= i < needle.len() implies #[trigger] needle[i] == hay[at
                + i] by {
                assert(part[i] == hay[at + i]);
            }
        }
    }
}

/// Parts are joined in order, with the separator between each two and
/// nowhere else.
pub proof fn law_joining_puts_the_separator_between(
    parts: Seq<Seq<char>>,
    separator: Seq<char>,
    more: Seq<char>,
)
    ensures
        joined(Seq::empty(), separator) == Seq::<char>::empty(),
        joined(seq![more], separator) == more,
        parts.len() > 0 ==> joined(parts.push(more), separator) == joined(parts, separator)
            + separator + more,
{
    assert(parts.push(more).drop_last() =~= parts);
}

/// Trimming takes white space off both ends and nothing else: what is left
/// starts and ends with something visible, and what is taken is white space.
pub proof fn law_trimming_takes_white_space_only(text: Seq<char>) -> (bounds: (int, int))
    ensures
        0 <= bounds.0 <= bounds.1 <= text.len(),
        trimmed(text) == text.subrange(bounds.0, bounds.1),
        forall|i: int| 0 <= i < bounds.0 ==> is_whitespace(#[trigger] text[i]),
        forall|i: int| bounds.1 <= i < text.len() ==> is_whitespace(#[trigger] text[i]),
        is_trimmed(trimmed(text)),
{
    let n = lemma_trimmed_start_of(text);
    let rest = trimmed_start(text);
    let m = lemma_trimmed_end_of(rest);
    assert(rest.take(m) =~= text.subrange(n, n + m));
    assert forall|i: int| n + m <= i < text.len() implies is_whitespace(#[trigger] text[i]) by {
        assert(rest[i - n] == text[i]);
    }
    if m > 0 {
        assert(trimmed(text)[0] == rest[0]);
    }
    (n, n + m)
}

proof fn lemma_trimmed_start_of(text: Seq<char>) -> (n: int)
    ensures
        0 <= n <= text.len(),
        trimmed_start(text) == text.skip(n),
        forall|i: int| 0 <= i < n ==> is_whitespace(#[trigger] text[i]),
        n < text.len() ==> !is_whitespace(text[n]),
    decreases text.len(),
{
    if text.len() > 0 && is_whitespace(text[0]) {
        let rest = text.drop_first();
        let m = lemma_trimmed_start_of(rest);
        assert(rest.skip(m) =~= text.skip(m + 1));
        assert forall|i: int| 0 <= i < m + 1 implies is_whitespace(#[trigger] text[i]) by {
            if i > 0 {
                assert(rest[i - 1] == text[i]);
            }
        }
        m + 1
    } else {
        assert(text.skip(0) =~= text);
        0
    }
}

proof fn lemma_trimmed_end_of(text: Seq<char>) -> (n: int)
    ensures
        0 <= n <= text.len(),
        trimmed_end(text) == text.take(n),
        forall|i: int| n <= i < text.len() ==> is_whitespace(#[trigger] text[i]),
        n > 0 ==> !is_whitespace(text[n - 1]),
    decreases text.len(),
{
    if text.len() > 0 && is_whitespace(text.last()) {
        let rest = text.drop_last();
        let m = lemma_trimmed_end_of(rest);
        assert(rest.take(m) =~= text.take(m));
        assert forall|i: int| m <= i < text.len() implies is_whitespace(#[trigger] text[i]) by {
            if i < rest.len() {
                assert(rest[i] == text[i]);
            }
        }
        m
    } else {
        assert(text.take(text.len() as int) =~= text);
        text.len() as int
    }
}

/// White space is what Unicode calls so: the space, tabs and line ends, the
/// no-break and typographic spaces and the separators.
pub proof fn law_white_space_is_unicodes(c: char)
    ensures
        is_whitespace(c) <==> {
            let n = c as u32;
            ||| n == 9 || n == 10 || n == 11 || n == 12 || n == 13 || n == 32 || n == 133 || n == 160
            ||| n == 5760 || (8192 <= n <= 8202) || n == 8232 || n == 8233 || n == 8239
            ||| n == 8287 || n == 12288
        },
{
}

/// A text is padded with spaces to its width, on the side away from where it
/// is aligned; a longer one stays whole.
pub proof fn law_padding_fills_the_width(text: Seq<char>, width: nat, i: int)
    ensures
        ({
            let (right, left) = (right_aligned(text, width), left_aligned(text, width));
            let size = if text.len() < width {
                width
            } else {
                text.len()
            };
            &&& right.len() == size && left.len() == size
            &&& right.skip(size - text.len()) == text && left.take(text.len() as int) == text
            &&& 0 <= i < size - text.len() ==> right[i] == ' ' && left[text.len() + i] == ' '
        }),
{
    let (right, left) = (right_aligned(text, width), left_aligned(text, width));
    assert(right.skip(right.len() - text.len()) =~= text);
    assert(left.take(text.len() as int) =~= text);
}

/// A number in decimal has no leading zero, and its digits spell it.
pub proof fn law_decimals_spell_their_number(n: nat)
    ensures
        decimal(n).len() >= 1,
        n >= 10 ==> decimal(n) == decimal(n / 10).push("0123456789"@[n as int % 10]),
        n < 10 ==> decimal(n) == seq!["0123456789"@[n as int]],
        number_of(decimal(n), 10) == n,
{
    reveal_strlit("0123456789");
    lemma_decimal(n);
}

/// Digits are `0` to `9` and, in either case, `a` to `f`; no other character
/// is one.
pub proof fn law_digits_are_hexadecimal(c: char, d: int)
    requires
        0 <= d < 16,
    ensures
        digit_value(c) == Some(d as nat) <==> c == "0123456789abcdef"@[d] || c
            == "0123456789ABCDEF"@[d],
{
    reveal_strlit("0123456789abcdef");
    reveal_strlit("0123456789ABCDEF");
}

/// A number is read back as it was written, with a plus sign before it or
/// not, where it is no larger than allowed; an empty text is none, and a
/// further digit multiplies by the base.
pub proof fn law_numbers_are_read_as_written(n: nat, max: nat, text: Seq<char>, c: char, radix: nat)
    ensures
        parsed_number(decimal(n), 10, max) == if n <= max {
            Some(n)
        } else {
            None
        },
        parsed_number(seq!['+'] + decimal(n), 10, max) == parsed_number(decimal(n), 10, max),
        parsed_number(Seq::empty(), radix, max) is None,
        digit_value(c) is None ==> parsed_number(text.push(c), radix, max) is None,
        ({
            let more = parsed_number(text.push(c), radix, max);
            &&& digit_value(c) matches Some(d) ==> d >= radix ==> more is None
            &&& parsed_number(text, radix, max) matches Some(m) ==> digit_value(c) matches Some(d)
                ==> d < radix ==> more == if m * radix + d <= max {
                Some(m * radix + d)
            } else {
                None
            }
        }),
{
    lemma_decimal(n);
    lemma_first_digit(n);
    let plus = seq!['+'] + decimal(n);
    assert(plus.drop_first() =~= decimal(n));
    assert('+' as u32 == 0x2b);
    assert(digit_value('+') is None);
    assert(decimal(n)[0] != '+') by {
        assert(digit_value(decimal(n)[0]) is Some);
    }
    let all = text.push(c);
    let signed = all.len() > 0 && all[0] == '+';
    let body = if signed {
        all.drop_first()
    } else {
        all
    };
    if text.len() == 0 {
        if signed {
            assert(body.len() == 0);
        } else {
            assert(body.last() == c);
            assert(body[0] == c);
            if digit_value(c) is None {
                assert(!all_digits(body, radix));
            }
            if let Some(d) = digit_value(c) {
                if d >= radix {
                    assert(!all_digits(body, radix));
                }
            }
        }
    } else {
        let front = if text[0] == '+' {
            text.drop_first()
        } else {
            text
        };
        assert(all[0] == text[0]);
        assert(body =~= front.push(c));
        assert(body.drop_last() =~= front);
        assert(body[front.len() as int] == c);
        assert(digit_value(body[front.len() as int]) == digit_value(c));
        if parsed_number(text, radix, max) is Some {
            if let Some(d) = digit_value(c) {
                if d < radix {
                    assert forall|i: int| 0 <= i < body.len() implies (#[trigger] digit_value(
                        body[i],
                    ) matches Some(e) && e < radix) by {
                        if i < front.len() {
                            assert(body[i] == front[i]);
                            assert(digit_value(front[i]) is Some);
                        }
                    }
                    assert(all_digits(body, radix));
                }
            }
        }
    }
}

proof fn lemma_first_digit(n: nat)
    ensures
        digit_value(decimal(n)[0]) is Some,
{
    lemma_decimal(n);
    assert(all_digits(decimal(n), 10));
    assert(digit_value(decimal(n)[0]) is Some);
}

/// A whole number is read back as it was written, where 64 bits can hold it.
pub proof fn law_whole_numbers_are_read_as_written(n: nat)
    ensures
        parsed_signed(decimal(n)) == if n <= i64::MAX {
            Some(n as int)
        } else {
            None
        },
        parsed_signed(seq!['+'] + decimal(n)) == parsed_signed(decimal(n)),
        parsed_signed(seq!['-'] + decimal(n)) == if -n >= i64::MIN {
            Some(-n)
        } else {
            None
        },
        parsed_signed(Seq::empty()) is None,
        parsed_signed(seq!['-']) is None,
        parsed_signed(seq!['+']) is None,
{
    lemma_decimal(n);
    lemma_first_digit(n);
    law_numbers_are_read_as_written(n, i64::MAX as nat, Seq::empty(), '+', 10);
    assert(seq!['+'] =~= Seq::<char>::empty().push('+'));
    assert('-' as u32 == 0x2d && '+' as u32 == 0x2b);
    assert(digit_value('-') is None && digit_value('+') is None);
    assert((seq!['-'] + decimal(n)).drop_first() =~= decimal(n));
    assert(seq!['-'].drop_first() =~= Seq::<char>::empty());
}

/// Texts are ordered by the first character in which they differ; where one
/// goes on after the other ends, the shorter comes first.
pub proof fn law_texts_are_ordered_by_their_first_difference(
    front: Seq<char>,
    a: Seq<char>,
    b: Seq<char>,
)
    ensures
        precedes(front + a, front + b) == precedes(a, b),
        a.len() > 0 ==> precedes(front, front + a) && !precedes(front + a, front),
        a.len() > 0 && b.len() > 0 && a[0] != b[0] ==> (precedes(front + a, front + b) <==> a[0]
            < b[0]),
        !precedes(a, a),
        precedes(a, b) ==> !precedes(b, a),
        a != b ==> precedes(a, b) || precedes(b, a),
    decreases front.len(),
{
    lemma_precedes_total(a, b);
    lemma_precedes_irreflexive(a);
    if precedes(a, b) && precedes(b, a) {
        lemma_precedes_transitive(a, b, a);
    }
    if front.len() > 0 {
        let rest = front.drop_first();
        law_texts_are_ordered_by_their_first_difference(rest, a, b);
        assert((front + a).drop_first() =~= rest + a);
        assert((front + b).drop_first() =~= rest + b);
        assert((front + a)[0] == front[0] && (front + b)[0] == front[0]);
    } else {
        assert(front + a =~= a);
        assert(front + b =~= b);
    }
}

} // verus!
