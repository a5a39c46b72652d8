//! Preset index: the SQL behind the library with categories, favorites,
//! search, and rescans, and what its rows mean. Running the statements is
//! the caller's part.

use vstd::prelude::*;

use crate::text::{chars_of, copy_opt, join, same, slice_text};

verus! {

/// A preset as handed to the library by a scanner.
#[derive(Debug, Clone, PartialEq)]
pub struct ImportPreset {
    pub name: String,
    pub path: Option<String>,
    pub load_key: Option<String>,
    /// Primary browsing category. Scanners typically derive it from the
    /// preset's parent directory or first feature; the library does not
    /// invent one.
    pub category: Option<String>,
    /// Raw feature/tag strings as reported by discovery.
    pub features: Vec<String>,
    pub creators: Vec<String>,
    pub description: Option<String>,
    pub is_factory: bool,
    /// File modification time (seconds), for incremental rescans.
    pub mtime: Option<i64>,
}

/// What an [`ImportPreset`] says.
pub struct ImportView {
    pub name: Seq<char>,
    pub path: Option<Seq<char>>,
    pub load_key: Option<Seq<char>>,
    pub category: Option<Seq<char>>,
    pub features: Seq<Seq<char>>,
    pub creators: Seq<Seq<char>>,
    pub description: Option<Seq<char>>,
    pub is_factory: bool,
    pub mtime: Option<i64>,
}

impl View for ImportPreset {
    type V = ImportView;

    open spec fn view(&self) -> ImportView {
        ImportView {
            name: self.name@,
            path: crate::text::opt_text(self.path),
            load_key: crate::text::opt_text(self.load_key),
            category: crate::text::opt_text(self.category),
            features: crate::text::texts(self.features@),
            creators: crate::text::texts(self.creators@),
            description: crate::text::opt_text(self.description),
            is_factory: self.is_factory,
            mtime: self.mtime,
        }
    }
}

/// A stored preset row.
#[derive(Debug, Clone, PartialEq)]
pub struct PresetRow {
    pub id: i64,
    pub engine: String,
    pub name: String,
    pub path: Option<String>,
    pub load_key: Option<String>,
    pub category: Option<String>,
    pub features: Vec<String>,
    pub creators: Vec<String>,
    pub description: Option<String>,
    pub is_factory: bool,
    pub favorite: bool,
    pub last_used: Option<i64>,
}

/// What a [`PresetRow`] says.
#[verifier::ext_equal]
pub struct RowView {
    pub id: i64,
    pub engine: Seq<char>,
    pub name: Seq<char>,
    pub path: Option<Seq<char>>,
    pub load_key: Option<Seq<char>>,
    pub category: Option<Seq<char>>,
    pub features: Seq<Seq<char>>,
    pub creators: Seq<Seq<char>>,
    pub description: Option<Seq<char>>,
    pub is_factory: bool,
    pub favorite: bool,
    pub last_used: Option<i64>,
}

impl View for PresetRow {
    type V = RowView;

    open spec fn view(&self) -> RowView {
        RowView {
            id: self.id,
            engine: self.engine@,
            name: self.name@,
            path: crate::text::opt_text(self.path),
            load_key: crate::text::opt_text(self.load_key),
            category: crate::text::opt_text(self.category),
            features: crate::text::texts(self.features@),
            creators: crate::text::texts(self.creators@),
            description: crate::text::opt_text(self.description),
            is_factory: self.is_factory,
            favorite: self.favorite,
            last_used: self.last_used,
        }
    }
}

/// Search filters. Empty/None fields match everything.
#[derive(Debug, Clone)]
pub struct Filter {
    pub engine: Option<String>,
    /// Case-insensitive substring of the preset name.
    pub query: Option<String>,
    pub category: Option<String>,
    pub favorites_only: bool,
}

/// What a [`Filter`] says.
pub struct FilterView {
    pub engine: Option<Seq<char>>,
    pub query: Option<Seq<char>>,
    pub category: Option<Seq<char>>,
    pub favorites_only: bool,
}

impl View for Filter {
    type V = FilterView;

    open spec fn view(&self) -> FilterView {
        FilterView {
            engine: crate::text::opt_text(self.engine),
            query: crate::text::opt_text(self.query),
            category: crate::text::opt_text(self.category),
            favorites_only: self.favorites_only,
        }
    }
}

impl Default for Filter {
    /// Everything.
    fn default() -> (filter: Self)
        ensures
            filter@ == (FilterView {
                engine: None,
                query: None,
                category: None,
                favorites_only: false,
            }),
    {
        Filter { engine: None, query: None, category: None, favorites_only: false }
    }
}

impl Default for ImportPreset {
    /// A preset of which nothing is known.
    fn default() -> (preset: Self)
        ensures
            preset@ == (ImportView {
                name: Seq::empty(),
                path: None,
                load_key: None,
                category: None,
                features: Seq::empty(),
                creators: Seq::empty(),
                description: None,
                is_factory: false,
                mtime: None,
            }),
    {
        let preset = ImportPreset {
            name: String::new(),
            path: None,
            load_key: None,
            category: None,
            features: Vec::new(),
            creators: Vec::new(),
            description: None,
            is_factory: false,
            mtime: None,
        };
        assert(preset@.name =~= Seq::<char>::empty());
        assert(preset@.features =~= Seq::<Seq<char>>::empty());
        assert(preset@.creators =~= Seq::<Seq<char>>::empty());
        preset
    }
}

impl Filter {
    /// Everything of one engine, or everything.
    pub fn of_engine(engine: Option<String>) -> (filter: Filter)
        ensures
            filter@ == (FilterView {
                engine: crate::text::opt_text(engine),
                query: None,
                category: None,
                favorites_only: false,
            }),
    {
        Filter { engine, query: None, category: None, favorites_only: false }
    }
}

// ---------------------------------------------------------------------
// Statements
// ---------------------------------------------------------------------

/// The library's tables and indices.
pub const SCHEMA: &'static str = "CREATE TABLE IF NOT EXISTS presets (
    id INTEGER PRIMARY KEY,
    engine TEXT NOT NULL,
    name TEXT NOT NULL,
    path TEXT,
    load_key TEXT,
    category TEXT,
    features TEXT NOT NULL DEFAULT '',
    creators TEXT NOT NULL DEFAULT '',
    description TEXT,
    is_factory INTEGER NOT NULL DEFAULT 0,
    favorite INTEGER NOT NULL DEFAULT 0,
    last_used INTEGER,
    mtime INTEGER
);
CREATE INDEX IF NOT EXISTS presets_engine_name
    ON presets (engine, name);
CREATE INDEX IF NOT EXISTS presets_engine_category
    ON presets (engine, category);";

/// The user state that a rescan preserves: key, favorite, last use.
pub const SELECT_PRESERVED: &'static str =
    "SELECT COALESCE(path,'') || '\u{1}' || COALESCE(load_key,'') || '\u{1}' || name,
        favorite, last_used
 FROM presets WHERE engine = ?1 AND (favorite != 0 OR last_used IS NOT NULL)";

/// Drops all rows of an engine.
pub const DELETE_ENGINE: &'static str = "DELETE FROM presets WHERE engine = ?1";

/// Adds one row.
pub const INSERT_ROW: &'static str = "INSERT INTO presets
   (engine, name, path, load_key, category, features, creators,
    description, is_factory, favorite, last_used, mtime)
 VALUES (?1, ?2, ?3, ?4, ?5, ?6, ?7, ?8, ?9, ?10, ?11, ?12)";

/// The files that an engine's rows came from, with their times.
pub const SELECT_FILES: &'static str =
    "SELECT path, mtime FROM presets WHERE engine = ?1 AND path IS NOT NULL";

/// The categories of an engine.
pub const SELECT_CATEGORIES: &'static str = "SELECT DISTINCT category FROM presets
 WHERE engine = ?1 AND category IS NOT NULL
 ORDER BY category COLLATE NOCASE";

/// Sets or clears a favorite.
pub const UPDATE_FAVORITE: &'static str = "UPDATE presets SET favorite = ?2 WHERE id = ?1";

/// Stamps a preset as used.
pub const UPDATE_LAST_USED: &'static str = "UPDATE presets SET last_used = ?2 WHERE id = ?1";

/// One preset by id.
pub const SELECT_BY_ID: &'static str =
    "SELECT id, engine, name, path, load_key, category, features,
        creators, description, is_factory, favorite, last_used
 FROM presets WHERE id = ?1";

/// The number of an engine's presets.
pub const COUNT_ENGINE: &'static str = "SELECT COUNT(*) FROM presets WHERE engine = ?1";

/// A statement with its text arguments, in order.
#[derive(Debug)]
pub struct Statement {
    pub sql: String,
    pub args: Vec<String>,
}

/// A text with the characters that have a meaning in a `LIKE` pattern
/// marked as literal.
pub open spec fn escaped(text: Seq<char>) -> Seq<char>
    decreases text.len(),
{
    if text.len() == 0 {
        text
    } else {
        let front = escaped(text.drop_last());
        let c = text.last();
        if c == '\\' || c == '%' || c == '_' {
            front.push('\\').push(c)
        } else {
            front.push(c)
        }
    }
}

/// Marks the wildcards and the escape character in a query as literal.
pub fn escape_like(query: &str) -> (pattern: String)
    ensures
        pattern@ == escaped(query@),
{
    let chars = chars_of(query);
    let mut pattern = String::new();
    let mut i: usize = 0;
    while i < chars.len()
        invariant
            i <= chars@.len(),
            chars@ == query@,
            pattern@ == escaped(chars@.take(i as int)),
        decreases chars@.len() - i,
    {
        assert(chars@.take(i + 1).drop_last() =~= chars@.take(i as int));
        let c = chars[i];
        if c == '\\' || c == '%' || c == '_' {
            pattern.push('\\');
        }
        pattern.push(c);
        i += 1;
    }
    assert(chars@.take(i as int) =~= chars@);
    pattern
}

/// A filter part of a search statement, if its field is set.
pub open spec fn part(set: bool, sql: Seq<char>) -> Seq<char> {
    if set {
        sql
    } else {
        Seq::empty()
    }
}

/// The head of every search.
pub const SEARCH_HEAD: &'static str =
    "SELECT id, engine, name, path, load_key, category, features,
        creators, description, is_factory, favorite, last_used
 FROM presets WHERE 1=1";

/// What a filter's field asks for: nothing where it is empty.
pub open spec fn sought(field: Option<Seq<char>>) -> Option<Seq<char>> {
    match field {
        Some(text) => if text.len() > 0 {
            Some(text)
        } else {
            None
        },
        None => None,
    }
}

/// The statement that a filter makes.
pub open spec fn search_sql(filter: FilterView) -> Seq<char> {
    SEARCH_HEAD@ + part(sought(filter.engine) is Some, " AND engine = ?"@) + part(
        sought(filter.query) is Some,
        " AND name LIKE ? ESCAPE '\\'"@,
    ) + part(sought(filter.category) is Some, " AND category = ?"@) + part(
        filter.favorites_only,
        " AND favorite != 0"@,
    ) + " ORDER BY category, name COLLATE NOCASE"@
}

/// An optional argument as a list of at most one.
pub open spec fn opt_arg(arg: Option<Seq<char>>) -> Seq<Seq<char>> {
    match arg {
        Some(a) => seq![a],
        None => Seq::empty(),
    }
}

/// The pattern for names that contain a query.
pub open spec fn like_pattern(query: Seq<char>) -> Seq<char> {
    seq!['%'] + escaped(query) + seq!['%']
}

/// The arguments of [`search_sql`], in order.
pub open spec fn search_args(filter: FilterView) -> Seq<Seq<char>> {
    opt_arg(sought(filter.engine)) + opt_arg(
        match sought(filter.query) {
            Some(query) => Some(like_pattern(query)),
            None => None,
        },
    ) + opt_arg(sought(filter.category))
}

fn add_arg(args: &mut Vec<String>, arg: String)
    ensures
        crate::text::texts(final(args)@) == crate::text::texts(old(args)@).push(arg@),
{
    args.push(arg);
    assert(crate::text::texts(args@) =~= crate::text::texts(old(args)@).push(arg@));
}

fn ask<'a>(field: &'a Option<String>) -> (wanted: Option<&'a String>)
    ensures
        match wanted {
            Some(text) => sought(crate::text::opt_text(*field)) == Some(text@),
            None => sought(crate::text::opt_text(*field)) is None,
        },
{
    match field {
        Some(text) => {
            proof {
                reveal_strlit("");
                if text@.len() == 0 {
                    assert(text@ =~= ""@);
                }
            }
            if crate::text::same(text.as_str(), "") {
                None
            } else {
                Some(text)
            }
        },
        None => None,
    }
}

/// The search statement of a filter, with its arguments.
pub fn search_statement(filter: &Filter) -> (statement: Statement)
    ensures
        statement.sql@ == search_sql(filter@),
        crate::text::texts(statement.args@) == search_args(filter@),
{
    let mut sql = SEARCH_HEAD.to_owned();
    let mut args: Vec<String> = Vec::new();
    assert(crate::text::texts(args@) =~= Seq::<Seq<char>>::empty());
    if let Some(engine) = ask(&filter.engine) {
        sql.append(" AND engine = ?");
        add_arg(&mut args, engine.clone());
    }
    assert(crate::text::texts(args@) =~= opt_arg(sought(filter@.engine)));
    if let Some(query) = ask(&filter.query) {
        sql.append(" AND name LIKE ? ESCAPE '\\'");
        let mut pattern = String::new();
        pattern.push('%');
        pattern.append(escape_like(query.as_str()).as_str());
        pattern.push('%');
        assert(pattern@ =~= like_pattern(query@));
        add_arg(&mut args, pattern);
    }
    if let Some(category) = ask(&filter.category) {
        sql.append(" AND category = ?");
        add_arg(&mut args, category.clone());
    }
    if filter.favorites_only {
        sql.append(" AND favorite != 0");
    }
    sql.append(" ORDER BY category, name COLLATE NOCASE");
    assert(sql@ =~= search_sql(filter@));
    assert(crate::text::texts(args@) =~= search_args(filter@));
    Statement { sql, args }
}

/// An empty field matches everything: it makes the same statement as none.
pub proof fn law_empty_fields_match_everything(filter: FilterView)
    ensures
        ({
            let plain = FilterView {
                engine: sought(filter.engine),
                query: sought(filter.query),
                category: sought(filter.category),
                favorites_only: filter.favorites_only,
            };
            &&& search_sql(filter) == search_sql(plain)
            &&& search_args(filter) == search_args(plain)
        }),
        sought(Some(Seq::<char>::empty())) is None,
{
}

// ---------------------------------------------------------------------
// Lists in one column
// ---------------------------------------------------------------------

/// The character between the parts of a list in one column.
pub open spec fn separator() -> Seq<char> {
    seq!['\u{1}']
}

/// The parts of a text that the separator divides; none of an empty text.
pub open spec fn split_parts(joined: Seq<char>) -> Seq<Seq<char>> {
    if joined.len() == 0 {
        Seq::empty()
    } else {
        divided(joined)
    }
}

/// The parts between separators, one more than there are separators.
pub open spec fn divided(text: Seq<char>) -> Seq<Seq<char>>
    decreases text.len(),
{
    if text.len() == 0 {
        seq![Seq::empty()]
    } else {
        let front = divided(text.drop_last());
        if text.last() == '\u{1}' {
            front.push(Seq::empty())
        } else {
            front.drop_last().push(front.last().push(text.last()))
        }
    }
}

proof fn lemma_divided_not_empty(text: Seq<char>)
    ensures
        divided(text).len() >= 1,
    decreases text.len(),
{
    if text.len() > 0 {
        lemma_divided_not_empty(text.drop_last());
    }
}

/// Splits a column into the list it holds.
pub fn split_list(joined: &str) -> (list: Vec<String>)
    ensures
        crate::text::texts(list@) == split_parts(joined@),
{
    let chars = chars_of(joined);
    let mut list: Vec<String> = Vec::new();
    if chars.len() == 0 {
        assert(crate::text::texts(list@) =~= split_parts(joined@));
        return list;
    }
    let mut start: usize = 0;
    let mut i: usize = 0;
    assert(chars@.subrange(0, 0) =~= Seq::<char>::empty());
    assert(chars@.take(0) =~= Seq::<char>::empty());
    assert(crate::text::texts(list@).push(chars@.subrange(0, 0)) =~= divided(chars@.take(0)));
    while i < chars.len()
        invariant
            start <= i <= chars@.len(),
            chars@ == joined@,
            crate::text::texts(list@).push(chars@.subrange(start as int, i as int)) == divided(
                chars@.take(i as int),
            ),
        decreases chars@.len() - i,
    {
        let ghost parts = crate::text::texts(list@);
        let ghost part = chars@.subrange(start as int, i as int);
        proof {
            assert(chars@.take(i + 1).drop_last() =~= chars@.take(i as int));
            let front = divided(chars@.take(i as int));
            assert(front.drop_last() =~= parts);
            assert(front.last() == part);
        }
        if chars[i] == '\u{1}' {
            list.push(slice_text(&chars, start, i));
            assert(crate::text::texts(list@) =~= parts.push(part));
            start = i + 1;
            assert(chars@.subrange(start as int, i + 1) =~= Seq::<char>::empty());
        } else {
            assert(chars@.subrange(start as int, i + 1) =~= part.push(chars@[i as int]));
        }
        i += 1;
    }
    assert(chars@.take(i as int) =~= chars@);
    let ghost parts = crate::text::texts(list@);
    list.push(slice_text(&chars, start, i));
    assert(crate::text::texts(list@) =~= parts.push(chars@.subrange(start as int, i as int)));
    list
}

proof fn lemma_divided_append(text: Seq<char>, more: Seq<char>)
    requires
        !more.contains('\u{1}'),
    ensures
        divided(text + more) == divided(text).drop_last().push(divided(text).last() + more),
    decreases more.len(),
{
    lemma_divided_not_empty(text);
    if more.len() == 0 {
        assert(text + more =~= text);
        assert(divided(text).last() + more =~= divided(text).last());
        assert(divided(text) =~= divided(text).drop_last().push(divided(text).last()));
    } else {
        let front = more.drop_last();
        assert forall|c: char| front.contains(c) implies more.contains(c) by {
            let k = choose|k: int| 0 <= k < front.len() && front[k] == c;
            assert(more[k] == c);
        }
        lemma_divided_append(text, front);
        assert((text + more).drop_last() =~= text + front);
        assert(more.contains(more.last()));
        let d = divided(text + front);
        assert(d.last() == divided(text).last() + front);
        assert(d.last().push(more.last()) =~= divided(text).last() + more);
        assert(d.drop_last() =~= divided(text).drop_last());
    }
}

/// A list survives a column: splitting what was joined gives it back,
/// unless a part holds the separator, or the list is one empty part.
pub proof fn law_lists_survive_a_column(list: Seq<Seq<char>>)
    requires
        forall|i: int| 0 <= i < list.len() ==> !(#[trigger] list[i]).contains('\u{1}'),
        list.len() == 1 ==> list[0].len() > 0,
    ensures
        split_parts(crate::text::joined(list, separator())) == list,
{
    let joined = crate::text::joined(list, separator());
    if list.len() == 0 {
        assert(list =~= Seq::<Seq<char>>::empty());
    } else {
        lemma_divided_joined(list);
        if list.len() > 1 {
            assert(joined.len() >= 1);
        }
    }
}

proof fn lemma_divided_joined(list: Seq<Seq<char>>)
    requires
        list.len() > 0,
        forall|i: int| 0 <= i < list.len() ==> !(#[trigger] list[i]).contains('\u{1}'),
    ensures
        divided(crate::text::joined(list, separator())) == list,
    decreases list.len(),
{
    let empty = Seq::<char>::empty();
    if list.len() == 1 {
        lemma_divided_append(empty, list[0]);
        assert(empty + list[0] =~= list[0]);
        assert(divided(empty) == seq![empty]);
        assert(divided(empty).last() + list[0] =~= list[0]);
        assert(divided(empty).drop_last().push(list[0]) =~= list);
    } else {
        let rest = list.drop_last();
        assert forall|i: int| 0 <= i < rest.len() implies !(#[trigger] rest[i]).contains(
            '\u{1}',
        ) by {
            assert(rest[i] == list[i]);
        }
        lemma_divided_joined(rest);
        let front = crate::text::joined(rest, separator());
        let middle = front + separator();
        assert(middle.drop_last() =~= front);
        assert(divided(middle) == divided(front).push(empty));
        assert(divided(middle).drop_last() =~= rest);
        assert(divided(middle).last() == empty);
        lemma_divided_append(middle, list.last());
        assert(empty + list.last() =~= list.last());
        assert(rest.push(list.last()) =~= list);
    }
}

// ---------------------------------------------------------------------
// What a search finds
// ---------------------------------------------------------------------

/// A letter of the English alphabet in lower case, anything else as it is.
pub open spec fn folded(c: char) -> char {
    if 'A' <= c <= 'Z' {
        ((c as u32) + 32) as char
    } else {
        c
    }
}

/// Whether a text matches a `LIKE` pattern with `\` as its escape
/// character, letters of the English alphabet in either case.
pub open spec fn like(pattern: Seq<char>, text: Seq<char>) -> bool
    decreases pattern.len(), text.len(),
{
    if pattern.len() == 0 {
        text.len() == 0
    } else if pattern[0] == '\\' && pattern.len() > 1 {
        text.len() > 0 && folded(pattern[1]) == folded(text[0]) && like(
            pattern.skip(2),
            text.drop_first(),
        )
    } else if pattern[0] == '%' {
        like(pattern.drop_first(), text) || (text.len() > 0 && like(pattern, text.drop_first()))
    } else if pattern[0] == '_' {
        text.len() > 0 && like(pattern.drop_first(), text.drop_first())
    } else {
        text.len() > 0 && folded(pattern[0]) == folded(text[0]) && like(
            pattern.drop_first(),
            text.drop_first(),
        )
    }
}

/// Whether `query` stands in `text` from `at` on, letters of the English
/// alphabet in either case.
pub open spec fn stands_at(text: Seq<char>, query: Seq<char>, at: int) -> bool {
    &&& 0 <= at
    &&& at + query.len() <= text.len()
    &&& forall|i: int|
        0 <= i < query.len() ==> folded(#[trigger] query[i]) == folded(text[at + i])
}

/// A text marked as literal, from the front.
proof fn lemma_escaped_front(text: Seq<char>)
    requires
        text.len() > 0,
    ensures
        escaped(text) == (if text[0] == '\\' || text[0] == '%' || text[0] == '_' {
            seq!['\\', text[0]]
        } else {
            seq![text[0]]
        }) + escaped(text.drop_first()),
    decreases text.len(),
{
    if text.len() == 1 {
        assert(text.drop_last() =~= Seq::<char>::empty());
        assert(text.drop_first() =~= Seq::<char>::empty());
        assert(escaped(text) =~= (if text[0] == '\\' || text[0] == '%' || text[0] == '_' {
            seq!['\\', text[0]]
        } else {
            seq![text[0]]
        }) + escaped(text.drop_first()));
    } else {
        lemma_escaped_front(text.drop_last());
        assert(text.drop_last().drop_first() =~= text.drop_first().drop_last());
        assert(escaped(text) =~= (if text[0] == '\\' || text[0] == '%' || text[0] == '_' {
            seq!['\\', text[0]]
        } else {
            seq![text[0]]
        }) + escaped(text.drop_first()));
    }
}

proof fn lemma_percent_matches_all(text: Seq<char>)
    ensures
        like(seq!['%'], text),
    decreases text.len(),
{
    let p = seq!['%'];
    assert(p.drop_first() =~= Seq::<char>::empty());
    if text.len() > 0 {
        lemma_percent_matches_all(text.drop_first());
    } else {
        assert(like(Seq::<char>::empty(), text));
    }
}

proof fn lemma_literal_prefix(query: Seq<char>, text: Seq<char>)
    ensures
        like(escaped(query) + seq!['%'], text) <==> stands_at(text, query, 0),
    decreases query.len(),
{
    let tail = seq!['%'];
    if query.len() == 0 {
        assert(escaped(query) + tail =~= tail);
        lemma_percent_matches_all(text);
    } else {
        lemma_escaped_front(query);
        let c = query[0];
        let rest = query.drop_first();
        let pattern = escaped(query) + tail;
        if c == '\\' || c == '%' || c == '_' {
            assert(pattern =~= seq!['\\', c] + (escaped(rest) + tail));
            assert(pattern.skip(2) =~= escaped(rest) + tail);
        } else {
            assert(pattern =~= seq![c] + (escaped(rest) + tail));
            assert(pattern.drop_first() =~= escaped(rest) + tail);
        }
        if text.len() > 0 {
            let left = text.drop_first();
            lemma_literal_prefix(rest, left);
            if stands_at(text, query, 0) {
                assert(folded(query[0]) == folded(text[0]));
                assert forall|i: int| 0 <= i < rest.len() implies folded(#[trigger] rest[i])
                    == folded(left[0 + i]) by {
                    assert(rest[i] == query[i + 1]);
                    assert(folded(query[i + 1]) == folded(text[0 + (i + 1)]));
                }
            }
            if folded(c) == folded(text[0]) && stands_at(left, rest, 0) {
                assert forall|i: int| 0 <= i < query.len() implies folded(#[trigger] query[i])
                    == folded(text[0 + i]) by {
                    if i > 0 {
                        assert(folded(rest[i - 1]) == folded(left[0 + (i - 1)]));
                    }
                }
            }
        }
    }
}

/// A search finds a name exactly where the query stands in it somewhere,
/// whatever characters the query holds: wildcards count as themselves.
pub proof fn law_search_finds_substrings(query: Seq<char>, name: Seq<char>)
    ensures
        like(like_pattern(query), name) <==> exists|at: int| stands_at(name, query, at),
    decreases name.len(),
{
    let pattern = like_pattern(query);
    let rest = escaped(query) + seq!['%'];
    assert(pattern =~= seq!['%'] + rest);
    assert(pattern.drop_first() =~= rest);
    lemma_literal_prefix(query, name);
    if name.len() > 0 {
        let left = name.drop_first();
        law_search_finds_substrings(query, left);
        if exists|at: int| stands_at(left, query, at) {
            let at = choose|at: int| stands_at(left, query, at);
            assert forall|i: int| 0 <= i < query.len() implies folded(#[trigger] query[i])
                == folded(name[at + 1 + i]) by {
                assert(left[at + i] == name[at + 1 + i]);
            }
            assert(stands_at(name, query, at + 1));
        }
        if exists|at: int| stands_at(name, query, at) {
            let at = choose|at: int| stands_at(name, query, at);
            if at > 0 {
                assert forall|i: int| 0 <= i < query.len() implies folded(#[trigger] query[i])
                    == folded(left[at - 1 + i]) by {
                    assert(left[at - 1 + i] == name[at + i]);
                }
                assert(stands_at(left, query, at - 1));
            }
        }
    } else {
        if exists|at: int| stands_at(name, query, at) {
            let at = choose|at: int| stands_at(name, query, at);
            assert(at == 0);
        }
    }
}

// ---------------------------------------------------------------------
// Rows
// ---------------------------------------------------------------------

/// A row as the columns hold it.
#[derive(Debug)]
pub struct StoredRow {
    pub id: i64,
    pub engine: String,
    pub name: String,
    pub path: Option<String>,
    pub load_key: Option<String>,
    pub category: Option<String>,
    pub features: String,
    pub creators: String,
    pub description: Option<String>,
    pub is_factory: i64,
    pub favorite: i64,
    pub last_used: Option<i64>,
}

/// What the columns of a row say: lists split, numbers as flags.
pub open spec fn row_read(row: StoredRow) -> RowView {
    RowView {
        id: row.id,
        engine: row.engine@,
        name: row.name@,
        path: crate::text::opt_text(row.path),
        load_key: crate::text::opt_text(row.load_key),
        category: crate::text::opt_text(row.category),
        features: split_parts(row.features@),
        creators: split_parts(row.creators@),
        description: crate::text::opt_text(row.description),
        is_factory: row.is_factory != 0,
        favorite: row.favorite != 0,
        last_used: row.last_used,
    }
}

/// What a row means: lists split, numbers as flags.
pub fn row_to_preset(row: StoredRow) -> (preset: PresetRow)
    ensures
        preset@ == row_read(row),
{
    PresetRow {
        id: row.id,
        engine: row.engine,
        name: row.name,
        path: row.path,
        load_key: row.load_key,
        category: row.category,
        features: split_list(row.features.as_str()),
        creators: split_list(row.creators.as_str()),
        description: row.description,
        is_factory: row.is_factory != 0,
        favorite: row.favorite != 0,
        last_used: row.last_used,
    }
}

/// A row to be stored, in the order of [`INSERT_ROW`].
#[derive(Debug)]
pub struct NewRow {
    pub engine: String,
    pub name: String,
    pub path: Option<String>,
    pub load_key: Option<String>,
    pub category: Option<String>,
    pub features: String,
    pub creators: String,
    pub description: Option<String>,
    pub is_factory: bool,
    pub favorite: bool,
    pub last_used: Option<i64>,
    pub mtime: Option<i64>,
}

/// What a [`NewRow`] holds.
#[verifier::ext_equal]
pub struct NewRowView {
    pub engine: Seq<char>,
    pub name: Seq<char>,
    pub path: Option<Seq<char>>,
    pub load_key: Option<Seq<char>>,
    pub category: Option<Seq<char>>,
    pub features: Seq<char>,
    pub creators: Seq<char>,
    pub description: Option<Seq<char>>,
    pub is_factory: bool,
    pub favorite: bool,
    pub last_used: Option<i64>,
    pub mtime: Option<i64>,
}

impl View for NewRow {
    type V = NewRowView;

    open spec fn view(&self) -> NewRowView {
        NewRowView {
            engine: self.engine@,
            name: self.name@,
            path: crate::text::opt_text(self.path),
            load_key: crate::text::opt_text(self.load_key),
            category: crate::text::opt_text(self.category),
            features: self.features@,
            creators: self.creators@,
            description: crate::text::opt_text(self.description),
            is_factory: self.is_factory,
            favorite: self.favorite,
            last_used: self.last_used,
            mtime: self.mtime,
        }
    }
}

/// The user state of one preset across a rescan: a row of
/// [`SELECT_PRESERVED`].
#[derive(Debug)]
pub struct Preserved {
    pub key: String,
    pub favorite: bool,
    pub last_used: Option<i64>,
}

/// What a [`Preserved`] says.
pub struct PreservedView {
    pub key: Seq<char>,
    pub favorite: bool,
    pub last_used: Option<i64>,
}

impl View for Preserved {
    type V = PreservedView;

    open spec fn view(&self) -> PreservedView {
        PreservedView { key: self.key@, favorite: self.favorite, last_used: self.last_used }
    }
}

/// What a list of preserved states says.
pub open spec fn preserved_view(preserved: Seq<Preserved>) -> Seq<PreservedView> {
    preserved.map_values(|p: Preserved| p@)
}

/// An optional text, or the empty one.
pub open spec fn or_empty(text: Option<Seq<char>>) -> Seq<char> {
    match text {
        Some(t) => t,
        None => Seq::empty(),
    }
}

/// What tells one preset from another: path, load key and name.
pub open spec fn preset_key(
    path: Option<Seq<char>>,
    load_key: Option<Seq<char>>,
    name: Seq<char>,
) -> Seq<char> {
    or_empty(path) + separator() + or_empty(load_key) + separator() + name
}

/// The user state preserved under a key: that of its first entry, or none.
pub open spec fn state_of(preserved: Seq<PreservedView>, key: Seq<char>) -> (bool, Option<i64>)
    decreases preserved.len(),
{
    if preserved.len() == 0 {
        (false, None)
    } else if preserved[0].key == key {
        (preserved[0].favorite, preserved[0].last_used)
    } else {
        state_of(preserved.drop_first(), key)
    }
}

/// The row of a scanned preset, with its preserved user state.
pub open spec fn new_row(
    engine: Seq<char>,
    preset: ImportView,
    preserved: Seq<PreservedView>,
) -> NewRowView {
    let (favorite, last_used) = state_of(
        preserved,
        preset_key(preset.path, preset.load_key, preset.name),
    );
    NewRowView {
        engine,
        name: preset.name,
        path: preset.path,
        load_key: preset.load_key,
        category: preset.category,
        features: crate::text::joined(preset.features, separator()),
        creators: crate::text::joined(preset.creators, separator()),
        description: preset.description,
        is_factory: preset.is_factory,
        favorite,
        last_used,
        mtime: preset.mtime,
    }
}

fn key_of(preset: &ImportPreset) -> (key: String)
    ensures
        key@ == preset_key(preset@.path, preset@.load_key, preset@.name),
{
    let mut key = match &preset.path {
        Some(path) => path.clone(),
        None => String::new(),
    };
    key.push('\u{1}');
    match &preset.load_key {
        Some(load_key) => {
            key.append(load_key.as_str());
        },
        None => {},
    }
    key.push('\u{1}');
    key.append(preset.name.as_str());
    assert(key@ =~= preset_key(preset@.path, preset@.load_key, preset@.name));
    key
}

fn find_state(preserved: &Vec<Preserved>, key: &str) -> (state: (bool, Option<i64>))
    ensures
        state == state_of(preserved_view(preserved@), key@),
{
    let ghost views = preserved_view(preserved@);
    let mut i: usize = 0;
    assert(views.skip(0) =~= views);
    while i < preserved.len()
        invariant
            i <= preserved@.len(),
            views == preserved_view(preserved@),
            state_of(views, key@) == state_of(views.skip(i as int), key@),
        decreases preserved@.len() - i,
    {
        assert(views.skip(i as int)[0] == preserved@[i as int]@);
        assert(views.skip(i as int).drop_first() =~= views.skip(i + 1));
        if same(preserved[i].key.as_str(), key) {
            return (preserved[i].favorite, preserved[i].last_used);
        }
        i += 1;
    }
    (false, None)
}

/// The rows of a full rescan for one engine, in the order of the presets:
/// favorite flags and last-used stamps of presets that still exist
/// (matched on path + load key + name) are preserved.
pub fn rescan_rows(engine: &str, presets: &[ImportPreset], preserved: &Vec<Preserved>) -> (rows:
    Vec<NewRow>)
    ensures
        rows@.len() == presets@.len(),
        forall|i: int|
            0 <= i < rows@.len() ==> (#[trigger] rows@[i])@ == new_row(
                engine@,
                presets@[i]@,
                preserved_view(preserved@),
            ),
{
    let mut rows: Vec<NewRow> = Vec::new();
    let mut i: usize = 0;
    while i < presets.len()
        invariant
            i <= presets@.len(),
            rows@.len() == i,
            forall|j: int|
                0 <= j < i ==> (#[trigger] rows@[j])@ == new_row(
                    engine@,
                    presets@[j]@,
                    preserved_view(preserved@),
                ),
        decreases presets@.len() - i,
    {
        let preset = &presets[i];
        let (favorite, last_used) = find_state(preserved, key_of(preset).as_str());
        let mut divider = String::new();
        divider.push('\u{1}');
        assert(divider@ =~= separator());
        rows.push(
            NewRow {
                engine: engine.to_owned(),
                name: preset.name.clone(),
                path: copy_opt(&preset.path),
                load_key: copy_opt(&preset.load_key),
                category: copy_opt(&preset.category),
                features: join(&preset.features, divider.as_str()),
                creators: join(&preset.creators, divider.as_str()),
                description: copy_opt(&preset.description),
                is_factory: preset.is_factory,
                favorite,
                last_used,
                mtime: preset.mtime,
            },
        );
        i += 1;
    }
    rows
}

/// The stored files with their times; a file without a time counts as -1.
pub open spec fn stored_files(stored: Seq<(String, Option<i64>)>) -> Set<(Seq<char>, i64)> {
    Set::new(
        |f: (Seq<char>, i64)|
            exists|i: int|
                0 <= i < stored.len() && (#[trigger] stored[i]).0@ == f.0
                    && crate::app_core::mapping::or_else(stored[i].1, (-1) as i64) == f.1,
    )
}

/// The files that a scanner finds, with their times.
pub open spec fn current_files(current: Seq<(String, i64)>) -> Set<(Seq<char>, i64)> {
    Set::new(
        |f: (Seq<char>, i64)|
            exists|i: int| 0 <= i < current.len() && (#[trigger] current[i]).0@ == f.0
                && current[i].1 == f.1,
    )
}

fn time_of(mtime: Option<i64>) -> (t: i64)
    ensures
        t == crate::app_core::mapping::or_else(mtime, (-1) as i64),
{
    match mtime {
        Some(t) => t,
        None => -1,
    }
}

/// Whether a rescan is needed: true when the stored (path, mtime) set
/// differs from what the scanner would index now. This is the cheap
/// incremental path; a full rescan follows only when it returns true.
/// `stored` is what [`SELECT_FILES`] gives.
pub fn needs_rescan(stored: &Vec<(String, Option<i64>)>, current: &Vec<(String, i64)>) -> (r: bool)
    ensures
        r == (stored_files(stored@) != current_files(current@)),
{
    let ghost a = stored_files(stored@);
    let ghost b = current_files(current@);
    let mut i: usize = 0;
    while i < stored.len()
        invariant
            i <= stored@.len(),
            a == stored_files(stored@),
            b == current_files(current@),
            forall|k: int|
                0 <= k < i ==> b.contains(
                    (
                        (#[trigger] stored@[k]).0@,
                        crate::app_core::mapping::or_else(stored@[k].1, (-1) as i64),
                    ),
                ),
        decreases stored@.len() - i,
    {
        let time: i64 = time_of(stored[i].1);
        let mut found = false;
        let mut j: usize = 0;
        while j < current.len() && !found
            invariant
                i < stored@.len(),
                j <= current@.len(),
                b == current_files(current@),
                found ==> b.contains((stored@[i as int].0@, time)),
                !found ==> forall|k: int|
                    0 <= k < j ==> !((#[trigger] current@[k]).0@ == stored@[i as int].0@
                        && current@[k].1 == time),
            decreases current@.len() - j,
        {
            if current[j].1 == time && same(current[j].0.as_str(), stored[i].0.as_str()) {
                assert(current@[j as int].0@ == stored@[i as int].0@);
                found = true;
            }
            j += 1;
        }
        if !found {
            proof {
                let f = (stored@[i as int].0@, time);
                assert(a.contains(f));
                assert(!b.contains(f));
            }
            return true;
        }
        i += 1;
    }
    let mut i: usize = 0;
    while i < current.len()
        invariant
            i <= current@.len(),
            a == stored_files(stored@),
            b == current_files(current@),
            forall|k: int|
                0 <= k < i ==> a.contains(((#[trigger] current@[k]).0@, current@[k].1)),
        decreases current@.len() - i,
    {
        let mut found = false;
        let mut j: usize = 0;
        while j < stored.len() && !found
            invariant
                i < current@.len(),
                j <= stored@.len(),
                a == stored_files(stored@),
                found ==> a.contains((current@[i as int].0@, current@[i as int].1)),
                !found ==> forall|k: int|
                    0 <= k < j ==> !((#[trigger] stored@[k]).0@ == current@[i as int].0@
                        && crate::app_core::mapping::or_else(stored@[k].1, (-1) as i64)
                        == current@[i as int].1),
            decreases stored@.len() - j,
        {
            if time_of(stored[j].1) == current[i].1 && same(
                stored[j].0.as_str(),
                current[i].0.as_str(),
            ) {
                assert(stored@[j as int].0@ == current@[i as int].0@);
                found = true;
            }
            j += 1;
        }
        if !found {
            proof {
                let f = (current@[i as int].0@, current@[i as int].1);
                assert(current@[i as int].0@ == f.0);
                assert(b.contains(f));
                assert(!a.contains(f));
            }
            return true;
        }
        i += 1;
    }
    proof {
        assert forall|f: (Seq<char>, i64)| a.contains(f) <==> b.contains(f) by {
            if a.contains(f) {
                let k = choose|k: int|
                    0 <= k < stored@.len() && (#[trigger] stored@[k]).0@ == f.0
                        && crate::app_core::mapping::or_else(stored@[k].1, (-1) as i64) == f.1;
                assert(b.contains((stored@[k].0@, f.1)));
            }
            if b.contains(f) {
                let k = choose|k: int|
                    0 <= k < current@.len() && (#[trigger] current@[k]).0@ == f.0 && current@[k].1
                        == f.1;
                assert(a.contains((current@[k].0@, current@[k].1)));
            }
        }
        assert(a =~= b);
    }
    false
}

/// Whether an engine's presets have to be indexed before they are used:
/// the index is empty, or stale. `count` is what [`COUNT_ENGINE`] gives,
/// `stored` what [`SELECT_FILES`] gives, and `current` the files that a
/// scanner would index now.
pub fn must_scan(
    count: i64,
    stored: &Vec<(String, Option<i64>)>,
    current: &Vec<(String, i64)>,
) -> (r: bool)
    ensures
        r == (count == 0 || stored_files(stored@) != current_files(current@)),
{
    count == 0 || needs_rescan(stored, current)
}

/// The files of presets with their times, in order; -1 for a time that is
/// not known.
pub open spec fn files_of(presets: Seq<ImportPreset>) -> Seq<(Seq<char>, i64)>
    decreases presets.len(),
{
    if presets.len() == 0 {
        Seq::empty()
    } else {
        let front = files_of(presets.drop_last());
        match presets.last().path {
            Some(path) => front.push(
                (path@, crate::app_core::mapping::or_else(presets.last().mtime, (-1) as i64)),
            ),
            None => front,
        }
    }
}

/// The files that a scan would index.
pub fn indexed_files(presets: &Vec<ImportPreset>) -> (files: Vec<(String, i64)>)
    ensures
        files@.map_values(|file: (String, i64)| (file.0@, file.1)) == files_of(presets@),
{
    let mut files: Vec<(String, i64)> = Vec::new();
    let mut i: usize = 0;
    assert(files@.map_values(|file: (String, i64)| (file.0@, file.1)) =~= files_of(
        presets@.take(0),
    ));
    while i < presets.len()
        invariant
            i <= presets@.len(),
            files@.map_values(|file: (String, i64)| (file.0@, file.1)) == files_of(
                presets@.take(i as int),
            ),
        decreases presets@.len() - i,
    {
        assert(presets@.take(i + 1).drop_last() =~= presets@.take(i as int));
        assert(presets@.take(i + 1).last() == presets@[i as int]);
        if let Some(path) = &presets[i].path {
            let ghost before = files@;
            files.push((path.clone(), time_of(presets[i].mtime)));
            assert(files@.map_values(|file: (String, i64)| (file.0@, file.1)) =~= before.map_values(
                |file: (String, i64)| (file.0@, file.1),
            ).push((path@, files@.last().1)));
        }
        i += 1;
    }
    assert(presets@.take(i as int) =~= presets@);
    files
}

// ---------------------------------------------------------------------
// The table across a rescan
// ---------------------------------------------------------------------

/// The key of a stored row.
pub open spec fn row_key(row: NewRowView) -> Seq<char> {
    preset_key(row.path, row.load_key, row.name)
}

/// Whether a row has user state to preserve.
pub open spec fn has_state(row: NewRowView) -> bool {
    row.favorite || row.last_used is Some
}

/// Whether a list is what [`SELECT_PRESERVED`] gives for an engine: the
/// state of each of its rows that has any, in whatever order.
pub open spec fn preserves(
    table: Seq<NewRowView>,
    engine: Seq<char>,
    preserved: Seq<PreservedView>,
) -> bool {
    &&& forall|i: int|
        0 <= i < table.len() && (#[trigger] table[i]).engine == engine && has_state(table[i])
            ==> exists|k: int|
            0 <= k < preserved.len() && #[trigger] preserved[k] == (PreservedView {
                key: row_key(table[i]),
                favorite: table[i].favorite,
                last_used: table[i].last_used,
            })
    &&& forall|k: int|
        0 <= k < preserved.len() ==> exists|i: int|
            0 <= i < table.len() && (#[trigger] table[i]).engine == engine && has_state(table[i])
                && #[trigger] preserved[k] == (PreservedView {
                key: row_key(table[i]),
                favorite: table[i].favorite,
                last_used: table[i].last_used,
            })
}

/// The rows that a deletion of an engine leaves, in order.
pub open spec fn rows_of_others(table: Seq<NewRowView>, engine: Seq<char>) -> Seq<NewRowView>
    decreases table.len(),
{
    if table.len() == 0 {
        table
    } else {
        let front = rows_of_others(table.drop_last(), engine);
        if table.last().engine == engine {
            front
        } else {
            front.push(table.last())
        }
    }
}

/// The table after a rescan: the rows of other engines, and the new ones.
pub open spec fn rescanned(
    table: Seq<NewRowView>,
    engine: Seq<char>,
    presets: Seq<ImportView>,
    preserved: Seq<PreservedView>,
) -> Seq<NewRowView> {
    rows_of_others(table, engine) + Seq::new(
        presets.len(),
        |i: int| new_row(engine, presets[i], preserved),
    )
}

proof fn lemma_state_of(preserved: Seq<PreservedView>, key: Seq<char>)
    ensures
        (forall|k: int| 0 <= k < preserved.len() ==> (#[trigger] preserved[k]).key != key)
            ==> state_of(preserved, key) == (false, None::<i64>),
        (exists|k: int| 0 <= k < preserved.len() && (#[trigger] preserved[k]).key == key)
            ==> exists|k: int|
            0 <= k < preserved.len() && (#[trigger] preserved[k]).key == key && state_of(
                preserved,
                key,
            ) == (preserved[k].favorite, preserved[k].last_used),
    decreases preserved.len(),
{
    if preserved.len() > 0 && preserved[0].key != key {
        let rest = preserved.drop_first();
        lemma_state_of(rest, key);
        if forall|k: int| 0 <= k < preserved.len() ==> (#[trigger] preserved[k]).key != key {
            assert forall|k: int| 0 <= k < rest.len() implies (#[trigger] rest[k]).key != key by {
                assert(rest[k] == preserved[k + 1]);
            }
        }
        if exists|k: int| 0 <= k < preserved.len() && (#[trigger] preserved[k]).key == key {
            let k = choose|k: int|
                0 <= k < preserved.len() && (#[trigger] preserved[k]).key == key;
            assert(rest[k - 1] == preserved[k]);
            let m = choose|m: int|
                0 <= m < rest.len() && (#[trigger] rest[m]).key == key && state_of(rest, key) == (
                    rest[m].favorite,
                    rest[m].last_used,
                );
            assert(preserved[m + 1] == rest[m]);
        }
    } else if preserved.len() > 0 {
        assert(preserved[0].key == key);
    }
}

/// Favorites and last-used stamps survive a rescan: a preset that is found
/// again has the user state that its row had, where only one row of the
/// engine has its key.
pub proof fn law_user_state_survives_a_rescan(
    table: Seq<NewRowView>,
    engine: Seq<char>,
    preset: ImportView,
    preserved: Seq<PreservedView>,
    row: int,
)
    requires
        preserves(table, engine, preserved),
        0 <= row < table.len(),
        table[row].engine == engine,
        row_key(table[row]) == preset_key(preset.path, preset.load_key, preset.name),
        forall|i: int|
            0 <= i < table.len() && (#[trigger] table[i]).engine == engine && row_key(table[i])
                == row_key(table[row]) ==> i == row,
    ensures
        new_row(engine, preset, preserved).favorite == table[row].favorite,
        new_row(engine, preset, preserved).last_used == table[row].last_used,
{
    let key = row_key(table[row]);
    lemma_state_of(preserved, key);
    if has_state(table[row]) {
        let k = choose|k: int|
            0 <= k < preserved.len() && #[trigger] preserved[k] == (PreservedView {
                key: row_key(table[row]),
                favorite: table[row].favorite,
                last_used: table[row].last_used,
            });
        assert(preserved[k].key == key);
        let m = choose|m: int|
            0 <= m < preserved.len() && (#[trigger] preserved[m]).key == key && state_of(
                preserved,
                key,
            ) == (preserved[m].favorite, preserved[m].last_used);
        let i = choose|i: int|
            0 <= i < table.len() && (#[trigger] table[i]).engine == engine && has_state(table[i])
                && #[trigger] preserved[m] == (PreservedView {
                key: row_key(table[i]),
                favorite: table[i].favorite,
                last_used: table[i].last_used,
            });
        assert(i == row);
    } else {
        assert forall|k: int| 0 <= k < preserved.len() implies (#[trigger] preserved[k]).key
            != key by {
            let i = choose|i: int|
                0 <= i < table.len() && (#[trigger] table[i]).engine == engine && has_state(
                    table[i],
                ) && #[trigger] preserved[k] == (PreservedView {
                    key: row_key(table[i]),
                    favorite: table[i].favorite,
                    last_used: table[i].last_used,
                });
            if preserved[k].key == key {
                assert(i == row);
            }
        }
    }
}

/// Presets that were not there before start without user state.
pub proof fn law_new_presets_start_clean(
    table: Seq<NewRowView>,
    engine: Seq<char>,
    preset: ImportView,
    preserved: Seq<PreservedView>,
)
    requires
        preserves(table, engine, preserved),
        forall|i: int|
            0 <= i < table.len() && (#[trigger] table[i]).engine == engine ==> row_key(table[i])
                != preset_key(preset.path, preset.load_key, preset.name),
    ensures
        !new_row(engine, preset, preserved).favorite,
        new_row(engine, preset, preserved).last_used is None,
{
    let key = preset_key(preset.path, preset.load_key, preset.name);
    lemma_state_of(preserved, key);
    assert forall|k: int| 0 <= k < preserved.len() implies (#[trigger] preserved[k]).key
        != key by {
        let i = choose|i: int|
            0 <= i < table.len() && (#[trigger] table[i]).engine == engine && has_state(table[i])
                && #[trigger] preserved[k] == (PreservedView {
                key: row_key(table[i]),
                favorite: table[i].favorite,
                last_used: table[i].last_used,
            });
    }
}

/// Engines are isolated: a rescan of one leaves the rows of every other as
/// they were, and gives it exactly one row for each preset.
pub proof fn law_engines_are_isolated(
    table: Seq<NewRowView>,
    engine: Seq<char>,
    presets: Seq<ImportView>,
    preserved: Seq<PreservedView>,
    other: Seq<char>,
)
    requires
        other != engine,
    ensures
        rows_of(rescanned(table, engine, presets, preserved), other) == rows_of(table, other),
        rows_of(rescanned(table, engine, presets, preserved), engine).len() == presets.len(),
{
    let kept = rows_of_others(table, engine);
    let added = Seq::new(presets.len(), |i: int| new_row(engine, presets[i], preserved));
    lemma_rows_of_append(kept, added, other);
    lemma_rows_of_append(kept, added, engine);
    lemma_rows_of_others(table, engine, other);
    lemma_rows_of_all(added, engine);
    lemma_rows_of_none(added, engine, other);
    assert(rows_of(kept, other) + Seq::<NewRowView>::empty() =~= rows_of(kept, other));
    assert(Seq::<NewRowView>::empty() + added =~= added);
}

/// The rows of one engine, in order.
pub open spec fn rows_of(table: Seq<NewRowView>, engine: Seq<char>) -> Seq<NewRowView>
    decreases table.len(),
{
    if table.len() == 0 {
        table
    } else {
        let front = rows_of(table.drop_last(), engine);
        if table.last().engine == engine {
            front.push(table.last())
        } else {
            front
        }
    }
}

proof fn lemma_rows_of_append(a: Seq<NewRowView>, b: Seq<NewRowView>, engine: Seq<char>)
    ensures
        rows_of(a + b, engine) == rows_of(a, engine) + rows_of(b, engine),
    decreases b.len(),
{
    if b.len() == 0 {
        assert(a + b =~= a);
        assert(rows_of(a, engine) + b =~= rows_of(a, engine));
    } else {
        lemma_rows_of_append(a, b.drop_last(), engine);
        assert((a + b).drop_last() =~= a + b.drop_last());
        assert(rows_of(a + b, engine) =~= rows_of(a, engine) + rows_of(b, engine));
    }
}

proof fn lemma_rows_of_others(table: Seq<NewRowView>, engine: Seq<char>, other: Seq<char>)
    requires
        other != engine,
    ensures
        rows_of(rows_of_others(table, engine), other) == rows_of(table, other),
        rows_of(rows_of_others(table, engine), engine) == Seq::<NewRowView>::empty(),
    decreases table.len(),
{
    if table.len() > 0 {
        lemma_rows_of_others(table.drop_last(), engine, other);
        let front = rows_of_others(table.drop_last(), engine);
        if table.last().engine != engine {
            assert(front.push(table.last()).drop_last() =~= front);
        }
    } else {
        assert(table =~= Seq::<NewRowView>::empty());
    }
}

proof fn lemma_rows_of_all(table: Seq<NewRowView>, engine: Seq<char>)
    requires
        forall|i: int| 0 <= i < table.len() ==> (#[trigger] table[i]).engine == engine,
    ensures
        rows_of(table, engine) == table,
    decreases table.len(),
{
    if table.len() > 0 {
        lemma_rows_of_all(table.drop_last(), engine);
        assert(table.drop_last().push(table.last()) =~= table);
    }
}

proof fn lemma_rows_of_none(table: Seq<NewRowView>, engine: Seq<char>, other: Seq<char>)
    requires
        other != engine,
        forall|i: int| 0 <= i < table.len() ==> (#[trigger] table[i]).engine == engine,
    ensures
        rows_of(table, other) == Seq::<NewRowView>::empty(),
    decreases table.len(),
{
    if table.len() > 0 {
        lemma_rows_of_none(table.drop_last(), engine, other);
    } else {
        assert(table =~= Seq::<NewRowView>::empty());
    }
}

/// A row that was stored reads back as the preset it was made of, lists
/// and all, where no part of a list holds the separator and no list is one
/// empty part.
pub proof fn law_stored_presets_read_back(
    engine: Seq<char>,
    preset: ImportView,
    preserved: Seq<PreservedView>,
)
    requires
        forall|i: int|
            0 <= i < preset.features.len() ==> !(#[trigger] preset.features[i]).contains('\u{1}'),
        forall|i: int|
            0 <= i < preset.creators.len() ==> !(#[trigger] preset.creators[i]).contains('\u{1}'),
        preset.features.len() == 1 ==> preset.features[0].len() > 0,
        preset.creators.len() == 1 ==> preset.creators[0].len() > 0,
    ensures
        split_parts(new_row(engine, preset, preserved).features) == preset.features,
        split_parts(new_row(engine, preset, preserved).creators) == preset.creators,
{
    law_lists_survive_a_column(preset.features);
    law_lists_survive_a_column(preset.creators);
}

// ---------------------------------------------------------------------
// What the statements mean
// ---------------------------------------------------------------------

/// Whether a text goes on with a piece of SQL.
pub open spec fn goes_on(text: Seq<char>, piece: Seq<char>) -> bool {
    0 < piece.len() <= text.len() && text.take(piece.len() as int) == piece
}

/// Whether a row meets the conditions that a statement ends with, up to its
/// order. Each condition with a question mark takes the next argument.
pub open spec fn meets(sql: Seq<char>, args: Seq<Seq<char>>, row: RowView) -> bool
    decreases sql.len(),
{
    if goes_on(sql, " AND engine = ?"@) {
        args.len() > 0 && row.engine == args[0] && meets(
            sql.skip(" AND engine = ?"@.len() as int),
            args.drop_first(),
            row,
        )
    } else if goes_on(sql, " AND name LIKE ? ESCAPE '\\'"@) {
        args.len() > 0 && like(args[0], row.name) && meets(
            sql.skip(" AND name LIKE ? ESCAPE '\\'"@.len() as int),
            args.drop_first(),
            row,
        )
    } else if goes_on(sql, " AND category = ?"@) {
        args.len() > 0 && row.category == Some(args[0]) && meets(
            sql.skip(" AND category = ?"@.len() as int),
            args.drop_first(),
            row,
        )
    } else if goes_on(sql, " AND favorite != 0"@) {
        row.favorite && meets(sql.skip(" AND favorite != 0"@.len() as int), args, row)
    } else {
        sql == " ORDER BY category, name COLLATE NOCASE"@ && args.len() == 0
    }
}

/// Whether a statement is a search of the presets that finds a row.
pub open spec fn finds(sql: Seq<char>, args: Seq<Seq<char>>, row: RowView) -> bool {
    let head =
        "SELECT id, engine, name, path, load_key, category, features,
        creators, description, is_factory, favorite, last_used
 FROM presets WHERE 1=1"@;
    goes_on(sql, head) && meets(sql.skip(head.len() as int), args, row)
}

proof fn lemma_goes_on(piece: Seq<char>, rest: Seq<char>)
    requires
        piece.len() > 0,
    ensures
        goes_on(piece + rest, piece),
        (piece + rest).skip(piece.len() as int) == rest,
{
    assert((piece + rest).take(piece.len() as int) =~= piece);
    assert((piece + rest).skip(piece.len() as int) =~= rest);
}

proof fn lemma_goes_otherwise(text: Seq<char>, piece: Seq<char>, i: int)
    requires
        0 <= i < piece.len(),
        i < text.len(),
        text[i] != piece[i],
    ensures
        !goes_on(text, piece),
{
    if goes_on(text, piece) {
        assert(text.take(piece.len() as int)[i] == text[i]);
    }
}

/// A search finds exactly the rows that match the filter: of the engine
/// asked for, with the query somewhere in the name, of the category asked
/// for, and favorites only where only those are wanted. What is not asked
/// for, or left empty, keeps nothing out.
pub proof fn law_a_search_finds_what_matches(filter: Filter, statement: Statement, row: RowView)
    requires
        statement.sql@ == search_sql(filter@),
        crate::text::texts(statement.args@) == search_args(filter@),
    ensures
        finds(statement.sql@, crate::text::texts(statement.args@), row) <==> ({
            &&& filter.engine matches Some(engine) ==> engine@.len() > 0 ==> row.engine == engine@
            &&& filter.query matches Some(query) ==> query@.len() > 0 ==> exists|at: int|
                stands_at(row.name, query@, at)
            &&& filter.category matches Some(category) ==> category@.len() > 0 ==> row.category
                == Some(category@)
            &&& filter.favorites_only ==> row.favorite
        }),
{
    let f = filter@;
    reveal_strlit(" AND engine = ?");
    reveal_strlit(" AND name LIKE ? ESCAPE '\\'");
    reveal_strlit(" AND category = ?");
    reveal_strlit(" AND favorite != 0");
    reveal_strlit(" ORDER BY category, name COLLATE NOCASE");
    reveal_strlit(
        "SELECT id, engine, name, path, load_key, category, features,
        creators, description, is_factory, favorite, last_used
 FROM presets WHERE 1=1",
    );
    let (e, q, c, v) = (
        " AND engine = ?"@,
        " AND name LIKE ? ESCAPE '\\'"@,
        " AND category = ?"@,
        " AND favorite != 0"@,
    );
    let order = " ORDER BY category, name COLLATE NOCASE"@;
    let (has_e, has_q, has_c) = (
        sought(f.engine) is Some,
        sought(f.query) is Some,
        sought(f.category) is Some,
    );
    let from_v = part(f.favorites_only, v) + order;
    let from_c = part(has_c, c) + from_v;
    let from_q = part(has_q, q) + from_c;
    let from_e = part(has_e, e) + from_q;
    let none = Seq::<char>::empty();
    assert(search_sql(f) =~= SEARCH_HEAD@ + from_e);
    lemma_goes_on(SEARCH_HEAD@, from_e);
    let args_c = opt_arg(sought(f.category));
    let args_q = opt_arg(
        match sought(f.query) {
            Some(query) => Some(like_pattern(query)),
            None => None,
        },
    ) + args_c;
    let args_e = opt_arg(sought(f.engine)) + args_q;
    assert(search_args(f) =~= args_e);
    let nothing = Seq::<Seq<char>>::empty();
    // The order.
    lemma_goes_otherwise(order, e, 1);
    lemma_goes_otherwise(order, q, 1);
    lemma_goes_otherwise(order, c, 1);
    lemma_goes_otherwise(order, v, 1);
    // Favorites.
    if f.favorites_only {
        lemma_goes_on(v, order);
        lemma_goes_otherwise(from_v, e, 5);
        lemma_goes_otherwise(from_v, q, 5);
        lemma_goes_otherwise(from_v, c, 5);
    } else {
        assert(from_v =~= order);
    }
    assert(meets(from_v, nothing, row) <==> (f.favorites_only ==> row.favorite)) by {
        assert(meets(order, nothing, row));
    }
    // The category.
    if has_c {
        lemma_goes_on(c, from_v);
        lemma_goes_otherwise(from_c, e, 5);
        lemma_goes_otherwise(from_c, q, 5);
        assert(args_c.drop_first() =~= nothing);
    } else {
        assert(from_c =~= from_v);
        assert(args_c =~= nothing);
    }
    let meets_c = (f.favorites_only ==> row.favorite) && (has_c ==> row.category == sought(
        f.category,
    ));
    assert(meets(from_c, args_c, row) <==> meets_c);
    // The query.
    if has_q {
        lemma_goes_on(q, from_c);
        lemma_goes_otherwise(from_q, e, 5);
        assert(args_q.drop_first() =~= args_c);
        law_search_finds_substrings(sought(f.query)->0, row.name);
    } else {
        assert(from_q =~= from_c);
        assert(args_q =~= args_c);
    }
    let meets_q = meets_c && (has_q ==> exists|at: int|
        stands_at(row.name, sought(f.query)->0, at));
    assert(meets(from_q, args_q, row) <==> meets_q);
    // The engine.
    if has_e {
        lemma_goes_on(e, from_q);
        assert(args_e.drop_first() =~= args_q);
    } else {
        assert(from_e =~= from_q);
        assert(args_e =~= args_q);
    }
    assert(meets(from_e, args_e, row) <==> meets_q && (has_e ==> Some(row.engine) == sought(
        f.engine,
    )));
}

/// Whether a character is the same letter in either case, or the same
/// character: what a search holds for equal.
pub proof fn law_searches_ignore_case(a: char, b: char)
    ensures
        folded(a) == folded(b) <==> {
            ||| a == b
            ||| 'A' <= a <= 'Z' && b as u32 == a as u32 + 32
            ||| 'A' <= b <= 'Z' && a as u32 == b as u32 + 32
        },
{
}

/// A row holds all that was scanned of its preset, under its engine.
pub proof fn law_rows_hold_the_preset(
    engine: Seq<char>,
    preset: ImportView,
    preserved: Seq<PreservedView>,
)
    ensures
        ({
            let row = new_row(engine, preset, preserved);
            &&& row.engine == engine && row.name == preset.name
            &&& row.path == preset.path && row.load_key == preset.load_key
            &&& row.category == preset.category && row.description == preset.description
            &&& row.is_factory == preset.is_factory && row.mtime == preset.mtime
        }),
{
}

/// Presets are told apart by path, load key and name: with texts that do not
/// hold the separator, two keys agree only where all three do.
pub proof fn law_keys_tell_presets_apart(
    a: (Seq<char>, Seq<char>, Seq<char>),
    b: (Seq<char>, Seq<char>, Seq<char>),
)
    requires
        !a.0.contains('\u{1}') && !a.1.contains('\u{1}'),
        !b.0.contains('\u{1}') && !b.1.contains('\u{1}'),
        preset_key(Some(a.0), Some(a.1), a.2) == preset_key(Some(b.0), Some(b.1), b.2),
    ensures
        a == b,
        preset_key(None, None, a.2) == seq!['\u{1}', '\u{1}'] + a.2,
{
    let (ka, kb) = (
        preset_key(Some(a.0), Some(a.1), a.2),
        preset_key(Some(b.0), Some(b.1), b.2),
    );
    assert(ka =~= a.0 + (separator() + a.1 + separator() + a.2));
    assert(kb =~= b.0 + (separator() + b.1 + separator() + b.2));
    assert(a.0.len() == b.0.len()) by {
        if a.0.len() < b.0.len() {
            assert(kb[a.0.len() as int] == b.0[a.0.len() as int]);
            assert(ka[a.0.len() as int] == '\u{1}');
        } else if b.0.len() < a.0.len() {
            assert(ka[b.0.len() as int] == a.0[b.0.len() as int]);
            assert(kb[b.0.len() as int] == '\u{1}');
        }
    }
    let n = a.0.len() as int;
    assert(a.0 =~= ka.take(n) && b.0 =~= kb.take(n));
    let (ra, rb) = (ka.skip(n + 1), kb.skip(n + 1));
    assert(ra =~= a.1 + (separator() + a.2));
    assert(rb =~= b.1 + (separator() + b.2));
    assert(a.1.len() == b.1.len()) by {
        if a.1.len() < b.1.len() {
            assert(rb[a.1.len() as int] == b.1[a.1.len() as int]);
            assert(ra[a.1.len() as int] == '\u{1}');
        } else if b.1.len() < a.1.len() {
            assert(ra[b.1.len() as int] == a.1[b.1.len() as int]);
            assert(rb[b.1.len() as int] == '\u{1}');
        }
    }
    let m = a.1.len() as int;
    assert(a.1 =~= ra.take(m) && b.1 =~= rb.take(m));
    assert(a.2 =~= ra.skip(m + 1) && b.2 =~= rb.skip(m + 1));
    assert(preset_key(None, None, a.2) =~= seq!['\u{1}', '\u{1}'] + a.2);
}

/// Whether the columns of a row hold what was stored, numbers for flags.
pub open spec fn columns_hold(row: StoredRow, stored: NewRowView) -> bool {
    &&& row.engine@ == stored.engine && row.name@ == stored.name
    &&& crate::text::opt_text(row.path) == stored.path
    &&& crate::text::opt_text(row.load_key) == stored.load_key
    &&& crate::text::opt_text(row.category) == stored.category
    &&& row.features@ == stored.features && row.creators@ == stored.creators
    &&& crate::text::opt_text(row.description) == stored.description
    &&& row.is_factory == if stored.is_factory {
        1
    } else {
        0i64
    }
    &&& row.favorite == if stored.favorite {
        1
    } else {
        0i64
    }
    &&& row.last_used == stored.last_used
}

/// What is stored of a preset is read back: a row whose columns hold what a
/// scan stored is the preset that was scanned, under its id and engine, with
/// the user's favorite and stamp.
pub proof fn law_a_stored_preset_comes_back(
    engine: Seq<char>,
    preset: ImportView,
    preserved: Seq<PreservedView>,
    row: StoredRow,
)
    requires
        forall|i: int|
            0 <= i < preset.features.len() ==> !(#[trigger] preset.features[i]).contains('\u{1}'),
        forall|i: int|
            0 <= i < preset.creators.len() ==> !(#[trigger] preset.creators[i]).contains('\u{1}'),
        preset.features.len() == 1 ==> preset.features[0].len() > 0,
        preset.creators.len() == 1 ==> preset.creators[0].len() > 0,
        columns_hold(row, new_row(engine, preset, preserved)),
    ensures
        ({
            let back = row_read(row);
            &&& back.id == row.id && back.engine == engine && back.name == preset.name
            &&& back.path == preset.path && back.load_key == preset.load_key
            &&& back.category == preset.category && back.description == preset.description
            &&& back.features == preset.features && back.creators == preset.creators
            &&& back.is_factory == preset.is_factory
            &&& back.favorite == (row.favorite != 0) && back.last_used == row.last_used
        }),
{
    law_stored_presets_read_back(engine, preset, preserved);
}

/// Whether a stored file is one that was found, with its time; one stored
/// without a time counts as of time -1.
pub open spec fn same_file(stored: (String, Option<i64>), found: (String, i64)) -> bool {
    &&& stored.0@ == found.0@
    &&& found.1 == match stored.1 {
        Some(time) => time as int,
        None => -1int,
    }
}

/// Whether a stored file is among those found.
pub open spec fn is_found(stored: (String, Option<i64>), current: Seq<(String, i64)>) -> bool {
    exists|j: int| 0 <= j < current.len() && #[trigger] same_file(stored, current[j])
}

/// Whether a file found is among those stored.
pub open spec fn is_stored(found: (String, i64), stored: Seq<(String, Option<i64>)>) -> bool {
    exists|i: int| 0 <= i < stored.len() && #[trigger] same_file(stored[i], found)
}

/// The index is up to date exactly where every file that is stored is found
/// with its time, and every file found is stored with it.
pub proof fn law_an_index_is_stale_when_files_differ(
    stored: Seq<(String, Option<i64>)>,
    current: Seq<(String, i64)>,
)
    ensures
        stored_files(stored) == current_files(current) <==> ({
            &&& forall|i: int| 0 <= i < stored.len() ==> is_found(#[trigger] stored[i], current)
            &&& forall|j: int| 0 <= j < current.len() ==> is_stored(#[trigger] current[j], stored)
        }),
{
    let (a, b) = (stored_files(stored), current_files(current));
    let all_found = forall|i: int|
        0 <= i < stored.len() ==> is_found(#[trigger] stored[i], current);
    let all_stored = forall|j: int|
        0 <= j < current.len() ==> is_stored(#[trigger] current[j], stored);
    if a == b {
        assert forall|i: int| 0 <= i < stored.len() implies is_found(
            #[trigger] stored[i],
            current,
        ) by {
            let f = (stored[i].0@, crate::app_core::mapping::or_else(stored[i].1, (-1) as i64));
            assert(a.contains(f));
            assert(b.contains(f));
            let j = choose|j: int|
                0 <= j < current.len() && (#[trigger] current[j]).0@ == f.0 && current[j].1 == f.1;
            assert(same_file(stored[i], current[j]));
        }
        assert forall|j: int| 0 <= j < current.len() implies is_stored(
            #[trigger] current[j],
            stored,
        ) by {
            let f = (current[j].0@, current[j].1);
            assert(b.contains(f));
            assert(a.contains(f));
            let i = choose|i: int|
                0 <= i < stored.len() && (#[trigger] stored[i]).0@ == f.0
                    && crate::app_core::mapping::or_else(stored[i].1, (-1) as i64) == f.1;
            assert(same_file(stored[i], current[j]));
        }
    }
    if all_found && all_stored {
        assert forall|f: (Seq<char>, i64)| a.contains(f) <==> b.contains(f) by {
            if a.contains(f) {
                let i = choose|i: int|
                    0 <= i < stored.len() && (#[trigger] stored[i]).0@ == f.0
                        && crate::app_core::mapping::or_else(stored[i].1, (-1) as i64) == f.1;
                let j = choose|j: int|
                    0 <= j < current.len() && #[trigger] same_file(stored[i], current[j]);
                assert(current[j].0@ == f.0 && current[j].1 == f.1);
            }
            if b.contains(f) {
                let j = choose|j: int|
                    0 <= j < current.len() && (#[trigger] current[j]).0@ == f.0 && current[j].1
                        == f.1;
                let i = choose|i: int|
                    0 <= i < stored.len() && #[trigger] same_file(stored[i], current[j]);
                assert(stored[i].0@ == f.0);
            }
        }
        assert(a =~= b);
    }
}

/// Whether a preset comes from a file of a time; -1 for a time that is not
/// known.
pub open spec fn comes_from(preset: ImportPreset, path: Seq<char>, time: i64) -> bool {
    &&& preset.path matches Some(p) && p@ == path
    &&& time == match preset.mtime {
        Some(t) => t as int,
        None => -1int,
    }
}

/// A scan indexes the file of every preset that has one, with its time, and
/// no other.
pub proof fn law_every_file_is_indexed(presets: Seq<ImportPreset>, path: Seq<char>, time: i64)
    ensures
        files_of(presets).contains((path, time)) <==> exists|i: int|
            0 <= i < presets.len() && #[trigger] comes_from(presets[i], path, time),
    decreases presets.len(),
{
    if presets.len() > 0 {
        let front = presets.drop_last();
        law_every_file_is_indexed(front, path, time);
        let f = (path, time);
        let (before, all) = (files_of(front), files_of(presets));
        if all.contains(f) {
            let k = choose|k: int| 0 <= k < all.len() && all[k] == f;
            if k < before.len() {
                assert(before[k] == f);
                let i = choose|i: int|
                    0 <= i < front.len() && #[trigger] comes_from(front[i], path, time);
                assert(comes_from(presets[i], path, time));
            } else {
                assert(comes_from(presets[presets.len() - 1], path, time));
            }
        }
        if exists|i: int|
            0 <= i < presets.len() && #[trigger] comes_from(presets[i], path, time) {
            let i = choose|i: int|
                0 <= i < presets.len() && #[trigger] comes_from(presets[i], path, time);
            if i < front.len() {
                assert(comes_from(front[i], path, time));
                let k = choose|k: int| 0 <= k < before.len() && before[k] == f;
                assert(all[k] == f);
            } else {
                assert(all[all.len() - 1] == f);
            }
        }
    }
}

} // verus!
