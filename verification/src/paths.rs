//! Parts of file paths, as text.

use vstd::prelude::*;

verus! {

/// The index of the last `c` in `text`, or -1.
pub open spec fn last_at(text: Seq<char>, c: char) -> int
    decreases text.len(),
{
    if text.len() == 0 {
        -1
    } else if text.last() == c {
        text.len() - 1
    } else {
        last_at(text.drop_last(), c)
    }
}

/// Whether every system reads a path alike: it has no character that only
/// some of them read as a separator, and does not start like the name of a
/// network share.
pub open spec fn is_portable(path: Seq<char>) -> bool {
    &&& !path.contains('\\') && !path.contains(':')
    &&& !(path.len() >= 2 && path[0] == '/' && path[1] == '/')
}

/// One component of a path.
pub enum Component {
    /// The slash that an absolute path starts with.
    Root,
    /// The `.` that a path starts with.
    Here,
    /// `..`.
    Up,
    /// The name of a file or directory.
    Name(Seq<char>),
}

/// What stands after the last slash.
pub open spec fn last_part(path: Seq<char>) -> Seq<char> {
    path.skip(last_at(path, '/') + 1)
}

/// The parts of a path between its slashes that lead somewhere: empty ones
/// and dots do not count.
pub open spec fn steps(path: Seq<char>) -> Seq<Component>
    decreases path.len(),
{
    let slash = last_at(path, '/');
    let part = last_part(path);
    let before = if 0 <= slash < path.len() {
        steps(path.take(slash))
    } else {
        Seq::empty()
    };
    if part.len() == 0 || part == seq!['.'] {
        before
    } else if part == seq!['.', '.'] {
        before.push(Component::Up)
    } else {
        before.push(Component::Name(part))
    }
}

/// Where a path starts: at the root, or at a dot written out.
pub open spec fn start(path: Seq<char>) -> Seq<Component> {
    if path.len() > 0 && path[0] == '/' {
        seq![Component::Root]
    } else if path == seq!['.'] || (path.len() >= 2 && path[0] == '.' && path[1] == '/') {
        seq![Component::Here]
    } else {
        Seq::empty()
    }
}

/// The components of a path. Repeated and trailing slashes and all dots but
/// a leading one are left out.
pub open spec fn components(path: Seq<char>) -> Seq<Component> {
    start(path) + steps(path)
}

/// Whether the name of a path's file can be told: the path is not merely
/// the current directory.
pub open spec fn is_told(path: Seq<char>) -> bool {
    is_portable(path) && !(components(path).len() > 0 && components(path).last() is Here)
}

/// The last component, where it is a name.
pub open spec fn name_of(path: Seq<char>) -> Option<Seq<char>> {
    if components(path).len() == 0 {
        None
    } else {
        match components(path).last() {
            Component::Name(name) => Some(name),
            _ => None,
        }
    }
}

/// What stands after the last dot of a name, unless the name only starts
/// with it.
pub open spec fn extension_of(name: Seq<char>) -> Option<Seq<char>> {
    if last_at(name, '.') <= 0 {
        None
    } else {
        Some(name.skip(last_at(name, '.') + 1))
    }
}

/// A name without its extension.
pub open spec fn stem_of(name: Seq<char>) -> Seq<char> {
    if last_at(name, '.') <= 0 {
        name
    } else {
        name.take(last_at(name, '.'))
    }
}

/// The extension of the file at a path, if it has one.
pub open spec fn file_extension(path: Seq<char>) -> Option<Seq<char>> {
    match name_of(path) {
        Some(name) => extension_of(name),
        None => None,
    }
}

/// The name of the file at a path without its extension, if it has one.
pub open spec fn file_stem(path: Seq<char>) -> Option<Seq<char>> {
    match name_of(path) {
        Some(name) => Some(stem_of(name)),
        None => None,
    }
}

/// `std::path::Path::extension`: the text after the last dot of the file's
/// name, and none without a name. Nothing is said of a path that systems
/// read differently, nor of one that is merely the current directory.
#[verifier::external_body]
pub(crate) fn path_extension(path: &str) -> (extension: Option<String>)
    ensures
        is_told(path@) ==> crate::text::opt_text(extension) == file_extension(path@),
{
    std::path::Path::new(path).extension().map(|e| e.to_string_lossy().into_owned())
}

/// `std::path::Path::file_stem`: the file's name without its extension, and
/// none without a name. Nothing is said of a path that systems read
/// differently, nor of one that is merely the current directory.
#[verifier::external_body]
pub(crate) fn path_stem(path: &str) -> (stem: Option<String>)
    ensures
        is_told(path@) ==> crate::text::opt_text(stem) == file_stem(path@),
{
    std::path::Path::new(path).file_stem().map(|s| s.to_string_lossy().into_owned())
}

/// `std::path::Path::file_name`: the last component where it is a name, and
/// none for the root, for `..` and for the empty path. Nothing is said of a
/// path that systems read differently, nor of one that is merely the current
/// directory.
#[verifier::external_body]
pub(crate) fn path_file_name(path: &str) -> (name: Option<String>)
    ensures
        is_told(path@) ==> crate::text::opt_text(name) == name_of(path@),
{
    std::path::Path::new(path).file_name().map(|n| n.to_string_lossy().into_owned())
}

/// `std::path::Path::parent`: the path without its last component; none for
/// the root and for the empty path. Nothing is said of a path that systems
/// read differently.
#[verifier::external_body]
pub(crate) fn path_parent(path: &str) -> (parent: Option<String>)
    ensures
        is_portable(path@) ==> match parent {
            Some(p) => {
                &&& components(path@).len() > 0 && !(components(path@).last() is Root)
                &&& is_portable(p@)
                &&& components(p@) == components(path@).drop_last()
            },
            None => components(path@).len() == 0 || components(path@).last() is Root,
        },
{
    std::path::Path::new(path).parent().map(|p| p.display().to_string())
}

/// Whether the name of the directory that a path lies in can be told: that
/// directory is not merely the current one.
pub open spec fn is_parent_told(path: Seq<char>) -> bool {
    let all = components(path);
    is_portable(path) && !(all.len() >= 2 && all[all.len() - 2] is Here)
}

/// The name of the directory that a path lies in, if it has one.
pub open spec fn parent_name_of(path: Seq<char>) -> Option<Seq<char>> {
    let all = components(path);
    if all.len() < 2 {
        None
    } else {
        match all[all.len() - 2] {
            Component::Name(name) => Some(name),
            _ => None,
        }
    }
}

proof fn lemma_steps(path: Seq<char>)
    ensures
        forall|i: int|
            0 <= i < steps(path).len() ==> (#[trigger] steps(path)[i]) is Up || steps(path)[i] is Name,
    decreases path.len(),
{
    let slash = last_at(path, '/');
    if 0 <= slash < path.len() {
        lemma_steps(path.take(slash));
    }
}

/// A path that ends in a name, and in neither `.` nor `..`, is named by what
/// stands after its last slash.
pub proof fn law_the_last_part_is_the_name(path: Seq<char>)
    requires
        last_part(path).len() > 0,
        last_part(path) != seq!['.'],
        last_part(path) != seq!['.', '.'],
    ensures
        name_of(path) == Some(last_part(path)),
{
    assert(components(path).last() == Component::Name(last_part(path)));
}

/// Slashes and dots at the end of a path do not count.
pub proof fn law_trailing_slashes_do_not_count(path: Seq<char>)
    requires
        path.len() > 0,
    ensures
        components(path.push('/')) == components(path),
        components(path.push('/').push('.')) == components(path),
{
    let (slashed, dotted) = (path.push('/'), path.push('/').push('.'));
    assert(slashed.drop_last() =~= path);
    assert(dotted.drop_last() =~= slashed);
    assert(last_at(slashed, '/') == path.len());
    assert(last_at(dotted, '/') == path.len());
    assert(slashed.take(path.len() as int) =~= path);
    assert(dotted.take(path.len() as int) =~= path);
    assert(last_part(slashed) =~= Seq::<char>::empty());
    assert(last_part(dotted) =~= seq!['.']);
    assert(steps(slashed) == steps(path));
    assert(steps(dotted) == steps(path));
    if path.len() == 1 {
        assert(path =~= seq![path[0]]);
    }
}

/// The name of the directory that a path lies in.
pub fn parent_name(path: &str) -> (name: Option<String>)
    ensures
        is_parent_told(path@) ==> crate::text::opt_text(name) == parent_name_of(path@),
{
    proof {
        lemma_steps(path@);
        let all = components(path@);
        if all.len() >= 2 {
            // Only the first component can be the root.
            assert(all.last() == steps(path@).last());
        }
    }
    match path_parent(path) {
        Some(parent) => path_file_name(parent.as_str()),
        None => None,
    }
}

/// The last place of a character is the one after which it does not stand.
pub proof fn lemma_last_at_is(text: Seq<char>, c: char, at: int)
    requires
        0 <= at < text.len(),
        text[at] == c,
        forall|i: int| at < i < text.len() ==> #[trigger] text[i] != c,
    ensures
        last_at(text, c) == at,
    decreases text.len(),
{
    if at < text.len() - 1 {
        assert(text[text.len() - 1] != c);
        let front = text.drop_last();
        assert forall|i: int| at < i < front.len() implies #[trigger] front[i] != c by {
            assert(front[i] == text[i]);
        }
        lemma_last_at_is(front, c, at);
    }
}

/// A character that does not stand in a text has no last place in it.
pub proof fn lemma_last_at_none(text: Seq<char>, c: char)
    requires
        forall|i: int| 0 <= i < text.len() ==> #[trigger] text[i] != c,
    ensures
        last_at(text, c) == -1,
    decreases text.len(),
{
    if text.len() > 0 {
        assert(text[text.len() - 1] != c);
        let front = text.drop_last();
        assert forall|i: int| 0 <= i < front.len() implies #[trigger] front[i] != c by {
            assert(front[i] == text[i]);
        }
        lemma_last_at_none(front, c);
    }
}

/// A file is named by what follows the directory, and lies in what precedes
/// it; its extension is what follows its last dot, and its stem what
/// precedes it.
pub proof fn law_paths_split_into_their_parts(
    directory: Seq<char>,
    stem: Seq<char>,
    extension: Seq<char>,
)
    requires
        stem.len() > 0 && stem != seq!['.'],
        !stem.contains('/') && !extension.contains('/') && !extension.contains('.'),
        last_part(directory).len() > 0,
        last_part(directory) != seq!['.'] && last_part(directory) != seq!['.', '.'],
    ensures
        ({
            let name = stem + seq!['.'] + extension;
            let path = directory + seq!['/'] + name;
            &&& name_of(path) == Some(name)
            &&& file_extension(path) == Some(extension)
            &&& file_stem(path) == Some(stem)
            &&& parent_name_of(path) == Some(last_part(directory))
        }),
{
    let name = stem + seq!['.'] + extension;
    let path = directory + seq!['/'] + name;
    let slash = directory.len() as int;
    assert(path[slash] == '/');
    assert forall|i: int| slash < i < path.len() implies #[trigger] path[i] != '/' by {
        let k = i - slash - 1;
        assert(path[i] == name[k]);
        if k < stem.len() {
            assert(stem.contains(stem[k]));
        } else if k > stem.len() {
            assert(extension.contains(extension[k - stem.len() - 1]));
        }
    }
    lemma_last_at_is(path, '/', slash);
    assert(last_part(path) =~= name);
    assert(name[stem.len() as int] == '.');
    assert forall|i: int| stem.len() < i < name.len() implies #[trigger] name[i] != '.' by {
        assert(extension.contains(extension[i - stem.len() - 1]));
    }
    lemma_last_at_is(name, '.', stem.len() as int);
    assert(name != seq!['.']) by {
        assert(name.len() >= 2);
    }
    assert(name != seq!['.', '.']) by {
        if name == seq!['.', '.'] {
            assert(stem.len() == 1);
            assert(stem[0] == name[0]);
            assert(stem =~= seq!['.']);
        }
    }
    law_the_last_part_is_the_name(path);
    assert(name.skip(stem.len() as int + 1) =~= extension);
    assert(name.take(stem.len() as int) =~= stem);
    assert(path.take(slash) =~= directory);
    let before = steps(directory);
    assert(before.last() == Component::Name(last_part(directory)));
    assert(steps(path) == before.push(Component::Name(name)));
    let all = components(path);
    assert(all.len() >= 2);
    assert(all[all.len() - 2] == before.last());
}

/// A path is read alike everywhere but for backslashes, colons and two
/// slashes at its start; its file is told but for the current directory
/// itself, and its parent but for a file there.
pub proof fn law_most_paths_are_told(path: Seq<char>)
    ensures
        is_portable(path) <==> {
            &&& forall|i: int|
                0 <= i < path.len() ==> #[trigger] path[i] != '\\' && path[i] != ':'
            &&& path.len() < 2 || path[0] != '/' || path[1] != '/'
        },
        is_portable(path) && steps(path).len() >= 1 ==> is_told(path),
        is_portable(path) && steps(path).len() >= 2 ==> is_parent_told(path),
        is_portable(path) && path.len() > 0 && path[0] == '/' ==> is_told(path)
            && is_parent_told(path),
{
    if is_portable(path) {
        assert forall|i: int| 0 <= i < path.len() implies #[trigger] path[i] != '\\' && path[i]
            != ':' by {
            assert(path.contains(path[i]));
        }
    }
    let all = components(path);
    lemma_steps_lead(path);
    if steps(path).len() >= 1 {
        assert(all.last() == steps(path).last());
        assert(!(steps(path)[steps(path).len() - 1] is Here));
    }
    if steps(path).len() >= 2 {
        assert(all[all.len() - 2] == steps(path)[steps(path).len() - 2]);
    }
    if path.len() > 0 && path[0] == '/' {
        assert(all[0] is Root);
        assert forall|i: int| 0 <= i < all.len() implies !((#[trigger] all[i]) is Here) by {
            if i > 0 {
                assert(all[i] == steps(path)[i - 1]);
            }
        }
    }
}

proof fn lemma_steps_lead(path: Seq<char>)
    ensures
        forall|i: int|
            0 <= i < steps(path).len() ==> (#[trigger] steps(path)[i]) is Up || steps(path)[i] is Name,
    decreases path.len(),
{
    let slash = last_at(path, '/');
    if 0 <= slash < path.len() {
        lemma_steps_lead(path.take(slash));
    }
}

} // verus!
