//! File paths as text, with a slash between their components. Repeated
//! slashes, a slash at the end and `.` components between others do not count.

use vstd::prelude::*;

use crate::text::after_last;
use crate::text::chars_of;
use crate::text::concat;
use crate::text::concat3;
use crate::text::lemma_after_last;
use crate::text::same;

verus! {

/// `path` without the slashes and `.` components that it ends with. What is
/// left is empty exactly for the root and the empty path.
pub open spec fn tidy(path: Seq<char>) -> Seq<char>
    decreases path.len(),
{
    let n = path.len() as int;
    if n > 0 && path[n - 1] == '/' {
        tidy(path.take(n - 1))
    } else if n > 1 && path[n - 1] == '.' && path[n - 2] == '/' {
        tidy(path.take(n - 1))
    } else {
        path
    }
}

/// The last component of a path.
pub open spec fn last_component(path: Seq<char>) -> Seq<char> {
    let core = tidy(path);
    core.skip(after_last(core, '/'))
}

/// The name of the file at a path: its last component, unless there is none or
/// it stands for another directory.
pub open spec fn name_of(path: Seq<char>) -> Option<Seq<char>> {
    let name = last_component(path);
    if name.len() == 0 || name == "."@ || name == ".."@ {
        None
    } else {
        Some(name)
    }
}

/// The directory that a path lies in, unless it has no component.
pub open spec fn parent_of(path: Seq<char>) -> Option<Seq<char>> {
    let core = tidy(path);
    if core.len() == 0 {
        None
    } else {
        let above = core.take(after_last(core, '/'));
        let dir = tidy(above);
        if dir.len() == 0 && above.len() > 0 {
            Some("/"@)
        } else {
            Some(dir)
        }
    }
}

/// `name` inside the directory `dir`; a name that begins with a slash stands
/// for itself.
pub open spec fn joined_path(dir: Seq<char>, name: Seq<char>) -> Seq<char> {
    if dir.len() == 0 || (name.len() > 0 && name[0] == '/') {
        name
    } else if dir.last() == '/' {
        dir + name
    } else {
        dir + "/"@ + name
    }
}

/// Tidying shortens a path from its end alone.
pub proof fn lemma_tidy(path: Seq<char>)
    ensures
        tidy(path).len() <= path.len(),
        tidy(path) == path.take(tidy(path).len() as int),
        tidy(path).len() > 0 ==> tidy(path).last() != '/',
    decreases path.len(),
{
    let n = path.len() as int;
    if n > 0 && (path[n - 1] == '/' || (n > 1 && path[n - 1] == '.' && path[n - 2] == '/')) {
        lemma_tidy(path.take(n - 1));
        let core = tidy(path.take(n - 1));
        assert(path.take(n - 1).take(core.len() as int) =~= path.take(core.len() as int));
    } else {
        assert(path.take(n) =~= path);
    }
}

/// Tidying a tidy path changes nothing.
pub proof fn law_tidying_settles(path: Seq<char>)
    ensures
        tidy(tidy(path)) == tidy(path),
    decreases path.len(),
{
    let n = path.len() as int;
    if n > 0 && (path[n - 1] == '/' || (n > 1 && path[n - 1] == '.' && path[n - 2] == '/')) {
        law_tidying_settles(path.take(n - 1));
    }
}

/// `path` without the slashes and `.` components that it ends with.
fn tidied(path: &str) -> (core: &str)
    ensures
        core@ == tidy(path@),
{
    let chars = chars_of(path);
    let mut end: usize = chars.len();
    assert(path@.take(end as int) =~= path@);
    while end > 0 && (chars[end - 1] == '/' || (end > 1 && chars[end - 1] == '.' && chars[end - 2]
        == '/'))
        invariant
            chars@ == path@,
            end <= chars@.len(),
            tidy(path@) == tidy(path@.take(end as int)),
        decreases end,
    {
        assert(path@.take(end as int).take(end - 1) =~= path@.take(end - 1));
        end -= 1;
    }
    let core = path.substring_char(0, end);
    assert(core@ =~= path@.take(end as int));
    core
}

/// Position after the last slash.
pub(crate) fn after_last_slash(core: &str) -> (at: usize)
    ensures
        at == after_last(core@, '/'),
        at <= core@.len(),
{
    let chars = chars_of(core);
    let mut at: usize = chars.len();
    while at > 0 && chars[at - 1] != '/'
        invariant
            chars@ == core@,
            at <= chars@.len(),
            forall|j: int| at <= j < chars@.len() ==> chars@[j] != '/',
        decreases at,
    {
        at -= 1;
    }
    proof {
        lemma_after_last(core@, '/', at as int);
    }
    at
}

/// The name of the file at a path.
pub fn file_name(path: &str) -> (name: Option<&str>)
    ensures
        match name {
            Some(text) => name_of(path@) == Some(text@),
            None => name_of(path@) is None,
        },
{
    let core = tidied(path);
    let name = core.substring_char(after_last_slash(core), core.unicode_len());
    assert(name@ =~= last_component(path@));
    if name.is_empty() || same(name, ".") || same(name, "..") {
        None
    } else {
        Some(name)
    }
}

/// The directory that a path lies in.
pub fn parent(path: &str) -> (dir: Option<String>)
    ensures
        crate::text::optional(dir) == parent_of(path@),
{
    let core = tidied(path);
    if core.is_empty() {
        return None;
    }
    let above = core.substring_char(0, after_last_slash(core));
    assert(above@ =~= core@.take(after_last(core@, '/')));
    let dir = tidied(above);
    if dir.is_empty() && !above.is_empty() {
        Some("/".to_owned())
    } else {
        Some(dir.to_owned())
    }
}

/// `name` inside the directory `dir`.
pub fn join_path(dir: &str, name: &str) -> (path: String)
    ensures
        path@ == joined_path(dir@, name@),
{
    let length: usize = dir.unicode_len();
    let absolute = name.unicode_len() > 0 && name.get_char(0) == '/';
    if length == 0 || absolute {
        name.to_owned()
    } else if dir.get_char(length - 1) == '/' {
        concat(dir, name)
    } else {
        concat3(dir, "/", name)
    }
}

/// Whether a file name has the extension `extension`: it ends in a dot and
/// that text, behind at least one other character.
pub open spec fn has_extension(name: Seq<char>, extension: Seq<char>) -> bool {
    let at = after_last(name, '.');
    at > 1 && name.skip(at) == extension
}

/// Whether a file name has the extension `extension`.
pub fn extension_is(name: &str, extension: &str) -> (is: bool)
    ensures
        is == has_extension(name@, extension@),
{
    let chars = chars_of(name);
    let mut at: usize = chars.len();
    while at > 0 && chars[at - 1] != '.'
        invariant
            chars@ == name@,
            at <= chars@.len(),
            forall|j: int| at <= j < chars@.len() ==> chars@[j] != '.',
        decreases at,
    {
        at -= 1;
    }
    proof {
        lemma_after_last(name@, '.', at as int);
    }
    if at <= 1 {
        return false;
    }
    let found = name.substring_char(at, name.unicode_len());
    assert(found@ =~= name@.skip(at as int));
    same(found, extension)
}

/// A name put into a directory is found there again: the joined path has that
/// name and lies in that directory, for a plain name and a tidy directory.
pub proof fn law_joined_paths_come_apart(dir: Seq<char>, name: Seq<char>)
    requires
        dir.len() > 0,
        tidy(dir) == dir,
        name.len() > 0,
        !name.contains('/'),
        name != "."@,
        name != ".."@,
    ensures
        name_of(joined_path(dir, name)) == Some(name),
        parent_of(joined_path(dir, name)) == Some(dir),
{
    reveal_strlit("/");
    reveal_strlit(".");
    lemma_tidy(dir);
    let path = dir + "/"@ + name;
    let n = path.len() as int;
    let d = dir.len() as int;
    assert(path[n - 1] == name.last());
    assert(name.contains(name.last()));
    assert(!name.contains(name[0]) || name[0] != '/');
    assert(name.contains(name[0]));
    assert(joined_path(dir, name) == path);
    if path[n - 1] == '.' && path[n - 2] == '/' {
        if name.len() > 1 {
            assert(path[n - 2] == name[name.len() - 2]);
            assert(name.contains(name[name.len() - 2]));
        }
        assert(name =~= "."@);
    }
    assert(tidy(path) == path);
    assert forall|j: int| d + 1 <= j < n implies path[j] != '/' by {
        assert(path[j] == name[j - d - 1]);
        assert(name.contains(name[j - d - 1]));
    }
    assert(path[d] == '/');
    lemma_after_last(path, '/', d + 1);
    assert(path.skip(d + 1) =~= name);
    let above = path.take(d + 1);
    assert(above.take(d) =~= dir);
    assert(above[d] == '/');
    assert(tidy(above) == tidy(dir));
}

/// A name is put behind its directory with one slash; an absolute one stands
/// for itself, and so does one in no directory.
pub proof fn law_a_name_is_put_behind_its_directory(dir: Seq<char>, name: Seq<char>)
    ensures
        dir.len() == 0 ==> joined_path(dir, name) == name,
        name.len() > 0 && name[0] == '/' ==> joined_path(dir, name) == name,
        dir.len() > 0 && dir.last() == '/' && (name.len() == 0 || name[0] != '/') ==> joined_path(
            dir,
            name,
        ) == dir + name,
        dir.len() > 0 && dir.last() != '/' && (name.len() == 0 || name[0] != '/') ==> joined_path(
            dir,
            name,
        ) == dir.push('/') + name,
{
    reveal_strlit("/");
    assert(dir + "/"@ + name =~= dir.push('/') + name);
}

/// Slashes at the end of a path mean nothing.
pub proof fn law_last_slashes_mean_nothing(path: Seq<char>)
    ensures
        name_of(path.push('/')) == name_of(path),
        parent_of(path.push('/')) == parent_of(path),
{
    let longer = path.push('/');
    assert(longer.take(longer.len() - 1) =~= path);
}

/// An extension is what stands behind the last dot of a name, where something
/// stands before it.
pub proof fn law_an_extension_stands_behind_the_last_dot(stem: Seq<char>, extension: Seq<char>)
    requires
        !extension.contains('.'),
    ensures
        has_extension(stem.push('.') + extension, extension) == (stem.len() > 0),
        extension.len() > 0 ==> !has_extension(extension, extension),
{
    let name = stem.push('.') + extension;
    let at = stem.len() + 1;
    assert forall|j: int| at <= j < name.len() implies name[j] != '.' by {
        assert(extension.contains(extension[j - at]));
        assert(name[j] == extension[j - at]);
    }
    lemma_after_last(name, '.', at as int);
    assert(name.skip(at as int) =~= extension);
    assert forall|j: int| 0 <= j < extension.len() implies extension[j] != '.' by {
        assert(extension.contains(extension[j]));
    }
    lemma_after_last(extension, '.', 0);
}

} // verus!
