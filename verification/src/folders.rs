//! Walking through the folders of a device: paths, their crumbs, and what is
//! typed to get somewhere.

use vstd::prelude::*;

use crate::paths::after_last_slash;
use crate::order::lemma_filter_members;
use crate::text::after_last;
use crate::text::chars_of;
use crate::text::concat;
use crate::text::concat3;
use crate::text::first_index;
use crate::text::lemma_after_last;
use crate::text::lemma_first_index;
use crate::text::lemma_first_index_bounds;
use crate::text::same;
use crate::text::split_once;
use crate::text::trim;
use crate::text::trimmed;
use crate::text_input::bytes;
use crate::text_input::byte_len;

verus! {

/// A path without the slashes that it ends with.
pub open spec fn unslashed(path: Seq<char>) -> Seq<char>
    decreases path.len(),
{
    if path.len() > 0 && path.last() == '/' {
        unslashed(path.drop_last())
    } else {
        path
    }
}

fn trim_slashes(path: &str) -> (core: &str)
    ensures
        core@ == unslashed(path@),
{
    let chars = chars_of(path);
    let mut end: usize = chars.len();
    assert(path@.take(end as int) =~= path@);
    while end > 0 && chars[end - 1] == '/'
        invariant
            chars@ == path@,
            end <= chars@.len(),
            unslashed(path@) == unslashed(path@.take(end as int)),
        decreases end,
    {
        assert(path@.take(end as int).drop_last() =~= path@.take(end - 1));
        end -= 1;
    }
    let core = path.substring_char(0, end);
    assert(core@ =~= path@.take(end as int));
    core
}

/// The folder that a path lies in. The root lies in none, and neither does a
/// path without a slash.
pub open spec fn above(path: Seq<char>) -> Option<Seq<char>> {
    let core = unslashed(path);
    let at = after_last(core, '/');
    if core.len() == 0 || at == 0 {
        None
    } else if at == 1 {
        Some("/"@)
    } else {
        Some(core.take(at - 1))
    }
}

/// The folder that a path lies in, unless it is the root.
pub fn parent_path(path: &str) -> (parent: Option<String>)
    ensures
        parent is Some == above(path@) is Some,
        parent is Some ==> parent->0@ == above(path@)->0,
{
    let core = trim_slashes(path);
    if core.is_empty() {
        return None;
    }
    let at = after_last_slash(core);
    if at == 0 {
        None
    } else if at == 1 {
        Some("/".to_owned())
    } else {
        let parent = core.substring_char(0, at - 1);
        assert(parent@ =~= core@.take(at - 1));
        Some(parent.to_owned())
    }
}

/// `name` inside the folder `base`.
pub open spec fn inside(base: Seq<char>, name: Seq<char>) -> Seq<char> {
    if base.len() > 0 && base.last() == '/' {
        base + name
    } else {
        base + "/"@ + name
    }
}

/// `name` inside the folder `base`.
pub fn child_path(base: &str, name: &str) -> (path: String)
    ensures
        path@ == inside(base@, name@),
{
    let n = base.unicode_len();
    if n > 0 && base.get_char(n - 1) == '/' {
        concat(base, name)
    } else {
        concat3(base, "/", name)
    }
}

/// What a character becomes in lower case; a few become several characters.
pub uninterp spec fn lowered(c: char) -> Seq<char>;

/// `char::to_lowercase` of the standard library, as a string. Claimed: the
/// result depends on the character alone.
#[verifier::external_body]
fn to_lower(c: char) -> (text: String)
    ensures
        text@ == lowered(c),
{
    c.to_lowercase().to_string()
}

/// Whether `name` begins with `query`, up to the case of its letters.
pub open spec fn completes(name: Seq<char>, query: Seq<char>) -> bool {
    &&& query.len() <= name.len()
    &&& forall|i: int| 0 <= i < query.len() ==> lowered(#[trigger] name[i]) == lowered(query[i])
}

/// How many bytes of `name` are matched by `query`, where it begins with it up
/// to the case of its letters.
pub fn completion_prefix_len(name: &str, query: &str) -> (len: Option<usize>)
    ensures
        len is Some == completes(name@, query@),
        len is Some ==> len->0 == bytes(name@.take(query@.len() as int)),
{
    let name_chars = chars_of(name);
    let query_chars = chars_of(query);
    let mut k: usize = 0;
    while k < query_chars.len()
        invariant
            name_chars@ == name@,
            query_chars@ == query@,
            k <= query@.len(),
            k <= name@.len(),
            forall|i: int| 0 <= i < k ==> lowered(#[trigger] name@[i]) == lowered(query@[i]),
        decreases query_chars.len() - k,
    {
        if k >= name_chars.len() {
            return None;
        }
        let theirs = to_lower(name_chars[k]);
        let ours = to_lower(query_chars[k]);
        if !same(theirs.as_str(), ours.as_str()) {
            assert(lowered(name@[k as int]) != lowered(query@[k as int]));
            return None;
        }
        k += 1;
    }
    let matched = name.substring_char(0, k);
    assert(matched@ =~= name@.take(k as int));
    Some(byte_len(matched))
}

/// Whether `name` is `query`, up to the case of its letters.
pub open spec fn folds_to(name: Seq<char>, query: Seq<char>) -> bool {
    completes(name, query) && name.len() == query.len()
}

/// Which of `names` a typed segment stands for: the first that it is; else the
/// first that it is up to case; else the only one that begins with it.
pub open spec fn is_target(names: Seq<&str>, query: Seq<char>, target: Option<int>) -> bool {
    if exists|i: int| 0 <= i < names.len() && #[trigger] names[i]@ == query {
        &&& target is Some
        &&& 0 <= target->0 < names.len()
        &&& names[target->0]@ == query
        &&& forall|j: int| 0 <= j < target->0 ==> #[trigger] names[j]@ != query
    } else if exists|i: int| 0 <= i < names.len() && folds_to(#[trigger] names[i]@, query) {
        &&& target is Some
        &&& 0 <= target->0 < names.len()
        &&& folds_to(names[target->0]@, query)
        &&& forall|j: int| 0 <= j < target->0 ==> !folds_to(#[trigger] names[j]@, query)
    } else {
        match target {
            Some(ix) => only_completion(names, query, ix),
            None => forall|ix: int| !only_completion(names, query, ix),
        }
    }
}

/// Whether the name at `ix` is the only one that begins with `query`.
pub open spec fn only_completion(names: Seq<&str>, query: Seq<char>, ix: int) -> bool {
    &&& 0 <= ix < names.len()
    &&& forall|j: int|
        0 <= j < names.len() ==> (completes(#[trigger] names[j]@, query) <==> j == ix)
}

proof fn lemma_whole(name: Seq<char>, query: Seq<char>)
    requires
        completes(name, query),
    ensures
        (bytes(name.take(query.len() as int)) == bytes(name)) == (name.len() == query.len()),
{
    let k = query.len() as int;
    crate::text_input::lemma_bytes_split(name, k);
    if k == name.len() {
        assert(name.take(k) =~= name);
    } else {
        assert(name.skip(k).len() > 0);
    }
}

/// Which of `names` a typed segment stands for. An ambiguous one stands for
/// none.
pub fn segment_target(names: &[&str], query: &str) -> (target: Option<usize>)
    ensures
        is_target(
            names@,
            query@,
            match target {
                Some(ix) => Some(ix as int),
                None => None,
            },
        ),
{
    let mut k: usize = 0;
    while k < names.len()
        invariant
            k <= names@.len(),
            forall|j: int| 0 <= j < k ==> #[trigger] names@[j]@ != query@,
        decreases names.len() - k,
    {
        if same(names[k], query) {
            return Some(k);
        }
        k += 1;
    }
    k = 0;
    while k < names.len()
        invariant
            k <= names@.len(),
            forall|j: int| 0 <= j < names@.len() ==> #[trigger] names@[j]@ != query@,
            forall|j: int| 0 <= j < k ==> !folds_to(#[trigger] names@[j]@, query@),
        decreases names.len() - k,
    {
        let name = names[k];
        if let Some(len) = completion_prefix_len(name, query) {
            proof {
                lemma_whole(name@, query@);
            }
            if len == byte_len(name) {
                return Some(k);
            }
        }
        k += 1;
    }
    let mut hit: Option<usize> = None;
    k = 0;
    while k < names.len()
        invariant
            k <= names@.len(),
            forall|j: int| 0 <= j < names@.len() ==> #[trigger] names@[j]@ != query@,
            forall|j: int| 0 <= j < names@.len() ==> !folds_to(#[trigger] names@[j]@, query@),
            match hit {
                Some(ix) => ix < k && forall|j: int|
                    0 <= j < k ==> (completes(#[trigger] names@[j]@, query@) <==> j == ix),
                None => forall|j: int| 0 <= j < k ==> !completes(#[trigger] names@[j]@, query@),
            },
        decreases names.len() - k,
    {
        if completion_prefix_len(names[k], query).is_some() {
            if let Some(first) = hit {
                assert(completes(names@[k as int]@, query@));
                assert(completes(names@[first as int]@, query@));
                return None;
            }
            hit = Some(k);
        }
        k += 1;
    }
    proof {
        if hit is None {
            assert forall|ix: int| !only_completion(names@, query@, ix) by {
                if 0 <= ix < names@.len() {
                    assert(!completes(names@[ix]@, query@));
                }
            }
        }
    }
    hit
}

/// A path without the slashes at its end; the root keeps its one.
pub open spec fn folder(path: Seq<char>) -> Seq<char> {
    if unslashed(path).len() == 0 {
        "/"@
    } else {
        unslashed(path)
    }
}

/// The path that a query jumps to: one from the root, or one from the home
/// folder, where that is known. Any other query is a search.
pub open spec fn jump(query: Seq<char>, home: Option<Seq<char>>) -> Option<Seq<char>> {
    let typed = trimmed(query);
    if typed.len() > 0 && typed[0] == '~' {
        let rest = typed.skip(1);
        match home {
            None => None,
            Some(home) => if rest.len() == 0 {
                Some(folder(home))
            } else if rest[0] != '/' {
                None
            } else {
                let below = unslashed(rest.skip(1));
                if below.len() == 0 {
                    Some(folder(home))
                } else {
                    Some(unslashed(home) + "/"@ + below)
                }
            },
        }
    } else if typed.len() > 0 && typed[0] == '/' {
        Some(folder(typed))
    } else {
        None
    }
}

/// A path without the slashes at its end; the root keeps its one.
fn folder_of(path: &str) -> (kept: String)
    ensures
        kept@ == folder(path@),
{
    let core = trim_slashes(path);
    if core.is_empty() {
        "/".to_owned()
    } else {
        core.to_owned()
    }
}

/// The path that a query jumps to, if it is one.
pub fn typed_path_target(query: &str, home: Option<&str>) -> (path: Option<String>)
    ensures
        ({
            let target = jump(
                query@,
                match home {
                    Some(home) => Some(home@),
                    None => None,
                },
            );
            path is Some == target is Some && (path is Some ==> path->0@ == target->0)
        }),
{
    let typed = trim(query);
    let n = typed.unicode_len();
    if n == 0 {
        return None;
    }
    let first = typed.get_char(0);
    if first == '~' {
        let home = match home {
            Some(home) => home,
            None => {
                return None;
            },
        };
        let rest = typed.substring_char(1, n);
        assert(rest@ =~= typed@.skip(1));
        if rest.is_empty() {
            return Some(folder_of(home));
        }
        if rest.get_char(0) != '/' {
            return None;
        }
        let tail = rest.substring_char(1, rest.unicode_len());
        assert(tail@ =~= rest@.skip(1));
        let below = trim_slashes(tail);
        if below.is_empty() {
            return Some(folder_of(home));
        }
        return Some(concat3(trim_slashes(home), "/", below));
    }
    if first == '/' {
        return Some(folder_of(typed));
    }
    None
}

/// The names between the slashes of a path. Empty ones do not count.
pub open spec fn segments(path: Seq<char>) -> Seq<Seq<char>>
    decreases path.len(),
{
    let at = first_index(path, '/');
    let name = path.take(at);
    let found = if name.len() == 0 {
        Seq::empty()
    } else {
        seq![name]
    };
    if 0 <= at < path.len() {
        found + segments(path.skip(at + 1))
    } else {
        found
    }
}

/// The path from the root through the names given.
pub open spec fn rooted(names: Seq<Seq<char>>) -> Seq<char>
    decreases names.len(),
{
    if names.len() == 0 {
        Seq::empty()
    } else {
        rooted(names.drop_last()) + "/"@ + names.last()
    }
}

/// Whether `crumbs` are the steps through the names given, from the root on.
pub open spec fn lead_through(crumbs: Seq<(String, String)>, names: Seq<Seq<char>>) -> bool {
    &&& crumbs.len() == names.len() + 1
    &&& crumbs[0].0@ == "/"@
    &&& crumbs[0].1@ == "/"@
    &&& forall|i: int|
        1 <= i < crumbs.len() ==> (#[trigger] crumbs[i]).0@ == names[i - 1] && crumbs[i].1@ == rooted(
            names.take(i),
        )
}

/// The steps on the way to a path, the root first: what each is called, and
/// where it leads.
pub fn breadcrumbs(path: &str) -> (crumbs: Vec<(String, String)>)
    ensures
        lead_through(crumbs@, segments(path@)),
{
    let mut crumbs: Vec<(String, String)> = Vec::new();
    crumbs.push(("/".to_owned(), "/".to_owned()));
    let mut trail = String::new();
    let mut rest: &str = path;
    let mut open = true;
    let ghost mut names: Seq<Seq<char>> = Seq::empty();
    assert(names + segments(path@) =~= segments(path@));
    while open
        invariant
            lead_through(crumbs@, names),
            trail@ == rooted(names),
            segments(path@) == names + (if open {
                segments(rest@)
            } else {
                Seq::empty()
            }),
        decreases
                if open {
                    rest@.len() + 1
                } else {
                    0
                },
    {
        let ghost before = rest@;
        proof {
            lemma_first_index_bounds(before, '/');
        }
        let name: &str = match split_once(rest, '/') {
            Some((name, tail)) => {
                rest = tail;
                name
            },
            None => {
                open = false;
                assert(before.take(first_index(before, '/')) =~= before);
                rest
            },
        };
        if !name.is_empty() {
            trail = concat3(trail.as_str(), "/", name);
            let ghost longer = names.push(name@);
            proof {
                assert(longer.drop_last() =~= names);
                assert forall|i: int| 1 <= i <= names.len() implies #[trigger] longer.take(i)
                    =~= names.take(i) by {}
                assert(longer.take(longer.len() as int) =~= longer);
            }
            crumbs.push((name.to_owned(), trail.clone()));
            proof {
                assert(segments(path@) =~= longer + (if open {
                    segments(rest@)
                } else {
                    Seq::empty()
                }));
                names = longer;
            }
        } else {
            assert(segments(path@) =~= names + (if open {
                segments(rest@)
            } else {
                Seq::empty()
            }));
        }
    }
    assert(names =~= segments(path@));
    crumbs
}

proof fn lemma_unslashed(path: Seq<char>)
    ensures
        unslashed(path).len() > 0 ==> unslashed(path).last() != '/',
        path.len() > 0 && path.last() != '/' ==> unslashed(path) == path,
        unslashed(path).len() <= path.len(),
    decreases path.len(),
{
    if path.len() > 0 && path.last() == '/' {
        lemma_unslashed(path.drop_last());
    }
}

/// Stepping into a folder and back out leads to where one was.
pub proof fn law_stepping_in_and_out(base: Seq<char>, name: Seq<char>)
    requires
        base == "/"@ || (base.len() > 0 && base.last() != '/'),
        is_name(name),
    ensures
        above(inside(base, name)) == Some(base),
{
    reveal_strlit("/");
    let path = inside(base, name);
    lemma_unslashed(path);
    assert(path.last() == name.last());
    let at = path.len() - name.len();
    assert(path[at - 1] == '/');
    assert forall|j: int| at <= j < path.len() implies path[j] != '/' by {
        assert(path[j] == name[j - at]);
    }
    lemma_after_last(path, '/', at as int);
    if at == 1 {
        assert(base =~= "/"@);
    } else {
        assert(path.take(at - 1) =~= base);
    }
}

/// Whether a name is one: not empty, and without a slash.
pub open spec fn is_name(name: Seq<char>) -> bool {
    name.len() > 0 && forall|i: int| 0 <= i < name.len() ==> name[i] != '/'
}

proof fn lemma_segments(path: Seq<char>)
    ensures
        forall|i: int| 0 <= i < segments(path).len() ==> is_name(#[trigger] segments(path)[i]),
    decreases path.len(),
{
    let at = first_index(path, '/');
    lemma_first_index_bounds(path, '/');
    let name = path.take(at);
    if at < path.len() {
        let rest = path.skip(at + 1);
        lemma_segments(rest);
        assert forall|i: int| 0 <= i < segments(path).len() implies is_name(
            #[trigger] segments(path)[i],
        ) by {
            if name.len() == 0 {
                assert(segments(path)[i] == segments(rest)[i]);
            } else if i > 0 {
                assert(segments(path)[i] == segments(rest)[i - 1]);
            }
        }
    }
}

/// Each step of the crumbs lies in the one before it, and the first after the
/// root lies in the root.
pub proof fn law_each_crumb_lies_in_the_one_before(path: Seq<char>, i: int)
    requires
        1 <= i <= segments(path).len(),
    ensures
        above(rooted(segments(path).take(i))) == Some(
            if i == 1 {
                "/"@
            } else {
                rooted(segments(path).take(i - 1))
            },
        ),
{
    reveal_strlit("/");
    let names = segments(path);
    lemma_segments(path);
    let base = rooted(names.take(i - 1));
    let name = names[i - 1];
    assert(names.take(i).drop_last() =~= names.take(i - 1));
    assert(names.take(i).last() == name);
    if i == 1 {
        assert(names.take(0) =~= Seq::empty());
        assert(Seq::<char>::empty() + "/"@ + name =~= "/"@ + name);
        assert(inside("/"@, name) =~= "/"@ + name);
        law_stepping_in_and_out("/"@, name);
    } else {
        let last = names[i - 2];
        assert(names.take(i - 1).last() == last);
        assert(base.last() == last.last());
        assert(is_name(last));
        law_stepping_in_and_out(base, name);
    }
}

/// An entry of a folder.
#[derive(Debug)]
pub struct FolderEntry {
    pub name: String,
    pub is_dir: bool,
    pub is_repo: bool,
}

/// What a folder holds.
#[derive(Debug)]
pub struct FolderListing {
    pub path: String,
    pub entries: Vec<FolderEntry>,
    pub truncated: bool,
}

/// The folders among the entries, in their order.
pub open spec fn only_folders(entries: Seq<FolderEntry>) -> Seq<FolderEntry> {
    entries.filter(|entry: FolderEntry| entry.is_dir)
}

/// The rows of a listing: files do not show.
pub fn browser_rows(listing: &FolderListing) -> (rows: Vec<&FolderEntry>)
    ensures
        rows@.map_values(|row: &FolderEntry| *row) == only_folders(listing.entries@),
{
    let mut rows: Vec<&FolderEntry> = Vec::new();
    let mut k: usize = 0;
    proof {
        reveal(Seq::filter);
        assert(rows@.map_values(|row: &FolderEntry| *row) =~= only_folders(
            listing.entries@.take(0),
        ));
    }
    while k < listing.entries.len()
        invariant
            k <= listing.entries@.len(),
            rows@.map_values(|row: &FolderEntry| *row) == only_folders(
                listing.entries@.take(k as int),
            ),
        decreases listing.entries.len() - k,
    {
        proof {
            reveal(Seq::filter);
            assert(listing.entries@.take(k + 1).drop_last() =~= listing.entries@.take(k as int));
        }
        let ghost before = rows@.map_values(|row: &FolderEntry| *row);
        let entry = &listing.entries[k];
        if entry.is_dir {
            rows.push(entry);
            assert(rows@.map_values(|row: &FolderEntry| *row) =~= before.push(*entry));
        }
        k += 1;
    }
    assert(listing.entries@.take(k as int) =~= listing.entries@);
    rows
}

/// A name in a folder is the folder's path and the name, with one slash
/// between them.
pub proof fn law_a_name_stands_behind_one_slash(base: Seq<char>, name: Seq<char>)
    ensures
        base.len() > 0 && base.last() == '/' ==> inside(base, name) == base + name,
        base.len() == 0 || base.last() != '/' ==> inside(base, name) == base.push('/') + name,
{
    reveal_strlit("/");
    assert(base + "/"@ + name =~= base.push('/') + name);
}

/// The steps to what lies below a path are the steps to the path and those
/// from there on; a single name is a single step.
pub proof fn law_steps_add_up(base: Seq<char>, below: Seq<char>)
    ensures
        segments(base.push('/') + below) == segments(base) + segments(below),
        is_name(below) ==> segments(below) == seq![below],
        segments(Seq::empty()).len() == 0,
    decreases base.len(),
{
    let whole = base.push('/') + below;
    let at = first_index(base, '/');
    lemma_first_index_bounds(base, '/');
    assert forall|j: int| 0 <= j < at implies whole[j] != '/' by {
        assert(whole[j] == base[j]);
    }
    lemma_first_index(whole, '/', at);
    assert(whole.take(at) =~= base.take(at));
    if at < base.len() {
        let rest = base.skip(at + 1);
        law_steps_add_up(rest, below);
        assert(whole.skip(at + 1) =~= rest.push('/') + below);
        assert(segments(whole) =~= segments(base) + segments(below));
    } else {
        assert(whole.skip(at + 1) =~= below);
        assert(segments(whole) =~= segments(base) + segments(below));
    }
    if is_name(below) {
        lemma_first_index(below, '/', below.len() as int);
        assert(below.take(below.len() as int) =~= below);
    }
}

/// A path that is made of names is taken apart into them again.
pub proof fn law_names_are_found_again(names: Seq<Seq<char>>)
    requires
        forall|i: int| 0 <= i < names.len() ==> is_name(#[trigger] names[i]),
    ensures
        segments(rooted(names)) == names,
    decreases names.len(),
{
    reveal_strlit("/");
    if names.len() == 0 {
        law_steps_add_up(Seq::empty(), Seq::empty());
        assert(segments(rooted(names)) =~= names);
    } else {
        let front = names.drop_last();
        let last = names.last();
        assert forall|i: int| 0 <= i < front.len() implies is_name(#[trigger] front[i]) by {
            assert(front[i] == names[i]);
        }
        law_names_are_found_again(front);
        assert(is_name(names[names.len() - 1]));
        law_steps_add_up(rooted(front), last);
        assert(rooted(front) + "/"@ + last =~= rooted(front).push('/') + last);
        assert(front + seq![last] =~= names);
    }
}

/// A folder's path ends in no slash, but for the root, and loses nothing but
/// slashes at its end.
pub proof fn law_a_folder_loses_only_its_last_slashes(path: Seq<char>)
    ensures
        folder(path) == "/"@ || (folder(path).len() > 0 && folder(path).last() != '/'),
        unslashed(path).is_prefix_of(path),
        forall|i: int| unslashed(path).len() <= i < path.len() ==> #[trigger] path[i] == '/',
        path.len() > 0 && path.last() != '/' ==> folder(path) == path,
    decreases path.len(),
{
    reveal_strlit("/");
    lemma_unslashed(path);
    if path.len() > 0 && path.last() == '/' {
        let front = path.drop_last();
        law_a_folder_loses_only_its_last_slashes(front);
        assert(unslashed(path).is_prefix_of(front));
        assert(unslashed(path) =~= path.subrange(0, unslashed(path).len() as int)) by {
            assert(unslashed(path) == front.subrange(0, unslashed(path).len() as int));
        }
        assert forall|i: int| unslashed(path).len() <= i < path.len() implies #[trigger] path[i]
            == '/' by {
            if i < front.len() {
                assert(front[i] == path[i]);
            }
        }
    } else {
        assert(path.subrange(0, path.len() as int) =~= path);
    }
}

/// What is typed leads somewhere where it begins at the root or at home: an
/// absolute path to itself, a tilde to the home folder, and a tilde with a
/// path to what lies there below home. Nothing else leads anywhere, and no
/// tilde does without a home.
pub proof fn law_typed_paths_lead_from_root_or_home(query: Seq<char>, home: Seq<char>)
    ensures
        ({
            let typed = trimmed(query);
            &&& typed.len() == 0 ==> jump(query, Some(home)) is None
            &&& typed.len() > 0 && typed[0] != '/' && typed[0] != '~' ==> jump(query, Some(home))
                is None
            &&& typed.len() > 0 && typed[0] == '/' ==> jump(query, Some(home)) == Some(
                folder(typed),
            ) && jump(query, None) == Some(folder(typed))
            &&& typed.len() > 0 && typed[0] == '~' ==> jump(query, None) is None
            &&& typed == seq!['~'] ==> jump(query, Some(home)) == Some(folder(home))
            &&& typed.len() > 1 && typed[0] == '~' && typed[1] != '/' ==> jump(query, Some(home))
                is None
            &&& typed.len() > 2 && typed[0] == '~' && typed[1] == '/' && typed.last() != '/'
                && home.len() > 0 && home.last() != '/' ==> jump(query, Some(home)) == Some(
                home.push('/') + typed.skip(2),
            )
        }),
{
    reveal_strlit("/");
    let typed = trimmed(query);
    if typed.len() > 2 && typed[0] == '~' && typed[1] == '/' && typed.last() != '/' && home.len()
        > 0 && home.last() != '/' {
        let rest = typed.skip(1);
        assert(rest[0] == typed[1]);
        assert(rest.skip(1) =~= typed.skip(2));
        lemma_unslashed(typed.skip(2));
        lemma_unslashed(home);
        assert(typed.skip(2).last() == typed.last());
        assert(home + "/"@ + typed.skip(2) =~= home.push('/') + typed.skip(2));
    } else if typed.len() > 1 && typed[0] == '~' {
        assert(typed.skip(1)[0] == typed[1]);
    }
}

/// A name is completed from every beginning of it, whatever the case, and from
/// nothing that is longer than it.
pub proof fn law_a_name_is_completed_from_its_beginnings(name: Seq<char>, query: Seq<char>, k: int)
    ensures
        0 <= k <= name.len() ==> completes(name, name.take(k)),
        completes(name, query) ==> query.len() <= name.len(),
        completes(name, query) && 0 <= k <= query.len() ==> completes(name, query.take(k)),
        completes(name, query) && 0 <= k < query.len() ==> lowered(name[k]) == lowered(query[k]),
        folds_to(name, name),
        folds_to(name, query) ==> folds_to(query, name),
{
    if completes(name, query) && 0 <= k <= query.len() {
        let short = query.take(k);
        assert forall|i: int| 0 <= i < short.len() implies lowered(#[trigger] name[i]) == lowered(
            short[i],
        ) by {
            assert(short[i] == query[i]);
        }
    }
    if folds_to(name, query) {
        assert forall|i: int| 0 <= i < name.len() implies lowered(#[trigger] query[i]) == lowered(
            name[i],
        ) by {
            assert(lowered(name[i]) == lowered(query[i]));
        }
    }
}

/// The rows of a listing are its folders, and nothing but them.
pub proof fn law_only_folders_are_listed(entries: Seq<FolderEntry>, entry: FolderEntry)
    ensures
        only_folders(entries).contains(entry) == (entries.contains(entry) && entry.is_dir),
{
    lemma_filter_members(entries, |entry: FolderEntry| entry.is_dir, entry);
}

/// The crumbs lead from the root down the path, one for each of its names, and
/// each leads to the path up to its name.
pub proof fn law_crumbs_lead_down_the_path(crumbs: Seq<(String, String)>, names: Seq<Seq<char>>, i: int)
    requires
        lead_through(crumbs, names),
        0 <= i < names.len(),
    ensures
        crumbs.len() == names.len() + 1,
        crumbs[0].0@ == "/"@ && crumbs[0].1@ == "/"@,
        crumbs[i + 1].0@ == names[i],
        crumbs[i + 1].1@ == (if i == 0 {
            Seq::empty()
        } else {
            crumbs[i].1@
        }) + "/"@ + names[i],
{
    assert(names.take(i + 1).drop_last() =~= names.take(i));
    assert(names.take(i + 1).last() == names[i]);
    assert(crumbs[i + 1].1@ == rooted(names.take(i + 1)));
    if i > 0 {
        assert(crumbs[i].1@ == rooted(names.take(i)));
    } else {
        assert(names.take(0) =~= Seq::empty());
        assert(rooted(names.take(0)) =~= Seq::empty());
    }
    assert(rooted(names.take(i + 1)) == rooted(names.take(i)) + "/"@ + names[i]);
}

/// What is typed leads to the folder of just that name; else to the one whose
/// name differs in case alone; else to the only one that it can be completed
/// to, and nowhere where there is none or more than one.
pub proof fn law_the_closest_name_is_the_target(
    names: Seq<&str>,
    query: Seq<char>,
    target: Option<int>,
    i: int,
    j: int,
)
    requires
        is_target(names, query, target),
    ensures
        target is Some ==> 0 <= target->0 < names.len() && completes(names[target->0]@, query),
        0 <= i < names.len() && names[i]@ == query ==> target is Some && names[target->0]@ == query
            && target->0 <= i,
        0 <= i < j < names.len() && completes(names[i]@, query) && completes(names[j]@, query) && (
        forall|m: int| 0 <= m < names.len() ==> !folds_to(#[trigger] names[m]@, query))
            ==> target is None,
        (forall|m: int| 0 <= m < names.len() ==> !completes(#[trigger] names[m]@, query))
            ==> target is None,
{
    if target is Some {
        if names[target->0]@ == query {
            assert(completes(names[target->0]@, query));
        }
    }
    if 0 <= i < j < names.len() && completes(names[i]@, query) && completes(names[j]@, query) && (
    forall|m: int| 0 <= m < names.len() ==> !folds_to(#[trigger] names[m]@, query)) {
        assert forall|m: int| 0 <= m < names.len() implies #[trigger] names[m]@ != query by {
            assert(!folds_to(names[m]@, query));
        }
        if target is Some {
            assert(only_completion(names, query, target->0));
            assert(i == target->0 && j == target->0);
        }
    }
}

} // verus!
