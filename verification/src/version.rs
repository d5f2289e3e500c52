//! Versions of releases, and which of two is newer.

use vstd::prelude::*;

use crate::text::all_digits;
use crate::text::chars_of;
use crate::text::halves;
use crate::text::is_digit;
use crate::text::law_a_text_is_split_at_the_first;
use crate::text::law_sides_are_found_again;
use crate::text::lemma_trimmed_already;
use crate::text::number;
use crate::text::parse_u64;
use crate::text::parsed_u64;
use crate::text::split_once;
use crate::text::trim;
use crate::text::trimmed;
use crate::text::white_space;

verus! {

/// A version: major, minor and patch number, and whether it is a final build.
pub struct Version {
    pub major: u64,
    pub minor: u64,
    pub patch: u64,
    pub release: bool,
}

/// `s` without the letters `v` that it begins with.
pub open spec fn without_v(s: Seq<char>) -> Seq<char>
    decreases s.len(),
{
    if s.len() > 0 && s[0] == 'v' {
        without_v(s.skip(1))
    } else {
        s
    }
}

/// What a tag says of the version: no white space around it, no `v` before it.
pub open spec fn tag_version(tag: Seq<char>) -> Seq<char> {
    without_v(trimmed(tag))
}

/// How many characters come before the first `-` or `+`.
pub open spec fn core_len(s: Seq<char>) -> int
    decreases s.len(),
{
    if s.len() == 0 || s[0] == '-' || s[0] == '+' {
        0
    } else {
        1 + core_len(s.skip(1))
    }
}

/// The three numbers of a version, of which the last or the last two may be
/// missing; a fourth is not allowed.
pub open spec fn triple(core: Seq<char>) -> Option<(u64, u64, u64)> {
    let (major, rest) = match halves(core, '.') {
        Some((major, rest)) => (major, Some(rest)),
        None => (core, None),
    };
    let (minor, last) = match rest {
        Some(rest) => match halves(rest, '.') {
            Some((minor, last)) => (Some(minor), Some(last)),
            None => (Some(rest), None),
        },
        None => (None, None),
    };
    if last is Some && halves(last->0, '.') is Some {
        None
    } else {
        match (parsed_u64(major), part(minor), part(last)) {
            (Some(a), Some(b), Some(c)) => Some((a, b, c)),
            _ => None,
        }
    }
}

/// The number of a part that may be missing.
pub open spec fn part(text: Option<Seq<char>>) -> Option<u64> {
    match text {
        Some(digits) => parsed_u64(digits),
        None => Some(0),
    }
}

/// The version that a text stands for.
pub open spec fn version_of(text: Seq<char>) -> Option<Version> {
    let version = tag_version(text);
    let core = version.take(core_len(version));
    match triple(core) {
        Some((major, minor, patch)) => Some(
            Version { major, minor, patch, release: core.len() == version.len() },
        ),
        None => None,
    }
}

impl Version {
    /// Whether this version comes after `other`. Of two versions with the same
    /// numbers a final build comes after one that is not.
    pub open spec fn after(self, other: Version) -> bool {
        if self.major != other.major {
            self.major > other.major
        } else if self.minor != other.minor {
            self.minor > other.minor
        } else if self.patch != other.patch {
            self.patch > other.patch
        } else {
            self.release && !other.release
        }
    }

    fn is_after(&self, other: &Version) -> (after: bool)
        ensures
            after == self.after(*other),
    {
        if self.major != other.major {
            self.major > other.major
        } else if self.minor != other.minor {
            self.minor > other.minor
        } else if self.patch != other.patch {
            self.patch > other.patch
        } else {
            self.release && !other.release
        }
    }
}

/// Whether `candidate` is a version that comes after the version `current`.
pub open spec fn newer(current: Seq<char>, candidate: Seq<char>) -> bool {
    match (version_of(current), version_of(candidate)) {
        (Some(old_version), Some(new_version)) => new_version.after(old_version),
        _ => false,
    }
}

/// What a tag says of the version.
pub fn strip_tag(tag: &str) -> (version: &str)
    ensures
        version@ == tag_version(tag@),
{
    let core = trim(tag);
    let chars = chars_of(core);
    let mut start: usize = 0;
    assert(core@.skip(0) =~= core@);
    while start < chars.len() && chars[start] == 'v'
        invariant
            chars@ == core@,
            start <= chars@.len(),
            without_v(core@) == without_v(core@.skip(start as int)),
        decreases chars.len() - start,
    {
        assert(core@.skip(start as int).skip(1) =~= core@.skip(start + 1));
        start += 1;
    }
    let version = core.substring_char(start, chars.len());
    assert(version@ =~= core@.skip(start as int));
    version
}

fn core_length(version: &str) -> (length: usize)
    ensures
        length == core_len(version@),
        length <= version@.len(),
{
    let chars = chars_of(version);
    let mut i: usize = 0;
    assert(version@.skip(0) =~= version@);
    while i < chars.len() && chars[i] != '-' && chars[i] != '+'
        invariant
            chars@ == version@,
            i <= chars@.len(),
            core_len(version@) == i + core_len(version@.skip(i as int)),
        decreases chars.len() - i,
    {
        assert(version@.skip(i as int).skip(1) =~= version@.skip(i + 1));
        i += 1;
    }
    i
}

fn parse_part(text: Option<&str>) -> (value: Option<u64>)
    ensures
        value == part(
            match text {
                Some(digits) => Some(digits@),
                None => None,
            },
        ),
{
    match text {
        Some(digits) => parse_u64(digits),
        None => Some(0),
    }
}

fn parse_triple(core: &str) -> (numbers: Option<(u64, u64, u64)>)
    ensures
        numbers == triple(core@),
{
    let (major, rest) = match split_once(core, '.') {
        Some((major, rest)) => (major, Some(rest)),
        None => (core, None),
    };
    let (minor, last) = match rest {
        Some(rest) => match split_once(rest, '.') {
            Some((minor, last)) => (Some(minor), Some(last)),
            None => (Some(rest), None),
        },
        None => (None, None),
    };
    if let Some(text) = last {
        if split_once(text, '.').is_some() {
            return None;
        }
    }
    match (parse_u64(major), parse_part(minor), parse_part(last)) {
        (Some(a), Some(b), Some(c)) => Some((a, b, c)),
        _ => None,
    }
}

/// The version that a text stands for: one to three numbers with dots between
/// them, behind an optional `v`, and an optional suffix behind `-` or `+`.
pub fn parse_version(text: &str) -> (version: Option<Version>)
    ensures
        version == version_of(text@),
{
    let stripped = strip_tag(text);
    let length: usize = core_length(stripped);
    let core = stripped.substring_char(0, length);
    assert(core@ =~= stripped@.take(length as int));
    let release = length == stripped.unicode_len();
    match parse_triple(core) {
        Some((major, minor, patch)) => Some(Version { major, minor, patch, release }),
        None => None,
    }
}

/// Whether `candidate` is a later version than `current`. A text that is no
/// version is never later than anything, and nothing is later than it.
pub fn is_newer(current: &str, candidate: &str) -> (later: bool)
    ensures
        later == newer(current@, candidate@),
{
    match (parse_version(current), parse_version(candidate)) {
        (Some(old_version), Some(new_version)) => new_version.is_after(&old_version),
        _ => false,
    }
}

/// Being newer is an order: no version is newer than itself, no two are newer
/// than each other, and what is newer than a newer one is newer.
pub proof fn law_newer_is_an_order(a: Seq<char>, b: Seq<char>, c: Seq<char>)
    ensures
        !newer(a, a),
        newer(a, b) ==> !newer(b, a),
        newer(a, b) && newer(b, c) ==> newer(a, c),
{
}

/// Of two versions with the same numbers the one with a suffix is never newer
/// than the one without, and the one without is newer than the other.
pub proof fn law_a_suffix_loses_the_tie(suffixed: Seq<char>, released: Seq<char>)
    requires
        version_of(suffixed) is Some,
        version_of(released) is Some,
        !version_of(suffixed)->0.release,
        version_of(released)->0.release,
        version_of(suffixed)->0.major == version_of(released)->0.major,
        version_of(suffixed)->0.minor == version_of(released)->0.minor,
        version_of(suffixed)->0.patch == version_of(released)->0.patch,
    ensures
        newer(suffixed, released),
        !newer(released, suffixed),
{
}

/// The major number decides first, then the minor number, then the patch
/// number: a greater one makes a version newer whatever stands behind it, and
/// a smaller one keeps it from being newer.
pub proof fn law_the_first_number_that_differs_decides(current: Seq<char>, candidate: Seq<char>)
    requires
        version_of(current) is Some,
        version_of(candidate) is Some,
    ensures
        ({
            let a = version_of(current)->0;
            let b = version_of(candidate)->0;
            &&& a.major < b.major ==> newer(current, candidate) && !newer(candidate, current)
            &&& a.major == b.major && a.minor < b.minor ==> newer(current, candidate) && !newer(
                candidate,
                current,
            )
            &&& a.major == b.major && a.minor == b.minor && a.patch < b.patch ==> newer(
                current,
                candidate,
            ) && !newer(candidate, current)
            &&& a == b ==> !newer(current, candidate)
        }),
{
}

/// A text that is no version never counts as an update.
pub proof fn law_no_version_no_update(current: Seq<char>, candidate: Seq<char>)
    requires
        version_of(candidate) is None,
    ensures
        !newer(current, candidate),
{
}

/// Digits between dots, as a version is written.
pub open spec fn dotted(major: Seq<char>, minor: Seq<char>, patch: Seq<char>) -> Seq<char> {
    major.push('.') + (minor.push('.') + patch)
}

proof fn lemma_digits(s: Seq<char>)
    requires
        s.len() > 0,
        all_digits(s),
    ensures
        !s.contains('.'),
        !white_space(s[0]),
        !white_space(s.last()),
        s[0] != 'v',
{
    if s.contains('.') {
        let i = s.index_of('.');
        assert(is_digit(s[i]));
    }
    assert(is_digit(s[0]));
    assert(is_digit(s[s.len() - 1]));
}

proof fn lemma_core_len(s: Seq<char>, at: int)
    requires
        0 <= at <= s.len(),
        forall|i: int| 0 <= i < at ==> is_digit(#[trigger] s[i]) || s[i] == '.',
        at == s.len() || s[at] == '-' || s[at] == '+',
    ensures
        core_len(s) == at,
    decreases s.len(),
{
    if at > 0 {
        assert(is_digit(s[0]) || s[0] == '.');
        let rest = s.skip(1);
        assert forall|i: int| 0 <= i < at - 1 implies is_digit(#[trigger] rest[i]) || rest[i]
            == '.' by {
            assert(rest[i] == s[i + 1]);
        }
        lemma_core_len(rest, at - 1);
    }
}

proof fn lemma_triple(major: Seq<char>, minor: Seq<char>, patch: Seq<char>)
    requires
        major.len() > 0,
        minor.len() > 0,
        patch.len() > 0,
        all_digits(major),
        all_digits(minor),
        all_digits(patch),
        parsed_u64(major) is Some,
        parsed_u64(minor) is Some,
        parsed_u64(patch) is Some,
    ensures
        triple(dotted(major, minor, patch)) == Some(
            (parsed_u64(major)->0, parsed_u64(minor)->0, parsed_u64(patch)->0),
        ),
        triple(major.push('.') + minor) == Some(
            (parsed_u64(major)->0, parsed_u64(minor)->0, 0u64),
        ),
        triple(major) == Some((parsed_u64(major)->0, 0u64, 0u64)),
{
    lemma_digits(major);
    lemma_digits(minor);
    lemma_digits(patch);
    law_sides_are_found_again(major, '.', minor.push('.') + patch);
    law_sides_are_found_again(minor, '.', patch);
    law_sides_are_found_again(major, '.', minor);
    law_a_text_is_split_at_the_first(major, '.');
    law_a_text_is_split_at_the_first(minor, '.');
    law_a_text_is_split_at_the_first(patch, '.');
}

proof fn lemma_version(core: Seq<char>, suffix: Seq<char>)
    requires
        core.len() > 0,
        is_digit(core[0]),
        !white_space(core.last()),
        forall|i: int| 0 <= i < core.len() ==> is_digit(#[trigger] core[i]) || core[i] == '.',
        suffix.len() == 0 || suffix[0] == '-' || suffix[0] == '+',
        suffix.len() == 0 || !white_space(suffix.last()),
        triple(core) is Some,
    ensures
        version_of(core + suffix) == Some(
            Version {
                major: (triple(core)->0).0,
                minor: (triple(core)->0).1,
                patch: (triple(core)->0).2,
                release: suffix.len() == 0,
            },
        ),
        version_of(seq!['v'] + core + suffix) == version_of(core + suffix),
{
    let whole = core + suffix;
    let tagged = seq!['v'] + core + suffix;
    assert(whole[0] == core[0]);
    assert(whole.last() == if suffix.len() == 0 {
        core.last()
    } else {
        suffix.last()
    });
    assert(tagged.last() == whole.last());
    lemma_trimmed_already(whole);
    lemma_trimmed_already(tagged);
    assert(tagged.skip(1) =~= whole);
    lemma_core_len(whole, core.len() as int);
    assert(whole.take(core.len() as int) =~= core);
}

/// A version is read as it is written: its numbers are those between the dots,
/// with zero for a patch number, or a minor number too, that is not there. A
/// `v` before it means nothing, and a suffix behind `-` or `+` says only that
/// it is no final build.
pub proof fn law_a_version_is_read_as_it_is_written(
    major: Seq<char>,
    minor: Seq<char>,
    patch: Seq<char>,
    suffix: Seq<char>,
)
    requires
        major.len() > 0,
        minor.len() > 0,
        patch.len() > 0,
        all_digits(major),
        all_digits(minor),
        all_digits(patch),
        number(major) <= u64::MAX,
        number(minor) <= u64::MAX,
        number(patch) <= u64::MAX,
        suffix.len() == 0 || suffix[0] == '-' || suffix[0] == '+',
        suffix.len() == 0 || !white_space(suffix.last()),
    ensures
        ({
            let a = number(major) as u64;
            let b = number(minor) as u64;
            let c = number(patch) as u64;
            let release = suffix.len() == 0;
            let full = dotted(major, minor, patch) + suffix;
            &&& version_of(full) == Some(Version { major: a, minor: b, patch: c, release })
            &&& version_of(seq!['v'] + dotted(major, minor, patch) + suffix) == version_of(full)
            &&& version_of(major.push('.') + minor + suffix) == Some(
                Version { major: a, minor: b, patch: 0, release },
            )
            &&& version_of(major + suffix) == Some(
                Version { major: a, minor: 0, patch: 0, release },
            )
        }),
{
    lemma_digits(major);
    lemma_digits(minor);
    lemma_digits(patch);
    assert(is_digit(major[0]) && is_digit(minor[0]) && is_digit(patch[0]));
    lemma_triple(major, minor, patch);
    let two = major.push('.') + minor;
    let three = dotted(major, minor, patch);
    assert(three.last() == patch.last());
    assert(two.last() == minor.last());
    assert forall|i: int| 0 <= i < three.len() implies is_digit(#[trigger] three[i]) || three[i]
        == '.' by {
        let second = i - major.len() - 1;
        if i < major.len() {
            assert(three[i] == major[i]);
        } else if second >= 0 && second < minor.len() {
            assert(three[i] == minor[second]);
        } else if second > minor.len() {
            assert(three[i] == patch[second - minor.len() - 1]);
        }
    }
    assert forall|i: int| 0 <= i < two.len() implies is_digit(#[trigger] two[i]) || two[i]
        == '.' by {
        if i < major.len() {
            assert(two[i] == major[i]);
        } else if i > major.len() {
            assert(two[i] == minor[i - major.len() - 1]);
        }
    }
    lemma_version(three, suffix);
    lemma_version(two, suffix);
    lemma_version(major, suffix);
}

/// A text is a version only where each of its parts is a number, and there are
/// no more than three of them.
pub proof fn law_a_fourth_number_is_refused(
    major: Seq<char>,
    minor: Seq<char>,
    patch: Seq<char>,
    more: Seq<char>,
)
    requires
        all_digits(major),
        all_digits(minor),
        all_digits(patch),
        major.len() > 0,
        minor.len() > 0,
        patch.len() > 0,
    ensures
        triple(dotted(major, minor, patch.push('.') + more)) is None,
{
    lemma_digits(major);
    lemma_digits(minor);
    lemma_digits(patch);
    law_sides_are_found_again(major, '.', minor.push('.') + (patch.push('.') + more));
    law_sides_are_found_again(minor, '.', patch.push('.') + more);
    law_sides_are_found_again(patch, '.', more);
}

/// What a tag says is its text without the white space around it and without
/// the letters `v` before it: what is left begins with none.
pub proof fn law_a_tag_loses_only_its_mark(tag: Seq<char>)
    ensures
        tag_version(tag).len() > 0 ==> tag_version(tag)[0] != 'v',
        exists|k: int|
            0 <= k <= trimmed(tag).len() && tag_version(tag) == #[trigger] trimmed(tag).skip(k) && (
            forall|i: int| 0 <= i < k ==> #[trigger] trimmed(tag)[i] == 'v'),
{
    let k = lemma_without_v(trimmed(tag));
    assert(tag_version(tag) == trimmed(tag).skip(k));
}

proof fn lemma_without_v(s: Seq<char>) -> (k: int)
    ensures
        0 <= k <= s.len(),
        without_v(s) == s.skip(k),
        forall|i: int| 0 <= i < k ==> #[trigger] s[i] == 'v',
        k < s.len() ==> s[k] != 'v',
    decreases s.len(),
{
    if s.len() > 0 && s[0] == 'v' {
        let rest = s.skip(1);
        let more = lemma_without_v(rest);
        assert(rest.skip(more) =~= s.skip(more + 1));
        assert forall|i: int| 0 <= i < more + 1 implies #[trigger] s[i] == 'v' by {
            if i > 0 {
                assert(rest[i - 1] == s[i]);
            }
        }
        more + 1
    } else {
        assert(s.skip(0) =~= s);
        0
    }
}

} // verus!
