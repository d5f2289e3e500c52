//! A line of text that is typed into. Places in the text are counted in bytes;
//! the platform counts them in UTF-16 units.

use vstd::prelude::*;
use vstd::utf8::encode_scalar;
use vstd::utf8::encode_utf8;

use crate::text::chars_of;
use crate::text::concat3;

verus! {

/// How many bytes a character takes.
pub open spec fn width8(c: char) -> nat {
    if c as u32 <= 0x7f {
        1
    } else if c as u32 <= 0x7ff {
        2
    } else if c as u32 <= 0xffff {
        3
    } else {
        4
    }
}

/// How many UTF-16 units a character takes.
pub open spec fn width16(c: char) -> nat {
    if c as u32 <= 0xffff {
        1
    } else {
        2
    }
}

/// How many bytes a text takes.
pub open spec fn bytes(s: Seq<char>) -> nat
    decreases s.len(),
{
    if s.len() == 0 {
        0
    } else {
        width8(s[0]) + bytes(s.drop_first())
    }
}

/// How many UTF-16 units a text takes.
pub open spec fn units(s: Seq<char>) -> nat
    decreases s.len(),
{
    if s.len() == 0 {
        0
    } else {
        width16(s[0]) + units(s.drop_first())
    }
}

/// The number of characters before the byte `offset`, if a character starts
/// or the text ends there.
pub open spec fn char_index(s: Seq<char>, offset: int) -> Option<nat>
    decreases s.len(),
{
    if offset == 0 {
        Some(0nat)
    } else if s.len() == 0 || offset < width8(s[0]) {
        None
    } else {
        match char_index(s.drop_first(), offset - width8(s[0])) {
            Some(index) => Some(index + 1),
            None => None,
        }
    }
}

/// The byte where the character starts that holds the UTF-16 unit `offset`, or
/// where the next one starts, if it is inside a character.
pub open spec fn from_utf16(s: Seq<char>, offset: int) -> nat
    decreases s.len(),
{
    if s.len() == 0 || offset <= 0 {
        0
    } else {
        width8(s[0]) + from_utf16(s.drop_first(), offset - width16(s[0]))
    }
}

/// The UTF-16 unit where the character starts that holds the byte `offset`, or
/// where the next one starts, if it is inside a character.
pub open spec fn to_utf16(s: Seq<char>, offset: int) -> nat
    decreases s.len(),
{
    if s.len() == 0 || offset <= 0 {
        0
    } else {
        width16(s[0]) + to_utf16(s.drop_first(), offset - width8(s[0]))
    }
}

pub proof fn lemma_bytes_split(s: Seq<char>, k: int)
    requires
        0 <= k <= s.len(),
    ensures
        bytes(s.take(k)) + bytes(s.skip(k)) == bytes(s),
        units(s.take(k)) + units(s.skip(k)) == units(s),
    decreases k,
{
    if k == 0 {
        assert(s.take(0) =~= Seq::empty());
        assert(s.skip(0) =~= s);
    } else {
        let rest = s.drop_first();
        lemma_bytes_split(rest, k - 1);
        assert(s.take(k).drop_first() =~= rest.take(k - 1));
        assert(s.skip(k) =~= rest.skip(k - 1));
    }
}

proof fn lemma_bytes_push(s: Seq<char>, c: char)
    ensures
        bytes(s.push(c)) == bytes(s) + width8(c),
{
    let whole = s.push(c);
    lemma_bytes_split(whole, s.len() as int);
    assert(whole.take(s.len() as int) =~= s);
    let tail = whole.skip(s.len() as int);
    assert(tail.drop_first() =~= Seq::empty());
    assert(tail.len() == 1 && tail[0] == c);
    assert(bytes(tail.drop_first()) == 0);
}

proof fn lemma_width(c: char)
    ensures
        encode_scalar(c as u32).len() == width8(c),
{
}

proof fn lemma_bytes_encoded(s: Seq<char>)
    ensures
        bytes(s) == encode_utf8(s).len(),
    decreases s.len(),
{
    if s.len() > 0 {
        lemma_width(s[0]);
        lemma_bytes_encoded(s.drop_first());
    }
}

proof fn lemma_bytes_add(a: Seq<char>, b: Seq<char>)
    ensures
        bytes(a + b) == bytes(a) + bytes(b),
{
    lemma_bytes_split(a + b, a.len() as int);
    assert((a + b).take(a.len() as int) =~= a);
    assert((a + b).skip(a.len() as int) =~= b);
}

proof fn lemma_char_index(s: Seq<char>, offset: int)
    requires
        char_index(s, offset) is Some,
    ensures
        char_index(s, offset)->0 <= s.len(),
        bytes(s.take(char_index(s, offset)->0 as int)) == offset,
    decreases s.len(),
{
    if offset == 0 {
        assert(s.take(0) =~= Seq::empty());
    } else {
        let rest = s.drop_first();
        lemma_char_index(rest, offset - width8(s[0]));
        let k = char_index(s, offset)->0 as int;
        assert(s.take(k).drop_first() =~= rest.take(k - 1));
    }
}

fn len_utf8(c: char) -> (len: usize)
    ensures
        len == width8(c),
        1 <= len <= 4,
{
    let code: u32 = c as u32;
    if code <= 0x7f {
        1
    } else if code <= 0x7ff {
        2
    } else if code <= 0xffff {
        3
    } else {
        4
    }
}

fn len_utf16(c: char) -> (len: usize)
    ensures
        len == width16(c),
        1 <= len <= 2,
        len <= width8(c),
{
    let code: u32 = c as u32;
    if code <= 0xffff {
        1
    } else {
        2
    }
}

/// How many bytes a text takes.
pub(crate) fn byte_len(s: &str) -> (len: usize)
    ensures
        len == bytes(s@),
{
    proof {
        lemma_bytes_encoded(s@);
    }
    s.as_bytes().len()
}

fn find_index(s: &str, offset: usize) -> (index: Option<usize>)
    ensures
        match index {
            Some(k) => char_index(s@, offset as int) == Some(k as nat) && k <= s@.len(),
            None => char_index(s@, offset as int) is None,
        },
{
    let total = byte_len(s);
    let chars = chars_of(s);
    let mut at: usize = 0;
    let mut k: usize = 0;
    assert(s@.skip(0) =~= s@);
    while k < chars.len()
        invariant
            chars@ == s@,
            k <= s@.len(),
            at <= offset,
            total == bytes(s@),
            at + bytes(s@.skip(k as int)) == total,
            char_index(s@, offset as int) == match char_index(s@.skip(k as int), offset - at) {
                Some(more) => Some((k + more) as nat),
                None => None,
            },
        decreases chars.len() - k,
    {
        if at == offset {
            return Some(k);
        }
        assert(s@.skip(k as int).drop_first() =~= s@.skip(k + 1));
        let width = len_utf8(chars[k]);
        if offset - at < width {
            return None;
        }
        at += width;
        k += 1;
    }
    if at == offset {
        Some(k)
    } else {
        None
    }
}

/// Where the last character starts before the byte `offset`; the start of the
/// text, if none does.
pub open spec fn before(s: Seq<char>, offset: int) -> nat
    decreases s.len(),
{
    if s.len() == 0 {
        0
    } else if bytes(s.drop_last()) < offset {
        bytes(s.drop_last())
    } else {
        before(s.drop_last(), offset)
    }
}

/// Where the first character starts after the byte `offset`; the end of the
/// text, if none does.
pub open spec fn after(s: Seq<char>, offset: int) -> nat
    decreases s.len(),
{
    if s.len() > 0 && bytes(s.drop_last()) > offset {
        after(s.drop_last(), offset)
    } else {
        bytes(s)
    }
}

/// Where the last character starts before the byte `offset`; the start of the
/// text, if none does.
pub fn previous_boundary(content: &str, offset: usize) -> (at: usize)
    ensures
        at == before(content@, offset as int),
{
    let total = byte_len(content);
    let chars = chars_of(content);
    let mut found: usize = 0;
    let mut at: usize = 0;
    let mut k: usize = 0;
    assert(content@.skip(0) =~= content@);
    assert(content@.take(0) =~= Seq::empty());
    while k < chars.len()
        invariant
            chars@ == content@,
            k <= content@.len(),
            total == bytes(content@),
            at + bytes(content@.skip(k as int)) == total,
            at == bytes(content@.take(k as int)),
            found == before(content@.take(k as int), offset as int),
        decreases chars.len() - k,
    {
        if at < offset {
            found = at;
        }
        proof {
            assert(content@.skip(k as int).drop_first() =~= content@.skip(k + 1));
            assert(content@.take(k + 1) =~= content@.take(k as int).push(content@[k as int]));
            assert(content@.take(k + 1).drop_last() =~= content@.take(k as int));
            lemma_bytes_push(content@.take(k as int), content@[k as int]);
        }
        at += len_utf8(chars[k]);
        k += 1;
    }
    assert(content@.take(k as int) =~= content@);
    found
}

proof fn lemma_after_prefix(s: Seq<char>, k: int, offset: int)
    requires
        0 <= k <= s.len(),
        bytes(s.take(k)) > offset,
    ensures
        after(s, offset) == after(s.take(k), offset),
    decreases s.len(),
{
    if k == s.len() {
        assert(s.take(k) =~= s);
    } else {
        assert(s.drop_last().take(k) =~= s.take(k));
        lemma_bytes_split(s.drop_last(), k);
        lemma_after_prefix(s.drop_last(), k, offset);
    }
}

/// Where the first character starts after the byte `offset`; the end of the
/// text, if none does.
pub fn next_boundary(content: &str, offset: usize) -> (at: usize)
    ensures
        at == after(content@, offset as int),
{
    let total = byte_len(content);
    let chars = chars_of(content);
    let mut at: usize = 0;
    let mut k: usize = 0;
    assert(content@.skip(0) =~= content@);
    assert(content@.take(0) =~= Seq::empty());
    while k < chars.len()
        invariant
            chars@ == content@,
            k <= content@.len(),
            total == bytes(content@),
            at + bytes(content@.skip(k as int)) == total,
            at == bytes(content@.take(k as int)),
            k > 0 ==> bytes(content@.take(k as int).drop_last()) <= offset,
        decreases chars.len() - k,
    {
        if at > offset {
            proof {
                lemma_after_prefix(content@, k as int, offset as int);
            }
            return at;
        }
        proof {
            assert(content@.skip(k as int).drop_first() =~= content@.skip(k + 1));
            assert(content@.take(k + 1) =~= content@.take(k as int).push(content@[k as int]));
            assert(content@.take(k + 1).drop_last() =~= content@.take(k as int));
            lemma_bytes_push(content@.take(k as int), content@[k as int]);
        }
        at += len_utf8(chars[k]);
        k += 1;
    }
    assert(content@.take(k as int) =~= content@);
    total
}

/// The boundary before a place is the nearest start of a character before it,
/// and the boundary after it the nearest one after it.
pub proof fn law_boundaries_are_the_nearest(s: Seq<char>, offset: int, k: int)
    requires
        0 <= k < s.len(),
    ensures
        bytes(s.take(k)) < offset ==> bytes(s.take(k)) <= before(s, offset) < offset,
        bytes(s.take(k)) > offset ==> offset < after(s, offset) <= bytes(s.take(k)),
    decreases s.len(),
{
    let front = s.drop_last();
    lemma_bytes_split(front, k);
    assert(front.take(k) =~= s.take(k));
    if k < front.len() {
        law_boundaries_are_the_nearest(front, offset, k);
    } else {
        assert(front =~= s.take(k));
        if bytes(front) > offset {
            lemma_after_bounds(front, offset);
        }
    }
}

proof fn lemma_after_bounds(s: Seq<char>, offset: int)
    ensures
        after(s, offset) <= bytes(s),
        bytes(s) > offset ==> after(s, offset) > offset,
    decreases s.len(),
{
    if s.len() > 0 && bytes(s.drop_last()) > offset {
        lemma_after_bounds(s.drop_last(), offset);
        lemma_bytes_split(s, s.len() - 1);
        assert(s.take(s.len() - 1) =~= s.drop_last());
    }
}

/// The byte for a UTF-16 unit.
pub fn offset_from_utf16(content: &str, offset: usize) -> (at: usize)
    ensures
        at == from_utf16(content@, offset as int),
{
    let total = byte_len(content);
    let chars = chars_of(content);
    let mut utf8: usize = 0;
    let mut utf16: usize = 0;
    let mut k: usize = 0;
    assert(content@.skip(0) =~= content@);
    while k < chars.len()
        invariant
            chars@ == content@,
            k <= content@.len(),
            total == bytes(content@),
            utf8 + bytes(content@.skip(k as int)) == total,
            utf16 <= utf8,
            from_utf16(content@, offset as int) == utf8 + from_utf16(
                content@.skip(k as int),
                offset - utf16,
            ),
        decreases chars.len() - k,
    {
        if utf16 >= offset {
            return utf8;
        }
        assert(content@.skip(k as int).drop_first() =~= content@.skip(k + 1));
        utf8 += len_utf8(chars[k]);
        utf16 += len_utf16(chars[k]);
        k += 1;
    }
    utf8
}

/// The UTF-16 unit for a byte.
pub fn offset_to_utf16(content: &str, offset: usize) -> (at: usize)
    ensures
        at == to_utf16(content@, offset as int),
{
    let total = byte_len(content);
    let chars = chars_of(content);
    let mut utf8: usize = 0;
    let mut utf16: usize = 0;
    let mut k: usize = 0;
    assert(content@.skip(0) =~= content@);
    while k < chars.len()
        invariant
            chars@ == content@,
            k <= content@.len(),
            total == bytes(content@),
            utf8 + bytes(content@.skip(k as int)) == total,
            utf16 <= utf8,
            to_utf16(content@, offset as int) == utf16 + to_utf16(
                content@.skip(k as int),
                offset - utf8,
            ),
        decreases chars.len() - k,
    {
        if utf8 >= offset {
            return utf16;
        }
        assert(content@.skip(k as int).drop_first() =~= content@.skip(k + 1));
        utf8 += len_utf8(chars[k]);
        utf16 += len_utf16(chars[k]);
        k += 1;
    }
    utf16
}

/// Between characters the two ways of counting lose nothing: each gives back
/// the place that the other was given.
pub proof fn law_places_survive_the_change_of_units(s: Seq<char>, k: int)
    requires
        0 <= k <= s.len(),
    ensures
        to_utf16(s, bytes(s.take(k)) as int) == units(s.take(k)),
        from_utf16(s, units(s.take(k)) as int) == bytes(s.take(k)),
        from_utf16(s, to_utf16(s, bytes(s.take(k)) as int) as int) == bytes(s.take(k)),
    decreases k,
{
    if k == 0 {
        assert(s.take(0) =~= Seq::empty());
    } else {
        let rest = s.drop_first();
        law_places_survive_the_change_of_units(rest, k - 1);
        assert(s.take(k).drop_first() =~= rest.take(k - 1));
    }
}

proof fn lemma_index_of_prefix(s: Seq<char>, k: int)
    requires
        0 <= k <= s.len(),
    ensures
        char_index(s, bytes(s.take(k)) as int) == Some(k as nat),
    decreases k,
{
    if k == 0 {
        assert(s.take(0) =~= Seq::empty());
    } else {
        let rest = s.drop_first();
        lemma_index_of_prefix(rest, k - 1);
        assert(s.take(k).drop_first() =~= rest.take(k - 1));
    }
}

proof fn lemma_from_utf16(s: Seq<char>, offset: int)
    ensures
        char_index(s, from_utf16(s, offset) as int) is Some,
        from_utf16(s, offset) <= bytes(s),
    decreases s.len(),
{
    if s.len() > 0 && offset > 0 {
        lemma_from_utf16(s.drop_first(), offset - width16(s[0]));
    }
}

proof fn lemma_before(s: Seq<char>, offset: int)
    ensures
        char_index(s, before(s, offset) as int) is Some,
        before(s, offset) <= bytes(s),
    decreases s.len(),
{
    if s.len() > 0 {
        let front = s.drop_last();
        lemma_bytes_split(s, s.len() - 1);
        assert(s.take(s.len() - 1) =~= front);
        if bytes(front) < offset {
            lemma_index_of_prefix(s, s.len() - 1);
        } else {
            lemma_before(front, offset);
            let at = before(front, offset) as int;
            lemma_char_index(front, at);
            let k = char_index(front, at)->0 as int;
            assert(s.take(k) =~= front.take(k));
            lemma_index_of_prefix(s, k);
        }
    }
}

proof fn lemma_after(s: Seq<char>, offset: int)
    ensures
        char_index(s, after(s, offset) as int) is Some,
    decreases s.len(),
{
    if s.len() > 0 && bytes(s.drop_last()) > offset {
        let front = s.drop_last();
        lemma_after(front, offset);
        let at = after(front, offset) as int;
        lemma_char_index(front, at);
        let k = char_index(front, at)->0 as int;
        assert(s.take(k) =~= front.take(k));
        lemma_index_of_prefix(s, k);
    } else {
        assert(s.take(s.len() as int) =~= s);
        lemma_index_of_prefix(s, s.len() as int);
    }
}

/// A stretch of a text, by its first byte and the byte after its last.
#[derive(Debug, Clone, Copy, PartialEq, Eq, Structural)]
pub struct Span {
    pub start: usize,
    pub end: usize,
}

impl Span {
    /// Whether there is nothing in it.
    pub open spec fn empty(self) -> bool {
        self.start >= self.end
    }

    fn is_empty(&self) -> (empty: bool)
        ensures
            empty == self.empty(),
    {
        self.start >= self.end
    }
}

/// What stands in a stretch of a text, if it begins and ends between
/// characters.
pub open spec fn within(s: Seq<char>, span: Span) -> Option<Seq<char>> {
    match (char_index(s, span.start as int), char_index(s, span.end as int)) {
        (Some(from), Some(to)) => if span.start <= span.end {
            Some(s.subrange(from as int, to as int))
        } else {
            None
        },
        _ => None,
    }
}

/// A text with a stretch of it replaced, if that begins and ends between
/// characters.
pub open spec fn edited(s: Seq<char>, span: Span, new_text: Seq<char>) -> Option<Seq<char>> {
    match (char_index(s, span.start as int), char_index(s, span.end as int)) {
        (Some(from), Some(to)) => Some(s.take(from as int) + new_text + s.skip(to as int)),
        _ => None,
    }
}

/// Whether a stretch begins and ends between characters.
pub open spec fn between_characters(s: Seq<char>, span: Span) -> bool {
    char_index(s, span.start as int) is Some && char_index(s, span.end as int) is Some
}

/// What a line of text is made of.
pub struct Line {
    pub content: Seq<char>,
    pub selected: Span,
    pub marked: Option<Span>,
}

/// A line of text that is typed into.
#[derive(Debug)]
pub struct TextInput {
    pub content: String,
    pub placeholder: String,
    pub selected: Span,
    /// What the input method is still composing.
    pub marked: Option<Span>,
}

/// An insertion point.
pub open spec fn caret(at: int) -> Span {
    Span { start: at as usize, end: at as usize }
}

impl View for TextInput {
    type V = Line;

    open spec fn view(&self) -> Line {
        Line { content: self.content@, selected: self.selected, marked: self.marked }
    }
}

impl Line {
    /// Whether everything that is selected or marked begins and ends between
    /// characters.
    pub open spec fn settled(self) -> bool {
        &&& between_characters(self.content, self.selected)
        &&& self.marked is Some ==> between_characters(self.content, self.marked->0)
    }

    /// What an edit replaces: the stretch that it names, in UTF-16 units; else
    /// what is marked; else what is selected.
    pub open spec fn target(self, utf16: Option<Span>) -> Span {
        match utf16 {
            Some(span) => Span {
                start: from_utf16(self.content, span.start as int) as usize,
                end: from_utf16(self.content, span.end as int) as usize,
            },
            None => match self.marked {
                Some(marked) => marked,
                None => self.selected,
            },
        }
    }

    /// The line once a stretch of it is replaced.
    pub open spec fn replaced(self, span: Span, new_text: Seq<char>) -> Line {
        match edited(self.content, span, new_text) {
            Some(content) => Line {
                content,
                selected: caret(span.start + bytes(new_text)),
                marked: None,
            },
            None => self,
        }
    }

    /// The line with an insertion point and nothing selected.
    pub open spec fn moved(self, at: int) -> Line {
        Line { selected: caret(at), ..self }
    }

    /// What a deletion towards the start removes: the selection, else the
    /// character before.
    pub open spec fn backward(self) -> Span {
        if self.selected.empty() {
            Span {
                start: before(self.content, self.selected.start as int) as usize,
                end: self.selected.end,
            }
        } else {
            self.selected
        }
    }

    /// What a deletion towards the end removes: the selection, else the
    /// character behind.
    pub open spec fn forward(self) -> Span {
        if self.selected.empty() {
            Span {
                start: self.selected.start,
                end: after(self.content, self.selected.end as int) as usize,
            }
        } else {
            self.selected
        }
    }

    /// The line once what is selected, or what is marked, is removed.
    pub open spec fn removed(self, selected: Span) -> Line {
        let line = Line { selected, ..self };
        line.replaced(line.target(None), Seq::empty())
    }
}

/// A pasted text, on one line.
pub open spec fn unbroken(s: Seq<char>) -> Seq<char> {
    s.map_values(
        |c: char|
            if c == '\n' {
                ' '
            } else {
                c
            },
    )
}

fn join_lines(s: &str) -> (line: String)
    ensures
        line@ == unbroken(s@),
{
    let chars = chars_of(s);
    let mut line = String::new();
    let mut k: usize = 0;
    while k < chars.len()
        invariant
            chars@ == s@,
            k <= s@.len(),
            line@ == unbroken(s@).take(k as int),
        decreases chars.len() - k,
    {
        let c = chars[k];
        line.push(
            if c == '\n' {
                ' '
            } else {
                c
            },
        );
        k += 1;
        assert(unbroken(s@).take(k as int) =~= unbroken(s@).take(k - 1).push(
            unbroken(s@)[k - 1],
        ));
    }
    assert(unbroken(s@).take(k as int) =~= unbroken(s@));
    line
}

/// A run of text that is drawn alike.
#[derive(Debug, Clone, Copy, PartialEq, Eq, Structural)]
pub struct Run {
    pub len: usize,
    pub underlined: bool,
}

/// The runs that a line of `len` bytes is drawn in: what is marked is
/// underlined. Empty runs are left out where something is marked.
pub open spec fn runs_of(len: int, marked: Option<Span>) -> Seq<Run> {
    match marked {
        None => seq![Run { len: len as usize, underlined: false }],
        Some(span) => (if span.start > 0 {
            seq![Run { len: span.start, underlined: false }]
        } else {
            Seq::empty()
        }) + (if span.end > span.start {
            seq![Run { len: (span.end - span.start) as usize, underlined: true }]
        } else {
            Seq::empty()
        }) + (if len > span.end {
            seq![Run { len: (len - span.end) as usize, underlined: false }]
        } else {
            Seq::empty()
        }),
    }
}

impl TextInput {
    /// An empty line.
    pub fn new(placeholder: String) -> (input: Self)
        ensures
            input@ == (Line { content: Seq::empty(), selected: caret(0), marked: None }),
            input@.settled(),
            input.placeholder == placeholder,
    {
        TextInput {
            content: String::new(),
            placeholder,
            selected: Span { start: 0, end: 0 },
            marked: None,
        }
    }

    /// What has been typed.
    pub fn text(&self) -> (text: &str)
        ensures
            text@ == self@.content,
    {
        self.content.as_str()
    }

    /// What is shown: what has been typed, else the placeholder.
    pub fn shown(&self) -> (text: &str)
        ensures
            text@ == if self@.content.len() == 0 {
                self.placeholder@
            } else {
                self@.content
            },
    {
        if self.content.as_str().is_empty() {
            self.placeholder.as_str()
        } else {
            self.content.as_str()
        }
    }

    /// The runs that what is shown is drawn in.
    pub fn runs(&self) -> (runs: Vec<Run>)
        requires
            self.marked is Some ==> self.marked->0.start <= self.marked->0.end <= bytes(
                if self@.content.len() == 0 {
                    self.placeholder@
                } else {
                    self@.content
                },
            ),
        ensures
            runs@ == runs_of(
                bytes(
                    if self@.content.len() == 0 {
                        self.placeholder@
                    } else {
                        self@.content
                    },
                ) as int,
                self.marked,
            ),
    {
        let len = byte_len(self.shown());
        let mut runs: Vec<Run> = Vec::new();
        match self.marked {
            None => {
                runs.push(Run { len, underlined: false });
            },
            Some(span) => {
                if span.start > 0 {
                    runs.push(Run { len: span.start, underlined: false });
                }
                if span.end > span.start {
                    runs.push(Run { len: span.end - span.start, underlined: true });
                }
                if len > span.end {
                    runs.push(Run { len: len - span.end, underlined: false });
                }
            },
        }
        assert(runs@ =~= runs_of(len as int, self.marked));
        runs
    }

    /// Empties the line.
    pub fn clear(&mut self)
        ensures
            final(self)@ == (Line { content: Seq::empty(), selected: caret(0), marked: None }),
            final(self)@.settled(),
            final(self).placeholder == old(self).placeholder,
    {
        self.content = String::new();
        self.selected = Span { start: 0, end: 0 };
        self.marked = None;
    }

    /// Puts the insertion point at a place.
    pub fn move_to(&mut self, offset: usize)
        ensures
            final(self)@ == old(self)@.moved(offset as int),
            final(self).placeholder == old(self).placeholder,
    {
        self.selected = Span { start: offset, end: offset };
    }

    /// Moves towards the start: by a character, or to where the selection
    /// starts.
    pub fn left(&mut self)
        ensures
            final(self)@ == old(self)@.moved(
                if old(self).selected.empty() {
                    before(old(self)@.content, old(self).selected.start as int) as int
                } else {
                    old(self).selected.start as int
                },
            ),
            old(self)@.settled() ==> final(self)@.settled(),
            final(self).placeholder == old(self).placeholder,
    {
        proof {
            lemma_before(self.content@, self.selected.start as int);
        }
        let offset = if self.selected.is_empty() {
            previous_boundary(self.content.as_str(), self.selected.start)
        } else {
            self.selected.start
        };
        self.move_to(offset);
    }

    /// Moves towards the end: by a character, or to where the selection ends.
    pub fn right(&mut self)
        ensures
            final(self)@ == old(self)@.moved(
                if old(self).selected.empty() {
                    after(old(self)@.content, old(self).selected.end as int) as int
                } else {
                    old(self).selected.end as int
                },
            ),
            old(self)@.settled() ==> final(self)@.settled(),
            final(self).placeholder == old(self).placeholder,
    {
        proof {
            lemma_after(self.content@, self.selected.end as int);
        }
        let offset = if self.selected.is_empty() {
            next_boundary(self.content.as_str(), self.selected.end)
        } else {
            self.selected.end
        };
        self.move_to(offset);
    }

    /// Selects the whole line.
    pub fn select_all(&mut self)
        ensures
            final(self)@.content == old(self)@.content,
            final(self)@.selected.start == 0,
            final(self)@.selected.end == bytes(old(self)@.content),
            final(self)@.marked == old(self)@.marked,
            old(self)@.settled() ==> final(self)@.settled(),
            final(self).placeholder == old(self).placeholder,
    {
        proof {
            let s = self.content@;
            assert(s.take(s.len() as int) =~= s);
            lemma_index_of_prefix(s, s.len() as int);
        }
        self.selected = Span { start: 0, end: byte_len(self.content.as_str()) };
    }

    /// Moves to the start.
    pub fn home(&mut self)
        ensures
            final(self)@ == old(self)@.moved(0),
            old(self)@.settled() ==> final(self)@.settled(),
            final(self).placeholder == old(self).placeholder,
    {
        self.move_to(0);
    }

    /// Moves to the end.
    pub fn end(&mut self)
        ensures
            final(self)@ == old(self)@.moved(bytes(old(self)@.content) as int),
            old(self)@.settled() ==> final(self)@.settled(),
            final(self).placeholder == old(self).placeholder,
    {
        proof {
            let s = self.content@;
            assert(s.take(s.len() as int) =~= s);
            lemma_index_of_prefix(s, s.len() as int);
        }
        let len = byte_len(self.content.as_str());
        self.move_to(len);
    }

    fn find_target(&self, utf16: Option<Span>) -> (span: Span)
        ensures
            span == self@.target(utf16),
            utf16 is Some ==> between_characters(self@.content, span),
    {
        match utf16 {
            Some(span) => {
                proof {
                    lemma_from_utf16(self.content@, span.start as int);
                    lemma_from_utf16(self.content@, span.end as int);
                }
                self.range_from_utf16(span)
            },
            None => match self.marked {
                Some(marked) => marked,
                None => self.selected,
            },
        }
    }

    /// Replaces a stretch of the line, which ends what is being composed. One
    /// that does not begin and end between characters is left alone.
    pub fn replace_text_in_range(&mut self, utf16: Option<Span>, new_text: &str)
        ensures
            final(self)@ == old(self)@.replaced(old(self)@.target(utf16), new_text@),
            edited(old(self)@.content, old(self)@.target(utf16), new_text@) is Some
                ==> final(self)@.selected.start == old(self)@.target(utf16).start + bytes(new_text@),
            edited(old(self)@.content, old(self)@.target(utf16), new_text@) is Some
                || old(self)@.settled() ==> final(self)@.settled(),
            utf16 is Some ==> edited(
                old(self)@.content,
                old(self)@.target(utf16),
                new_text@,
            ) is Some,
            final(self).placeholder == old(self).placeholder,
    {
        let span = self.find_target(utf16);
        let content = self.content.as_str();
        let (from, to) = match (find_index(content, span.start), find_index(content, span.end)) {
            (Some(from), Some(to)) => (from, to),
            _ => {
                return;
            },
        };
        let prefix = content.substring_char(0, from);
        let suffix = content.substring_char(to, content.unicode_len());
        let head = crate::text::concat(prefix, new_text);
        let whole = concat3(prefix, new_text, suffix);
        let cursor = byte_len(head.as_str());
        proof {
            let s = content@;
            lemma_char_index(s, span.start as int);
            assert(prefix@ =~= s.take(from as int));
            assert(suffix@ =~= s.skip(to as int));
            lemma_bytes_add(prefix@, new_text@);
            let k = head@.len() as int;
            assert(whole@.take(k) =~= head@);
            lemma_index_of_prefix(whole@, k);
        }
        self.content = whole;
        self.selected = Span { start: cursor, end: cursor };
        self.marked = None;
    }

    /// Replaces a stretch of the line with a text that is still being composed.
    pub fn replace_and_mark_text_in_range(
        &mut self,
        utf16: Option<Span>,
        new_text: &str,
        new_selected: Option<Span>,
    )
        requires
            old(self)@.target(utf16).start + bytes(new_text@) <= usize::MAX,
        ensures
            ({
                let line = old(self)@;
                let span = line.target(utf16);
                let back = Span {
                    start: to_utf16(line.content, span.start as int) as usize,
                    end: to_utf16(line.content, span.end as int) as usize,
                };
                let typed = line.replaced(line.target(Some(back)), new_text@);
                if new_text@.len() == 0 {
                    final(self)@ == typed
                } else {
                    &&& final(self)@.content == typed.content
                    &&& final(self)@.marked is Some
                    &&& final(self)@.marked->0.start == span.start
                    &&& final(self)@.marked->0.end == span.start + bytes(new_text@)
                    &&& match new_selected {
                        Some(selected) => {
                            &&& final(self)@.selected.start == span.start + from_utf16(
                                new_text@,
                                selected.start as int,
                            )
                            &&& final(self)@.selected.end == span.start + from_utf16(
                                new_text@,
                                selected.end as int,
                            )
                        },
                        None => final(self)@.selected == caret(span.start + bytes(new_text@)),
                    }
                }
            }),
            final(self).placeholder == old(self).placeholder,
    {
        let span = self.find_target(utf16);
        let back = self.range_to_utf16(span);
        self.replace_text_in_range(Some(back), new_text);
        if new_text.is_empty() {
            self.marked = None;
            return;
        }
        let len = byte_len(new_text);
        self.marked = Some(Span { start: span.start, end: span.start + len });
        self.selected = match new_selected {
            Some(selected) => {
                proof {
                    lemma_from_utf16(new_text@, selected.start as int);
                    lemma_from_utf16(new_text@, selected.end as int);
                }
                Span {
                    start: span.start + offset_from_utf16(new_text, selected.start),
                    end: span.start + offset_from_utf16(new_text, selected.end),
                }
            },
            None => Span { start: span.start + len, end: span.start + len },
        };
    }

    /// Deletes the selection, or the character before. Gives whether there was
    /// nothing to delete.
    pub fn backspace(&mut self) -> (bell: bool)
        ensures
            bell == (old(self)@.selected.empty() && old(self)@.backward().start
                == old(self)@.selected.start),
            bell ==> final(self)@ == old(self)@,
            !bell ==> final(self)@ == old(self)@.removed(old(self)@.backward()),
            final(self).placeholder == old(self).placeholder,
    {
        if self.selected.is_empty() {
            proof {
                lemma_before(self.content@, self.selected.start as int);
            }
            let offset = previous_boundary(self.content.as_str(), self.selected.start);
            if offset == self.selected.start {
                return true;
            }
            self.selected = Span { start: offset, end: self.selected.end };
        }
        assert(self@ == (Line { selected: old(self)@.backward(), ..old(self)@ }));
        proof {
            reveal_strlit("");
            assert(""@ =~= Seq::empty());
        }
        self.replace_text_in_range(None, "");
        false
    }

    /// Deletes the selection, or the character behind. Gives whether there was
    /// nothing to delete.
    pub fn delete(&mut self) -> (bell: bool)
        ensures
            bell == (old(self)@.selected.empty() && old(self)@.forward().end
                == old(self)@.selected.end),
            bell ==> final(self)@ == old(self)@,
            !bell ==> final(self)@ == old(self)@.removed(old(self)@.forward()),
            final(self).placeholder == old(self).placeholder,
    {
        if self.selected.is_empty() {
            let offset = next_boundary(self.content.as_str(), self.selected.end);
            if offset == self.selected.end {
                return true;
            }
            self.selected = Span { start: self.selected.start, end: offset };
        }
        assert(self@ == (Line { selected: old(self)@.forward(), ..old(self)@ }));
        proof {
            reveal_strlit("");
            assert(""@ =~= Seq::empty());
        }
        self.replace_text_in_range(None, "");
        false
    }

    /// Types what the clipboard holds, on one line.
    pub fn paste(&mut self, clipboard: Option<&str>)
        ensures
            final(self)@ == match clipboard {
                Some(text) => old(self)@.replaced(old(self)@.target(None), unbroken(text@)),
                None => old(self)@,
            },
            final(self).placeholder == old(self).placeholder,
    {
        if let Some(text) = clipboard {
            let line = join_lines(text);
            self.replace_text_in_range(None, line.as_str());
        }
    }

    /// What goes to the clipboard: the selection, if there is one.
    pub fn copy(&self) -> (text: Option<String>)
        ensures
            match within(self@.content, self@.selected) {
                Some(chosen) => if chosen.len() > 0 {
                    text is Some && text->0@ == chosen
                } else {
                    text is None
                },
                None => text is None,
            },
    {
        let content = self.content.as_str();
        if self.selected.start > self.selected.end {
            return None;
        }
        match (
            find_index(content, self.selected.start),
            find_index(content, self.selected.end),
        ) {
            (Some(from), Some(to)) => {
                proof {
                    lemma_char_index(content@, self.selected.start as int);
                    lemma_char_index(content@, self.selected.end as int);
                    lemma_index_order(content@, from as int, to as int);
                }
                if from == to {
                    return None;
                }
                Some(content.substring_char(from, to).to_owned())
            },
            _ => None,
        }
    }

    /// Moves the selection to the clipboard, if there is one.
    pub fn cut(&mut self) -> (text: Option<String>)
        ensures
            match within(old(self)@.content, old(self)@.selected) {
                Some(chosen) => if chosen.len() > 0 {
                    &&& text is Some
                    &&& text->0@ == chosen
                    &&& final(self)@ == old(self)@.removed(old(self)@.selected)
                } else {
                    text is None && final(self)@ == old(self)@
                },
                None => text is None && final(self)@ == old(self)@,
            },
            final(self).placeholder == old(self).placeholder,
    {
        let text = self.copy();
        if text.is_some() {
            proof {
                reveal_strlit("");
                assert(""@ =~= Seq::empty());
                assert(self@ == (Line { selected: self@.selected, ..self@ }));
            }
            self.replace_text_in_range(None, "");
        }
        text
    }

    fn range_to_utf16(&self, span: Span) -> (units: Span)
        ensures
            units.start == to_utf16(self@.content, span.start as int),
            units.end == to_utf16(self@.content, span.end as int),
    {
        let content = self.content.as_str();
        Span {
            start: offset_to_utf16(content, span.start),
            end: offset_to_utf16(content, span.end),
        }
    }

    fn range_from_utf16(&self, span: Span) -> (places: Span)
        ensures
            places.start == from_utf16(self@.content, span.start as int),
            places.end == from_utf16(self@.content, span.end as int),
    {
        let content = self.content.as_str();
        Span {
            start: offset_from_utf16(content, span.start),
            end: offset_from_utf16(content, span.end),
        }
    }

    /// What stands in a stretch that the platform names, and the stretch that
    /// it was taken from.
    pub fn text_for_range(&self, utf16: Span) -> (found: (Option<String>, Span))
        ensures
            ({
                let span = self@.target(Some(utf16));
                &&& match within(self@.content, span) {
                    Some(text) => found.0 is Some && found.0->0@ == text,
                    None => found.0 is None,
                }
                &&& found.1.start == to_utf16(self@.content, span.start as int)
                &&& found.1.end == to_utf16(self@.content, span.end as int)
            }),
    {
        let span = self.find_target(Some(utf16));
        let actual = self.range_to_utf16(span);
        let content = self.content.as_str();
        if span.start > span.end {
            return (None, actual);
        }
        match (find_index(content, span.start), find_index(content, span.end)) {
            (Some(from), Some(to)) => {
                proof {
                    lemma_char_index(content@, span.start as int);
                    lemma_char_index(content@, span.end as int);
                    lemma_index_order(content@, from as int, to as int);
                }
                (Some(content.substring_char(from, to).to_owned()), actual)
            },
            _ => (None, actual),
        }
    }

    /// What is selected, as the platform counts.
    pub fn selected_text_range(&self) -> (units: Span)
        ensures
            units.start == to_utf16(self@.content, self@.selected.start as int),
            units.end == to_utf16(self@.content, self@.selected.end as int),
    {
        self.range_to_utf16(self.selected)
    }

    /// What is being composed, as the platform counts.
    pub fn marked_text_range(&self) -> (units: Option<Span>)
        ensures
            units is Some == self@.marked is Some,
            units is Some ==> units->0.start == to_utf16(
                self@.content,
                self@.marked->0.start as int,
            ) && units->0.end == to_utf16(self@.content, self@.marked->0.end as int),
    {
        match self.marked {
            Some(marked) => Some(self.range_to_utf16(marked)),
            None => None,
        }
    }

    /// Ends what is being composed.
    pub fn unmark_text(&mut self)
        ensures
            final(self)@ == (Line { marked: None, ..old(self)@ }),
            final(self).placeholder == old(self).placeholder,
    {
        self.marked = None;
    }
}

proof fn lemma_index_order(s: Seq<char>, from: int, to: int)
    requires
        0 <= from <= s.len(),
        0 <= to <= s.len(),
        bytes(s.take(from)) <= bytes(s.take(to)),
    ensures
        from <= to,
        bytes(s.take(from)) == bytes(s.take(to)) ==> from == to,
{
    if to < from {
        let long = s.take(from);
        lemma_bytes_split(long, to);
        assert(long.take(to) =~= s.take(to));
        let gap = long.skip(to);
        assert(gap.len() > 0);
    } else if from < to {
        let long = s.take(to);
        lemma_bytes_split(long, from);
        assert(long.take(from) =~= s.take(from));
        let gap = long.skip(from);
        assert(gap.len() > 0);
    }
}

/// What was typed can be taken back: replacing a text that was just put in by
/// what stood there before gives the line back.
pub proof fn law_an_edit_can_be_taken_back(
    s: Seq<char>,
    span: Span,
    old_text: Seq<char>,
    new_text: Seq<char>,
)
    requires
        within(s, span) == Some(old_text),
        span.start + bytes(new_text) <= usize::MAX,
    ensures
        ({
            let typed = edited(s, span, new_text)->0;
            let back = Span {
                start: span.start,
                end: (span.start + bytes(new_text)) as usize,
            };
            edited(s, span, new_text) is Some && edited(typed, back, old_text) == Some(s)
        }),
{
    let from = char_index(s, span.start as int)->0 as int;
    let to = char_index(s, span.end as int)->0 as int;
    lemma_char_index(s, span.start as int);
    lemma_char_index(s, span.end as int);
    lemma_index_order(s, from, to);
    let prefix = s.take(from);
    let suffix = s.skip(to);
    let typed = prefix + new_text + suffix;
    assert(typed.take(from) =~= prefix);
    lemma_index_of_prefix(typed, from);
    let reach = from + new_text.len();
    assert(typed.take(reach) =~= prefix + new_text);
    lemma_bytes_add(prefix, new_text);
    lemma_index_of_prefix(typed, reach);
    assert(typed.skip(reach) =~= suffix);
    assert(prefix + old_text + suffix =~= s);
}

/// The neighbours of a place between two characters: one character back, and
/// one character on. There is none before the start and none behind the end.
pub proof fn law_a_step_is_one_character(s: Seq<char>, k: int)
    requires
        0 <= k <= s.len(),
    ensures
        k > 0 ==> before(s, bytes(s.take(k)) as int) == bytes(s.take(k - 1)) < bytes(s.take(k)),
        k == 0 ==> before(s, bytes(s.take(k)) as int) == 0,
        k < s.len() ==> after(s, bytes(s.take(k)) as int) == bytes(s.take(k + 1)) > bytes(s.take(k)),
        k == s.len() ==> after(s, bytes(s.take(k)) as int) == bytes(s.take(k)),
    decreases s.len(),
{
    if s.len() == 0 {
        assert(s.take(k) =~= s);
    } else {
        let front = s.drop_last();
        let at = bytes(s.take(k)) as int;
        lemma_bytes_split(s, s.len() - 1);
        assert(s.take(s.len() - 1) =~= front);
        assert(s.take(0) =~= Seq::empty());
        if k > 0 {
            assert(s.take(k) =~= s.take(k - 1).push(s[k - 1]));
            lemma_bytes_push(s.take(k - 1), s[k - 1]);
        }
        if k < s.len() {
            assert(s.take(k + 1) =~= s.take(k).push(s[k]));
            lemma_bytes_push(s.take(k), s[k]);
            law_a_step_is_one_character(front, k);
            assert(front.take(k) =~= s.take(k));
            lemma_bytes_split(front, k);
            if k > 0 {
                assert(front.take(k - 1) =~= s.take(k - 1));
            }
            if k < front.len() {
                assert(front.take(k + 1) =~= s.take(k + 1));
                lemma_bytes_split(front, k + 1);
            } else {
                assert(s.take(k + 1) =~= s);
            }
        } else {
            assert(s.take(k) =~= s);
        }
    }
}

/// What is selected goes as a whole, whichever way one deletes: what stands
/// before it and behind it stays, and the insertion point is left where the
/// selection began.
pub proof fn law_deleting_a_selection_removes_all_of_it(line: Line, from: int, to: int)
    requires
        line.marked is None,
        0 <= from < to <= line.content.len(),
        line.selected.start == bytes(line.content.take(from)),
        line.selected.end == bytes(line.content.take(to)),
    ensures
        ({
            let rest = Line {
                content: line.content.take(from) + line.content.skip(to),
                selected: Span { start: line.selected.start, end: line.selected.start },
                marked: None,
            };
            &&& !line.selected.empty()
            &&& line.removed(line.backward()) == rest
            &&& line.removed(line.forward()) == rest
            &&& line.removed(line.selected) == rest
        }),
{
    let s = line.content;
    lemma_index_of_prefix(s, from);
    lemma_index_of_prefix(s, to);
    lemma_ahead(s, from, to);
    assert(bytes(Seq::empty()) == 0);
    assert(s.take(from) + Seq::empty() + s.skip(to) =~= s.take(from) + s.skip(to));
}

/// A longer beginning of a text takes more bytes.
proof fn lemma_ahead(s: Seq<char>, from: int, to: int)
    requires
        0 <= from < to <= s.len(),
    ensures
        bytes(s.take(from)) < bytes(s.take(to)),
{
    let long = s.take(to);
    lemma_bytes_split(long, from);
    assert(long.take(from) =~= s.take(from));
    assert(long.skip(from).len() > 0);
}

/// With nothing selected, deleting backward takes the one character before the
/// insertion point and deleting forward the one behind it; at the start and at
/// the end there is none to take.
pub proof fn law_a_caret_deletes_one_character(line: Line, k: int)
    requires
        line.marked is None,
        0 <= k <= line.content.len(),
        line.selected.start == bytes(line.content.take(k)),
        line.selected.end == line.selected.start,
        bytes(line.content) <= usize::MAX,
    ensures
        (k == 0) == (line.backward().start == line.selected.start),
        k > 0 ==> line.removed(line.backward()).content == line.content.take(k - 1)
            + line.content.skip(k),
        k > 0 ==> line.removed(line.backward()).selected.start == bytes(line.content.take(k - 1)),
        k > 0 ==> line.removed(line.backward()).selected.end == bytes(line.content.take(k - 1)),
        (k == line.content.len()) == (line.forward().end == line.selected.end),
        k < line.content.len() ==> line.removed(line.forward()).content == line.content.take(k)
            + line.content.skip(k + 1),
        k < line.content.len() ==> line.removed(line.forward()).selected == line.selected,
{
    let s = line.content;
    law_a_step_is_one_character(s, k);
    assert(s.take(0) =~= Seq::empty());
    assert(bytes(Seq::empty()) == 0);
    lemma_index_of_prefix(s, k);
    if k > 0 {
        lemma_index_of_prefix(s, k - 1);
        assert(s.take(k - 1) + Seq::empty() + s.skip(k) =~= s.take(k - 1) + s.skip(k));
    }
    if k < s.len() {
        lemma_bytes_split(s, k + 1);
        lemma_index_of_prefix(s, k + 1);
        assert(s.take(k) + Seq::empty() + s.skip(k + 1) =~= s.take(k) + s.skip(k + 1));
    }
}

/// Moving keeps the text and what is being composed, and selects nothing.
pub proof fn law_moving_changes_no_text(line: Line, at: usize)
    ensures
        line.moved(at as int).content == line.content,
        line.moved(at as int).marked == line.marked,
        line.moved(at as int).selected.start == at,
        line.moved(at as int).selected.end == at,
{
}

/// What an edit replaces when the platform names no stretch: what is being
/// composed, else what is selected. What stands around it stays, the new text
/// stands in its place, the insertion point comes behind it and nothing is
/// being composed any more.
pub proof fn law_typing_replaces_what_is_composed_or_selected(
    line: Line,
    from: int,
    to: int,
    new_text: Seq<char>,
)
    requires
        0 <= from <= to <= line.content.len(),
        line.marked is Some ==> line.marked->0.start == bytes(line.content.take(from))
            && line.marked->0.end == bytes(line.content.take(to)),
        line.marked is None ==> line.selected.start == bytes(line.content.take(from))
            && line.selected.end == bytes(line.content.take(to)),
        bytes(line.content.take(from)) + bytes(new_text) <= usize::MAX,
    ensures
        ({
            let typed = line.replaced(line.target(None), new_text);
            &&& typed.content == line.content.take(from) + new_text + line.content.skip(to)
            &&& typed.selected.start == bytes(line.content.take(from) + new_text)
            &&& typed.selected.end == typed.selected.start
            &&& typed.marked is None
        }),
{
    lemma_index_of_prefix(line.content, from);
    lemma_index_of_prefix(line.content, to);
    lemma_bytes_add(line.content.take(from), new_text);
}

/// A stretch that the platform names, in its own units, is replaced whatever
/// is selected or being composed.
pub proof fn law_a_named_stretch_is_replaced(
    line: Line,
    span: Span,
    from: int,
    to: int,
    new_text: Seq<char>,
)
    requires
        0 <= from <= to <= line.content.len(),
        span.start == units(line.content.take(from)),
        span.end == units(line.content.take(to)),
        bytes(line.content) + bytes(new_text) <= usize::MAX,
    ensures
        ({
            let typed = line.replaced(line.target(Some(span)), new_text);
            &&& typed.content == line.content.take(from) + new_text + line.content.skip(to)
            &&& typed.selected.start == bytes(line.content.take(from) + new_text)
            &&& typed.selected.end == typed.selected.start
            &&& typed.marked is None
        }),
{
    let s = line.content;
    law_places_survive_the_change_of_units(s, from);
    law_places_survive_the_change_of_units(s, to);
    lemma_bytes_split(s, from);
    lemma_bytes_split(s, to);
    lemma_index_of_prefix(s, from);
    lemma_index_of_prefix(s, to);
    lemma_bytes_add(s.take(from), new_text);
}

/// What is copied of a stretch is the characters between its two ends; cutting
/// them out and putting them back gives the text again.
pub proof fn law_a_stretch_is_what_lies_between_its_ends(s: Seq<char>, span: Span, from: int, to: int)
    requires
        0 <= from <= to <= s.len(),
        span.start == bytes(s.take(from)),
        span.end == bytes(s.take(to)),
    ensures
        within(s, span) is Some,
        within(s, span)->0.len() == to - from,
        forall|i: int| 0 <= i < to - from ==> #[trigger] within(s, span)->0[i] == s[from + i],
        edited(s, span, within(s, span)->0) == Some(s),
{
    lemma_index_of_prefix(s, from);
    lemma_index_of_prefix(s, to);
    if from < to {
        lemma_ahead(s, from, to);
    }
    assert(s.take(from) + s.subrange(from, to) + s.skip(to) =~= s);
}

/// A pasted text keeps its length and every character but its line ends, each
/// of which becomes a space.
pub proof fn law_a_paste_is_one_line(s: Seq<char>, i: int)
    requires
        0 <= i < s.len(),
    ensures
        unbroken(s).len() == s.len(),
        s[i] != '\n' ==> unbroken(s)[i] == s[i],
        s[i] == '\n' ==> unbroken(s)[i] == ' ',
{
}

/// How many bytes runs take together, and how many of them underlined.
pub open spec fn run_bytes(runs: Seq<Run>, underlined: bool) -> nat
    decreases runs.len(),
{
    if runs.len() == 0 {
        0
    } else {
        run_bytes(runs.drop_last(), underlined) + if runs.last().underlined == underlined {
            runs.last().len as nat
        } else {
            0
        }
    }
}

/// The runs cover the line, and just as many bytes are underlined as are being
/// composed; where they are, as many bytes come before them as stand before
/// what is composed, and no run is empty.
pub proof fn law_runs_cover_the_line(len: usize, marked: Option<Span>)
    requires
        marked is Some ==> marked->0.start <= marked->0.end <= len,
    ensures
        ({
            let runs = runs_of(len as int, marked);
            let composed = match marked {
                Some(span) => span.end - span.start,
                None => 0,
            };
            &&& run_bytes(runs, true) == composed
            &&& run_bytes(runs, false) == len - composed
            &&& marked is Some ==> forall|i: int|
                0 <= i < runs.len() ==> (#[trigger] runs[i]).len > 0
            &&& forall|i: int|
                0 <= i < runs.len() && #[trigger] runs[i].underlined ==> run_bytes(
                    runs.take(i),
                    false,
                ) == marked->0.start
        }),
{
    reveal_with_fuel(run_bytes, 4);
    let runs = runs_of(len as int, marked);
    assert forall|i: int| 0 <= i < runs.len() && #[trigger] runs[i].underlined implies run_bytes(
        runs.take(i),
        false,
    ) == marked->0.start by {
        if i > 0 {
            assert(i == 1);
            assert(runs.take(1).drop_last() =~= Seq::empty());
        } else {
            assert(runs.take(0) =~= Seq::empty());
        }
    }
    if runs.len() > 0 {
        let short = runs.drop_last();
        if short.len() > 0 {
            assert(short.drop_last() =~= runs.take(runs.len() - 2));
        }
    }
}

/// A character takes as many bytes as its UTF-8 encoding, and a text as many as
/// all its characters; in the platform's units a character takes one, or two
/// beyond the basic plane.
pub proof fn law_places_are_counted_as_they_are_encoded(s: Seq<char>, c: char)
    ensures
        bytes(s) == encode_utf8(s).len(),
        width8(c) == encode_scalar(c as u32).len(),
        bytes(s.push(c)) == bytes(s) + width8(c),
        c as u32 <= 0xffff ==> units(s.push(c)) == units(s) + 1,
        c as u32 > 0xffff ==> units(s.push(c)) == units(s) + 2,
        bytes(Seq::empty()) == 0,
        units(Seq::empty()) == 0,
{
    lemma_bytes_encoded(s);
    lemma_width(c);
    lemma_bytes_push(s, c);
    let whole = s.push(c);
    lemma_bytes_split(whole, s.len() as int);
    assert(whole.take(s.len() as int) =~= s);
    let tail = whole.skip(s.len() as int);
    assert(tail.drop_first() =~= Seq::empty());
    assert(tail.len() == 1 && tail[0] == c);
    assert(units(tail.drop_first()) == 0);
}

/// A place lies between characters just where the text before it is a whole
/// number of them; a line is settled where all that is selected or composed
/// begins and ends at such a place.
pub proof fn law_a_settled_line_splits_no_character(line: Line, offset: int, k: int)
    ensures
        0 <= k <= line.content.len() && offset == bytes(line.content.take(k)) ==> char_index(
            line.content,
            offset,
        ) == Some(k as nat),
        char_index(line.content, offset) is Some ==> char_index(line.content, offset)->0
            <= line.content.len() && bytes(
            line.content.take(char_index(line.content, offset)->0 as int),
        ) == offset,
        line.settled() == (char_index(line.content, line.selected.start as int) is Some
            && char_index(line.content, line.selected.end as int) is Some && (line.marked is Some
            ==> char_index(line.content, line.marked->0.start as int) is Some && char_index(
            line.content,
            line.marked->0.end as int,
        ) is Some)),
{
    if 0 <= k <= line.content.len() && offset == bytes(line.content.take(k)) {
        lemma_index_of_prefix(line.content, k);
    }
    if char_index(line.content, offset) is Some {
        lemma_char_index(line.content, offset);
    }
}

/// An edit that names no place between characters changes nothing.
pub proof fn law_a_split_character_is_left_alone(line: Line, span: Span, new_text: Seq<char>)
    requires
        char_index(line.content, span.start as int) is None || char_index(
            line.content,
            span.end as int,
        ) is None,
    ensures
        line.replaced(span, new_text) == line,
        within(line.content, span) is None,
        edited(line.content, span, new_text) is None,
{
}

} // verus!
