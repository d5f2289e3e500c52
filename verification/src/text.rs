//! Text helpers: every function reads a string as its sequence of characters.

use vstd::prelude::*;
use vstd::utf8::encode_utf8;

verus! {

/// `String::push` appends one character at the end.
pub assume_specification[ String::push ](s: &mut String, c: char)
    ensures
        final(s)@ == old(s)@.push(c),
;

/// The characters of an optional string.
pub open spec fn optional(value: Option<String>) -> Option<Seq<char>> {
    match value {
        Some(text) => Some(text@),
        None => None,
    }
}

/// The characters of each string of a list.
pub open spec fn texts(values: Seq<String>) -> Seq<Seq<char>> {
    values.map_values(|value: String| value@)
}

/// Whether `text` occurs in a list of strings.
pub open spec fn listed(values: Seq<String>, text: Seq<char>) -> bool {
    exists|i: int| 0 <= i < values.len() && #[trigger] values[i]@ == text
}

/// Whether two strings hold the same characters.
pub fn same(a: &str, b: &str) -> (equal: bool)
    ensures
        equal == (a@ == b@),
{
    broadcast use vstd::utf8::encode_utf8_decode_utf8;

    let left = a.as_bytes();
    let right = b.as_bytes();
    if left.len() != right.len() {
        assert(encode_utf8(a@) != encode_utf8(b@));
        return false;
    }
    let mut i: usize = 0;
    while i < left.len()
        invariant
            i <= left.len(),
            left@ == encode_utf8(a@),
            right@ == encode_utf8(b@),
            left.len() == right.len(),
            left@.take(i as int) == right@.take(i as int),
        decreases left.len() - i,
    {
        if left[i] != right[i] {
            assert(left@[i as int] != right@[i as int]);
            assert(encode_utf8(a@) != encode_utf8(b@));
            return false;
        }
        assert(left@.take(i + 1) == left@.take(i as int).push(left@[i as int]));
        assert(right@.take(i + 1) == right@.take(i as int).push(right@[i as int]));
        i += 1;
    }
    assert(left@.take(i as int) == left@);
    assert(right@.take(i as int) == right@);
    assert(vstd::utf8::decode_utf8(encode_utf8(a@)) == a@);
    assert(vstd::utf8::decode_utf8(encode_utf8(b@)) == b@);
    true
}

/// Whether an optional string holds exactly `text`.
pub fn same_optional(value: &Option<String>, text: &str) -> (equal: bool)
    ensures
        equal == (optional(*value) == Some(text@)),
{
    match value {
        Some(held) => same(held.as_str(), text),
        None => false,
    }
}

/// Whether two optional strings are both absent or hold the same characters.
pub fn same_options(a: &Option<String>, b: &Option<String>) -> (equal: bool)
    ensures
        equal == (optional(*a) == optional(*b)),
{
    match b {
        Some(text) => same_optional(a, text.as_str()),
        None => a.is_none(),
    }
}

/// Whether `text` occurs in `values`.
pub fn contains(values: &Vec<String>, text: &str) -> (found: bool)
    ensures
        found == listed(values@, text@),
{
    let mut i: usize = 0;
    while i < values.len()
        invariant
            i <= values.len(),
            forall|j: int| 0 <= j < i ==> #[trigger] values@[j]@ != text@,
        decreases values.len() - i,
    {
        if same(values[i].as_str(), text) {
            assert(values@[i as int]@ == text@);
            return true;
        }
        i += 1;
    }
    false
}

/// Whether `s` begins with `prefix`.
pub fn starts_with(s: &str, prefix: &str) -> (found: bool)
    ensures
        found == prefix@.is_prefix_of(s@),
{
    let length: usize = prefix.unicode_len();
    if s.unicode_len() < length {
        return false;
    }
    let head = s.substring_char(0, length);
    same(head, prefix)
}

/// What follows `prefix` in `s`.
pub open spec fn after_prefix(s: Seq<char>, prefix: Seq<char>) -> Option<Seq<char>> {
    if prefix.is_prefix_of(s) {
        Some(s.skip(prefix.len() as int))
    } else {
        None
    }
}

/// What follows `prefix` in `s`, when `s` begins with it.
pub fn strip_prefix<'a>(s: &'a str, prefix: &str) -> (rest: Option<&'a str>)
    ensures
        rest is Some == after_prefix(s@, prefix@) is Some,
        rest is Some ==> rest->0@ == after_prefix(s@, prefix@)->0,
{
    if starts_with(s, prefix) {
        let tail = s.substring_char(prefix.unicode_len(), s.unicode_len());
        assert(tail@ == s@.skip(prefix@.len() as int));
        Some(tail)
    } else {
        None
    }
}

/// Position of the first `c` in `s`, or the length of `s` when there is none.
pub open spec fn first_index(s: Seq<char>, c: char) -> int
    decreases s.len(),
{
    if s.len() == 0 || s[0] == c {
        0
    } else {
        1 + first_index(s.skip(1), c)
    }
}

/// Position after the last `c` in `s`, or zero when there is none.
pub open spec fn after_last(s: Seq<char>, c: char) -> int
    decreases s.len(),
{
    if s.len() == 0 || s.last() == c {
        s.len() as int
    } else {
        after_last(s.drop_last(), c)
    }
}

/// The only position with no `c` before it that holds `c` or ends `s`.
pub proof fn lemma_first_index(s: Seq<char>, c: char, at: int)
    requires
        0 <= at <= s.len(),
        forall|j: int| 0 <= j < at ==> s[j] != c,
        at == s.len() || s[at] == c,
    ensures
        first_index(s, c) == at,
    decreases s.len(),
{
    if at > 0 {
        let rest = s.skip(1);
        assert forall|j: int| 0 <= j < at - 1 implies rest[j] != c by {
            assert(rest[j] == s[j + 1]);
        }
        lemma_first_index(rest, c, at - 1);
    }
}

/// Where `first_index` points, and that nothing before it is `c`.
pub proof fn lemma_first_index_bounds(s: Seq<char>, c: char)
    ensures
        0 <= first_index(s, c) <= s.len(),
        first_index(s, c) < s.len() ==> s[first_index(s, c)] == c,
        forall|j: int| 0 <= j < first_index(s, c) ==> s[j] != c,
    decreases s.len(),
{
    if s.len() > 0 && s[0] != c {
        let rest = s.skip(1);
        lemma_first_index_bounds(rest, c);
        assert forall|j: int| 0 <= j < first_index(s, c) implies s[j] != c by {
            if j > 0 {
                assert(rest[j - 1] == s[j]);
            }
        }
    }
}

/// The only position with no `c` from it on whose predecessor is `c`, or zero.
pub proof fn lemma_after_last(s: Seq<char>, c: char, at: int)
    requires
        0 <= at <= s.len(),
        forall|j: int| at <= j < s.len() ==> s[j] != c,
        at == 0 || s[at - 1] == c,
    ensures
        after_last(s, c) == at,
    decreases s.len(),
{
    if s.len() > at {
        lemma_after_last(s.drop_last(), c, at);
    }
}

/// Position of the first `c`, if any.
pub fn find_char(s: &str, c: char) -> (at: Option<usize>)
    ensures
        match at {
            Some(i) => i < s@.len() && i == first_index(s@, c),
            None => first_index(s@, c) == s@.len(),
        },
{
    let length: usize = s.unicode_len();
    let mut i: usize = 0;
    for current in iter: s.chars()
        invariant
            iter.seq() == s@,
            i == iter.index(),
            length == s@.len(),
            forall|j: int| 0 <= j < i ==> s@[j] != c,
    {
        if current == c {
            proof {
                lemma_first_index(s@, c, i as int);
            }
            return Some(i);
        }
        i += 1;
    }
    proof {
        lemma_first_index(s@, c, i as int);
    }
    None
}

/// The two sides of the first `c` in `s`.
pub open spec fn halves(s: Seq<char>, c: char) -> Option<(Seq<char>, Seq<char>)> {
    let at = first_index(s, c);
    if at < s.len() {
        Some((s.take(at), s.skip(at + 1)))
    } else {
        None
    }
}

/// The two sides of the first `c`, when `s` holds one.
pub fn split_once<'a>(s: &'a str, c: char) -> (sides: Option<(&'a str, &'a str)>)
    ensures
        match sides {
            Some((left, right)) => halves(s@, c) == Some((left@, right@)),
            None => halves(s@, c) is None,
        },
{
    match find_char(s, c) {
        Some(at) => {
            let length: usize = s.unicode_len();
            let left = s.substring_char(0, at);
            let right = s.substring_char(at + 1, length);
            assert(left@ == s@.take(at as int));
            assert(right@ == s@.skip(at + 1));
            Some((left, right))
        },
        None => None,
    }
}

/// A character with the Unicode `White_Space` property.
pub open spec fn white_space(c: char) -> bool {
    let code = c as u32;
    ||| 0x09 <= code <= 0x0d
    ||| code == 0x20 || code == 0x85 || code == 0xa0 || code == 0x1680
    ||| 0x2000 <= code <= 0x200a
    ||| code == 0x2028 || code == 0x2029 || code == 0x202f || code == 0x205f || code == 0x3000
}

/// Whether `c` has the Unicode `White_Space` property.
pub fn is_white_space(c: char) -> (white: bool)
    ensures
        white == white_space(c),
{
    let code: u32 = c as u32;
    (0x09 <= code && code <= 0x0d) || code == 0x20 || code == 0x85 || code == 0xa0 || code == 0x1680
        || (0x2000 <= code && code <= 0x200a) || code == 0x2028 || code == 0x2029 || code == 0x202f
        || code == 0x205f || code == 0x3000
}

/// `s` without the white space it begins with.
pub open spec fn trimmed_start(s: Seq<char>) -> Seq<char>
    decreases s.len(),
{
    if s.len() > 0 && white_space(s[0]) {
        trimmed_start(s.skip(1))
    } else {
        s
    }
}

/// `s` without the white space it ends with.
pub open spec fn trimmed_end(s: Seq<char>) -> Seq<char>
    decreases s.len(),
{
    if s.len() > 0 && white_space(s.last()) {
        trimmed_end(s.drop_last())
    } else {
        s
    }
}

/// `s` without the white space around it.
pub open spec fn trimmed(s: Seq<char>) -> Seq<char> {
    trimmed_end(trimmed_start(s))
}

/// `s` without the white space around it.
pub fn trim(s: &str) -> (core: &str)
    ensures
        core@ == trimmed(s@),
{
    let chars = chars_of(s);
    let length: usize = chars.len();
    let mut start: usize = 0;
    assert(s@.skip(0) == s@);
    while start < length && is_white_space(chars[start])
        invariant
            chars@ == s@,
            length == s@.len(),
            start <= length,
            trimmed_start(s@) == trimmed_start(s@.skip(start as int)),
        decreases length - start,
    {
        assert(s@.skip(start as int).skip(1) == s@.skip(start + 1));
        start += 1;
    }
    assert(trimmed_start(s@) == s@.skip(start as int));
    let ghost rest = s@.skip(start as int);
    let mut end: usize = length;
    assert(rest.take(end - start) == rest);
    while start < end && is_white_space(chars[end - 1])
        invariant
            chars@ == s@,
            length == s@.len(),
            start <= end <= length,
            rest == s@.skip(start as int),
            trimmed_end(rest) == trimmed_end(rest.take(end - start)),
        decreases end - start,
    {
        assert(rest.take(end - start).drop_last() == rest.take(end - start - 1));
        end -= 1;
    }
    let core = s.substring_char(start, end);
    assert(core@ == rest.take(end - start));
    core
}

/// The characters of `s`.
pub fn chars_of(s: &str) -> (chars: Vec<char>)
    ensures
        chars@ == s@,
{
    let mut chars: Vec<char> = Vec::new();
    for c in iter: s.chars()
        invariant
            iter.seq() == s@,
            chars@ == s@.take(iter.index() as int),
    {
        chars.push(c);
    }
    chars
}

/// `left` followed by `right`.
pub fn concat(left: &str, right: &str) -> (whole: String)
    ensures
        whole@ == left@ + right@,
{
    let mut whole = left.to_owned();
    whole.append(right);
    whole
}

/// `left`, then `middle`, then `right`.
pub fn concat3(left: &str, middle: &str, right: &str) -> (whole: String)
    ensures
        whole@ == left@ + middle@ + right@,
{
    let mut whole = concat(left, middle);
    whole.append(right);
    whole
}

/// The texts in order with `separator` between each two.
pub open spec fn joined(parts: Seq<Seq<char>>, separator: Seq<char>) -> Seq<char>
    decreases parts.len(),
{
    if parts.len() == 0 {
        Seq::empty()
    } else if parts.len() == 1 {
        parts[0]
    } else {
        joined(parts.drop_last(), separator) + separator + parts.last()
    }
}

/// The texts in order with `separator` between each two.
pub fn join(parts: &Vec<String>, separator: &str) -> (whole: String)
    ensures
        whole@ == joined(texts(parts@), separator@),
{
    let ghost views = texts(parts@);
    let mut whole = String::new();
    let mut i: usize = 0;
    assert(views.take(0) =~= Seq::<Seq<char>>::empty());
    while i < parts.len()
        invariant
            i <= parts.len(),
            views == texts(parts@),
            whole@ == joined(views.take(i as int), separator@),
        decreases parts.len() - i,
    {
        let ghost next = views.take(i + 1);
        assert(next.drop_last() =~= views.take(i as int));
        assert(next.last() == parts@[i as int]@);
        if i > 0 {
            whole.append(separator);
        }
        whole.append(parts[i].as_str());
        assert(whole@ =~= joined(next, separator@));
        i += 1;
    }
    assert(views.take(i as int) =~= views);
    whole
}

/// The decimal digit character for `d`.
pub open spec fn digit(d: nat) -> char
    recommends
        d < 10,
{
    (48 + d) as char
}

/// `n` in decimal, without leading zeros.
pub open spec fn decimal(n: nat) -> Seq<char>
    decreases n,
{
    if n < 10 {
        seq![digit(n)]
    } else {
        decimal(n / 10).push(digit(n % 10))
    }
}

/// The decimal digit character for `d`.
fn digit_char(d: u64) -> (c: char)
    requires
        d < 10,
    ensures
        c == digit(d as nat),
{
    let byte: u8 = 48 + d as u8;
    byte as char
}

/// `n` in decimal, without leading zeros.
pub fn decimal_string(n: u64) -> (text: String)
    ensures
        text@ == decimal(n as nat),
    decreases n,
{
    if n < 10 {
        let mut text = String::new();
        text.push(digit_char(n));
        assert(text@ == seq![digit(n as nat)]);
        text
    } else {
        let mut text = decimal_string(n / 10);
        text.push(digit_char(n % 10));
        text
    }
}

/// Whether `c` is one of `0` to `9`.
pub open spec fn is_digit(c: char) -> bool {
    '0' <= c <= '9'
}

/// Whether every character of `s` is a decimal digit.
pub open spec fn all_digits(s: Seq<char>) -> bool {
    forall|i: int| 0 <= i < s.len() ==> is_digit(#[trigger] s[i])
}

/// The number that a run of decimal digits stands for.
pub open spec fn number(s: Seq<char>) -> nat
    decreases s.len(),
{
    if s.len() == 0 {
        0
    } else {
        number(s.drop_last()) * 10 + (s.last() as nat - 48) as nat
    }
}

/// `s` without the plus sign that a number may begin with.
pub open spec fn unsigned_digits(s: Seq<char>) -> Seq<char> {
    if s.len() > 0 && s[0] == '+' {
        s.skip(1)
    } else {
        s
    }
}

/// The `u64` that `s` spells in decimal digits, behind an optional plus sign.
pub open spec fn parsed_u64(s: Seq<char>) -> Option<u64> {
    let digits = unsigned_digits(s);
    if digits.len() > 0 && all_digits(digits) && number(digits) <= u64::MAX {
        Some(number(digits) as u64)
    } else {
        None
    }
}

/// A prefix of a run of digits stands for no larger number.
proof fn lemma_number_grows(s: Seq<char>, n: int)
    requires
        all_digits(s),
        0 <= n <= s.len(),
    ensures
        number(s.take(n)) <= number(s),
    decreases s.len(),
{
    if n < s.len() {
        let front = s.drop_last();
        assert(front.take(n) == s.take(n));
        assert forall|i: int| 0 <= i < front.len() implies is_digit(#[trigger] front[i]) by {
            assert(front[i] == s[i]);
        }
        lemma_number_grows(front, n);
    } else {
        assert(s.take(n) == s);
    }
}

/// The `u64` that `s` spells in decimal digits behind an optional plus sign,
/// unless it holds another character, has no digits or is too large.
pub fn parse_u64(s: &str) -> (value: Option<u64>)
    ensures
        value == parsed_u64(s@),
{
    let chars = chars_of(s);
    let start: usize = if chars.len() > 0 && chars[0] == '+' {
        1
    } else {
        0
    };
    let ghost digits = unsigned_digits(s@);
    assert(digits == s@.skip(start as int));
    if chars.len() == start {
        return None;
    }
    let mut value: u64 = 0;
    let mut i: usize = start;
    while i < chars.len()
        invariant
            chars@ == s@,
            digits == s@.skip(start as int),
            digits == unsigned_digits(s@),
            start <= i <= chars.len(),
            all_digits(digits.take(i - start)),
            value == number(digits.take(i - start)),
        decreases chars.len() - i,
    {
        let c = chars[i];
        let ghost head = digits.take(i - start);
        let ghost next = digits.take(i - start + 1);
        assert(digits[i - start] == c);
        assert(next.drop_last() == head);
        assert(next.last() == c);
        if !('0' <= c && c <= '9') {
            assert(!is_digit(digits[i - start]));
            return None;
        }
        assert forall|j: int| 0 <= j < next.len() implies is_digit(#[trigger] next[j]) by {
            if j < i - start {
                assert(next[j] == head[j]);
            }
        }
        let digit_value: u64 = c as u64 - 48;
        let shifted = value.checked_mul(10);
        let sum = match shifted {
            Some(product) => product.checked_add(digit_value),
            None => None,
        };
        match sum {
            Some(total) => {
                value = total;
            },
            None => {
                assert(number(next) > u64::MAX);
                proof {
                    if all_digits(digits) {
                        lemma_number_grows(digits, i - start + 1);
                    }
                }
                return None;
            },
        }
        i += 1;
    }
    assert(digits.take(i - start) == digits);
    Some(value)
}

/// Whether `a` comes before `b` in the order of their characters.
pub open spec fn lexically_before(a: Seq<char>, b: Seq<char>) -> bool
    decreases a.len(),
{
    if b.len() == 0 {
        false
    } else if a.len() == 0 {
        true
    } else if a[0] != b[0] {
        a[0] < b[0]
    } else {
        lexically_before(a.drop_first(), b.drop_first())
    }
}

/// The order is total, and of two texts only one comes before the other.
pub proof fn lemma_lexical_total(a: Seq<char>, b: Seq<char>)
    ensures
        lexically_before(a, b) ==> !lexically_before(b, a),
        a != b ==> lexically_before(a, b) || lexically_before(b, a),
        a == b ==> !lexically_before(a, b),
    decreases a.len(),
{
    if a.len() > 0 && b.len() > 0 && a[0] == b[0] {
        lemma_lexical_total(a.drop_first(), b.drop_first());
        if a.drop_first() == b.drop_first() {
            assert(a =~= seq![a[0]] + a.drop_first());
            assert(b =~= seq![b[0]] + b.drop_first());
        }
    } else if a.len() == 0 && b.len() == 0 {
        assert(a =~= b);
    }
}

/// What comes before something comes before what follows it.
pub proof fn lemma_lexical_chain(a: Seq<char>, b: Seq<char>, c: Seq<char>)
    requires
        lexically_before(a, b),
        lexically_before(b, c),
    ensures
        lexically_before(a, c),
    decreases a.len(),
{
    if a.len() > 0 && a[0] == b[0] && b[0] == c[0] {
        lemma_lexical_chain(a.drop_first(), b.drop_first(), c.drop_first());
    }
}

/// Whether `a` comes before `b` in the order of their characters.
pub fn is_lexically_before(a: &str, b: &str) -> (before: bool)
    ensures
        before == lexically_before(a@, b@),
{
    let left = chars_of(a);
    let right = chars_of(b);
    let mut k: usize = 0;
    assert(a@.skip(0) =~= a@);
    assert(b@.skip(0) =~= b@);
    while k < left.len() && k < right.len()
        invariant
            left@ == a@,
            right@ == b@,
            k <= a@.len(),
            k <= b@.len(),
            lexically_before(a@, b@) == lexically_before(a@.skip(k as int), b@.skip(k as int)),
        decreases left.len() - k,
    {
        assert(a@.skip(k as int).drop_first() =~= a@.skip(k + 1));
        assert(b@.skip(k as int).drop_first() =~= b@.skip(k + 1));
        if left[k] != right[k] {
            return left[k] < right[k];
        }
        k += 1;
    }
    k < right.len()
}

/// A number in decimal is made of digits, begins with no zero unless it is
/// zero, and is read back as the same number.
pub proof fn law_decimals_are_read_back(n: u64)
    ensures
        decimal(n as nat).len() > 0,
        all_digits(decimal(n as nat)),
        n > 0 ==> decimal(n as nat)[0] != '0',
        number(decimal(n as nat)) == n,
        parsed_u64(decimal(n as nat)) == Some(n),
{
    lemma_decimal(n as nat);
    let text = decimal(n as nat);
    assert(is_digit(text[0]));
}

proof fn lemma_decimal(n: nat)
    ensures
        decimal(n).len() > 0,
        all_digits(decimal(n)),
        n > 0 ==> decimal(n)[0] != '0',
        number(decimal(n)) == n,
    decreases n,
{
    let text = decimal(n);
    if n >= 10 {
        lemma_decimal(n / 10);
        let front = decimal(n / 10);
        assert(text.drop_last() =~= front);
        assert forall|i: int| 0 <= i < text.len() implies is_digit(#[trigger] text[i]) by {
            if i < front.len() {
                assert(text[i] == front[i]);
            }
        }
    } else {
        assert(text.drop_last() =~= Seq::empty());
        assert(number(text.drop_last()) == 0);
    }
}

/// What is trimmed is a stretch of the text that neither begins nor ends in
/// white space, with nothing but white space around it.
pub proof fn law_trimming_takes_white_space_alone(s: Seq<char>)
    ensures
        trimmed(s).len() > 0 ==> !white_space(trimmed(s)[0]) && !white_space(trimmed(s).last()),
        exists|from: int, to: int|
            0 <= from <= to <= s.len() && trimmed(s) == #[trigger] s.subrange(from, to) && (forall|
                i: int,
            |
                0 <= i < from ==> white_space(#[trigger] s[i])) && (forall|i: int|
                to <= i < s.len() ==> white_space(#[trigger] s[i])),
{
    let from = lemma_trimmed_start(s);
    let rest = trimmed_start(s);
    let to = from + lemma_trimmed_end(rest);
    assert(trimmed(s) =~= s.subrange(from, to));
    assert forall|i: int| to <= i < s.len() implies white_space(#[trigger] s[i]) by {
        assert(rest[i - from] == s[i]);
    }
    if to > from {
        assert(trimmed(s)[0] == rest[0]);
    }
}

proof fn lemma_trimmed_start(s: Seq<char>) -> (from: int)
    ensures
        0 <= from <= s.len(),
        trimmed_start(s) == s.skip(from),
        forall|i: int| 0 <= i < from ==> white_space(#[trigger] s[i]),
        from < s.len() ==> !white_space(s[from]),
    decreases s.len(),
{
    if s.len() > 0 && white_space(s[0]) {
        let rest = s.skip(1);
        let more = lemma_trimmed_start(rest);
        assert(rest.skip(more) =~= s.skip(more + 1));
        assert forall|i: int| 0 <= i < more + 1 implies white_space(#[trigger] s[i]) by {
            if i > 0 {
                assert(rest[i - 1] == s[i]);
            }
        }
        more + 1
    } else {
        assert(s.skip(0) =~= s);
        0
    }
}

proof fn lemma_trimmed_end(s: Seq<char>) -> (to: int)
    ensures
        0 <= to <= s.len(),
        trimmed_end(s) == s.take(to),
        forall|i: int| to <= i < s.len() ==> white_space(#[trigger] s[i]),
        to > 0 ==> !white_space(s[to - 1]),
    decreases s.len(),
{
    if s.len() > 0 && white_space(s.last()) {
        let front = s.drop_last();
        let to = lemma_trimmed_end(front);
        assert(front.take(to) =~= s.take(to));
        assert forall|i: int| to <= i < s.len() implies white_space(#[trigger] s[i]) by {
            if i < front.len() {
                assert(front[i] == s[i]);
            }
        }
        to
    } else {
        assert(s.take(s.len() as int) =~= s);
        s.len() as int
    }
}

/// A text with white space at neither end is not trimmed.
pub proof fn lemma_trimmed_already(s: Seq<char>)
    requires
        s.len() > 0,
        !white_space(s[0]),
        !white_space(s.last()),
    ensures
        trimmed(s) == s,
{
}

/// A text is split at the first of the characters asked for: the two sides
/// with it between them are the text, and the left side holds none of them.
/// It is not split just where it holds none.
pub proof fn law_a_text_is_split_at_the_first(s: Seq<char>, c: char)
    ensures
        halves(s, c) is Some == s.contains(c),
        halves(s, c) is Some ==> (halves(s, c)->0).0.push(c) + (halves(s, c)->0).1 == s,
        halves(s, c) is Some ==> !(halves(s, c)->0).0.contains(c),
{
    lemma_first_index_bounds(s, c);
    let at = first_index(s, c);
    if at < s.len() {
        assert(s[at] == c);
        assert(s.take(at).push(c) + s.skip(at + 1) =~= s);
    }
}

/// What is split at a character are the two sides that were put together with
/// it, where the left one holds none.
pub proof fn law_sides_are_found_again(left: Seq<char>, c: char, right: Seq<char>)
    requires
        !left.contains(c),
    ensures
        halves(left.push(c) + right, c) == Some((left, right)),
{
    let s = left.push(c) + right;
    assert forall|j: int| 0 <= j < left.len() implies s[j] != c by {
        assert(left.contains(left[j]));
    }
    lemma_first_index(s, c, left.len() as int);
    assert(s.take(left.len() as int) =~= left);
    assert(s.skip(left.len() as int + 1) =~= right);
}

/// What follows a prefix is what was put behind it, and a text that gives
/// something is the prefix and that.
pub proof fn law_a_prefix_comes_off(prefix: Seq<char>, rest: Seq<char>, s: Seq<char>)
    ensures
        after_prefix(prefix + rest, prefix) == Some(rest),
        after_prefix(s, prefix) is Some ==> prefix + after_prefix(s, prefix)->0 == s,
{
    let whole = prefix + rest;
    assert(whole.subrange(0, prefix.len() as int) =~= prefix);
    assert(whole.skip(prefix.len() as int) =~= rest);
    if after_prefix(s, prefix) is Some {
        assert(prefix + s.skip(prefix.len() as int) =~= s);
    }
}

/// Joining puts the separator between each text and the next, and nowhere
/// else.
pub proof fn law_joining_separates_neighbours(parts: Seq<Seq<char>>, last: Seq<char>, separator: Seq<char>)
    ensures
        joined(Seq::empty(), separator) == Seq::<char>::empty(),
        joined(seq![last], separator) == last,
        parts.len() > 0 ==> joined(parts.push(last), separator) == joined(parts, separator)
            + separator + last,
{
    let all = parts.push(last);
    assert(all.drop_last() =~= parts);
}

/// The first character in which two texts differ says which comes first; a
/// text comes before every longer one that begins with it.
pub proof fn law_the_first_difference_decides(
    same: Seq<char>,
    x: char,
    y: char,
    a: Seq<char>,
    b: Seq<char>,
)
    ensures
        x != y ==> lexically_before(same.push(x) + a, same.push(y) + b) == (x < y),
        lexically_before(same, same.push(x) + a),
        !lexically_before(same.push(x) + a, same),
    decreases same.len(),
{
    let left = same.push(x) + a;
    let right = same.push(y) + b;
    if same.len() > 0 {
        let rest = same.drop_first();
        law_the_first_difference_decides(rest, x, y, a, b);
        assert(left.drop_first() =~= rest.push(x) + a);
        assert(right.drop_first() =~= rest.push(y) + b);
    }
}

/// Trimming, and whether a character is white space, go by the blanks that are
/// typed: a space, a tab and a line end are white, letters and digits are not.
pub proof fn law_letters_are_not_white(c: char)
    ensures
        c == ' ' || c == '\t' || c == '\n' || c == '\r' ==> white_space(c),
        '!' <= c <= '~' ==> !white_space(c),
{
}

/// Numbers are written and read from left to right: each further digit is worth
/// a tenth of the one before it, and a digit is worth its distance from zero.
pub proof fn law_digits_are_worth_their_place(s: Seq<char>, c: char, n: nat)
    ensures
        '0' <= c <= '9' ==> number(s.push(c)) == 10 * number(s) + (c as u32 - '0' as u32),
        number(Seq::empty()) == 0,
        decimal(n).last() as u32 == '0' as u32 + n % 10,
        n >= 10 ==> decimal(n).drop_last() == decimal(n / 10),
        is_digit(c) == ('0' <= c <= '9'),
{
    assert(s.push(c).drop_last() =~= s);
    if n >= 10 {
        assert(decimal(n).drop_last() =~= decimal(n / 10));
    }
}

/// A number that is read may be behind a plus sign, and only that; anything but
/// digits, nothing at all, and what is too large are no numbers.
pub proof fn law_only_digits_are_numbers(s: Seq<char>, i: int)
    ensures
        parsed_u64(Seq::empty()) is None,
        parsed_u64(s) is Some ==> s.len() > 0,
        0 < i < s.len() && !('0' <= s[i] <= '9') ==> parsed_u64(s) is None,
        s.len() > 0 && s[0] != '+' && !('0' <= s[0] <= '9') ==> parsed_u64(s) is None,
        s.len() > 0 && all_digits(s) && number(s) <= u64::MAX ==> parsed_u64(s) == Some(
            number(s) as u64,
        ) && parsed_u64(seq!['+'] + s) == Some(number(s) as u64),
        s.len() > 0 && all_digits(s) && number(s) > u64::MAX ==> parsed_u64(s) is None,
{
    let digits = unsigned_digits(s);
    if 0 < i < s.len() && !('0' <= s[i] <= '9') {
        if s[0] == '+' {
            assert(digits[i - 1] == s[i]);
        } else {
            assert(!is_digit(digits[i]));
        }
    }
    if s.len() > 0 && s[0] != '+' && !('0' <= s[0] <= '9') {
        assert(!is_digit(digits[0]));
    }
    if s.len() > 0 && all_digits(s) {
        assert(is_digit(s[0]));
        let signed = seq!['+'] + s;
        assert(signed.skip(1) =~= s);
    }
}

/// A list holds a text just where one of its strings does, whatever else it
/// holds; the texts of a list stand in its order.
pub proof fn law_a_text_is_listed_where_it_stands(values: Seq<String>, i: int)
    requires
        0 <= i < values.len(),
    ensures
        listed(values, values[i]@),
        texts(values).len() == values.len(),
        texts(values)[i] == values[i]@,
        !listed(Seq::empty(), values[i]@),
{
}

} // verus!
