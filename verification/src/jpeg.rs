//! What the headers of a JPEG say, and which of them the decoder takes in its
//! stride.
//!
//! The decoder multiplies the running brightness of a component by the first
//! step of its table in 32 bits, works out rows of blocks in 16 bits, and lays
//! out its rows for components that are sampled once or twice each way. A header
//! can ask for more than that. Every header that the decoder can come across
//! starts with a marker, the byte `0xff` and a code, so it is enough to look at
//! each place where such a pair stands.

use crate::browser::MAX_FRAME_EDGE;
use vstd::prelude::*;

verus! {

/// The code of a frame whose blocks come one after another.
pub const BASELINE: u8 = 0xc0;

/// The code of such a frame in the extended process.
pub const EXTENDED: u8 = 0xc1;

/// The code of a frame that comes in ever finer scans.
pub const PROGRESSIVE: u8 = 0xc2;

/// The code of a segment of Huffman tables.
pub const CODES: u8 = 0xc4;

/// The code of a scan.
pub const SCAN: u8 = 0xda;

/// The code of a segment of quantization tables.
pub const STEPS: u8 = 0xdb;

/// The code of the segment that names a colour transform.
pub const TRANSFORM: u8 = 0xee;

/// The most lines or columns that can be rounded up to whole blocks in 16 bits.
pub const MOST_LINES: u32 = 65528;

/// The largest category of a brightness difference in pictures of 8 bits.
pub const MOST_CATEGORY: u8 = 11;

/// The largest difference of that category.
pub const MOST_DIFFERENCE: u128 = 2047;

/// The largest product to which 1028 can be added in 32 bits.
pub const MOST_PRODUCT: u128 = 2147482619;

/// The most bytes in a picture.
pub const MOST_BYTES: usize = 2147483647;

/// Whether the marker with this code stands at `at`.
pub open spec fn marked(bytes: Seq<u8>, at: int, code: u8) -> bool {
    0 <= at && at + 1 < bytes.len() && bytes[at] == 0xff && bytes[at + 1] == code
}

/// Whether a frame header stands at `at`.
pub open spec fn frame_header(bytes: Seq<u8>, at: int) -> bool {
    marked(bytes, at, BASELINE) || marked(bytes, at, EXTENDED) || marked(bytes, at, PROGRESSIVE)
}

/// The number in the two bytes at `at`, the high byte first.
pub open spec fn pair(bytes: Seq<u8>, at: int) -> int {
    bytes[at] * 256 + bytes[at + 1]
}

/// Where the segment ends whose marker stands at `at`.
pub open spec fn segment_end(bytes: Seq<u8>, at: int) -> int {
    if at + 4 <= bytes.len() {
        at + 2 + pair(bytes, at + 2)
    } else {
        at
    }
}

/// Whether a segment names a colour transform.
pub open spec fn names_transform(bytes: Seq<u8>) -> bool {
    exists|at: int| #[trigger] marked(bytes, at, TRANSFORM)
}

/// The number of scans that start before `upto`.
pub open spec fn scans(bytes: Seq<u8>, upto: int) -> int
    decreases upto,
{
    if upto <= 0 {
        0
    } else if marked(bytes, upto - 1, SCAN) {
        scans(bytes, upto - 1) + 1
    } else {
        scans(bytes, upto - 1)
    }
}

/// Whether a component is sampled once or twice each way, and no more finely
/// than the first one.
pub open spec fn sampling_fits(first: u8, own: u8) -> bool {
    &&& own == 0x11 || own == 0x12 || own == 0x21 || own == 0x22
    &&& own / 16 <= first / 16
    &&& own % 16 <= first % 16
}

/// The sampling of component `c` of the frame header at `at`.
pub open spec fn sampling(bytes: Seq<u8>, at: int, c: int) -> u8 {
    bytes[at + 11 + 3 * c]
}

/// Whether a frame header is whole, its sides can be rounded up to blocks, and
/// its components are one to four, sampled as the decoder lays them out. A named
/// colour transform is left to frames of three components.
pub open spec fn frame_fits(bytes: Seq<u8>, at: int) -> bool {
    &&& at + 10 <= bytes.len()
    &&& pair(bytes, at + 5) <= MOST_LINES
    &&& pair(bytes, at + 7) <= MOST_LINES
    &&& 1 <= bytes[at + 9] <= 4
    &&& at + 10 + 3 * bytes[at + 9] <= bytes.len()
    &&& bytes[at + 9] == 3 || !names_transform(bytes)
    &&& forall|c: int|
        0 <= c < bytes[at + 9] ==> sampling_fits(
            sampling(bytes, at, 0),
            #[trigger] sampling(bytes, at, c),
        )
}

/// No component of the frame has more blocks than this.
pub open spec fn blocks(bytes: Seq<u8>, at: int) -> int {
    4 * ((pair(bytes, at + 7) + 15) / 16) * ((pair(bytes, at + 5) + 15) / 16)
}

/// How far the running brightness of a component can get from zero: each scan
/// adds one difference for each block. A progressive frame starts every scan
/// from zero and keeps 16 bits.
pub open spec fn frame_reach(bytes: Seq<u8>, at: int) -> int {
    if at + 9 <= bytes.len() && (marked(bytes, at, BASELINE) || marked(bytes, at, EXTENDED)) {
        scans(bytes, bytes.len() as int) * blocks(bytes, at) * MOST_DIFFERENCE
    } else {
        0
    }
}

/// The furthest that a frame reaches whose header starts before `upto`.
pub open spec fn reach(bytes: Seq<u8>, upto: int) -> int
    decreases upto,
{
    if upto <= 0 {
        0
    } else if frame_reach(bytes, upto - 1) > reach(bytes, upto - 1) {
        frame_reach(bytes, upto - 1)
    } else {
        reach(bytes, upto - 1)
    }
}

/// Whether the first step of each quantization table from `at` on stays within
/// bounds when it is multiplied by `reach`. A table holds 64 steps, of one byte
/// or of two; the decoder refuses any other, and one that is cut off.
pub open spec fn steps_fit(bytes: Seq<u8>, at: int, end: int, reach: int) -> bool
    decreases
        (if at < end {
            end - at
        } else {
            0
        }),
{
    if at >= end || at + 2 >= bytes.len() {
        true
    } else if bytes[at] / 16 == 0 {
        bytes[at + 1] * reach <= MOST_PRODUCT && steps_fit(bytes, at + 65, end, reach)
    } else if bytes[at] / 16 == 1 {
        pair(bytes, at + 1) * reach <= MOST_PRODUCT && steps_fit(bytes, at + 129, end, reach)
    } else {
        true
    }
}

/// The sum of the `count` bytes from `at` on.
pub open spec fn sum(bytes: Seq<u8>, at: int, count: int) -> int
    decreases count,
{
    if count <= 0 {
        0
    } else {
        sum(bytes, at, count - 1) + bytes[at + count - 1]
    }
}

/// Whether the bytes from `at` up to `end` are categories of differences.
pub open spec fn categories_fit(bytes: Seq<u8>, at: int, end: int) -> bool {
    forall|k: int| at <= k < end && k < bytes.len() ==> #[trigger] bytes[k] <= MOST_CATEGORY
}

/// Whether each Huffman table for brightness from `at` on codes categories of
/// differences. A table counts its codes of each of 16 lengths, then lists what
/// they stand for; the decoder refuses one that is cut off.
pub open spec fn codes_fit(bytes: Seq<u8>, at: int, end: int) -> bool
    decreases
        (if at < end {
            end - at
        } else {
            0
        }),
{
    if at >= end || at + 17 > bytes.len() {
        true
    } else {
        let next = at + 17 + sum(bytes, at + 1, 16);
        &&& bytes[at] / 16 == 0 ==> categories_fit(bytes, at + 17, next)
        &&& next > at && codes_fit(bytes, next, end)
    }
}

/// Whether every header in the bytes stays within what the decoder can reckon
/// with.
pub open spec fn within_bounds(bytes: Seq<u8>) -> bool {
    &&& bytes.len() <= MOST_BYTES
    &&& forall|at: int| #[trigger] frame_header(bytes, at) ==> frame_fits(bytes, at)
    &&& forall|at: int| #[trigger]
        marked(bytes, at, STEPS) ==> steps_fit(
            bytes,
            at + 4,
            segment_end(bytes, at),
            reach(bytes, bytes.len() as int),
        )
    &&& forall|at: int| #[trigger]
        marked(bytes, at, CODES) ==> codes_fit(bytes, at + 4, segment_end(bytes, at))
}

fn is_marked(bytes: &[u8], at: usize, code: u8) -> (marks: bool)
    requires
        at < bytes@.len(),
        bytes@.len() <= MOST_BYTES,
    ensures
        marks == marked(bytes@, at as int, code),
{
    at + 1 < bytes.len() && bytes[at] == 0xff && bytes[at + 1] == code
}

fn read_pair(bytes: &[u8], at: usize) -> (value: u32)
    requires
        at + 1 < bytes@.len(),
        bytes@.len() <= MOST_BYTES,
    ensures
        value == pair(bytes@, at as int),
        value <= 65535,
{
    bytes[at] as u32 * 256 + bytes[at + 1] as u32
}

/// Counts the scans, and says whether a colour transform is named.
fn survey(bytes: &[u8]) -> (found: (u32, bool))
    requires
        bytes@.len() <= MOST_BYTES,
    ensures
        found.0 == scans(bytes@, bytes@.len() as int),
        found.1 == names_transform(bytes@),
{
    let mut count: u32 = 0;
    let mut named = false;
    let mut at: usize = 0;
    while at < bytes.len()
        invariant
            at <= bytes@.len() <= MOST_BYTES,
            count == scans(bytes@, at as int),
            count <= at,
            named ==> names_transform(bytes@),
            !named ==> forall|k: int| #[trigger] marked(bytes@, k, TRANSFORM) ==> k >= at,
        decreases bytes.len() - at,
    {
        if is_marked(bytes, at, SCAN) {
            count += 1;
        }
        if is_marked(bytes, at, TRANSFORM) {
            named = true;
        }
        at += 1;
    }
    (count, named)
}

fn is_sampling_fitting(first: u8, own: u8) -> (fits: bool)
    ensures
        fits == sampling_fits(first, own),
{
    (own == 0x11 || own == 0x12 || own == 0x21 || own == 0x22) && own / 16 <= first / 16 && own % 16
        <= first % 16
}

fn is_frame_fitting(bytes: &[u8], at: usize, named: bool) -> (fits: bool)
    requires
        at < bytes@.len(),
        bytes@.len() <= MOST_BYTES,
        named == names_transform(bytes@),
    ensures
        fits == frame_fits(bytes@, at as int),
{
    if at + 10 > bytes.len() {
        return false;
    }
    let count: u8 = bytes[at + 9];
    if read_pair(bytes, at + 5) > MOST_LINES || read_pair(bytes, at + 7) > MOST_LINES || count < 1
        || count > 4 || (count != 3 && named) || at + 10 + 3 * count as usize > bytes.len() {
        return false;
    }
    let first: u8 = bytes[at + 11];
    assert(first == sampling(bytes@, at as int, 0));
    let mut c: usize = 0;
    while c < count as usize
        invariant
            c <= count <= 4,
            at + 10 + 3 * count <= bytes@.len() <= MOST_BYTES,
            count == bytes@[at + 9],
            first == sampling(bytes@, at as int, 0),
            forall|d: int|
                0 <= d < c ==> sampling_fits(first, #[trigger] sampling(bytes@, at as int, d)),
        decreases count - c,
    {
        if !is_sampling_fitting(first, bytes[at + 11 + 3 * c]) {
            assert(!sampling_fits(first, sampling(bytes@, at as int, c as int)));
            return false;
        }
        c += 1;
    }
    true
}

/// How far the frame reaches whose header stands at `at`.
fn measure(bytes: &[u8], at: usize, count: u32) -> (far: u128)
    requires
        at < bytes@.len(),
        bytes@.len() <= MOST_BYTES,
        count == scans(bytes@, bytes@.len() as int),
    ensures
        far == frame_reach(bytes@, at as int),
        far < 0x100_0000_0000_0000_0000,
{
    if at + 9 > bytes.len() || !(is_marked(bytes, at, BASELINE) || is_marked(bytes, at, EXTENDED)) {
        return 0;
    }
    let across: u128 = (read_pair(bytes, at + 7) as u128 + 15) / 16;
    let down: u128 = (read_pair(bytes, at + 5) as u128 + 15) / 16;
    assert(4 * across * down <= 4 * 4096 * 4096) by (nonlinear_arith)
        requires
            across <= 4096,
            down <= 4096,
    ;
    let area: u128 = 4 * across * down;
    assert(count * area <= 0xffff_ffff * 0x400_0000) by (nonlinear_arith)
        requires
            count <= 0xffff_ffff,
            area <= 0x400_0000,
    ;
    count as u128 * area * MOST_DIFFERENCE
}

fn are_steps_fitting(bytes: &[u8], start: usize, end: usize, far: u128) -> (fits: bool)
    requires
        bytes@.len() <= MOST_BYTES,
        start <= MOST_BYTES + 4,
        far < 0x100_0000_0000_0000_0000,
    ensures
        fits == steps_fit(bytes@, start as int, end as int, far as int),
{
    let mut at: usize = start;
    while at < end && at < bytes.len() && at + 2 < bytes.len()
        invariant
            bytes@.len() <= MOST_BYTES,
            far < 0x100_0000_0000_0000_0000,
            steps_fit(bytes@, start as int, end as int, far as int) == steps_fit(
                bytes@,
                at as int,
                end as int,
                far as int,
            ),
        ensures
            steps_fit(bytes@, start as int, end as int, far as int) == steps_fit(
                bytes@,
                at as int,
                end as int,
                far as int,
            ),
            at >= end || at + 2 >= bytes@.len() || bytes@[at as int] / 16 > 1,
        decreases bytes.len() + 129 - at,
    {
        let size: u8 = bytes[at] / 16;
        if size > 1 {
            break;
        }
        let step: u32 = if size == 0 {
            bytes[at + 1] as u32
        } else {
            read_pair(bytes, at + 1)
        };
        assert(step * far <= 65535 * 0x100_0000_0000_0000_0000) by (nonlinear_arith)
            requires
                step <= 65535,
                far < 0x100_0000_0000_0000_0000,
        ;
        if step as u128 * far > MOST_PRODUCT {
            return false;
        }
        at += if size == 0 {
            65
        } else {
            129
        };
    }
    true
}

fn count_codes(bytes: &[u8], at: usize) -> (total: usize)
    requires
        at + 16 <= bytes@.len(),
        bytes@.len() <= MOST_BYTES,
    ensures
        total == sum(bytes@, at as int, 16),
        total <= 4080,
{
    let mut total: usize = 0;
    let mut k: usize = 0;
    while k < 16
        invariant
            k <= 16,
            at + 16 <= bytes@.len() <= MOST_BYTES,
            total == sum(bytes@, at as int, k as int),
            total <= 255 * k,
        decreases 16 - k,
    {
        total += bytes[at + k] as usize;
        k += 1;
    }
    total
}

fn are_categories_fitting(bytes: &[u8], start: usize, end: usize) -> (fits: bool)
    requires
        bytes@.len() <= MOST_BYTES,
    ensures
        fits == categories_fit(bytes@, start as int, end as int),
{
    let mut k: usize = start;
    while k < end && k < bytes.len()
        invariant
            bytes@.len() <= MOST_BYTES,
            start <= k,
            forall|j: int|
                start <= j < k && j < bytes@.len() ==> #[trigger] bytes@[j] <= MOST_CATEGORY,
        decreases bytes.len() - k,
    {
        if bytes[k] > MOST_CATEGORY {
            return false;
        }
        k += 1;
    }
    true
}

fn are_codes_fitting(bytes: &[u8], start: usize, end: usize) -> (fits: bool)
    requires
        bytes@.len() <= MOST_BYTES,
        start <= MOST_BYTES + 4,
    ensures
        fits == codes_fit(bytes@, start as int, end as int),
{
    let mut at: usize = start;
    while at < end && at < bytes.len() && at + 17 <= bytes.len()
        invariant
            bytes@.len() <= MOST_BYTES,
            codes_fit(bytes@, start as int, end as int) == codes_fit(
                bytes@,
                at as int,
                end as int,
            ),
        decreases bytes.len() + 5000 - at,
    {
        let next: usize = at + 17 + count_codes(bytes, at + 1);
        if bytes[at] / 16 == 0 && !are_categories_fitting(bytes, at + 17, next) {
            return false;
        }
        at = next;
    }
    true
}

/// Whether every header stays within what the decoder can reckon with.
pub fn is_within_bounds(bytes: &[u8]) -> (fits: bool)
    ensures
        fits == within_bounds(bytes@),
{
    if bytes.len() > MOST_BYTES {
        return false;
    }
    let (count, named) = survey(bytes);
    let mut far: u128 = 0;
    let mut at: usize = 0;
    while at < bytes.len()
        invariant
            at <= bytes@.len() <= MOST_BYTES,
            count == scans(bytes@, bytes@.len() as int),
            named == names_transform(bytes@),
            far == reach(bytes@, at as int),
            far < 0x100_0000_0000_0000_0000,
            forall|k: int|
                k < at && #[trigger] frame_header(bytes@, k) ==> frame_fits(bytes@, k),
        decreases bytes.len() - at,
    {
        if (is_marked(bytes, at, BASELINE) || is_marked(bytes, at, EXTENDED) || is_marked(
            bytes,
            at,
            PROGRESSIVE,
        )) && !is_frame_fitting(bytes, at, named) {
            assert(frame_header(bytes@, at as int));
            return false;
        }
        let own: u128 = measure(bytes, at, count);
        if own > far {
            far = own;
        }
        at += 1;
    }
    at = 0;
    while at < bytes.len()
        invariant
            at <= bytes@.len() <= MOST_BYTES,
            far == reach(bytes@, bytes@.len() as int),
            far < 0x100_0000_0000_0000_0000,
            forall|k: int|
                k < at && #[trigger] marked(bytes@, k, STEPS) ==> steps_fit(
                    bytes@,
                    k + 4,
                    segment_end(bytes@, k),
                    far as int,
                ),
            forall|k: int|
                k < at && #[trigger] marked(bytes@, k, CODES) ==> codes_fit(
                    bytes@,
                    k + 4,
                    segment_end(bytes@, k),
                ),
        decreases bytes.len() - at,
    {
        let end: usize = if at + 4 <= bytes.len() {
            at + 2 + read_pair(bytes, at + 2) as usize
        } else {
            at
        };
        if is_marked(bytes, at, STEPS) && !are_steps_fitting(bytes, at + 4, end, far) {
            return false;
        }
        if is_marked(bytes, at, CODES) && !are_codes_fitting(bytes, at + 4, end) {
            return false;
        }
        at += 1;
    }
    true
}

/// A frame of one scan, no larger than the runner is asked for, keeps the products of
/// its brightness in bounds with every first step up to 40.
pub proof fn law_frames_of_the_size_asked_for_stay_in_bounds(bytes: Seq<u8>, at: int, step: int)
    requires
        frame_header(bytes, at),
        at + 9 <= bytes.len(),
        scans(bytes, bytes.len() as int) == 1,
        pair(bytes, at + 7) <= MAX_FRAME_EDGE,
        pair(bytes, at + 5) <= MAX_FRAME_EDGE,
        0 <= step <= 40,
    ensures
        step * frame_reach(bytes, at) <= MOST_PRODUCT,
{
    let across = (pair(bytes, at + 7) + 15) / 16;
    let down = (pair(bytes, at + 5) + 15) / 16;
    assert(0 <= 4 * across * down <= 25600) by (nonlinear_arith)
        requires
            0 <= across <= 80,
            0 <= down <= 80,
    ;
    assert(step * (1 * blocks(bytes, at) * MOST_DIFFERENCE) <= 40 * 25600 * 2047)
        by (nonlinear_arith)
        requires
            0 <= step <= 40,
            0 <= blocks(bytes, at) <= 25600,
            MOST_DIFFERENCE == 2047,
    ;
    assert(step * 0 == 0) by (nonlinear_arith);
}

/// A picture that is within bounds declares no more lines or columns than can
/// be counted, and one to four components, of which none is sampled more finely
/// than the first.
pub proof fn law_declared_frames_are_bounded(bytes: Seq<u8>, at: int, c: int)
    requires
        within_bounds(bytes),
        0 <= at,
        at + 1 < bytes.len(),
        bytes[at] == 0xff,
        bytes[at + 1] == 0xc0 || bytes[at + 1] == 0xc1 || bytes[at + 1] == 0xc2,
    ensures
        bytes.len() <= 2147483647,
        at + 10 <= bytes.len(),
        bytes[at + 5] * 256 + bytes[at + 6] <= 65528,
        bytes[at + 7] * 256 + bytes[at + 8] <= 65528,
        1 <= bytes[at + 9] <= 4,
        at + 10 + 3 * bytes[at + 9] <= bytes.len(),
        0 <= c < bytes[at + 9] ==> 1 <= bytes[at + 11 + 3 * c] / 16 <= 2 && 1 <= bytes[at + 11 + 3
            * c] % 16 <= 2,
        0 <= c < bytes[at + 9] ==> bytes[at + 11 + 3 * c] / 16 <= bytes[at + 11] / 16,
        0 <= c < bytes[at + 9] ==> bytes[at + 11 + 3 * c] % 16 <= bytes[at + 11] % 16,
{
    assert(frame_header(bytes, at));
    assert(frame_fits(bytes, at));
    if 0 <= c < bytes[at + 9] {
        assert(sampling_fits(sampling(bytes, at, 0), sampling(bytes, at, c)));
    }
}

/// Bytes that no marker stands among declare nothing, and are within bounds.
pub proof fn law_bytes_without_markers_are_within_bounds(bytes: Seq<u8>)
    requires
        bytes.len() <= 2147483647,
        forall|i: int| 0 <= i < bytes.len() ==> #[trigger] bytes[i] != 0xff,
    ensures
        within_bounds(bytes),
{
}

/// A table of steps that is within bounds has no first step that, at the
/// picture's reach, is more than can be counted.
pub proof fn law_declared_steps_are_bounded(bytes: Seq<u8>, at: int)
    requires
        within_bounds(bytes),
        0 <= at,
        at + 6 < bytes.len(),
        bytes[at] == 0xff,
        bytes[at + 1] == 0xdb,
        bytes[at + 2] * 256 + bytes[at + 3] > 2,
    ensures
        bytes[at + 4] / 16 == 0 ==> bytes[at + 5] * reach(bytes, bytes.len() as int) <= 2147482619,
        bytes[at + 4] / 16 == 1 ==> (bytes[at + 5] * 256 + bytes[at + 6]) * reach(
            bytes,
            bytes.len() as int,
        ) <= 2147482619,
{
    assert(marked(bytes, at, STEPS));
    assert(steps_fit(bytes, at + 4, segment_end(bytes, at), reach(bytes, bytes.len() as int)));
}

/// A picture reaches as far as the farthest of the frames that it declares.
pub proof fn law_the_farthest_frame_counts(bytes: Seq<u8>, upto: int, at: int)
    requires
        0 <= at < upto,
    ensures
        frame_reach(bytes, at) <= reach(bytes, upto),
        0 <= reach(bytes, upto),
    decreases upto,
{
    if at < upto - 1 {
        law_the_farthest_frame_counts(bytes, upto - 1, at);
    } else if upto > 1 {
        law_the_farthest_frame_counts(bytes, upto - 1, upto - 2);
    }
}

/// A table of codes that is within bounds names no category beyond the last in
/// its first list, where that is for the first of a block.
pub proof fn law_declared_categories_are_bounded(bytes: Seq<u8>, at: int, k: int)
    requires
        within_bounds(bytes),
        0 <= at,
        at + 21 <= bytes.len(),
        bytes[at] == 0xff,
        bytes[at + 1] == 0xc4,
        bytes[at + 2] * 256 + bytes[at + 3] > 2,
        bytes[at + 4] / 16 == 0,
        at + 21 <= k < at + 21 + sum(bytes, at + 5, 16),
        k < bytes.len(),
    ensures
        bytes[k] <= 11,
{
    assert(marked(bytes, at, CODES));
    assert(codes_fit(bytes, at + 4, segment_end(bytes, at)));
    assert(categories_fit(bytes, at + 21, at + 21 + sum(bytes, at + 5, 16)));
}

/// A frame of one to four components that are sampled alike fits, where its
/// size can be counted, its header is whole and nothing says that its colours
/// are to be turned.
pub proof fn law_plain_frames_fit(bytes: Seq<u8>, at: int)
    requires
        0 <= at,
        at + 10 <= bytes.len(),
        bytes[at + 5] * 256 + bytes[at + 6] <= 65528,
        bytes[at + 7] * 256 + bytes[at + 8] <= 65528,
        1 <= bytes[at + 9] <= 4,
        at + 10 + 3 * bytes[at + 9] <= bytes.len(),
        forall|c: int| 0 <= c < bytes[at + 9] ==> #[trigger] sampling(bytes, at, c) == 0x11,
        forall|i: int| 0 <= i && i + 1 < bytes.len() ==> #[trigger] bytes[i] != 0xff || bytes[i + 1]
            != 0xee,
    ensures
        frame_fits(bytes, at),
{
    assert(sampling(bytes, at, 0) == 0x11);
}

/// A frame that is coded line by line reaches as far as its blocks of sixteen
/// by sixteen, four of them to each, are many, times the scans; no other frame
/// reaches anywhere.
pub proof fn law_a_frame_reaches_by_its_blocks(bytes: Seq<u8>, at: int)
    requires
        0 <= at,
        at + 9 <= bytes.len(),
        bytes[at] == 0xff,
    ensures
        bytes[at + 1] == 0xc0 || bytes[at + 1] == 0xc1 ==> frame_reach(bytes, at) == scans(
            bytes,
            bytes.len() as int,
        ) * (4 * ((bytes[at + 7] * 256 + bytes[at + 8] + 15) / 16) * ((bytes[at + 5] * 256
            + bytes[at + 6] + 15) / 16)) * 2047,
        bytes[at + 1] != 0xc0 && bytes[at + 1] != 0xc1 ==> frame_reach(bytes, at) == 0,
{
}

/// Each start of a scan counts once.
pub proof fn law_each_scan_counts_once(bytes: Seq<u8>, upto: int)
    requires
        0 <= upto,
        upto + 1 < bytes.len(),
    ensures
        scans(bytes, 0) == 0,
        scans(bytes, upto + 1) == scans(bytes, upto) + if bytes[upto] == 0xff && bytes[upto + 1]
            == 0xda {
            1int
        } else {
            0
        },
{
}

} // verus!
