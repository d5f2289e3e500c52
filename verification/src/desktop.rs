//! The live view of a sandbox's desktop: the framebuffer that the session
//! paints into, and the keys and buttons that go back.

use vstd::arithmetic::div_mod::lemma_fundamental_div_mod;
use vstd::arithmetic::div_mod::lemma_fundamental_div_mod_converse;
use vstd::prelude::*;

use crate::input::Modifiers;
use crate::input::MouseButton;
use crate::picture::Picture;
use crate::text::after_prefix;
use crate::text::chars_of;
use crate::text::decimal;
use crate::text::law_a_prefix_comes_off;
use crate::text::law_decimals_are_read_back;
use crate::text::parse_u64;
use crate::text::parsed_u64;
use crate::text::same;
use crate::text::strip_prefix;
use crate::url_text::parse_url;
use crate::url_text::parsed;
use crate::url_text::scheme_of;
use crate::url_text::set_url_path;
use crate::url_text::set_url_scheme;
use crate::url_text::url_scheme;
use crate::url_text::url_text;
use crate::url_text::with_path;
use crate::url_text::with_scheme;

verus! {

/// What the view tells those who opened it.
#[derive(Debug, Clone, Copy, PartialEq, Eq, Structural)]
pub enum DesktopEvent {
    /// The sandbox is gone: nothing to show, and nothing to offer.
    Gone,
}

pub const BYTES_PER_PIXEL: usize = 4;

/// A rectangle of the desktop.
#[derive(Debug, Clone, Copy, PartialEq, Eq, Structural)]
pub struct Rect {
    pub x: u16,
    pub y: u16,
    pub width: u16,
    pub height: u16,
}

/// The desktop's pixels, four bytes each, row by row.
#[derive(Debug)]
pub struct Framebuffer {
    pub width: u16,
    pub height: u16,
    pub pixels: Vec<u8>,
    /// Whether it has changed since it was last shown.
    pub dirty: bool,
}

/// How many bytes a rectangle of pixels takes.
pub open spec fn area(width: u16, height: u16) -> int {
    width * height * 4
}

/// Whether the byte `i` of a framebuffer that is `width` pixels wide lies in
/// the columns of `rect`, and in its first `rows` rows.
pub open spec fn covers(width: int, rect: Rect, rows: int, i: int) -> bool {
    &&& rect.x <= (i / 4) % width < rect.x + rect.width
    &&& rect.y <= (i / 4) / width < rect.y + rows
}

/// Where the byte for `i` stands among the bytes of `rect`.
pub open spec fn within(width: int, rect: Rect, i: int) -> int {
    (((i / 4) / width - rect.y) * rect.width + ((i / 4) % width - rect.x)) * 4 + i % 4
}

/// The pixels with the first `rows` rows of `rect` taken from `data`, and made
/// opaque.
pub open spec fn painted(pixels: Seq<u8>, width: int, rect: Rect, rows: int, data: Seq<u8>) -> Seq<
    u8,
> {
    Seq::new(
        pixels.len(),
        |i: int|
            if !covers(width, rect, rows, i) {
                pixels[i]
            } else if i % 4 == 3 {
                0xffu8
            } else {
                data[within(width, rect, i)]
            },
    )
}

proof fn lemma_area(x: int, y: int, w: int, width: int, height: int)
    requires
        0 <= x,
        0 <= w,
        x + w <= width,
        0 <= y < height,
    ensures
        0 <= y * width,
        0 <= (y * width + x) * 4,
        (y * width + x) * 4 + w * 4 <= width * height * 4,
        y * width + x <= width * height,
{
    assert(0 <= y * width) by (nonlinear_arith)
        requires
            0 <= y,
            0 <= width,
    ;
    assert(y * width + width <= width * height) by (nonlinear_arith)
        requires
            0 <= y < height,
            0 <= width,
    ;
}

/// The bytes of a stretch of a row are those whose pixel is in that row and in
/// those columns.
proof fn lemma_stretch(width: int, x: int, w: int, y: int, i: int)
    requires
        0 <= x,
        x + w <= width,
        0 < width,
        0 <= y,
        0 <= i,
    ensures
        ((i / 4) / width == y && x <= (i / 4) % width < x + w) <==> (y * width + x) * 4 <= i < (y
            * width + x) * 4 + w * 4,
        (i / 4) / width == y ==> (i / 4) % width == i / 4 - y * width,
        (i / 4) / width == y ==> i % 4 == (i - (y * width + x) * 4) % 4,
        (i / 4) / width == y ==> ((i / 4) % width - x) * 4 + i % 4 == i - (y * width + x) * 4,
        0 <= (i / 4) / width,
{
    let p = i / 4;
    lemma_fundamental_div_mod(p, width);
    assert(width * (p / width) == (p / width) * width) by (nonlinear_arith);
    assert(0 <= p / width) by (nonlinear_arith)
        requires
            0 <= p,
            0 < width,
    ;
    if (y * width + x) * 4 <= i < (y * width + x) * 4 + w * 4 {
        let col = p - y * width;
        assert(p == y * width + col);
        lemma_fundamental_div_mod_converse(p, width, y, col);
    }
}

impl Framebuffer {
    /// Whether there are four bytes for each pixel.
    pub open spec fn wf(self) -> bool {
        self.pixels@.len() == area(self.width, self.height)
    }

    /// How many rows of `rect` are painted from `len` bytes: the whole rows
    /// that the bytes hold, as far as they lie on the desktop. A rectangle
    /// that is cut off at the side is not painted at all.
    pub open spec fn rows_painted(self, rect: Rect, len: int) -> int {
        let held = len / (rect.width * 4);
        let room = self.height - rect.y;
        let rows = if held < rect.height {
            held
        } else {
            rect.height as int
        };
        if rect.x + rect.width > self.width || room < 0 {
            0
        } else if rows < room {
            rows
        } else {
            room
        }
    }

    /// The desktop once `data` is painted into `rect`.
    pub open spec fn blitted(self, rect: Rect, data: Seq<u8>) -> Seq<u8> {
        painted(
            self.pixels@,
            self.width as int,
            rect,
            self.rows_painted(rect, data.len() as int),
            data,
        )
    }

    /// The bytes of the rectangle at `x` and `y` of the size given, black where
    /// they are not on the desktop.
    pub open spec fn taken(self, x: u16, y: u16, width: u16, height: u16) -> Seq<u8> {
        Seq::new(
            area(width, height) as nat,
            |i: int|
                if x + width <= self.width && y + (i / 4) / (width as int) < self.height {
                    self.pixels@[((y + (i / 4) / (width as int)) * self.width + (x + (i / 4) % (
                    width as int))) * 4 + i % 4]
                } else {
                    0u8
                },
        )
    }

    /// A black desktop of another size.
    pub fn resize(&mut self, width: u16, height: u16)
        requires
            area(width, height) <= usize::MAX,
        ensures
            final(self).wf(),
            final(self).width == width,
            final(self).height == height,
            forall|i: int| 0 <= i < final(self).pixels@.len() ==> #[trigger] final(self).pixels@[i] == 0,
            final(self).dirty,
    {
        proof {
            assert(0 <= width * height) by (nonlinear_arith);
        }
        self.width = width;
        self.height = height;
        self.pixels = vec![0u8; width as usize * height as usize * BYTES_PER_PIXEL];
        self.dirty = true;
    }

    /// Where the bytes of a stretch of a row are, if it lies on the desktop.
    pub fn row_range(&self, x: u16, y: u16, width: u16) -> (range: Option<std::ops::Range<usize>>)
        requires
            self.wf(),
        ensures
            range is Some == (x + width <= self.width && y < self.height),
            range is Some ==> range->0.start == (y * self.width + x) * 4,
            range is Some ==> range->0.end == range->0.start + width * 4,
            range is Some ==> range->0.end <= self.pixels@.len(),
    {
        let right = match x.checked_add(width) {
            Some(right) => right,
            None => {
                return None;
            },
        };
        if right > self.width || y >= self.height {
            return None;
        }
        proof {
            lemma_area(
                x as int,
                y as int,
                width as int,
                self.width as int,
                self.height as int,
            );
            assert(self.pixels@.len() == self.pixels.len());
        }
        let start = (y as usize * self.width as usize + x as usize) * BYTES_PER_PIXEL;
        Some(start..start + width as usize * BYTES_PER_PIXEL)
    }

    /// Paints `data` into `rect`.
    pub fn blit(&mut self, rect: Rect, data: &[u8])
        requires
            old(self).wf(),
            rect.width > 0,
        ensures
            final(self).wf(),
            final(self).width == old(self).width,
            final(self).height == old(self).height,
            final(self).pixels@ == old(self).blitted(rect, data@),
            final(self).dirty,
    {
        let stride: usize = rect.width as usize * BYTES_PER_PIXEL;
        let held: usize = data.len() / stride;
        let count: u16 = if held < rect.height as usize {
            held as u16
        } else {
            rect.height
        };
        let ghost before = *self;
        let ghost rows = self.rows_painted(rect, data@.len() as int);
        let ghost width = self.width as int;
        proof {
            lemma_fundamental_div_mod(data@.len() as int, stride as int);
            assert(stride * held == held * stride) by (nonlinear_arith);
            assert(painted(self.pixels@, width, rect, 0, data@) =~= self.pixels@);
        }
        let mut row: u16 = 0;
        while row < count
            invariant_except_break
                row <= rows,
            invariant
                row <= count,
                count <= rect.height,
                count <= held,
                rect.width > 0,
                stride == rect.width * 4,
                held * stride <= data@.len(),
                before.wf(),
                rows == before.rows_painted(rect, data@.len() as int),
                held == data@.len() as int / (rect.width * 4),
                count == if held < rect.height {
                    held as int
                } else {
                    rect.height as int
                },
                width == before.width,
                self.wf(),
                self.width == before.width,
                self.height == before.height,
                self.pixels@ == painted(before.pixels@, width, rect, row as int, data@),
            ensures
                row == rows,
            decreases count - row,
        {
            let y = match rect.y.checked_add(row) {
                Some(y) => y,
                None => {
                    break;
                },
            };
            let range = match self.row_range(rect.x, y, rect.width) {
                Some(range) => range,
                None => {
                    break;
                },
            };
            let start: usize = range.start;
            let ghost half = self.pixels@;
            let mut at: usize = 0;
            proof {
                assert(row * stride + stride <= held * stride) by (nonlinear_arith)
                    requires
                        row + 1 <= held,
                        0 <= stride,
                ;
                assert(self.pixels@.len() == self.pixels.len());
                assert(data@.len() == data.len());
                assert(0 <= row * stride) by (nonlinear_arith)
                    requires
                        0 <= row,
                        0 <= stride,
                ;
            }
            while at < stride
                invariant
                    at <= stride,
                    start + stride <= half.len(),
                    self.pixels@.len() == half.len(),
                    self.width == before.width,
                    self.height == before.height,
                    0 <= row * stride,
                    row * stride + stride <= data@.len(),
                    data@.len() <= usize::MAX,
                    half.len() <= usize::MAX,
                    forall|i: int|
                        0 <= i < half.len() ==> #[trigger] self.pixels@[i] == if start <= i < start
                            + at {
                            if (i - start) % 4 == 3 {
                                0xffu8
                            } else {
                                data@[row * stride + (i - start)]
                            }
                        } else {
                            half[i]
                        },
                decreases stride - at,
            {
                let byte: u8 = if at % BYTES_PER_PIXEL == 3 {
                    0xff
                } else {
                    data[row as usize * stride + at]
                };
                self.pixels.set(start + at, byte);
                at += 1;
            }
            proof {
                let next = painted(before.pixels@, width, rect, row + 1, data@);
                assert forall|i: int| 0 <= i < half.len() implies #[trigger] self.pixels@[i]
                    == next[i] by {
                    lemma_stretch(width, rect.x as int, rect.width as int, y as int, i);
                    if start <= i < start + stride {
                        assert(covers(width, rect, row + 1, i));
                        let col = (i / 4) % width - rect.x;
                        assert((row * rect.width + col) * 4 == row * (rect.width * 4) + col * 4)
                            by (nonlinear_arith);
                    } else {
                        assert(covers(width, rect, row + 1, i) == covers(width, rect, row as int, i));
                    }
                }
                assert(self.pixels@ =~= next);
            }
            row += 1;
        }
        self.dirty = true;
    }

    /// Moves the pixels of `source` to `destination`, whose size counts.
    pub fn copy(&mut self, destination: Rect, source: Rect)
        requires
            old(self).wf(),
            destination.width > 0,
            area(destination.width, destination.height) <= usize::MAX,
        ensures
            final(self).wf(),
            final(self).width == old(self).width,
            final(self).height == old(self).height,
            final(self).pixels@ == old(self).blitted(
                destination,
                old(self).taken(source.x, source.y, destination.width, destination.height),
            ),
            final(self).dirty,
    {
        let ghost width = destination.width as int;
        let stride: usize = destination.width as usize * BYTES_PER_PIXEL;
        proof {
            assert(stride * destination.height == area(destination.width, destination.height))
                by (nonlinear_arith)
                requires
                    stride == destination.width * 4,
                    area(destination.width, destination.height) == destination.width
                        * destination.height * 4,
            ;
        }
        let mut moved = vec![0u8; stride * destination.height as usize];
        let ghost whole = self.taken(source.x, source.y, destination.width, destination.height);
        let mut row: u16 = 0;
        proof {
            if destination.height == 0 {
                assert(stride * destination.height == 0) by (nonlinear_arith)
                    requires
                        destination.height == 0,
                ;
                assert(moved@ =~= whole);
            }
        }
        while row < destination.height
            invariant_except_break
                row <= destination.height,
                row == destination.height ==> moved@ == whole,
            invariant
                self.wf(),
                width == destination.width,
                width > 0,
                stride == width * 4,
                moved@.len() == whole.len(),
                whole == self.taken(source.x, source.y, destination.width, destination.height),
                whole.len() == stride * destination.height,
                whole.len() <= usize::MAX,
                forall|i: int|
                    0 <= i < moved@.len() ==> #[trigger] moved@[i] == if i < row * stride {
                        whole[i]
                    } else {
                        0u8
                    },
            ensures
                moved@ == whole,
            decreases destination.height - row,
        {
            let range = match self.row_range(
                source.x,
                source.y.saturating_add(row),
                destination.width,
            ) {
                Some(range) => range,
                None => {
                    assert forall|i: int| 0 <= i < whole.len() implies #[trigger] moved@[i]
                        == whole[i] by {
                        if i >= row * stride {
                            lemma_row_reached(width, row as int, i);
                        }
                    }
                    assert(moved@ =~= whole);
                    break;
                },
            };
            let start: usize = range.start;
            let ghost half = moved@;
            proof {
                assert(row * stride + stride <= stride * destination.height) by (nonlinear_arith)
                    requires
                        row + 1 <= destination.height,
                        0 <= stride,
                ;
                assert(0 <= row * stride) by (nonlinear_arith)
                    requires
                        0 <= row,
                        0 <= stride,
                ;
                assert(row * stride == row * width * 4) by (nonlinear_arith)
                    requires
                        stride == width * 4,
                ;
                assert(self.pixels@.len() == self.pixels.len());
            }
            let mut at: usize = 0;
            while at < stride
                invariant
                    at <= stride,
                    self.wf(),
                    start + stride <= self.pixels@.len(),
                    self.pixels@.len() <= usize::MAX,
                    moved@.len() == half.len(),
                    half.len() <= usize::MAX,
                    0 <= row * stride,
                    row * stride + stride <= half.len(),
                    forall|i: int|
                        0 <= i < half.len() ==> #[trigger] moved@[i] == if row * stride <= i < row
                            * stride + at {
                            self.pixels@[start + (i - row * stride)]
                        } else {
                            half[i]
                        },
                decreases stride - at,
            {
                moved.set(row as usize * stride + at, self.pixels[start + at]);
                at += 1;
            }
            proof {
                assert((row + 1) * stride == row * stride + stride) by (nonlinear_arith);
                assert forall|i: int| 0 <= i < half.len() implies #[trigger] moved@[i] == if i < (row
                    + 1) * stride {
                    whole[i]
                } else {
                    0u8
                } by {
                    if row * stride <= i < row * stride + stride {
                        lemma_stretch(width, 0, width, row as int, i);
                    }
                }
            }
            row += 1;
            proof {
                if row == destination.height {
                    assert(row * stride == stride * destination.height) by (nonlinear_arith)
                        requires
                            row == destination.height,
                    ;
                    assert(moved@ =~= whole);
                }
            }
        }
        self.blit(destination, moved.as_slice());
    }
}

/// A byte past the start of a row lies in that row or below it.
proof fn lemma_row_reached(width: int, row: int, i: int)
    requires
        0 < width,
        0 <= row,
        row * (width * 4) <= i,
    ensures
        row <= (i / 4) / width,
{
    let p = i / 4;
    assert(row * (width * 4) == (row * width) * 4) by (nonlinear_arith);
    lemma_fundamental_div_mod(p, width);
    assert(p / width >= row) by (nonlinear_arith)
        requires
            p == width * (p / width) + p % width,
            0 <= p % width < width,
            row * width <= p,
            0 < width,
    ;
}

/// What the session reads from the desktop.
#[derive(Debug)]
pub enum ScreenEvent {
    SetResolution { width: u16, height: u16 },
    RawImage(Rect, Vec<u8>),
    Copy { destination: Rect, source: Rect },
    Error(String),
    /// A bell, a clipboard or the like: nothing to paint.
    Other,
}

/// Whether an event can be painted: the machine can hold what it asks for, and
/// its rectangle is not empty.
pub open spec fn paintable(event: ScreenEvent) -> bool {
    match event {
        ScreenEvent::SetResolution { width, height } => area(width, height) <= usize::MAX,
        ScreenEvent::RawImage(rect, _) => rect.width > 0,
        ScreenEvent::Copy { destination, .. } => destination.width > 0 && area(
            destination.width,
            destination.height,
        ) <= usize::MAX,
        _ => true,
    }
}

/// Whether `after` is the desktop once it has taken in an event.
pub open spec fn takes_in(before: Framebuffer, event: ScreenEvent, after: Framebuffer) -> bool {
    match event {
        ScreenEvent::SetResolution { width, height } => {
            &&& after.width == width
            &&& after.height == height
            &&& forall|i: int| 0 <= i < after.pixels@.len() ==> #[trigger] after.pixels@[i] == 0
            &&& after.dirty
        },
        ScreenEvent::RawImage(rect, data) => {
            &&& after.width == before.width
            &&& after.height == before.height
            &&& after.pixels@ == before.blitted(rect, data@)
            &&& after.dirty
        },
        ScreenEvent::Copy { destination, source } => {
            &&& after.width == before.width
            &&& after.height == before.height
            &&& after.pixels@ == before.blitted(
                destination,
                before.taken(source.x, source.y, destination.width, destination.height),
            )
            &&& after.dirty
        },
        _ => after == before,
    }
}

impl Default for Framebuffer {
    fn default() -> (empty: Self)
        ensures
            empty.wf(),
            empty.width == 0,
            empty.height == 0,
            !empty.dirty,
    {
        Framebuffer { width: 0, height: 0, pixels: Vec::new(), dirty: false }
    }
}

impl Framebuffer {
    /// Takes in what the desktop says.
    pub fn apply(&mut self, event: ScreenEvent) -> (applied: Result<(), String>)
        requires
            old(self).wf(),
            paintable(event),
        ensures
            final(self).wf(),
            applied is Err == event is Error,
            takes_in(*old(self), event, *final(self)),
            applied is Err ==> applied->Err_0@ == event->Error_0@,
    {
        match event {
            ScreenEvent::SetResolution { width, height } => {
                self.resize(width, height);
            },
            ScreenEvent::RawImage(rect, data) => {
                self.blit(rect, data.as_slice());
            },
            ScreenEvent::Copy { destination, source } => {
                self.copy(destination, source);
            },
            ScreenEvent::Error(message) => {
                return Err(message);
            },
            ScreenEvent::Other => {},
        }
        Ok(())
    }

    /// The picture to show.
    pub fn image(&self) -> (picture: Picture)
        ensures
            picture.width == self.width,
            picture.height == self.height,
            picture.pixels@ == self.pixels@,
    {
        let pixels = self.pixels.clone();
        assert(pixels@ =~= self.pixels@);
        Picture { width: self.width as u32, height: self.height as u32, pixels }
    }
}

/// Whether painting has given the view something new to show: bursts of paint
/// are told of once.
pub fn paint(framebuffer: &mut Framebuffer, event: ScreenEvent, fresh: bool) -> (told: Result<
    bool,
    String,
>)
    requires
        old(framebuffer).wf(),
        paintable(event),
    ensures
        final(framebuffer).wf(),
        takes_in(*old(framebuffer), event, *final(framebuffer)),
        told is Err == event is Error,
        told is Err ==> told->Err_0@ == event->Error_0@,
        told is Ok ==> told->Ok_0 == (fresh || (final(framebuffer).dirty && !old(
            framebuffer,
        ).dirty)),
{
    let was_dirty = framebuffer.dirty;
    match framebuffer.apply(event) {
        Ok(()) => Ok(fresh || (framebuffer.dirty && !was_dirty)),
        Err(message) => Err(message),
    }
}

/// How often the session asks for what has changed, in milliseconds.
pub const REFRESH_INTERVAL: u64 = 16;

/// How long the session waits for input before it looks again.
pub const IDLE_POLL: u64 = 4;

/// Whether it is time to ask for what has changed.
pub fn refresh_due(elapsed: u64) -> (due: bool)
    ensures
        due == (elapsed >= REFRESH_INTERVAL),
{
    elapsed >= REFRESH_INTERVAL
}

/// A rectangle paints inside itself and nowhere else, from the bytes it was
/// given, and what it paints is opaque.
pub proof fn law_blits_stay_inside_and_are_opaque(
    framebuffer: Framebuffer,
    rect: Rect,
    data: Seq<u8>,
    i: int,
)
    requires
        framebuffer.wf(),
        rect.width > 0,
        0 <= i < framebuffer.pixels@.len(),
    ensures
        ({
            let after = framebuffer.blitted(rect, data);
            let column = (i / 4) % (framebuffer.width as int);
            let row = (i / 4) / (framebuffer.width as int);
            let rows = framebuffer.rows_painted(rect, data.len() as int);
            let inside = rect.x <= column < rect.x + rect.width && rect.y <= row < rect.y + rows;
            &&& after.len() == framebuffer.pixels@.len()
            &&& rows <= rect.height
            &&& !inside ==> after[i] == framebuffer.pixels@[i]
            &&& inside && i % 4 == 3 ==> after[i] == 0xff
            &&& inside && i % 4 != 3 ==> 0 <= within(framebuffer.width as int, rect, i) < data.len()
                && after[i] == data[within(framebuffer.width as int, rect, i)]
        }),
{
    let width = framebuffer.width as int;
    let column = (i / 4) % width;
    let row = (i / 4) / width;
    let rows = framebuffer.rows_painted(rect, data.len() as int);
    let w = rect.width as int;
    let held = data.len() as int / (rect.width * 4);
    lemma_fundamental_div_mod(data.len() as int, rect.width * 4);
    assert(held >= 0) by (nonlinear_arith)
        requires
            held == data.len() as int / (rect.width * 4),
            rect.width > 0,
    ;
    if rect.x <= column < rect.x + rect.width && rect.y <= row < rect.y + rows {
        let down = row - rect.y;
        let across = column - rect.x;
        assert(0 <= (down * w + across) * 4 && (down * w + across) * 4 + 4 <= held * (w * 4))
            by (nonlinear_arith)
            requires
                0 <= down < held,
                0 <= across < w,
        ;
        assert((w * 4) * held == held * (w * 4)) by (nonlinear_arith);
    }
}

/// A rectangle that is cut off at the side paints nothing.
pub proof fn law_a_cut_off_rectangle_paints_nothing(
    framebuffer: Framebuffer,
    rect: Rect,
    data: Seq<u8>,
)
    requires
        rect.x + rect.width > framebuffer.width,
    ensures
        framebuffer.blitted(rect, data) == framebuffer.pixels@,
{
    assert(framebuffer.blitted(rect, data) =~= framebuffer.pixels@);
}

/// The byte `k` of the pixel in column `x` of row `y`.
proof fn lemma_place(width: int, x: int, y: int, k: int)
    requires
        0 <= x < width,
        0 <= y,
        0 <= k < 4,
    ensures
        ({
            let i = (y * width + x) * 4 + k;
            &&& 0 <= i
            &&& i % 4 == k
            &&& (i / 4) % width == x
            &&& (i / 4) / width == y
        }),
{
    let p = y * width + x;
    assert(0 <= y * width) by (nonlinear_arith)
        requires
            0 <= y,
            0 <= width,
    ;
    lemma_fundamental_div_mod_converse(p, width, y, x);
}

/// Each pixel of a rectangle is painted where it belongs: the pixel in row `r`
/// and column `c` of the bytes goes to the row that is `r` below the
/// rectangle's top and the column that is `c` right of its left side, and is
/// opaque there. This holds of each whole row that the bytes hold and that
/// lies on the desktop.
pub proof fn law_a_blit_puts_each_pixel_in_its_place(
    framebuffer: Framebuffer,
    rect: Rect,
    data: Seq<u8>,
    r: int,
    c: int,
    k: int,
)
    requires
        framebuffer.wf(),
        rect.x + rect.width <= framebuffer.width,
        0 <= r < rect.height,
        rect.y + r < framebuffer.height,
        (r + 1) * (rect.width * 4) <= data.len(),
        0 <= c < rect.width,
        0 <= k < 4,
    ensures
        ({
            let after = framebuffer.blitted(rect, data);
            let to = ((rect.y + r) * framebuffer.width + rect.x + c) * 4 + k;
            let from = (r * rect.width + c) * 4 + k;
            &&& 0 <= to < after.len()
            &&& 0 <= from < data.len()
            &&& k < 3 ==> after[to] == data[from]
            &&& k == 3 ==> after[to] == 0xff
        }),
{
    let width = framebuffer.width as int;
    let w = rect.width as int;
    lemma_place(width, rect.x + c, rect.y + r, k);
    lemma_place(w, c, r, k);
    lemma_area(rect.x + c, rect.y + r, 1, width, framebuffer.height as int);
    let held = data.len() as int / (rect.width * 4);
    lemma_fundamental_div_mod(data.len() as int, w * 4);
    assert(r < held) by (nonlinear_arith)
        requires
            (r + 1) * (w * 4) <= data.len(),
            data.len() == (w * 4) * held + data.len() as int % (w * 4),
            data.len() as int % (w * 4) < w * 4,
            w > 0,
    ;
    assert((r * w + c) * 4 + 4 <= (r + 1) * (w * 4)) by (nonlinear_arith)
        requires
            c + 1 <= w,
    ;
}

/// What lies above, below or beside a rectangle keeps its pixels, and so does
/// each row of the rectangle that the bytes do not fill.
pub proof fn law_a_blit_leaves_the_rest_alone(
    framebuffer: Framebuffer,
    rect: Rect,
    data: Seq<u8>,
    x: int,
    y: int,
    k: int,
)
    requires
        framebuffer.wf(),
        rect.width > 0,
        0 <= x < framebuffer.width,
        0 <= y < framebuffer.height,
        0 <= k < 4,
        x < rect.x || rect.x + rect.width <= x || y < rect.y || rect.y + rect.height <= y || data.len()
            < (y - rect.y + 1) * (rect.width * 4),
    ensures
        ({
            let at = (y * framebuffer.width + x) * 4 + k;
            &&& 0 <= at < framebuffer.pixels@.len()
            &&& framebuffer.blitted(rect, data)[at] == framebuffer.pixels@[at]
        }),
{
    let width = framebuffer.width as int;
    let w = rect.width as int;
    lemma_place(width, x, y, k);
    lemma_area(x, y, 1, width, framebuffer.height as int);
    let held = data.len() as int / (rect.width * 4);
    let down = y - rect.y;
    lemma_fundamental_div_mod(data.len() as int, w * 4);
    if data.len() < (down + 1) * (w * 4) {
        assert(held < down + 1) by (nonlinear_arith)
            requires
                data.len() < (down + 1) * (w * 4),
                data.len() == (w * 4) * held + data.len() as int % (w * 4),
                0 <= data.len() as int % (w * 4),
                w > 0,
        ;
    }
}

/// A copied rectangle shows what stood at its source before: each pixel of the
/// destination is the one at the same row and column of the source, black
/// where the source is not on the desktop.
pub proof fn law_a_copy_shows_its_source(
    framebuffer: Framebuffer,
    destination: Rect,
    source: Rect,
    r: int,
    c: int,
    k: int,
)
    requires
        framebuffer.wf(),
        destination.x + destination.width <= framebuffer.width,
        0 <= r < destination.height,
        destination.y + r < framebuffer.height,
        0 <= c < destination.width,
        0 <= k < 3,
    ensures
        ({
            let after = framebuffer.blitted(
                destination,
                framebuffer.taken(source.x, source.y, destination.width, destination.height),
            );
            let to = ((destination.y + r) * framebuffer.width + destination.x + c) * 4 + k;
            let from = ((source.y + r) * framebuffer.width + source.x + c) * 4 + k;
            if source.x + destination.width <= framebuffer.width && source.y + r
                < framebuffer.height {
                0 <= from < framebuffer.pixels@.len() && after[to] == framebuffer.pixels@[from]
            } else {
                after[to] == 0
            }
        }),
{
    let width = framebuffer.width as int;
    let w = destination.width as int;
    let h = destination.height as int;
    let data = framebuffer.taken(source.x, source.y, destination.width, destination.height);
    assert((r + 1) * (w * 4) <= w * h * 4) by (nonlinear_arith)
        requires
            0 <= r < h,
            0 <= w,
    ;
    law_a_blit_puts_each_pixel_in_its_place(framebuffer, destination, data, r, c, k);
    lemma_place(w, c, r, k);
    if source.x + w <= width && source.y + r < framebuffer.height {
        lemma_area(source.x + c, source.y + r, 1, width, framebuffer.height as int);
    }
}

/// What the session tells the view.
#[derive(Debug, Clone, Copy, PartialEq, Eq, Structural)]
pub enum Signal {
    Connected,
    Frame,
}

#[derive(Debug, PartialEq, Eq)]
pub enum Status {
    Opening,
    Connected,
    Closed(String),
}

/// How the request for the desktop ended: the sandbox is there, or gone, or it
/// could not be asked.
#[derive(Debug)]
pub enum Opened {
    Viewer,
    Gone,
    Failed(String),
}

/// How the session ended.
#[derive(Debug)]
pub enum Ended {
    Closed,
    Failed(String),
}

/// The view.
#[derive(Debug)]
pub struct Desktop {
    pub status: Status,
    pub image: Option<Picture>,
    /// Pictures that are no longer shown, until the window lets go of them.
    pub retired: Vec<Picture>,
    /// Whether there is a session that takes input.
    pub input: bool,
    /// The buttons that are held.
    pub buttons: u8,
}

/// The bit of a button.
pub open spec fn mask_of(button: MouseButton) -> u8 {
    match button {
        MouseButton::Left => 1,
        MouseButton::Middle => 2,
        MouseButton::Right => 4,
        _ => 0,
    }
}

/// The bit of a button.
pub fn button_mask(button: MouseButton) -> (mask: u8)
    ensures
        mask == mask_of(button),
{
    match button {
        MouseButton::Left => 1,
        MouseButton::Middle => 2,
        MouseButton::Right => 4,
        _ => 0,
    }
}

/// Which way a wheel was turned.
#[derive(Debug, Clone, Copy, PartialEq, Eq, Structural)]
pub enum Turn {
    Positive,
    Still,
    Negative,
}

/// The button that a turn of the wheel stands for, if it was turned.
pub open spec fn wheel_button(turn: Turn, positive: u8, negative: u8) -> Seq<u8> {
    match turn {
        Turn::Positive => seq![positive],
        Turn::Still => Seq::empty(),
        Turn::Negative => seq![negative],
    }
}

/// The buttons that a turn of the wheel presses and lets go of: there is no
/// wheel in the protocol, only four buttons more.
pub open spec fn wheel_buttons(vertical: Turn, horizontal: Turn) -> Seq<u8> {
    wheel_button(vertical, 8, 16) + wheel_button(horizontal, 32, 64)
}

/// The states of the buttons that each of `ticks` is sent as: pressed with
/// those that are held, and let go of.
pub open spec fn tick_states(buttons: u8, ticks: Seq<u8>) -> Seq<u8> {
    Seq::new(
        2 * ticks.len(),
        |i: int|
            if i % 2 == 0 {
                buttons | ticks[i / 2]
            } else {
                buttons
            },
    )
}

impl Desktop {
    /// A view that waits for its sandbox.
    pub fn new() -> (desktop: Self)
        ensures
            desktop.status is Opening,
            desktop.image is None,
            desktop.retired@.len() == 0,
            !desktop.input,
            desktop.buttons == 0,
    {
        Desktop {
            status: Status::Opening,
            image: None,
            retired: Vec::new(),
            input: false,
            buttons: 0,
        }
    }

    /// Takes the answer to the request for the desktop.
    pub fn opened(&mut self, opened: Opened) -> (event: Option<DesktopEvent>)
        ensures
            final(self).image == old(self).image,
            final(self).retired == old(self).retired,
            final(self).buttons == old(self).buttons,
            event == if opened is Gone {
                Some(DesktopEvent::Gone)
            } else {
                None
            },
            match opened {
                Opened::Viewer => final(self).input && final(self).status == old(self).status,
                Opened::Gone => final(self).input == old(self).input && final(self).status is Closed
                    && final(self).status->Closed_0@ == "This conversation's sandbox is gone."@,
                Opened::Failed(message) => !final(self).input && final(self).status is Closed
                    && final(self).status->Closed_0@ == message@,
            },
    {
        match opened {
            Opened::Viewer => {
                self.input = true;
                None
            },
            Opened::Gone => {
                self.status = Status::Closed("This conversation's sandbox is gone.".to_owned());
                Some(DesktopEvent::Gone)
            },
            Opened::Failed(message) => {
                self.close(message);
                None
            },
        }
    }

    /// Says why there is nothing more to see.
    pub fn close(&mut self, message: String)
        ensures
            *final(self) == (Desktop {
                status: Status::Closed(message),
                input: false,
                ..*old(self)
            }),
    {
        self.status = Status::Closed(message);
        self.input = false;
    }

    /// Takes the end of the session.
    pub fn ended(&mut self, ended: Ended)
        ensures
            final(self).image == old(self).image,
            final(self).retired == old(self).retired,
            final(self).buttons == old(self).buttons,
            !final(self).input,
            final(self).status is Closed,
            final(self).status->Closed_0@ == match ended {
                Ended::Closed => "The desktop closed the connection."@,
                Ended::Failed(message) => message@,
            },
    {
        match ended {
            Ended::Closed => self.close("The desktop closed the connection.".to_owned()),
            Ended::Failed(message) => self.close(message),
        }
    }

    /// Takes a signal of the session. Gives whether there is something to
    /// paint: a frame that has been shown already is not shown again.
    pub fn on_signal(&mut self, signal: Signal, framebuffer: &mut Framebuffer) -> (repaint: bool)
        ensures
            final(self).input == old(self).input,
            final(self).buttons == old(self).buttons,
            final(framebuffer).width == old(framebuffer).width,
            final(framebuffer).height == old(framebuffer).height,
            final(framebuffer).pixels == old(framebuffer).pixels,
            match signal {
                Signal::Connected => {
                    &&& repaint
                    &&& final(self).status is Connected
                    &&& final(self).image == old(self).image
                    &&& final(self).retired == old(self).retired
                    &&& *final(framebuffer) == *old(framebuffer)
                },
                Signal::Frame => {
                    &&& repaint == old(framebuffer).dirty
                    &&& !final(framebuffer).dirty
                    &&& final(self).status == old(self).status
                    &&& !repaint ==> *final(self) == *old(self)
                    &&& repaint ==> {
                        &&& final(self).image is Some
                        &&& final(self).image->0.width == old(framebuffer).width
                        &&& final(self).image->0.height == old(framebuffer).height
                        &&& final(self).image->0.pixels@ == old(framebuffer).pixels@
                        &&& final(self).retired@ == match old(self).image {
                            Some(image) => old(self).retired@.push(image),
                            None => old(self).retired@,
                        }
                    }
                },
            },
    {
        match signal {
            Signal::Connected => {
                self.status = Status::Connected;
            },
            Signal::Frame => {
                if !framebuffer.dirty {
                    return false;
                }
                framebuffer.dirty = false;
                let previous = self.image.take();
                if let Some(previous) = previous {
                    self.retired.push(previous);
                }
                self.image = Some(framebuffer.image());
            },
        }
        true
    }

    /// What is said in place of a picture, if anything.
    pub fn notice(&self) -> (notice: Option<String>)
        ensures
            match self.status {
                Status::Opening => notice is Some && notice->0@ == "Opening the desktop…"@,
                Status::Connected => if self.image is None {
                    notice is Some && notice->0@ == "Waiting for the first frame…"@
                } else {
                    notice is None
                },
                Status::Closed(message) => notice is Some && notice->0@ == message@,
            },
    {
        match &self.status {
            Status::Opening => Some("Opening the desktop…".to_owned()),
            Status::Connected => if self.image.is_none() {
                Some("Waiting for the first frame…".to_owned())
            } else {
                None
            },
            Status::Closed(message) => Some(message.clone()),
        }
    }

    /// A button goes down. Gives the state of the buttons to send.
    pub fn on_mouse_down(&mut self, button: MouseButton) -> (buttons: u8)
        ensures
            *final(self) == (Desktop {
                buttons: old(self).buttons | mask_of(button),
                ..*old(self)
            }),
            buttons == final(self).buttons,
    {
        self.buttons = self.buttons | button_mask(button);
        self.buttons
    }

    /// A button comes up. Gives the state of the buttons to send.
    pub fn on_mouse_up(&mut self, button: MouseButton) -> (buttons: u8)
        ensures
            *final(self) == (Desktop {
                buttons: old(self).buttons & !mask_of(button),
                ..*old(self)
            }),
            buttons == final(self).buttons,
    {
        self.buttons = self.buttons & !button_mask(button);
        self.buttons
    }

    /// The wheel turns. Gives the states of the buttons to send, in order.
    pub fn on_scroll(&self, vertical: Turn, horizontal: Turn) -> (states: Vec<u8>)
        ensures
            states@ == tick_states(self.buttons, wheel_buttons(vertical, horizontal)),
    {
        let mut ticks: Vec<u8> = Vec::new();
        match vertical {
            Turn::Positive => ticks.push(8),
            Turn::Still => {},
            Turn::Negative => ticks.push(16),
        }
        assert(ticks@ =~= wheel_button(vertical, 8, 16));
        match horizontal {
            Turn::Positive => ticks.push(32),
            Turn::Still => {},
            Turn::Negative => ticks.push(64),
        }
        assert(ticks@ =~= wheel_buttons(vertical, horizontal));
        let mut states: Vec<u8> = Vec::new();
        let mut i: usize = 0;
        while i < ticks.len()
            invariant
                i <= ticks@.len(),
                states@.len() == 2 * i,
                forall|j: int|
                    0 <= j < states@.len() ==> #[trigger] states@[j] == tick_states(
                        self.buttons,
                        ticks@,
                    )[j],
            decreases ticks.len() - i,
        {
            states.push(self.buttons | ticks[i]);
            states.push(self.buttons);
            i += 1;
        }
        assert(states@ =~= tick_states(self.buttons, ticks@));
        states
    }
}

/// Letting go of a button takes back its press, and leaves the others held.
pub proof fn law_a_release_takes_back_its_press(buttons: u8, button: MouseButton)
    requires
        buttons & mask_of(button) == 0,
    ensures
        (buttons | mask_of(button)) & !mask_of(button) == buttons,
{
    let mask = mask_of(button);
    assert(buttons & mask == 0 ==> (buttons | mask) & !mask == buttons) by (bit_vector);
}

/// The wheel leaves the buttons as they were.
pub proof fn law_the_wheel_leaves_the_buttons(buttons: u8, vertical: Turn, horizontal: Turn)
    ensures
        ({
            let states = tick_states(buttons, wheel_buttons(vertical, horizontal));
            states.len() > 0 ==> states.last() == buttons
        }),
{
}

pub const XK_SHIFT_L: u32 = 0xffe1;

pub const XK_CONTROL_L: u32 = 0xffe3;

pub const XK_ALT_L: u32 = 0xffe9;

pub const XK_SUPER_L: u32 = 0xffeb;

/// The keysym of a key that goes by a name.
pub open spec fn named_keysym(key: Seq<char>) -> Option<u32> {
    if key == "enter"@ {
        Some(0xff0du32)
    } else if key == "tab"@ {
        Some(0xff09u32)
    } else if key == "backspace"@ {
        Some(0xff08u32)
    } else if key == "escape"@ {
        Some(0xff1bu32)
    } else if key == "delete"@ {
        Some(0xffffu32)
    } else if key == "insert"@ {
        Some(0xff63u32)
    } else if key == "space"@ {
        Some(0x20u32)
    } else if key == "up"@ {
        Some(0xff52u32)
    } else if key == "down"@ {
        Some(0xff54u32)
    } else if key == "left"@ {
        Some(0xff51u32)
    } else if key == "right"@ {
        Some(0xff53u32)
    } else if key == "home"@ {
        Some(0xff50u32)
    } else if key == "end"@ {
        Some(0xff57u32)
    } else if key == "pageup"@ {
        Some(0xff55u32)
    } else if key == "pagedown"@ {
        Some(0xff56u32)
    } else {
        match after_prefix(key, "f"@) {
            Some(rest) => match parsed_u64(rest) {
                Some(number) => if 1 <= number <= 12 {
                    Some((0xffbd + number) as u32)
                } else {
                    None
                },
                None => None,
            },
            None => None,
        }
    }
}

/// The keysym of a character: Latin-1 is its own, the rest have the range
/// of Unicode.
pub open spec fn char_keysym(c: char) -> int {
    if (c as u32) < 0x100 {
        c as int
    } else {
        0x0100_0000 + c as int
    }
}

/// What a keystroke types: its character where there is one, else its key.
pub open spec fn typed(key: Seq<char>, key_char: Option<&str>) -> Seq<char> {
    match key_char {
        Some(text) => text@,
        None => key,
    }
}

fn symbol_of(c: char) -> (symbol: u32)
    ensures
        symbol == char_keysym(c),
{
    let code: u32 = c as u32;
    if code < 0x100 {
        code
    } else {
        0x0100_0000 + code
    }
}

/// The keysym of a keystroke: that of the character which it types, else that
/// of the named key.
pub fn keysym(key: &str, key_char: Option<&str>) -> (symbol: Option<u32>)
    ensures
        typed(key@, key_char).len() == 1 ==> symbol is Some && symbol->0 == char_keysym(
            typed(key@, key_char)[0],
        ),
        typed(key@, key_char).len() != 1 ==> symbol == named_keysym(key@),
{
    let chars = chars_of(
        match key_char {
            Some(text) => text,
            None => key,
        },
    );
    if chars.len() == 1 {
        return Some(symbol_of(chars[0]));
    }
    if same(key, "enter") {
        Some(0xff0d)
    } else if same(key, "tab") {
        Some(0xff09)
    } else if same(key, "backspace") {
        Some(0xff08)
    } else if same(key, "escape") {
        Some(0xff1b)
    } else if same(key, "delete") {
        Some(0xffff)
    } else if same(key, "insert") {
        Some(0xff63)
    } else if same(key, "space") {
        Some(0x20)
    } else if same(key, "up") {
        Some(0xff52)
    } else if same(key, "down") {
        Some(0xff54)
    } else if same(key, "left") {
        Some(0xff51)
    } else if same(key, "right") {
        Some(0xff53)
    } else if same(key, "home") {
        Some(0xff50)
    } else if same(key, "end") {
        Some(0xff57)
    } else if same(key, "pageup") {
        Some(0xff55)
    } else if same(key, "pagedown") {
        Some(0xff56)
    } else {
        match strip_prefix(key, "f") {
            Some(rest) => match parse_u64(rest) {
                Some(number) => if 1 <= number && number <= 12 {
                    Some(0xffbd + number as u32)
                } else {
                    None
                },
                None => None,
            },
            None => None,
        }
    }
}

/// A key that goes down or comes up.
#[derive(Debug, Clone, Copy, PartialEq, Eq, Structural)]
pub struct KeyMove {
    pub keycode: u32,
    pub down: bool,
}

/// The keysyms of the held modifiers, in the order in which they go down.
pub open spec fn held(modifiers: Modifiers) -> Seq<u32> {
    (if modifiers.control {
        seq![XK_CONTROL_L]
    } else {
        Seq::empty()
    }) + (if modifiers.alt {
        seq![XK_ALT_L]
    } else {
        Seq::empty()
    }) + (if modifiers.shift {
        seq![XK_SHIFT_L]
    } else {
        Seq::empty()
    }) + (if modifiers.platform {
        seq![XK_SUPER_L]
    } else {
        Seq::empty()
    })
}

/// One keystroke: the modifiers go down, the key goes down and comes up, and
/// the modifiers come up, the last one first.
pub open spec fn keystroke(symbol: u32, modifiers: Modifiers) -> Seq<KeyMove> {
    let down = held(modifiers).push(symbol);
    Seq::new(
        2 * down.len(),
        |i: int|
            if i < down.len() {
                KeyMove { keycode: down[i], down: true }
            } else {
                KeyMove { keycode: down[2 * down.len() - 1 - i], down: false }
            },
    )
}

/// What a keystroke sends, if it is one that the desktop knows.
pub fn on_key_down(key: &str, key_char: Option<&str>, modifiers: Modifiers) -> (moves: Option<
    Vec<KeyMove>,
>)
    ensures
        moves is Some == (typed(key@, key_char).len() == 1 || named_keysym(key@) is Some),
        moves is Some ==> moves->0@ == keystroke(
            if typed(key@, key_char).len() == 1 {
                char_keysym(typed(key@, key_char)[0]) as u32
            } else {
                named_keysym(key@)->0
            },
            modifiers,
        ),
{
    let symbol = match keysym(key, key_char) {
        Some(symbol) => symbol,
        None => {
            return None;
        },
    };
    let mut down: Vec<u32> = Vec::new();
    if modifiers.control {
        down.push(XK_CONTROL_L);
    }
    if modifiers.alt {
        down.push(XK_ALT_L);
    }
    if modifiers.shift {
        down.push(XK_SHIFT_L);
    }
    if modifiers.platform {
        down.push(XK_SUPER_L);
    }
    assert(down@ =~= held(modifiers));
    down.push(symbol);
    let ghost whole = keystroke(symbol, modifiers);
    let mut moves: Vec<KeyMove> = Vec::new();
    let mut i: usize = 0;
    while i < down.len()
        invariant
            i <= down@.len(),
            down@.len() <= 5,
            down@ == held(modifiers).push(symbol),
            whole == keystroke(symbol, modifiers),
            moves@.len() == i,
            forall|j: int| 0 <= j < i ==> #[trigger] moves@[j] == whole[j],
        decreases down.len() - i,
    {
        moves.push(KeyMove { keycode: down[i], down: true });
        i += 1;
    }
    while i > 0
        invariant
            i <= down@.len(),
            down@.len() <= 5,
            down@ == held(modifiers).push(symbol),
            whole == keystroke(symbol, modifiers),
            moves@.len() == 2 * down@.len() - i,
            forall|j: int| 0 <= j < moves@.len() ==> #[trigger] moves@[j] == whole[j],
        decreases i,
    {
        i -= 1;
        moves.push(KeyMove { keycode: down[i], down: false });
    }
    assert(moves@ =~= whole);
    Some(moves)
}

/// A keystroke leaves no key held: what goes down comes up, in the opposite
/// order.
pub proof fn law_a_keystroke_leaves_nothing_held(symbol: u32, modifiers: Modifiers, i: int)
    requires
        0 <= i < keystroke(symbol, modifiers).len(),
    ensures
        ({
            let moves = keystroke(symbol, modifiers);
            let other = moves[moves.len() - 1 - i];
            other.keycode == moves[i].keycode && other.down == !moves[i].down
        }),
{
}

/// The scheme of the socket that goes with a preview's scheme.
pub open spec fn socket_scheme(scheme: Seq<char>) -> Seq<char> {
    if scheme == "https"@ || scheme == "wss"@ {
        "wss"@
    } else {
        "ws"@
    }
}

/// The path that the desktop listens on.
pub const SOCKET_PATH: &'static str = "/websockify";

/// Whether the parts of a preview's URL can be exchanged: a URL is no longer
/// than a number of 32 bits can say, and the socket's may be this much longer.
pub open spec fn exchangeable(preview: Seq<char>) -> bool {
    parsed(preview) matches Ok(url) ==> url.len() <= u32::MAX - GROWTH
}

/// By how much the URL of a socket may be longer than its preview's: three
/// characters for the scheme, and twelve for each of the eleven of the path.
pub const GROWTH: u32 = 135;

/// Whether this is where the desktop of a preview is spoken to, or why it
/// cannot be.
pub open spec fn socket_of(preview: Seq<char>, socket: Result<String, String>) -> bool {
    match parsed(preview) {
        Err(error) => socket is Err && socket->Err_0@ == error,
        Ok(url) => match with_scheme(url, socket_scheme(scheme_of(url))) {
            None => socket is Err && socket->Err_0@ == "unsupported preview URL scheme"@,
            Some(changed) => socket is Ok && socket->Ok_0@ == with_path(changed, SOCKET_PATH@),
        },
    }
}

/// Where the desktop of a preview is spoken to.
pub fn socket_url(preview: &str) -> (socket: Result<String, String>)
    requires
        exchangeable(preview@),
    ensures
        socket_of(preview@, socket),
{
    let mut url = match parse_url(preview) {
        Ok(url) => url,
        Err(error) => {
            return Err(error);
        },
    };
    let current = url_scheme(&url);
    let scheme = if same(current.as_str(), "https") || same(current.as_str(), "wss") {
        "wss"
    } else {
        "ws"
    };
    proof {
        reveal_strlit("ws");
        reveal_strlit("wss");
        reveal_strlit("/websockify");
    }
    if set_url_scheme(&mut url, scheme).is_err() {
        return Err("unsupported preview URL scheme".to_owned());
    }
    set_url_path(&mut url, SOCKET_PATH);
    Ok(url_text(&url))
}

/// Where the desktop of a preview is spoken to; nothing for a preview that is
/// too long for its parts to be exchanged.
pub fn preview_socket(preview: &str) -> (socket: Option<Result<String, String>>)
    ensures
        socket is Some == exchangeable(preview@),
        socket is Some ==> socket_of(preview@, socket->0),
{
    if let Ok(url) = parse_url(preview) {
        if url_text(&url).as_str().unicode_len() > (u32::MAX - GROWTH) as usize {
            return None;
        }
    }
    Some(socket_url(preview))
}

/// The left button is the first bit, the middle one the second and the right
/// one the third, and a press sets just its own.
pub proof fn law_each_button_has_its_bit(button: MouseButton, other: MouseButton, buttons: u8)
    ensures
        button is Left ==> mask_of(button) == 1,
        button is Middle ==> mask_of(button) == 2,
        button is Right ==> mask_of(button) == 4,
        button is Back || button is Forward ==> mask_of(button) == 0,
        button != other ==> (buttons | mask_of(button)) & mask_of(other) == buttons & mask_of(
            other,
        ),
{
    let mask = mask_of(button);
    let rest = mask_of(other);
    assert((mask == 0 || mask == 1 || mask == 2 || mask == 4) && (rest == 0 || rest == 1 || rest
        == 2 || rest == 4) && (mask != rest || mask == 0) ==> (buttons | mask) & rest == buttons
        & rest) by (bit_vector);
}

/// A turn of the wheel presses the button of its way with those that are held,
/// and lets go of it: up and down first, then sideways. A wheel that is not
/// turned sends nothing.
pub proof fn law_a_turn_presses_its_button(buttons: u8, vertical: Turn, horizontal: Turn)
    ensures
        ({
            let states = tick_states(buttons, wheel_buttons(vertical, horizontal));
            let upright: u8 = if vertical is Positive {
                8
            } else {
                16
            };
            let sideways: u8 = if horizontal is Positive {
                32
            } else {
                64
            };
            &&& vertical is Still && horizontal is Still ==> states.len() == 0
            &&& !(vertical is Still) && horizontal is Still ==> states == seq![
                buttons | upright,
                buttons,
            ]
            &&& vertical is Still && !(horizontal is Still) ==> states == seq![
                buttons | sideways,
                buttons,
            ]
            &&& !(vertical is Still) && !(horizontal is Still) ==> states == seq![
                buttons | upright,
                buttons,
                buttons | sideways,
                buttons,
            ]
        }),
{
}

/// A character of Latin-1 is its own keysym, and every other one has its own
/// in the range of Unicode: no two characters share one.
pub proof fn law_characters_have_keysyms_of_their_own(a: char, b: char)
    ensures
        a as u32 <= 0xff ==> char_keysym(a) == a as u32,
        a as u32 > 0xff ==> char_keysym(a) - a as u32 == 0x0100_0000,
        a != b ==> char_keysym(a) != char_keysym(b),
{
}

/// What a keystroke types comes before the key that was struck.
pub proof fn law_the_typed_character_comes_first(key: Seq<char>, text: &str)
    ensures
        typed(key, Some(text)) == text@,
        typed(key, None) == key,
{
}

/// The modifiers that are held go down, Control first, then Alt, Shift and the
/// platform's own, and no others do.
pub proof fn law_just_the_held_modifiers_go_down(modifiers: Modifiers)
    ensures
        held(modifiers).contains(XK_CONTROL_L) == modifiers.control,
        held(modifiers).contains(XK_ALT_L) == modifiers.alt,
        held(modifiers).contains(XK_SHIFT_L) == modifiers.shift,
        held(modifiers).contains(XK_SUPER_L) == modifiers.platform,
        modifiers.control ==> held(modifiers)[0] == XK_CONTROL_L,
        modifiers.platform ==> held(modifiers).last() == XK_SUPER_L,
        modifiers.alt && modifiers.shift ==> held(modifiers)[if modifiers.control {
            1int
        } else {
            0
        }] == XK_ALT_L,
{
    let all = held(modifiers);
    if modifiers.control {
        assert(all[0] == XK_CONTROL_L);
    }
    let after_control: int = if modifiers.control {
        1
    } else {
        0
    };
    if modifiers.alt {
        assert(all[after_control] == XK_ALT_L);
    }
    let after_alt: int = after_control + if modifiers.alt {
        1int
    } else {
        0
    };
    if modifiers.shift {
        assert(all[after_alt] == XK_SHIFT_L);
    }
    let after_shift: int = after_alt + if modifiers.shift {
        1int
    } else {
        0
    };
    if modifiers.platform {
        assert(all[after_shift] == XK_SUPER_L);
    }
}

/// The key is struck while the modifiers are down: they go down before it, and
/// come up after it.
pub proof fn law_the_key_is_struck_under_its_modifiers(symbol: u32, modifiers: Modifiers, i: int)
    requires
        0 <= i < held(modifiers).len(),
    ensures
        ({
            let moves = keystroke(symbol, modifiers);
            let n = held(modifiers).len() as int;
            &&& moves.len() == 2 * n + 2
            &&& moves[n] == (KeyMove { keycode: symbol, down: true })
            &&& moves[n + 1] == (KeyMove { keycode: symbol, down: false })
            &&& moves[i] == (KeyMove { keycode: held(modifiers)[i], down: true })
            &&& moves[2 * n + 1 - i] == (KeyMove { keycode: held(modifiers)[i], down: false })
        }),
{
}

/// A key without modifiers goes down and comes up.
pub proof fn law_a_bare_key_goes_down_and_up(symbol: u32, modifiers: Modifiers)
    requires
        !modifiers.control && !modifiers.alt && !modifiers.shift && !modifiers.platform,
    ensures
        keystroke(symbol, modifiers) == seq![
            KeyMove { keycode: symbol, down: true },
            KeyMove { keycode: symbol, down: false },
        ],
{
    assert(held(modifiers) =~= Seq::empty());
}

/// The function keys are numbered in a row, from the first to the twelfth.
pub proof fn law_function_keys_are_in_a_row(n: u64)
    ensures
        1 <= n <= 12 ==> named_keysym("f"@ + decimal(n as nat)) == Some((0xffbe + n - 1) as u32),
        n == 0 || n > 12 ==> named_keysym("f"@ + decimal(n as nat)) is None,
{
    let name = "f"@ + decimal(n as nat);
    reveal_strlit("f");
    reveal_strlit("enter");
    reveal_strlit("tab");
    reveal_strlit("backspace");
    reveal_strlit("escape");
    reveal_strlit("delete");
    reveal_strlit("insert");
    reveal_strlit("space");
    reveal_strlit("up");
    reveal_strlit("down");
    reveal_strlit("left");
    reveal_strlit("right");
    reveal_strlit("home");
    reveal_strlit("end");
    reveal_strlit("pageup");
    reveal_strlit("pagedown");
    assert(name[0] == 'f');
    assert("enter"@[0] == 'e' && "tab"@[0] == 't' && "backspace"@[0] == 'b');
    assert("escape"@[0] == 'e' && "delete"@[0] == 'd' && "insert"@[0] == 'i');
    assert("space"@[0] == 's' && "up"@[0] == 'u' && "down"@[0] == 'd');
    assert("left"@[0] == 'l' && "right"@[0] == 'r' && "home"@[0] == 'h');
    assert("end"@[0] == 'e' && "pageup"@[0] == 'p' && "pagedown"@[0] == 'p');
    law_a_prefix_comes_off("f"@, decimal(n as nat), name);
    law_decimals_are_read_back(n);
}

/// The keys that move the insertion point are numbered in a row: home, left,
/// up, right, down, page up, page down and end.
pub proof fn law_moving_keys_are_in_a_row(key: Seq<char>)
    ensures
        key == "home"@ ==> named_keysym(key) == Some(0xff50u32),
        key == "left"@ ==> named_keysym(key) == Some(0xff51u32),
        key == "up"@ ==> named_keysym(key) == Some(0xff52u32),
        key == "right"@ ==> named_keysym(key) == Some(0xff53u32),
        key == "down"@ ==> named_keysym(key) == Some(0xff54u32),
        key == "pageup"@ ==> named_keysym(key) == Some(0xff55u32),
        key == "pagedown"@ ==> named_keysym(key) == Some(0xff56u32),
        key == "end"@ ==> named_keysym(key) == Some(0xff57u32),
{
    reveal_strlit("enter");
    reveal_strlit("tab");
    reveal_strlit("backspace");
    reveal_strlit("escape");
    reveal_strlit("delete");
    reveal_strlit("insert");
    reveal_strlit("space");
    reveal_strlit("up");
    reveal_strlit("down");
    reveal_strlit("left");
    reveal_strlit("right");
    reveal_strlit("home");
    reveal_strlit("end");
    reveal_strlit("pageup");
    reveal_strlit("pagedown");
    assert("enter"@[0] == 'e' && "tab"@[0] == 't' && "backspace"@[0] == 'b');
    assert("escape"@[0] == 'e' && "delete"@[0] == 'd' && "insert"@[0] == 'i');
    assert("space"@[0] == 's' && "up"@[0] == 'u' && "down"@[0] == 'd');
    assert("left"@[0] == 'l' && "right"@[0] == 'r' && "home"@[0] == 'h');
    assert("end"@[0] == 'e' && "pageup"@[0] == 'p' && "pagedown"@[0] == 'p');
    assert("end"@.len() == 3 && "enter"@.len() == 5 && "escape"@.len() == 6);
    assert("down"@.len() == 4 && "delete"@.len() == 6);
    assert("pageup"@.len() == 6 && "pagedown"@.len() == 8);
}

/// A preview that is reached in secret is spoken to in secret, and no other.
pub proof fn law_secure_previews_get_secure_sockets(scheme: Seq<char>)
    ensures
        scheme == "https"@ || scheme == "wss"@ ==> socket_scheme(scheme) == "wss"@,
        scheme == "http"@ || scheme == "ws"@ ==> socket_scheme(scheme) == "ws"@,
        socket_scheme(socket_scheme(scheme)) == socket_scheme(scheme),
{
    reveal_strlit("https");
    reveal_strlit("http");
    reveal_strlit("wss");
    reveal_strlit("ws");
    assert("https"@.len() == 5 && "http"@.len() == 4 && "wss"@.len() == 3 && "ws"@.len() == 2);
}

/// The socket of a preview is the preview with its scheme exchanged and the
/// path on which the desktop listens; a preview that cannot be read is refused
/// with the reason.
pub proof fn law_a_socket_is_its_preview_on_another_scheme(
    preview: Seq<char>,
    socket: Result<String, String>,
)
    requires
        socket_of(preview, socket),
    ensures
        parsed(preview) is Err ==> socket is Err && socket->Err_0@ == parsed(preview)->Err_0,
        socket is Ok ==> parsed(preview) is Ok && ({
            let url = parsed(preview)->Ok_0;
            let secret = scheme_of(url) == "https"@ || scheme_of(url) == "wss"@;
            let changed = with_scheme(
                url,
                if secret {
                    "wss"@
                } else {
                    "ws"@
                },
            );
            changed is Some && socket->Ok_0@ == with_path(changed->0, "/websockify"@)
        }),
{
}

/// An event paints what it carries: a picture puts each of its pixels in its
/// place, a new size leaves a black desktop, and what is nothing to paint, or
/// an error, leaves the desktop as it was.
pub proof fn law_an_event_paints_what_it_carries(
    before: Framebuffer,
    event: ScreenEvent,
    after: Framebuffer,
    r: int,
    c: int,
    k: int,
)
    requires
        before.wf(),
        takes_in(before, event, after),
    ensures
        event matches ScreenEvent::SetResolution { width, height } ==> after.width == width
            && after.height == height && after.dirty && forall|i: int|
            0 <= i < after.pixels@.len() ==> #[trigger] after.pixels@[i] == 0,
        event matches ScreenEvent::RawImage(rect, data) ==> after.width == before.width
            && after.height == before.height && after.dirty && (rect.x + rect.width <= before.width
            && 0 <= r < rect.height && rect.y + r < before.height && (r + 1) * (rect.width * 4)
            <= data@.len() && 0 <= c < rect.width && 0 <= k < 3 ==> after.pixels@[((rect.y + r)
            * before.width + rect.x + c) * 4 + k] == data@[(r * rect.width + c) * 4 + k]),
        event matches ScreenEvent::Copy { destination, source } ==> after.width == before.width
            && after.height == before.height && after.dirty && (destination.x + destination.width
            <= before.width && source.x + destination.width <= before.width && 0 <= r
            < destination.height && destination.y + r < before.height && source.y + r
            < before.height && 0 <= c < destination.width && 0 <= k < 3 ==> after.pixels@[((
        destination.y + r) * before.width + destination.x + c) * 4 + k] == before.pixels@[((
        source.y + r) * before.width + source.x + c) * 4 + k]),
        event is Error || event is Other ==> after == before,
{
    match event {
        ScreenEvent::RawImage(rect, data) => {
            if rect.x + rect.width <= before.width && 0 <= r < rect.height && rect.y + r
                < before.height && (r + 1) * (rect.width * 4) <= data@.len() && 0 <= c < rect.width
                && 0 <= k < 3 {
                law_a_blit_puts_each_pixel_in_its_place(before, rect, data@, r, c, k);
            }
        },
        ScreenEvent::Copy { destination, source } => {
            if destination.x + destination.width <= before.width && 0 <= r < destination.height
                && destination.y + r < before.height && 0 <= c < destination.width && 0 <= k < 3 {
                law_a_copy_shows_its_source(before, destination, source, r, c, k);
            }
        },
        _ => {},
    }
}

/// A desktop has four bytes for each of its pixels.
pub proof fn law_a_pixel_takes_four_bytes(width: u16, height: u16)
    ensures
        area(width, height) == 4 * (width * height),
        area(width, 0) == 0,
        area(1, 1) == 4,
{
    assert(width * height * 4 == 4 * (width * height)) by (nonlinear_arith);
}

/// A preview can be exchanged for its socket where it cannot be read, and where
/// its URL has room to grow by the longer scheme and the path.
pub proof fn law_a_preview_needs_room_to_grow(preview: Seq<char>)
    ensures
        parsed(preview) is Err ==> exchangeable(preview),
        parsed(preview) is Ok ==> exchangeable(preview) == (parsed(preview)->Ok_0.len() + 135
            <= u32::MAX),
{
}

} // verus!
