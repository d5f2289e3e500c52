//! Pictures in the byte order that the window paints: blue, green, red, alpha.

use crate::jpeg::is_within_bounds;
use crate::jpeg::within_bounds;
use vstd::prelude::*;

verus! {

/// A picture, four bytes to a pixel, row by row.
#[derive(Debug, PartialEq, Eq)]
pub struct Picture {
    pub width: u32,
    pub height: u32,
    pub pixels: Vec<u8>,
}

/// A frame that is no picture.
#[derive(Debug, Clone, Copy, PartialEq, Eq, Structural)]
pub struct Undecodable;

/// `image::ImageError`, carried through without a look inside.
#[verifier::external_type_specification]
#[verifier::external_body]
pub struct ExImageError(image::ImageError);

/// The JPEG that the bytes hold, if they hold one: its width, its height, and
/// its pixels row by row, as red, green, blue and alpha.
pub uninterp spec fn jpeg_picture(bytes: Seq<u8>) -> Option<(u32, u32, Seq<u8>)>;

/// `image::load_from_memory_with_format` for JPEG, then
/// `image::DynamicImage::into_rgba8`. Claimed: the bytes alone decide whether
/// there is a picture and what it looks like, and it has four bytes for each of
/// its pixels. The decoder has other instructions for some processors, with the
/// same integer arithmetic, rounding and clamping. Asked: that no header leaves
/// the bounds of that arithmetic. Beyond them the decoder can stop the program:
/// a brightness times its step leaves 32 bits, a side rounded up to blocks leaves
/// 16, a component is sampled more finely than the first one, or has no place in
/// the colour transform that is named.
#[verifier::external_body]
fn decode_jpeg(bytes: &[u8]) -> (decoded: Result<(u32, u32, Vec<u8>), image::ImageError>)
    requires
        within_bounds(bytes@),
    ensures
        decoded is Ok == jpeg_picture(bytes@) is Some,
        decoded is Ok ==> jpeg_picture(bytes@) == Some(
            ((decoded->Ok_0).0, (decoded->Ok_0).1, (decoded->Ok_0).2@),
        ),
        decoded is Ok ==> (decoded->Ok_0).2@.len() == 4 * (decoded->Ok_0).0 * (decoded->Ok_0).1,
{
    let rgba = image::load_from_memory_with_format(bytes, image::ImageFormat::Jpeg)?.into_rgba8();
    Ok((rgba.width(), rgba.height(), rgba.into_raw()))
}

/// The byte that stands at `i` once red and blue have changed places.
pub open spec fn swapped_byte(pixels: Seq<u8>, i: int) -> u8 {
    if i % 4 == 0 {
        pixels[i + 2]
    } else if i % 4 == 2 {
        pixels[i - 2]
    } else {
        pixels[i]
    }
}

/// The pixels with red and blue in each other's places.
pub open spec fn swapped(pixels: Seq<u8>) -> Seq<u8> {
    Seq::new(pixels.len(), |i: int| swapped_byte(pixels, i))
}

/// Puts red and blue in each other's places.
pub fn swap_red_and_blue(pixels: Vec<u8>) -> (turned: Vec<u8>)
    requires
        pixels@.len() % 4 == 0,
    ensures
        turned@ == swapped(pixels@),
{
    let ghost before = pixels@;
    let mut turned = pixels;
    let mut i: usize = 0;
    while i < turned.len()
        invariant
            turned@.len() == before.len(),
            before.len() % 4 == 0,
            i % 4 == 0,
            i <= before.len(),
            forall|j: int| 0 <= j < i ==> #[trigger] turned@[j] == swapped_byte(before, j),
            forall|j: int| i <= j < before.len() ==> #[trigger] turned@[j] == before[j],
        decreases turned.len() - i,
    {
        let red = turned[i];
        let blue = turned[i + 2];
        let ghost earlier = turned@;
        turned.set(i, blue);
        turned.set(i + 2, red);
        proof {
            let k = i as int;
            assert(turned@[k] == swapped_byte(before, k));
            assert(turned@[k + 1] == swapped_byte(before, k + 1));
            assert(turned@[k + 2] == swapped_byte(before, k + 2));
            assert(turned@[k + 3] == swapped_byte(before, k + 3));
            assert forall|j: int| 0 <= j < k + 4 implies #[trigger] turned@[j] == swapped_byte(
                before,
                j,
            ) by {
                if j < k {
                    assert(turned@[j] == earlier[j]);
                }
            }
            assert forall|j: int| k + 4 <= j < before.len() implies #[trigger] turned@[j]
                == before[j] by {
                assert(turned@[j] == earlier[j]);
            }
        }
        i += 4;
    }
    assert(turned@ =~= swapped(before));
    turned
}

/// The picture that a frame of the stream holds, in the window's byte order. A
/// frame whose headers leave the decoder's bounds is no picture.
pub fn decode_frame(bytes: &[u8]) -> (frame: Result<Picture, Undecodable>)
    ensures
        frame is Ok == (within_bounds(bytes@) && jpeg_picture(bytes@) is Some),
        match (frame, jpeg_picture(bytes@)) {
            (Ok(picture), Some((width, height, pixels))) => {
                &&& picture.width == width
                &&& picture.height == height
                &&& picture.pixels@ == swapped(pixels)
                &&& picture.pixels@.len() == 4 * width * height
            },
            _ => true,
        },
{
    if !is_within_bounds(bytes) {
        return Err(Undecodable);
    }
    match decode_jpeg(bytes) {
        Ok((width, height, pixels)) => {
            assert(pixels@.len() % 4 == 0) by {
                let count = width * height;
                assert(4 * width * height == 4 * count) by (nonlinear_arith)
                    requires
                        count == width * height,
                ;
            }
            Ok(Picture { width, height, pixels: swap_red_and_blue(pixels) })
        },
        Err(_) => Err(Undecodable),
    }
}

/// Turning the colours twice gives the pixels back.
pub proof fn law_swapping_twice_changes_nothing(pixels: Seq<u8>)
    requires
        pixels.len() % 4 == 0,
    ensures
        swapped(swapped(pixels)) == pixels,
{
    assert(swapped(swapped(pixels)) =~= pixels);
}

/// Red and blue trade places in each pixel, and green and opacity stay.
pub proof fn law_red_and_blue_trade_places(pixels: Seq<u8>, p: int)
    requires
        0 <= p,
        4 * p + 3 < pixels.len(),
    ensures
        swapped(pixels).len() == pixels.len(),
        swapped(pixels)[4 * p] == pixels[4 * p + 2],
        swapped(pixels)[4 * p + 1] == pixels[4 * p + 1],
        swapped(pixels)[4 * p + 2] == pixels[4 * p],
        swapped(pixels)[4 * p + 3] == pixels[4 * p + 3],
{
}

} // verus!
