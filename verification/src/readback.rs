//! Pixels read back from a texture.

use vstd::prelude::*;

verus! {

/// An image of eight-bit RGBA pixels: an `image::RgbaImage`, opaque here because its declaration
/// is generic over the crate's pixel traits.
#[verifier::external_body]
#[derive(Debug)]
pub struct RgbaImage {
    inner: image::RgbaImage,
}

/// The samples of an image, four to a pixel, row by row.
pub uninterp spec fn image_samples(image: RgbaImage) -> Seq<u8>;

/// The width and height of an image.
pub uninterp spec fn image_size(image: RgbaImage) -> (u32, u32);

/// Whether `length` samples are enough for an image of this size: four to a pixel, where neither
/// a row nor the whole exceeds what can be counted.
pub open spec fn samples_suffice(width: u32, height: u32, length: nat) -> bool {
    &&& 4 * width <= usize::MAX
    &&& 4 * width * height <= usize::MAX
    &&& 4 * width * height <= length
}

/// `image::RgbaImage::from_raw`. The image has the given size and holds the given samples, all
/// of them; there is none when they do not suffice.
#[verifier::external_body]
fn image_from_raw(width: u32, height: u32, samples: Vec<u8>) -> (image: Option<RgbaImage>)
    ensures
        image is Some <==> samples_suffice(width, height, samples@.len()),
        image matches Some(image) ==> image_samples(image) == samples@ && image_size(image) == (
            width,
            height,
        ),
{
    match image::RgbaImage::from_raw(width, height, samples) {
        Some(inner) => Some(RgbaImage { inner }),
        None => None,
    }
}

/// `image::RgbaImage::into_raw`. Gives back the samples the image holds.
#[verifier::external_body]
fn image_into_raw(image: RgbaImage) -> (samples: Vec<u8>)
    ensures
        samples@ == image_samples(image),
{
    image.inner.into_raw()
}

/// `image::RgbaImage::dimensions`. Tells the width and height the image was made with.
#[verifier::external_body]
fn image_dimensions(image: &RgbaImage) -> (size: (u32, u32))
    ensures
        size == image_size(*image),
{
    image.inner.dimensions()
}

impl RgbaImage {
    /// The width, the height and the samples of the image.
    pub fn into_parts(self) -> (parts: (u32, u32, Vec<u8>))
        ensures
            (parts.0, parts.1) == image_size(self),
            parts.2@ == image_samples(self),
    {
        let (width, height) = image_dimensions(&self);
        (width, height, image_into_raw(self))
    }
}

/// How a texture's pixels lie in memory when they are read back.
#[derive(Debug, Clone, Copy, PartialEq, Eq, Structural)]
pub struct ReadbackLayout {
    pub bytes_per_row: usize,
    pub length: usize,
}

/// The layout of a texture of this size: rows without padding, four bytes to a pixel.
pub fn readback_layout(width: u32, height: u32) -> (layout: ReadbackLayout)
    requires
        4 * width <= usize::MAX,
        4 * width * height <= usize::MAX,
    ensures
        layout.bytes_per_row == 4 * width,
        layout.length == 4 * width * height,
{
    let bytes_per_row: usize = width as usize * 4;
    proof {
        assert(height * bytes_per_row == 4 * width * height) by (nonlinear_arith)
            requires
                bytes_per_row == 4 * width,
        ;
    }
    ReadbackLayout { bytes_per_row, length: height as usize * bytes_per_row }
}

/// Where the sample at `i` comes from when the first and third of every four change places. The
/// samples behind the last four stay.
pub open spec fn swapped_from(length: int, i: int) -> int {
    if i >= length - length % 4 {
        i
    } else if i % 4 == 0 {
        i + 2
    } else if i % 4 == 2 {
        i - 2
    } else {
        i
    }
}

/// `pixels` with the first and third sample of every four exchanged.
pub open spec fn channels_swapped(pixels: Seq<u8>) -> Seq<u8> {
    Seq::new(pixels.len(), |i: int| pixels[swapped_from(pixels.len() as int, i)])
}

/// Converts BGRA to RGBA, or back.
pub fn swap_blue_and_red(pixels: &mut Vec<u8>)
    ensures
        final(pixels)@ == channels_swapped(old(pixels)@),
{
    let length: usize = pixels.len();
    let end: usize = length - length % 4;
    let mut i: usize = 0;
    while i < end
        invariant
            i <= end,
            i % 4 == 0,
            end == length - length % 4,
            pixels@.len() == length,
            old(pixels)@.len() == length,
            forall|j: int|
                0 <= j < length ==> #[trigger] pixels@[j] == if j < i {
                    old(pixels)@[swapped_from(length as int, j)]
                } else {
                    old(pixels)@[j]
                },
        decreases end - i,
    {
        let blue: u8 = pixels[i];
        let red: u8 = pixels[i + 2];
        pixels.set(i, red);
        pixels.set(i + 2, blue);
        i = i + 4;
    }
    proof {
        assert(pixels@ =~= channels_swapped(old(pixels)@));
    }
}

/// The image of a texture, from its BGRA pixels; `None` when they are too few.
pub fn read_texture_to_image(width: u32, height: u32, pixels: Vec<u8>) -> (image: Option<
    RgbaImage,
>)
    ensures
        image is Some <==> samples_suffice(width, height, pixels@.len()),
        image matches Some(image) ==> {
            &&& image_samples(image) == channels_swapped(pixels@)
            &&& image_size(image) == (width, height)
        },
{
    let mut samples = pixels;
    swap_blue_and_red(&mut samples);
    image_from_raw(width, height, samples)
}

/// Exchanging blue and red twice changes nothing.
pub proof fn law_swapping_twice_restores(pixels: Seq<u8>)
    ensures
        channels_swapped(channels_swapped(pixels)) == pixels,
{
    assert(channels_swapped(channels_swapped(pixels)) =~= pixels);
}

} // verus!
