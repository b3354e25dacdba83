//! The bitmap container: a pixel buffer written as a BMP file by the `image`
//! crate.

use crate::error::RenderError;
use crate::raster::PixelBuffer;
use image::ImageEncoder;
use vstd::prelude::*;

verus! {

/// `image::ImageError`, the error of an encoder; opaque here.
#[verifier::external_type_specification]
#[verifier::external_body]
pub struct ExImageError(image::ImageError);

/// The BMP file that holds `samples` as a picture of `width` by `height`
/// pixels with four samples each.
pub uninterp spec fn bmp_encoding(samples: Seq<u8>, width: u32, height: u32) -> Seq<u8>;

/// The 32-bit number whose four bytes stand in `bytes` from `at` on, the
/// lowest first.
pub open spec fn le_u32_at(bytes: Seq<u8>, at: int) -> int {
    bytes[at] + 256 * bytes[at + 1] + 65536 * bytes[at + 2] + 16777216 * bytes[at + 3]
}

/// `bytes` begins as a BMP file of `width` by `height` pixels of 32 bits
/// does: with the letters `BM`, the length of the file, the place where the
/// pixels begin, the two sizes, and the number of bits to the pixel, each at
/// its place in the header.
pub open spec fn has_bitmap_header(bytes: Seq<u8>, width: u32, height: u32) -> bool {
    &&& bytes.len() >= 30
    &&& bytes[0] == 0x42
    &&& bytes[1] == 0x4d
    &&& le_u32_at(bytes, 2) == bytes.len()
    &&& le_u32_at(bytes, 10) == header_len()
    &&& le_u32_at(bytes, 18) == width
    &&& le_u32_at(bytes, 22) == height
    &&& bytes[28] == 32
    &&& bytes[29] == 0
}

/// The length of the two headers that precede the pixels.
pub open spec fn header_len() -> int {
    122
}

/// Whether a picture of this size can be written: the length of a row and
/// the length of the whole file each fit in 32 bits.
pub open spec fn bitmap_fits(width: u32, height: u32) -> bool {
    &&& 4 * width <= u32::MAX
    &&& header_len() + 4 * width * height <= u32::MAX
}

/// The BMP file of `buffer`; `EncodeError` if the number of samples is not
/// that of the size, or the size is too large for the format.
pub open spec fn bitmap_of(buffer: PixelBuffer) -> Result<Seq<u8>, RenderError> {
    if buffer.samples@.len() == 4 * buffer.width * buffer.height && bitmap_fits(
        buffer.width,
        buffer.height,
    ) {
        Ok(bmp_encoding(buffer.samples@, buffer.width, buffer.height))
    } else {
        Err(RenderError::EncodeError)
    }
}

/// Calls `image::codecs::bmp::BmpEncoder::write_image` for four samples to
/// the pixel, writing into a vector. The encoder panics where the number of
/// samples is not that of the size, which `requires` leaves out. It checks
/// that the length of a row and of the file fit in 32 bits and has no other
/// way to fail, a vector taking every write. It writes `BM`, the length of
/// the file at offset 2, the length of the headers, 122, at offset 10, the
/// two sizes at the offsets 18 and 22, the 32 bits of a pixel at offset 28,
/// and after the headers one group of four bytes for each pixel.
#[verifier::external_body]
fn write_bmp(samples: &Vec<u8>, width: u32, height: u32) -> (out: Result<
    Vec<u8>,
    image::ImageError,
>)
    requires
        samples@.len() == 4 * width * height,
    ensures
        bitmap_fits(width, height) ==> out is Ok,
        out matches Ok(bytes) ==> {
            &&& bytes@ == bmp_encoding(samples@, width, height)
            &&& bytes@.len() == header_len() + samples@.len()
            &&& has_bitmap_header(bytes@, width, height)
        },
{
    let mut bytes = Vec::new();
    image::codecs::bmp::BmpEncoder::new(&mut bytes).write_image(
        samples,
        width,
        height,
        image::ExtendedColorType::Rgba8,
    )?;
    Ok(bytes)
}

/// Writes `buffer` as a BMP file of 32 bits to the pixel. The samples are
/// written as they are: colours that were multiplied by alpha stay so, which
/// is exact for opaque pixels only.
///
/// Fails with `EncodeError` if the number of samples is not that of the
/// size, or the size is too large for the format.
pub fn encode_bitmap(buffer: &PixelBuffer) -> (out: Result<Vec<u8>, RenderError>)
    ensures
        match out {
            Ok(bytes) => {
                &&& bitmap_of(*buffer) == Ok::<Seq<u8>, RenderError>(bytes@)
                &&& bytes@.len() == header_len() + buffer.samples@.len()
                &&& has_bitmap_header(bytes@, buffer.width, buffer.height)
            },
            Err(e) => e == RenderError::EncodeError && bitmap_of(*buffer) is Err,
        },
{
    let row = match buffer.width.checked_mul(4) {
        Some(row) => row,
        None => return Err(RenderError::EncodeError),
    };
    let size = match row.checked_mul(buffer.height) {
        Some(size) => size,
        None => return Err(RenderError::EncodeError),
    };
    if size.checked_add(122).is_none() {
        return Err(RenderError::EncodeError);
    }
    if buffer.samples.len() != size as usize {
        return Err(RenderError::EncodeError);
    }
    match write_bmp(&buffer.samples, buffer.width, buffer.height) {
        Ok(bytes) => Ok(bytes),
        Err(_) => Err(RenderError::EncodeError),
    }
}

} // verus!
