//! The one entry point: compose, rasterize, encode.

use crate::bitmap::{bitmap_of, encode_bitmap, has_bitmap_header, header_len};
use crate::compose::{compose, composed, text_of, IconSlot, Placeholder};
use crate::error::RenderError;
use crate::raster::{rasterize, PixelBuffer};
use vstd::prelude::*;

verus! {

/// `bytes` is the BMP file of some well-formed pixel buffer, and says so in
/// its header.
pub open spec fn is_rendered_bitmap(bytes: Seq<u8>) -> bool {
    exists|buffer: PixelBuffer|
        {
            &&& buffer.well_formed()
            &&& #[trigger] bitmap_of(buffer) == Ok::<Seq<u8>, RenderError>(bytes)
            &&& bytes.len() == header_len() + 4 * buffer.width * buffer.height
            &&& has_bitmap_header(bytes, buffer.width, buffer.height)
        }
}

/// Rasterizes the composed document `markup` and writes the pixels as a BMP
/// file.
///
/// Fails with `ParseError`, `AllocationError` or `EncodeError`, whichever
/// step fails first.
pub fn render_document(markup: &str, options: &usvg::Options<'_>) -> (out: Result<
    Vec<u8>,
    RenderError,
>)
    ensures
        match out {
            Ok(bytes) => is_rendered_bitmap(bytes@),
            Err(e) => e == RenderError::ParseError || e == RenderError::AllocationError || e
                == RenderError::EncodeError,
        },
{
    let buffer = match rasterize(markup, options) {
        Ok(buffer) => buffer,
        Err(e) => return Err(e),
    };
    match encode_bitmap(&buffer) {
        Ok(bytes) => {
            proof {
                assert(bitmap_of(buffer) == Ok::<Seq<u8>, RenderError>(bytes@));
            }
            Ok(bytes)
        },
        Err(e) => Err(e),
    }
}

/// Renders the dashboard: composes the document from `template`, `fields`
/// and `slots`, rasterizes it at its own size and writes the pixels as a BMP
/// file.
///
/// `template` and the icon of each slot are `None` where the resource could
/// not be read. The first step that fails gives the error, and then there
/// are no bytes at all. A failure of the composition is the one that
/// `composed` names.
pub fn generate_image(
    template: Option<&str>,
    fields: &Vec<Placeholder>,
    slots: &Vec<IconSlot>,
    options: &usvg::Options<'_>,
) -> (out: Result<Vec<u8>, RenderError>)
    ensures
        match out {
            Ok(bytes) => composed(text_of(template), fields@, slots@) is Ok && is_rendered_bitmap(
                bytes@,
            ),
            Err(e) => match composed(text_of(template), fields@, slots@) {
                Err(failure) => e == failure,
                Ok(_) => e == RenderError::ParseError || e == RenderError::AllocationError || e
                    == RenderError::EncodeError,
            },
        },
        template is None ==> out == Err::<Vec<u8>, RenderError>(RenderError::ResourceReadError),
        template is Some && slots@.len() > 0 && slots@[0].icon is None ==> out == Err::<
            Vec<u8>,
            RenderError,
        >(RenderError::ResourceReadError),
{
    let markup = match compose(template, fields, slots) {
        Ok(markup) => markup,
        Err(e) => return Err(e),
    };
    render_document(markup.as_str(), options)
}

} // verus!
