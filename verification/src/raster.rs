//! Rasterization: the composed document is parsed into a scene by `usvg`
//! and painted by `resvg` into a pixel buffer of `tiny_skia`.

use crate::error::RenderError;
use vstd::prelude::*;

verus! {

/// `usvg::Options`, the parser's options with its font catalog; opaque here.
#[verifier::external_type_specification]
#[verifier::external_body]
pub struct ExParseOptions<'a>(usvg::Options<'a>);

/// `usvg::Tree`, a parsed scene; opaque here.
#[verifier::external_type_specification]
#[verifier::external_body]
pub struct ExScene(usvg::Tree);

/// `usvg::Error`, the error of a document that does not parse; opaque here.
#[verifier::external_type_specification]
#[verifier::external_body]
pub struct ExSceneError(usvg::Error);

/// `tiny_skia::Pixmap`, the container of pixels that the painter fills; only
/// its samples are spoken of, by `pixmap_samples`.
#[verifier::external_type_specification]
#[verifier::external_body]
pub struct ExPixmap(tiny_skia::Pixmap);

/// The samples that a pixmap holds, row by row, four to a pixel.
pub uninterp spec fn pixmap_samples(pixmap: tiny_skia::Pixmap) -> Seq<u8>;

/// Whether a pixmap of this size can be made: neither side is zero, a row
/// takes no more bytes than the largest `i32`, and the whole no more than the
/// largest `usize`.
pub open spec fn pixmap_fits(width: u32, height: u32) -> bool {
    &&& width >= 1
    &&& height >= 1
    &&& 4 * width <= i32::MAX
    &&& 4 * width * height <= usize::MAX
}

/// A dense array of pixels, row by row, each of four samples: red, green,
/// blue and alpha, the colours already multiplied by alpha.
pub struct PixelBuffer {
    /// The number of pixels in a row.
    pub width: u32,
    /// The number of rows.
    pub height: u32,
    /// The samples.
    pub samples: Vec<u8>,
}

impl PixelBuffer {
    /// There is at least one pixel, and four samples for each.
    pub open spec fn well_formed(&self) -> bool {
        &&& self.width >= 1
        &&& self.height >= 1
        &&& self.samples@.len() == 4 * self.width * self.height
    }
}

/// Calls `usvg::Tree::from_str`. What comes back depends on the fonts and
/// images that `options` reaches, so nothing is claimed of it.
#[verifier::external_body]
fn parse_scene(markup: &str, options: &usvg::Options<'_>) -> Result<usvg::Tree, usvg::Error> {
    usvg::Tree::from_str(markup, options)
}

/// Calls `usvg::Tree::size` and `Size::to_int_size`, which rounds each side
/// to whole pixels. The scene is opaque here, so nothing is claimed of the
/// size.
#[verifier::external_body]
fn scene_size(scene: &usvg::Tree) -> (u32, u32) {
    let size = scene.size().to_int_size();
    (size.width(), size.height())
}

/// Calls `tiny_skia::Pixmap::new`, which gives a pixmap of four samples to
/// the pixel where the size fits and `None` where it does not.
#[verifier::external_body]
fn new_pixmap(width: u32, height: u32) -> (pixmap: Option<tiny_skia::Pixmap>)
    ensures
        pixmap is Some <==> pixmap_fits(width, height),
        pixmap matches Some(p) ==> pixmap_samples(p).len() == 4 * width * height,
{
    tiny_skia::Pixmap::new(width, height)
}

/// Calls `resvg::render` with the identity transform. It paints into the
/// pixmap's samples and leaves their number as it was.
#[verifier::external_body]
fn paint_scene(scene: &usvg::Tree, pixmap: &mut tiny_skia::Pixmap)
    ensures
        pixmap_samples(*final(pixmap)).len() == pixmap_samples(*old(pixmap)).len(),
{
    resvg::render(scene, tiny_skia::Transform::default(), &mut pixmap.as_mut());
}

/// Calls `tiny_skia::Pixmap::take`, which hands out the samples.
#[verifier::external_body]
fn take_samples(pixmap: tiny_skia::Pixmap) -> (samples: Vec<u8>)
    ensures
        samples@ == pixmap_samples(pixmap),
{
    pixmap.take()
}

/// Paints `scene` into a fresh pixel buffer of `width` by `height` pixels,
/// with no scaling: what lies beyond the buffer is cut off.
///
/// Fails with `AllocationError` if no buffer of that size can be made: a
/// side is zero, or the size is too large.
pub fn paint_at_size(scene: &usvg::Tree, width: u32, height: u32) -> (out: Result<
    PixelBuffer,
    RenderError,
>)
    ensures
        match out {
            Ok(buffer) => {
                &&& pixmap_fits(width, height)
                &&& buffer.width == width
                &&& buffer.height == height
                &&& buffer.well_formed()
            },
            Err(e) => e == RenderError::AllocationError && !pixmap_fits(width, height),
        },
{
    let mut pixmap = match new_pixmap(width, height) {
        Some(pixmap) => pixmap,
        None => return Err(RenderError::AllocationError),
    };
    paint_scene(scene, &mut pixmap);
    Ok(PixelBuffer { width, height, samples: take_samples(pixmap) })
}

/// Parses `markup` into a scene and paints it into a pixel buffer of the
/// scene's size. `options` carries the font catalog that text is set with.
///
/// Fails with `ParseError` if `markup` is not valid vector markup, and with
/// `AllocationError` if no buffer of the scene's size can be made.
pub fn rasterize(markup: &str, options: &usvg::Options<'_>) -> (out: Result<
    PixelBuffer,
    RenderError,
>)
    ensures
        match out {
            Ok(buffer) => buffer.well_formed() && pixmap_fits(buffer.width, buffer.height),
            Err(e) => e == RenderError::ParseError || e == RenderError::AllocationError,
        },
{
    match parse_scene(markup, options) {
        Ok(scene) => {
            let (width, height) = scene_size(&scene);
            paint_at_size(&scene, width, height)
        },
        Err(_) => Err(RenderError::ParseError),
    }
}

} // verus!
