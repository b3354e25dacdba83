//! The ways in which rendering fails.

use vstd::prelude::*;

verus! {

/// Why no image was produced.
#[derive(Clone, Copy, Debug, PartialEq, Eq, Structural)]
pub enum RenderError {
    /// The template or an icon could not be read.
    ResourceReadError,
    /// The document holds no slot element with the id asked for.
    ElementNotFound,
    /// An element lacks an attribute that is needed.
    AttributeNotFound,
    /// An icon has no drawing content between its outer tags.
    IconContentMissing,
    /// The search engine refused a pattern, for instance as too large.
    PatternRejected,
    /// The composed document is not valid vector markup.
    ParseError,
    /// No pixel buffer of the scene's size can be had.
    AllocationError,
    /// The pixel buffer could not be written as a bitmap.
    EncodeError,
}

} // verus!
