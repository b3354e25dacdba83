//! Composition of a dashboard drawing from a vector template, and its
//! rendering to a bitmap.

pub mod bitmap;
pub mod compose;
pub mod dashboard;
pub mod error;
pub mod markup;
pub mod pattern;
pub mod raster;
pub mod render;
pub mod text;
