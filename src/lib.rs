//! Compositing and geometric editing of RGBA raster images: anchor
//! placement, clipping of one rectangle against another, blending, cropping,
//! filling and resizing.

pub mod blend;
pub mod buffer;
pub mod clip;
pub mod editor;
pub mod position;
pub mod text;

pub use buffer::{Color, Image, RasterError};
