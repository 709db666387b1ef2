//! Raster images: pixmaps of five pixel layouts, with their dimensions.

pub mod error;
pub mod image;
pub mod pixmap;
pub mod png;

pub use self::error::RasterError;
pub use self::image::RasterImage;
