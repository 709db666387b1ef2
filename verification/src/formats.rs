//! The file formats that cursors are written in, and the raster images they
//! carry.

pub mod containers;
pub mod cursors;
pub mod raster;
pub mod rgba;
