//! Cursor theme tooling: pixmaps and their transforms, the RIFF, ICO/CUR,
//! ANI and Xcursor container formats, PNG images, cursor metadata and configuration.

pub mod bytes;
pub mod config;
pub mod cursor;
pub mod formats;
pub mod pixmap_png;
pub mod point;
pub mod text;
