//! ICO and CUR directories: a header, one 16-byte entry per image, and the
//! image data.

pub mod common;
pub mod cursor;
pub mod error;
pub mod icon;

pub use self::error::ReadError;
