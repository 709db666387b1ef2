//! Cursors: their frames' durations and hotspots, and the Windows and X11
//! cursor files built from them.

pub mod duration;
pub mod hotspot;
pub mod metadata;
pub mod model;
pub mod windows;
pub mod xcursor;

pub use self::duration::CursorDuration;
pub use self::hotspot::{CursorHotspot, ParseCursorHotspotError};
pub use self::model::{Cursor, CursorFrame, CursorImage};
