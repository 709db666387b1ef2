//! Cursor files: static CUR cursors, animated ANI cursors and Xcursor
//! files.

pub mod ani;
pub mod cur;
pub mod hotspot;
pub mod xcursor;

pub use self::ani::AniFile;
pub use self::cur::{CurFile, CurIcon};
pub use self::hotspot::Hotspot;
pub use self::xcursor::{CursorFile, XcursorChunk, XcursorCommentKind, XcursorFile};
