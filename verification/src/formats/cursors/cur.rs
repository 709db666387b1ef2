//! CUR files: an ICO directory of resource type 2 whose entries carry a
//! hotspot.

use super::xcursor::CursorFile;
use crate::formats::containers::ico::common::{
    declared_count, lemma_dir_encoding_len, lemma_dir_entry_fields, dir_encoding, dir_size, offsets_fit, read_dir, DirModel, RawDirEntry,
};
use crate::formats::containers::ico::cursor::{cursor_dir_model, cursor_raw, CursorDir, CursorDirEntry};
use crate::formats::containers::ico::ReadError;
use crate::bytes::le16;
use crate::point::Point;
use vstd::prelude::*;

verus! {

/// One image of a cursor: its size, its hotspot and its encoded image.
#[derive(Debug, Clone, PartialEq, Eq)]
pub struct CurIcon {
    pub width: u16,
    pub height: u16,
    pub hotspot: Point<u16>,
    pub buffer: Vec<u8>,
}

impl CurIcon {
    /// Constructs a new `CurIcon`. The hotspot must lie within the image.
    pub fn new(width: u16, height: u16, hotspot: Point<u16>, buffer: Vec<u8>) -> (i: Self)
        requires
            hotspot.x <= width,
            hotspot.y <= height,
        ensures
            i == (CurIcon { width, height, hotspot, buffer }),
    {
        CurIcon { width, height, hotspot, buffer }
    }
}

/// A width or height as a directory entry holds it: `0` for sizes above 255.
pub open spec fn entry_dimension(v: u16) -> u8 {
    if v > 255 {
        0
    } else {
        v as u8
    }
}

/// The directory entry and data of an icon.
pub open spec fn icon_entry(i: CurIcon) -> (RawDirEntry, Seq<u8>) {
    (
        RawDirEntry {
            width: entry_dimension(i.width),
            height: entry_dimension(i.height),
            color_count: 0,
            planes_or_hotx: i.hotspot.x,
            depth_or_hoty: i.hotspot.y,
        },
        i.buffer@,
    )
}

/// In the bytes of a CUR file built from `icons`, the directory entry of
/// the icon with index `k` holds the icon's width at byte `6 + 16 * k` and its
/// height at the byte after (each 0 above 255), and then its hotspot; read
/// back, a width and a height of at most 255 are the icon's own.
pub proof fn lemma_cur_entry_dimensions(icons: Seq<CurIcon>, k: int)
    requires
        0 <= k < icons.len(),
    ensures
        ({
            let s = dir_encoding(2, icons.map_values(|i: CurIcon| icon_entry(i)));
            &&& s[6 + 16 * k] == (if icons[k].width > 255 { 0u8 } else { icons[k].width as u8 })
            &&& s[7 + 16 * k] == (if icons[k].height > 255 { 0u8 } else { icons[k].height as u8 })
            &&& s.subrange(10 + 16 * k, 12 + 16 * k) == le16(icons[k].hotspot.x)
            &&& s.subrange(12 + 16 * k, 14 + 16 * k) == le16(icons[k].hotspot.y)
        }),
        icons[k].width <= 255 ==> icon_entry(icons[k]).0.width as u16 == icons[k].width,
        icons[k].height <= 255 ==> icon_entry(icons[k]).0.height as u16 == icons[k].height,
{
    let es = icons.map_values(|i: CurIcon| icon_entry(i));
    lemma_dir_entry_fields(2, es, k);
    assert(es[k] == icon_entry(icons[k]));
}

/// A CUR file.
pub struct CurFile(CursorDir);

impl CurFile {
    /// The entries of the file and their data.
    pub closed spec fn model(&self) -> DirModel {
        cursor_dir_model(self.0.0@)
    }

    /// Constructs a new `CurFile`, one entry for each icon, in order.
    pub fn new(icons: Vec<CurIcon>) -> (f: Self)
        ensures
            f.model() == icons@.map_values(|i: CurIcon| icon_entry(i)),
            f.model().len() == icons@.len(),
            forall|k: int|
                0 <= k < icons@.len() ==> {
                    let (e, d) = #[trigger] f.model()[k];
                    &&& e.width == (if icons@[k].width > 255 { 0u8 } else { icons@[k].width as u8 })
                    &&& e.height == (if icons@[k].height > 255 { 0u8 } else { icons@[k].height as u8 })
                    &&& e.color_count == 0
                    &&& e.planes_or_hotx == icons@[k].hotspot.x
                    &&& e.depth_or_hoty == icons@[k].hotspot.y
                    &&& d == icons@[k].buffer@
                },
    {
        let ghost want = icons@.map_values(|i: CurIcon| icon_entry(i));
        let mut icons = icons;
        let mut entries: Vec<(CursorDirEntry, Vec<u8>)> = Vec::new();
        while icons.len() > 0
            invariant
                want.len() == entries@.len() + icons@.len(),
                forall|k: int|
                    0 <= k < entries@.len() ==> (cursor_raw((#[trigger] entries@[k]).0), entries@[k].1@)
                        == want[k],
                forall|k: int| 0 <= k < icons@.len() ==> icon_entry(#[trigger] icons@[k]) == want[entries@.len() + k],
            decreases icons@.len(),
        {
            let icon = icons.remove(0);
            let width = if icon.width > 255 {
                0u8
            } else {
                icon.width as u8
            };
            let height = if icon.height > 255 {
                0u8
            } else {
                icon.height as u8
            };
            let entry = CursorDirEntry::new(width, height, 0, icon.hotspot.x, icon.hotspot.y);
            entries.push((entry, icon.buffer));
        }
        assert(cursor_dir_model(entries@) =~= want);
        CurFile(CursorDir(entries))
    }

    /// Reads a CUR file from `input`.
    pub fn read(input: &[u8]) -> (r: Result<Self, ReadError>)
        requires
            !(read_dir(input@, 2) is Ok && declared_count(input@) == 65535),
        ensures
            match read_dir(input@, 2) {
                Ok(es) => r matches Ok(f) && f.model() == es,
                Err(e) => r matches Err(e2) && e2 == e,
            },
    {
        match CursorDir::read(input) {
            Ok(d) => Ok(CurFile(d)),
            Err(e) => Err(e),
        }
    }

    /// Writes a CUR file to `out`, returning how many bytes were written.
    pub fn write(self, out: &mut Vec<u8>) -> (n: usize)
        requires
            offsets_fit(self.model()),
            dir_size(self.model()) <= usize::MAX,
        ensures
            final(out)@ == old(out)@ + dir_encoding(2, self.model()),
            n == dir_size(self.model()),
    {
        self.0.write(out)
    }

    /// Returns how many bytes [`write`] writes.
    ///
    /// [`write`]: Self::write
    pub fn exact_size(&self) -> (n: usize)
        requires
            dir_size(self.model()) <= usize::MAX,
        ensures
            n == dir_size(self.model()),
    {
        self.0.exact_size()
    }

    /// Converts `self` into its icons, in order.
    ///
    /// The width and height of an icon are zero where the file could not
    /// hold them (above 255): the true values are those of the image.
    pub fn into_icons(self) -> (icons: Vec<CurIcon>)
        ensures
            icons@.len() == self.model().len(),
            forall|k: int|
                0 <= k < icons@.len() ==> {
                    let (e, d) = #[trigger] self.model()[k];
                    &&& icons@[k].width == e.width as u16
                    &&& icons@[k].height == e.height as u16
                    &&& icons@[k].hotspot == Point { x: e.planes_or_hotx, y: e.depth_or_hoty }
                    &&& icons@[k].buffer@ == d
                },
    {
        let ghost m = self.model();
        let mut entries = self.0.0;
        let mut icons: Vec<CurIcon> = Vec::new();
        while entries.len() > 0
            invariant
                m.len() == icons@.len() + entries@.len(),
                forall|k: int|
                    0 <= k < icons@.len() ==> {
                        let (e, d) = #[trigger] m[k];
                        &&& icons@[k].width == e.width as u16
                        &&& icons@[k].height == e.height as u16
                        &&& icons@[k].hotspot == Point { x: e.planes_or_hotx, y: e.depth_or_hoty }
                        &&& icons@[k].buffer@ == d
                    },
                forall|k: int|
                    0 <= k < entries@.len() ==> (cursor_raw((#[trigger] entries@[k]).0), entries@[k].1@)
                        == m[icons@.len() + k],
            decreases entries@.len(),
        {
            let (entry, buffer) = entries.remove(0);
            let icon = CurIcon {
                width: entry.width as u16,
                height: entry.height as u16,
                hotspot: Point { x: entry.hotspot.x, y: entry.hotspot.y },
                buffer,
            };
            icons.push(icon);
        }
        icons
    }
}

/// The colour count field of a directory entry.
#[derive(Debug, Clone, Copy, PartialEq, Eq, Structural)]
pub enum IconColorCount {
    /// 1-bit (2 colours).
    One,
    /// 4-bit (16 colours).
    Four,
    /// 8-bit or more (at least 256 colours).
    EightPlus,
}

impl IconColorCount {
    /// The byte that stands for the count.
    pub open spec fn spec_value(self) -> u8 {
        match self {
            IconColorCount::One => 2,
            IconColorCount::Four => 16,
            IconColorCount::EightPlus => 0,
        }
    }

    /// Returns the byte that stands for the count.
    pub fn value(self) -> (v: u8)
        ensures
            v == self.spec_value(),
    {
        match self {
            IconColorCount::One => 2,
            IconColorCount::Four => 16,
            IconColorCount::EightPlus => 0,
        }
    }
}

/// A directory entry of a cursor image together with its data size.
#[derive(Debug, Clone, Copy, PartialEq, Eq, Structural)]
pub struct IconDirEntry {
    pub width: u8,
    pub height: u8,
    pub color_count: u8,
    pub hotspot_x: u16,
    pub hotspot_y: u16,
    pub data_size: u32,
}

impl IconDirEntry {
    /// Creates a new `IconDirEntry`. The width and height must not be zero,
    /// and the hotspot must lie within them; sizes above 255 are held as 0.
    pub fn new(
        width: u16,
        height: u16,
        color_count: IconColorCount,
        hotspot_x: u16,
        hotspot_y: u16,
        data_size: u32,
    ) -> (e: Self)
        requires
            width != 0,
            height != 0,
            hotspot_x <= width,
            hotspot_y <= height,
        ensures
            e == (IconDirEntry {
                width: entry_dimension(width),
                height: entry_dimension(height),
                color_count: color_count.spec_value(),
                hotspot_x,
                hotspot_y,
                data_size,
            }),
    {
        let width = if width > 255 {
            0u8
        } else {
            width as u8
        };
        let height = if height > 255 {
            0u8
        } else {
            height as u8
        };
        IconDirEntry { width, height, color_count: color_count.value(), hotspot_x, hotspot_y, data_size }
    }
}

impl CursorFile for CurFile {
    open spec fn writable(&self) -> bool {
        offsets_fit(self.model())
    }

    open spec fn encoding(&self) -> Seq<u8> {
        dir_encoding(2, self.model())
    }

    fn size(&self) -> (n: usize) {
        proof {
            lemma_dir_encoding_len(2, self.model());
        }
        self.exact_size()
    }
}

} // verus!
