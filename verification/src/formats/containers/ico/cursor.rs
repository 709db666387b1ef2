//! CUR directories, whose entries carry a hotspot.

use vstd::prelude::*;

use super::common::{
    dir_encoding, dir_size, exact_size_impl, offsets_fit, read_dir, read_impl, write_impl,
    declared_count, lemma_total_data_len, DirModel, RawDirEntry,
};
use super::error::ReadError;
use crate::point::Point;

verus! {

/// The resource type of CUR files.
pub open spec fn cursor_resource_type() -> u16 {
    2
}

/// A CUR directory: each entry with its image data.
#[derive(Debug, Clone, PartialEq, Eq)]
pub struct CursorDir(pub Vec<(CursorDirEntry, Vec<u8>)>);

/// An entry of a CUR directory.
#[derive(Debug, Clone, Copy, PartialEq, Eq)]
pub struct CursorDirEntry {
    pub width: u8,
    pub height: u8,
    pub color_count: u8,
    pub hotspot: Point<u16>,
}

/// The stored fields of a CUR entry: the hotspot takes the two 16-bit fields.
pub open spec fn cursor_raw(e: CursorDirEntry) -> RawDirEntry {
    RawDirEntry {
        width: e.width,
        height: e.height,
        color_count: e.color_count,
        planes_or_hotx: e.hotspot.x,
        depth_or_hoty: e.hotspot.y,
    }
}

/// The CUR entry that stored fields stand for.
pub open spec fn cursor_entry(r: RawDirEntry) -> CursorDirEntry {
    CursorDirEntry {
        width: r.width,
        height: r.height,
        color_count: r.color_count,
        hotspot: Point { x: r.planes_or_hotx, y: r.depth_or_hoty },
    }
}

/// The stored form of a CUR directory.
pub open spec fn cursor_dir_model(v: Seq<(CursorDirEntry, Vec<u8>)>) -> DirModel {
    v.map_values(|p: (CursorDirEntry, Vec<u8>)| (cursor_raw(p.0), p.1@))
}

impl CursorDirEntry {
    /// Builds an entry from its stored fields.
    pub fn new(width: u8, height: u8, color_count: u8, planes_or_hotx: u16, depth_or_hoty: u16) -> (e: Self)
        ensures
            cursor_raw(e) == (RawDirEntry { width, height, color_count, planes_or_hotx, depth_or_hoty }),
    {
        CursorDirEntry {
            width,
            height,
            color_count,
            hotspot: Point { x: planes_or_hotx, y: depth_or_hoty },
        }
    }

    /// The stored width (zero stands for 256 or more).
    pub fn width(&self) -> (r: u8)
        ensures
            r == self.width,
    {
        self.width
    }

    /// The stored height (zero stands for 256 or more).
    pub fn height(&self) -> (r: u8)
        ensures
            r == self.height,
    {
        self.height
    }

    /// The stored colour count.
    pub fn color_count(&self) -> (r: u8)
        ensures
            r == self.color_count,
    {
        self.color_count
    }

    /// The first 16-bit field: the hotspot's x co-ordinate.
    pub fn planes_or_hotx(&self) -> (r: u16)
        ensures
            r == self.hotspot.x,
    {
        self.hotspot.x
    }

    /// The second 16-bit field: the hotspot's y co-ordinate.
    pub fn depth_or_hoty(&self) -> (r: u16)
        ensures
            r == self.hotspot.y,
    {
        self.hotspot.y
    }

    fn raw(&self) -> (r: RawDirEntry)
        ensures
            r == cursor_raw(*self),
    {
        RawDirEntry {
            width: self.width,
            height: self.height,
            color_count: self.color_count,
            planes_or_hotx: self.hotspot.x,
            depth_or_hoty: self.hotspot.y,
        }
    }
}

impl CursorDir {
    /// Reads a CUR directory from `input`.
    ///
    /// Fails as `read_impl` does, with the resource type of CUR files (2).
    pub fn read(input: &[u8]) -> (r: Result<Self, ReadError>)
        requires
            !(read_dir(input@, 2) is Ok && declared_count(input@) == 65535),
        ensures
            match read_dir(input@, 2) {
                Ok(es) => r matches Ok(d) && cursor_dir_model(d.0@) == es,
                Err(e) => r == Err::<CursorDir, ReadError>(e),
            },
    {
        match read_impl(input, 2) {
            Err(e) => Err(e),
            Ok(raws) => {
                let ghost es = crate::formats::containers::ico::common::dir_model(raws@);
                let mut raws = raws;
                let mut entries: Vec<(CursorDirEntry, Vec<u8>)> = Vec::new();
                while raws.len() > 0
                    invariant
                        es.len() == entries@.len() + raws@.len(),
                        forall|k: int| 0 <= k < entries@.len() ==> cursor_raw((#[trigger] entries@[k]).0) == es[k].0
                            && entries@[k].1@ == es[k].1,
                        forall|k: int| 0 <= k < raws@.len() ==> (#[trigger] raws@[k]).0 == es[entries@.len() + k].0
                            && raws@[k].1@ == es[entries@.len() + k].1,
                    decreases raws@.len(),
                {
                    let (raw, data) = raws.remove(0);
                    let entry = CursorDirEntry::new(
                        raw.width,
                        raw.height,
                        raw.color_count,
                        raw.planes_or_hotx,
                        raw.depth_or_hoty,
                    );
                    entries.push((entry, data));
                }
                assert(cursor_dir_model(entries@) =~= es);
                Ok(CursorDir(entries))
            },
        }
    }

    /// Writes a CUR file to `out`, returning how many bytes were written.
    pub fn write(self, out: &mut Vec<u8>) -> (n: usize)
        requires
            offsets_fit(cursor_dir_model(self.0@)),
            dir_size(cursor_dir_model(self.0@)) <= usize::MAX,
        ensures
            final(out)@ == old(out)@ + dir_encoding(2, cursor_dir_model(self.0@)),
            n == dir_size(cursor_dir_model(self.0@)),
    {
        let ghost es = cursor_dir_model(self.0@);
        let mut entries = self.0;
        let mut raws: Vec<(RawDirEntry, Vec<u8>)> = Vec::new();
        let ghost total = entries@.len();
        while entries.len() > 0
            invariant
                es.len() == raws@.len() + entries@.len(),
                forall|k: int| 0 <= k < raws@.len() ==> #[trigger] raws@[k].0 == es[k].0 && raws@[k].1@ == es[k].1,
                forall|k: int| 0 <= k < entries@.len() ==> cursor_raw((#[trigger] entries@[k]).0) == es[raws@.len() + k].0
                    && entries@[k].1@ == es[raws@.len() + k].1,
            decreases entries@.len(),
        {
            let (entry, data) = entries.remove(0);
            let raw = entry.raw();
            raws.push((raw, data));
        }
        assert(crate::formats::containers::ico::common::dir_model(raws@) =~= es);
        write_impl(out, 2, raws)
    }

    /// Returns how many bytes [`write`] writes.
    ///
    /// [`write`]: Self::write
    pub fn exact_size(&self) -> (n: usize)
        requires
            dir_size(cursor_dir_model(self.0@)) <= usize::MAX,
        ensures
            n == dir_size(cursor_dir_model(self.0@)),
    {
        proof {
            lemma_total_data_len(cursor_dir_model(self.0@), self.0@);
        }
        exact_size_impl(self.0.as_slice())
    }
}

} // verus!
