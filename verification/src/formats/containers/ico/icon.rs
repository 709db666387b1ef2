//! ICO directories, whose entries carry colour planes and bit depth.

use vstd::prelude::*;

use super::common::{
    dir_encoding, dir_model, dir_size, exact_size_impl, lemma_total_data_len, offsets_fit, write_impl,
    DirModel, RawDirEntry,
};

verus! {

/// An ICO directory: each entry with its image data.
#[derive(Debug, Clone, PartialEq, Eq)]
pub struct IconDir(pub Vec<(IconDirEntry, Vec<u8>)>);

/// An entry of an ICO directory.
#[derive(Debug, Clone, Copy, PartialEq, Eq)]
pub struct IconDirEntry {
    pub width: u8,
    pub height: u8,
    pub color_count: u8,
    pub color_planes: u16,
    pub bit_depth: u16,
}

/// The stored fields of an ICO entry.
pub open spec fn icon_raw(e: IconDirEntry) -> RawDirEntry {
    RawDirEntry {
        width: e.width,
        height: e.height,
        color_count: e.color_count,
        planes_or_hotx: e.color_planes,
        depth_or_hoty: e.bit_depth,
    }
}

/// The stored form of an ICO directory.
pub open spec fn icon_dir_model(v: Seq<(IconDirEntry, Vec<u8>)>) -> DirModel {
    v.map_values(|p: (IconDirEntry, Vec<u8>)| (icon_raw(p.0), p.1@))
}

impl IconDirEntry {
    /// The stored width (zero stands for 256 or more).
    pub fn width(&self) -> (r: u8)
        ensures
            r == self.width,
    {
        self.width
    }

    /// The stored height (zero stands for 256 or more).
    pub fn height(&self) -> (r: u8)
        ensures
            r == self.height,
    {
        self.height
    }

    /// The stored colour count.
    pub fn color_count(&self) -> (r: u8)
        ensures
            r == self.color_count,
    {
        self.color_count
    }

    /// The first 16-bit field: the colour planes.
    pub fn planes_or_hotx(&self) -> (r: u16)
        ensures
            r == self.color_planes,
    {
        self.color_planes
    }

    /// The second 16-bit field: the bit depth.
    pub fn depth_or_hoty(&self) -> (r: u16)
        ensures
            r == self.bit_depth,
    {
        self.bit_depth
    }
}

impl IconDir {
    /// Writes an ICO file to `out`, returning how many bytes were written.
    pub fn write(self, out: &mut Vec<u8>) -> (n: usize)
        requires
            offsets_fit(icon_dir_model(self.0@)),
            dir_size(icon_dir_model(self.0@)) <= usize::MAX,
        ensures
            final(out)@ == old(out)@ + dir_encoding(1, icon_dir_model(self.0@)),
            n == dir_size(icon_dir_model(self.0@)),
    {
        let ghost es = icon_dir_model(self.0@);
        let mut entries = self.0;
        let mut raws: Vec<(RawDirEntry, Vec<u8>)> = Vec::new();
        while entries.len() > 0
            invariant
                es.len() == raws@.len() + entries@.len(),
                forall|k: int| 0 <= k < raws@.len() ==> #[trigger] raws@[k].0 == es[k].0 && raws@[k].1@ == es[k].1,
                forall|k: int| 0 <= k < entries@.len() ==> icon_raw((#[trigger] entries@[k]).0) == es[raws@.len() + k].0
                    && entries@[k].1@ == es[raws@.len() + k].1,
            decreases entries@.len(),
        {
            let (e, data) = entries.remove(0);
            let raw = RawDirEntry {
                width: e.width,
                height: e.height,
                color_count: e.color_count,
                planes_or_hotx: e.color_planes,
                depth_or_hoty: e.bit_depth,
            };
            raws.push((raw, data));
        }
        assert(dir_model(raws@) =~= es);
        write_impl(out, 1, raws)
    }

    /// Returns how many bytes [`write`] writes.
    ///
    /// [`write`]: Self::write
    pub fn exact_size(&self) -> (n: usize)
        requires
            dir_size(icon_dir_model(self.0@)) <= usize::MAX,
        ensures
            n == dir_size(icon_dir_model(self.0@)),
    {
        proof {
            lemma_total_data_len(icon_dir_model(self.0@), self.0@);
        }
        exact_size_impl(self.0.as_slice())
    }
}

} // verus!
