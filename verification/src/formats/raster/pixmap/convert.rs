//! Conversions between the pixmap layouts that need no luminance
//! computation: into colour, colour with alpha, and indexed pixmaps, and
//! between the two greyscale layouts.

use super::layouts::{trns_view, IndexedPixmap, LumaAlphaPixmap, LumaPixmap, RgbAlphaPixmap, RgbPixmap};
use super::palette::{
    colour_set_index_of, colour_set_insert_full, colour_set_into_vec, colour_set_items,
    colour_set_with_capacity, first_occurrences, index_colours, lemma_first_occurrences,
    lemma_position_of, palette_index_of, position_of, rgb_key,
};
use super::pixel::{
    IntoNonPalettePixel, LumaAlphaPixel, LumaPixel, PaletteIndex, Pixel, RgbAlphaPixel, RgbPixel,
};
use super::Pixmap;
use vstd::prelude::*;

verus! {

/// The colour of each pixel.
pub open spec fn rgb_pixels<P: IntoNonPalettePixel>(s: Seq<P>) -> Seq<RgbPixel> {
    s.map_values(|p: P| p.rgb_of())
}

/// A pixel as colour with alpha.
pub open spec fn rgb_alpha_of<P: IntoNonPalettePixel>(p: P) -> RgbAlphaPixel {
    RgbAlphaPixel { r: p.rgb_of().r, g: p.rgb_of().g, b: p.rgb_of().b, a: p.alpha_of() }
}

/// Each pixel as colour with alpha.
pub open spec fn rgb_alpha_pixels<P: IntoNonPalettePixel>(s: Seq<P>) -> Seq<RgbAlphaPixel> {
    s.map_values(|p: P| rgb_alpha_of(p))
}

/// The palette index of each colour.
pub open spec fn palette_indexes(palette: Seq<RgbPixel>, colours: Seq<RgbPixel>) -> Seq<PaletteIndex> {
    colours.map_values(|c: RgbPixel| palette_index_of(palette, c))
}

/// The pixels of `s` whose alpha is `a`, in order.
pub open spec fn with_alpha(s: Seq<RgbAlphaPixel>, a: u8) -> Seq<RgbAlphaPixel> {
    s.filter(|p: RgbAlphaPixel| p.a == a)
}

/// The pixels of `s` whose alpha is below `n`: those of alpha 0, then those
/// of alpha 1, and so on, each group in the order of `s`.
pub open spec fn sorted_by_alpha_below(s: Seq<RgbAlphaPixel>, n: int) -> Seq<RgbAlphaPixel>
    decreases n,
{
    if n <= 0 {
        Seq::empty()
    } else {
        sorted_by_alpha_below(s, n - 1) + with_alpha(s, (n - 1) as u8)
    }
}

/// The pixels of `s` stably sorted by alpha, most transparent first.
pub open spec fn sorted_by_alpha(s: Seq<RgbAlphaPixel>) -> Seq<RgbAlphaPixel> {
    sorted_by_alpha_below(s, 256)
}

/// The alpha of each pixel whose colour no earlier pixel has, where that
/// alpha is not opaque: the alphas of the palette entries, in palette order.
pub open spec fn new_colour_alphas(s: Seq<RgbAlphaPixel>) -> Seq<u8>
    decreases s.len(),
{
    if s.len() == 0 {
        Seq::empty()
    } else {
        let before = s.drop_last();
        let p = s.last();
        if !rgb_pixels(before).contains(p.rgb_of()) && p.a != u8::MAX {
            new_colour_alphas(before).push(p.a)
        } else {
            new_colour_alphas(before)
        }
    }
}

/// The alpha that an indexed pixmap gives a palette index: its entry in the
/// alphas where there is one, else opaque.
pub open spec fn palette_alpha(trns: Option<Seq<u8>>, i: u8) -> u8 {
    match trns {
        Some(t) => if i < t.len() {
            t[i as int]
        } else {
            u8::MAX
        },
        None => u8::MAX,
    }
}

/// The colour and alpha that a palette index stands for.
pub open spec fn indexed_colour(palette: Seq<RgbPixel>, trns: Option<Seq<u8>>, p: PaletteIndex) -> RgbAlphaPixel {
    RgbAlphaPixel {
        r: palette[p.i as int].r,
        g: palette[p.i as int].g,
        b: palette[p.i as int].b,
        a: palette_alpha(trns, p.i),
    }
}

/// `m` is the indexed form of the colours `c`: its palette the distinct
/// colours in order of first occurrence, each pixel the index of its colour,
/// no alphas.
pub open spec fn indexed_from(m: IndexedPixmap, c: Seq<RgbPixel>) -> bool {
    &&& m.spec_palette() == first_occurrences(c)
    &&& m.spec_pixels() == palette_indexes(m.spec_palette(), c)
    &&& m.spec_trns() == None::<Seq<u8>>
}

/// `m` is the indexed form of the pixels `s`: its palette the distinct
/// colours of `s` sorted by alpha, each pixel the index of its colour, and
/// as alphas those of the palette entries that are not opaque.
pub open spec fn indexed_from_alpha(m: IndexedPixmap, s: Seq<RgbAlphaPixel>) -> bool {
    &&& m.spec_palette() == first_occurrences(rgb_pixels(sorted_by_alpha(s)))
    &&& m.spec_pixels() == palette_indexes(m.spec_palette(), rgb_pixels(s))
    &&& m.spec_trns() == Some(new_colour_alphas(sorted_by_alpha(s)))
}

/// Every index of an indexed pixmap points into its palette.
pub open spec fn indexes_in_palette(m: IndexedPixmap) -> bool {
    forall|k: int| 0 <= k < m.spec_pixels().len() ==> #[trigger] m.spec_pixels()[k].i < m.spec_palette().len()
}

proof fn lemma_filter_take<A>(s: Seq<A>, pred: spec_fn(A) -> bool, i: int)
    requires
        0 <= i < s.len(),
    ensures
        s.take(i + 1).filter(pred) == if pred(s[i]) {
            s.take(i).filter(pred).push(s[i])
        } else {
            s.take(i).filter(pred)
        },
{
    reveal(Seq::filter);
    assert(s.take(i + 1).drop_last() =~= s.take(i));
}

/// Every pixel of `s` of alpha below `n` is among the sorted pixels.
proof fn lemma_sorted_by_alpha_contains(s: Seq<RgbAlphaPixel>, n: int, k: int)
    requires
        0 <= k < s.len(),
        s[k].a < n <= 256,
    ensures
        sorted_by_alpha_below(s, n).contains(s[k]),
    decreases n,
{
    broadcast use vstd::seq_lib::group_filter_ensures;

    let prev = sorted_by_alpha_below(s, n - 1);
    let group = with_alpha(s, (n - 1) as u8);
    assert(sorted_by_alpha_below(s, n) == prev + group);
    if s[k].a == n - 1 {
        assert(group.contains(s[k]));
        let j = choose|j: int| 0 <= j < group.len() && group[j] == s[k];
        assert((prev + group)[prev.len() + j] == s[k]);
    } else {
        lemma_sorted_by_alpha_contains(s, n - 1, k);
        let j = choose|j: int| 0 <= j < prev.len() && prev[j] == s[k];
        assert((prev + group)[j] == s[k]);
    }
}

/// The pixels stably sorted by alpha.
fn sort_by_alpha(pixels: &Vec<RgbAlphaPixel>) -> (out: Vec<RgbAlphaPixel>)
    ensures
        out@ == sorted_by_alpha(pixels@),
{
    let mut out: Vec<RgbAlphaPixel> = Vec::with_capacity(pixels.len());
    let mut a: u16 = 0;
    while a < 256
        invariant
            a <= 256,
            out@ == sorted_by_alpha_below(pixels@, a as int),
        decreases 256 - a,
    {
        let ghost base = out@;
        let alpha = a as u8;
        let mut i: usize = 0;
        while i < pixels.len()
            invariant
                i <= pixels@.len(),
                alpha == a,
                out@ == base + pixels@.take(i as int).filter(|p: RgbAlphaPixel| p.a == alpha),
            decreases pixels@.len() - i,
        {
            proof {
                lemma_filter_take(pixels@, |p: RgbAlphaPixel| p.a == alpha, i as int);
            }
            let p = pixels[i];
            if p.a == alpha {
                out.push(p);
            }
            i = i + 1;
        }
        proof {
            assert(pixels@.take(pixels@.len() as int) =~= pixels@);
            assert(out@ =~= sorted_by_alpha_below(pixels@, a + 1));
        }
        a = a + 1;
    }
    out
}

/// The colour of each pixel.
fn colours_of<P: Pixel + IntoNonPalettePixel>(pixels: &Vec<P>) -> (out: Vec<RgbPixel>)
    ensures
        out@ == rgb_pixels(pixels@),
{
    let mut out: Vec<RgbPixel> = Vec::with_capacity(pixels.len());
    let mut i: usize = 0;
    while i < pixels.len()
        invariant
            i <= pixels@.len(),
            out@ == rgb_pixels(pixels@.take(i as int)),
        decreases pixels@.len() - i,
    {
        let p = pixels[i].into_rgb();
        out.push(p);
        proof {
            assert(out@ =~= rgb_pixels(pixels@.take(i + 1)));
        }
        i = i + 1;
    }
    proof {
        assert(pixels@.take(pixels@.len() as int) =~= pixels@);
    }
    out
}

/// Each pixel as colour with alpha.
fn colours_with_alpha_of<P: Pixel + IntoNonPalettePixel>(pixels: &Vec<P>) -> (out: Vec<RgbAlphaPixel>)
    ensures
        out@ == rgb_alpha_pixels(pixels@),
{
    let mut out: Vec<RgbAlphaPixel> = Vec::with_capacity(pixels.len());
    let mut i: usize = 0;
    while i < pixels.len()
        invariant
            i <= pixels@.len(),
            out@ == rgb_alpha_pixels(pixels@.take(i as int)),
        decreases pixels@.len() - i,
    {
        let p = pixels[i].into_rgb_alpha();
        out.push(p);
        proof {
            assert(out@ =~= rgb_alpha_pixels(pixels@.take(i + 1)));
        }
        i = i + 1;
    }
    proof {
        assert(pixels@.take(pixels@.len() as int) =~= pixels@);
    }
    out
}

/// The palette of the pixels sorted by alpha, the alphas of its entries
/// that are not opaque, and the index of each pixel in the palette.
fn index_colours_by_alpha(pixels: &Vec<RgbAlphaPixel>) -> (r: (Vec<RgbPixel>, Vec<u8>, Vec<PaletteIndex>))
    ensures
        r.0@ == first_occurrences(rgb_pixels(sorted_by_alpha(pixels@))),
        r.1@ == new_colour_alphas(sorted_by_alpha(pixels@)),
        r.2@ == palette_indexes(r.0@, rgb_pixels(pixels@)),
{
    let sorted = sort_by_alpha(pixels);
    let ghost colours = rgb_pixels(sorted@);
    let mut set = colour_set_with_capacity(255);
    let mut trns: Vec<u8> = Vec::with_capacity(255);
    let mut i: usize = 0;
    while i < sorted.len()
        invariant
            i <= sorted@.len(),
            colours == rgb_pixels(sorted@),
            colour_set_items(set) == first_occurrences(colours.take(i as int)).map_values(|p: RgbPixel| rgb_key(p)),
            trns@ == new_colour_alphas(sorted@.take(i as int)),
        decreases sorted@.len() - i,
    {
        let pixel = sorted[i];
        let alpha = pixel.a;
        let c = pixel.into_rgb();
        let ghost before = first_occurrences(colours.take(i as int));
        proof {
            lemma_first_occurrences(colours.take(i as int));
            assert(colours.take(i as int + 1).drop_last() =~= colours.take(i as int));
            assert(sorted@.take(i as int + 1).drop_last() =~= sorted@.take(i as int));
            assert(rgb_pixels(sorted@.take(i as int)) =~= colours.take(i as int));
            assert(before.contains(c) <==> colour_set_items(set).contains(rgb_key(c))) by {
                if before.contains(c) {
                    let k = choose|k: int| 0 <= k < before.len() && before[k] == c;
                    assert(colour_set_items(set)[k] == rgb_key(c));
                }
                if colour_set_items(set).contains(rgb_key(c)) {
                    let k = choose|k: int|
                        0 <= k < colour_set_items(set).len() && colour_set_items(set)[k] == rgb_key(c);
                    assert(rgb_key(before[k]) == rgb_key(c));
                }
            }
        }
        let (_, inserted) = colour_set_insert_full(&mut set, (c.r, c.g, c.b));
        if alpha != u8::MAX && inserted {
            trns.push(alpha);
        }
        proof {
            assert(colour_set_items(set) =~= first_occurrences(colours.take(i as int + 1)).map_values(
                |p: RgbPixel| rgb_key(p),
            ));
        }
        i = i + 1;
    }
    proof {
        assert(colours.take(colours.len() as int) =~= colours);
        assert(sorted@.take(sorted@.len() as int) =~= sorted@);
        lemma_first_occurrences(colours);
    }
    let ghost palette = first_occurrences(colours);
    let mut indexes: Vec<PaletteIndex> = Vec::with_capacity(pixels.len());
    let mut k: usize = 0;
    while k < pixels.len()
        invariant
            k <= pixels@.len(),
            colours == rgb_pixels(sorted@),
            sorted@ == sorted_by_alpha(pixels@),
            palette == first_occurrences(colours),
            palette.no_duplicates(),
            forall|a: RgbPixel| #[trigger] palette.contains(a) <==> colours.contains(a),
            colour_set_items(set) == palette.map_values(|p: RgbPixel| rgb_key(p)),
            indexes@ == palette_indexes(palette, rgb_pixels(pixels@.take(k as int))),
        decreases pixels@.len() - k,
    {
        let c = pixels[k].into_rgb();
        proof {
            lemma_sorted_by_alpha_contains(pixels@, 256, k as int);
            let j = choose|j: int| 0 <= j < sorted@.len() && sorted@[j] == pixels@[k as int];
            assert(colours[j] == c);
            assert(palette.contains(c));
            let m = choose|m: int| 0 <= m < palette.len() && palette[m] == c;
            assert(colour_set_items(set)[m] == rgb_key(c));
        }
        let found = colour_set_index_of(&set, &(c.r, c.g, c.b));
        let index = found.unwrap();
        proof {
            assert(rgb_key(palette[index as int]) == rgb_key(c));
            lemma_position_of(palette, index as int);
        }
        indexes.push(PaletteIndex { i: (index % 256) as u8 });
        proof {
            assert(indexes@ =~= palette_indexes(palette, rgb_pixels(pixels@.take(k as int + 1))));
        }
        k = k + 1;
    }
    let items = colour_set_into_vec(set);
    let mut colours_out: Vec<RgbPixel> = Vec::with_capacity(items.len());
    let mut n: usize = 0;
    while n < items.len()
        invariant
            n <= items@.len(),
            items@ == palette.map_values(|p: RgbPixel| rgb_key(p)),
            colours_out@ == palette.take(n as int),
        decreases items@.len() - n,
    {
        let (r, g, b) = items[n];
        proof {
            assert(rgb_key(palette[n as int]) == (r, g, b));
        }
        colours_out.push(RgbPixel { r, g, b });
        proof {
            assert(colours_out@ =~= palette.take(n as int + 1));
        }
        n = n + 1;
    }
    proof {
        assert(colours_out@ =~= palette);
        assert(pixels@.take(pixels@.len() as int) =~= pixels@);
    }
    (colours_out, trns, indexes)
}

/// Indexing colours and reading the indexes back through the palette gives
/// back the colours, as long as there are no more than 256 of them.
pub proof fn lemma_indexed_roundtrip(colours: Seq<RgbPixel>)
    requires
        first_occurrences(colours).len() <= 256,
    ensures
        palette_indexes(first_occurrences(colours), colours).map_values(
            |p: PaletteIndex| first_occurrences(colours)[p.i as int],
        ) == colours,
{
    let d = first_occurrences(colours);
    lemma_first_occurrences(colours);
    let back = palette_indexes(d, colours).map_values(|p: PaletteIndex| d[p.i as int]);
    assert forall|k: int| 0 <= k < colours.len() implies back[k] == colours[k] by {
        let c = colours[k];
        assert(colours.contains(c));
        assert(d.contains(c));
        let j = choose|j: int| 0 <= j < d.len() && d[j] == c;
        lemma_position_of(d, j);
        assert(position_of(d, c) == j);
        assert(j % 256 == j);
    }
    assert(back =~= colours);
}

/// The alpha that the alphas `t` give the palette entry at place `j`: its
/// entry where there is one, else opaque.
pub open spec fn alpha_at(t: Seq<u8>, j: int) -> u8 {
    if j < t.len() {
        t[j]
    } else {
        u8::MAX
    }
}

/// Each colour of `s` comes with one alpha.
pub open spec fn alpha_follows_colour(s: Seq<RgbAlphaPixel>) -> bool {
    forall|i: int, j: int|
        0 <= i < s.len() && 0 <= j < s.len() && #[trigger] s[i].rgb_of() == #[trigger] s[j].rgb_of() ==> s[i].a
            == s[j].a
}

/// The pixels of `s` are ordered by alpha, most transparent first.
pub open spec fn alpha_ascending(s: Seq<RgbAlphaPixel>) -> bool {
    forall|i: int, j: int| 0 <= i < j < s.len() ==> #[trigger] s[i].a <= #[trigger] s[j].a
}

/// The pixels sorted by alpha below `n` are pixels of `s`, of alpha below
/// `n`, in ascending alpha.
proof fn lemma_sorted_by_alpha_below(s: Seq<RgbAlphaPixel>, n: int)
    requires
        0 <= n <= 256,
    ensures
        alpha_ascending(sorted_by_alpha_below(s, n)),
        forall|i: int|
            0 <= i < sorted_by_alpha_below(s, n).len() ==> #[trigger] s.contains(
                sorted_by_alpha_below(s, n)[i],
            ) && sorted_by_alpha_below(s, n)[i].a < n,
    decreases n,
{
    broadcast use vstd::seq_lib::group_filter_ensures;

    if n > 0 {
        let prev = sorted_by_alpha_below(s, n - 1);
        let pred = |p: RgbAlphaPixel| p.a == (n - 1) as u8;
        let group = s.filter(pred);
        lemma_sorted_by_alpha_below(s, n - 1);
        let t = sorted_by_alpha_below(s, n);
        assert(t == prev + group);
        assert forall|i: int| 0 <= i < group.len() implies #[trigger] s.contains(group[i]) && group[i].a == n - 1 by {
            assert(pred(group[i]));
            assert(group.contains(group[i]));
            s.lemma_filter_contains_rev(pred, group[i]);
        }
        assert forall|i: int| 0 <= i < t.len() implies #[trigger] s.contains(t[i]) && t[i].a < n by {
            if i < prev.len() {
                assert(t[i] == prev[i]);
            } else {
                assert(t[i] == group[i - prev.len()]);
            }
        }
        assert forall|i: int, j: int| 0 <= i < j < t.len() implies #[trigger] t[i].a <= #[trigger] t[j].a by {
            if j < prev.len() {
                assert(t[i] == prev[i] && t[j] == prev[j]);
            } else if i < prev.len() {
                assert(t[i] == prev[i] && t[j] == group[j - prev.len()]);
                assert(s.contains(prev[i]));
                assert(s.contains(group[j - prev.len()]));
            } else {
                assert(t[i] == group[i - prev.len()] && t[j] == group[j - prev.len()]);
                assert(s.contains(group[i - prev.len()]));
                assert(s.contains(group[j - prev.len()]));
            }
        }
    }
}

/// In pixels ordered by alpha where each colour has one alpha, the alphas
/// of the new colours line up with the palette: each pixel's palette entry
/// has the pixel's alpha.
proof fn lemma_new_colour_alphas(u: Seq<RgbAlphaPixel>)
    requires
        alpha_ascending(u),
        alpha_follows_colour(u),
    ensures
        new_colour_alphas(u).len() <= first_occurrences(rgb_pixels(u)).len(),
        forall|i: int|
            0 <= i < u.len() ==> alpha_at(
                new_colour_alphas(u),
                position_of(first_occurrences(rgb_pixels(u)), #[trigger] u[i].rgb_of()),
            ) == u[i].a,
    decreases u.len(),
{
    if u.len() > 0 {
        let v = u.drop_last();
        let p = u.last();
        let c = p.rgb_of();
        let n = u.len() - 1;
        lemma_new_colour_alphas(v);
        assert(rgb_pixels(v) =~= rgb_pixels(u).drop_last());
        let d = first_occurrences(rgb_pixels(v));
        let f = first_occurrences(rgb_pixels(u));
        let t0 = new_colour_alphas(v);
        let t = new_colour_alphas(u);
        lemma_first_occurrences(rgb_pixels(v));
        lemma_first_occurrences(rgb_pixels(u));
        assert(f == if d.contains(c) {
            d
        } else {
            d.push(c)
        });
        assert(d.contains(c) <==> rgb_pixels(v).contains(c));
        assert forall|i: int| 0 <= i < n implies #[trigger] d.contains(u[i].rgb_of()) by {
            assert(rgb_pixels(v)[i] == u[i].rgb_of());
        }
        if d.contains(c) {
            let i0 = choose|i0: int| 0 <= i0 < rgb_pixels(v).len() && rgb_pixels(v)[i0] == c;
            assert(u[i0].rgb_of() == v[i0].rgb_of());
            assert(u[i0].a == p.a);
            assert forall|i: int| 0 <= i < u.len() implies alpha_at(
                t,
                position_of(f, #[trigger] u[i].rgb_of()),
            ) == u[i].a by {
                if i < n {
                    assert(u[i] == v[i]);
                } else {
                    assert(v[i0] == u[i0]);
                }
            }
        } else {
            assert forall|i: int| 0 <= i < n implies position_of(f, #[trigger] u[i].rgb_of()) == position_of(
                d,
                u[i].rgb_of(),
            ) && 0 <= position_of(d, u[i].rgb_of()) < d.len() by {
                let x = u[i].rgb_of();
                assert(d.contains(x));
                let m = choose|m: int| 0 <= m < d.len() && d[m] == x;
                lemma_position_of(d, m);
                assert(f[m] == x);
                lemma_position_of(f, m);
            }
            assert(f[d.len() as int] == c);
            lemma_position_of(f, d.len() as int);
            if p.a != u8::MAX {
                assert(t == t0.push(p.a));
                if t0.len() < d.len() {
                    let j0 = t0.len() as int;
                    let x = d[j0];
                    assert(d.contains(x));
                    let i0 = choose|i0: int| 0 <= i0 < rgb_pixels(v).len() && rgb_pixels(v)[i0] == x;
                    lemma_position_of(d, j0);
                    assert(v[i0].rgb_of() == x);
                    assert(alpha_at(t0, position_of(d, v[i0].rgb_of())) == v[i0].a);
                    assert(u[i0] == v[i0]);
                    assert(u[i0].a <= u[n].a);
                    assert(false);
                }
                assert(t0.len() == d.len());
                assert forall|i: int| 0 <= i < u.len() implies alpha_at(
                    t,
                    position_of(f, #[trigger] u[i].rgb_of()),
                ) == u[i].a by {
                    if i < n {
                        assert(u[i] == v[i]);
                        assert(v[i].rgb_of() == u[i].rgb_of());
                        let j = position_of(d, v[i].rgb_of());
                        assert(position_of(f, u[i].rgb_of()) == j && 0 <= j < d.len());
                        assert(alpha_at(t0, j) == v[i].a);
                        assert(t[j] == t0[j]);
                    } else {
                        assert(u[i].rgb_of() == c);
                        assert(position_of(f, c) == d.len());
                        assert(t[t0.len() as int] == p.a);
                    }
                }
            } else {
                assert(t == t0);
                assert forall|i: int| 0 <= i < u.len() implies alpha_at(
                    t,
                    position_of(f, #[trigger] u[i].rgb_of()),
                ) == u[i].a by {
                    if i < n {
                        assert(u[i] == v[i]);
                        assert(v[i].rgb_of() == u[i].rgb_of());
                    }
                }
            }
        }
    }
}

/// Two sequences without duplicates that hold the same elements are equally
/// long.
proof fn lemma_same_elements_len<A>(a: Seq<A>, b: Seq<A>)
    requires
        a.no_duplicates(),
        b.no_duplicates(),
        forall|x: A| a.contains(x) <==> b.contains(x),
    ensures
        a.len() == b.len(),
{
    a.unique_seq_to_set();
    b.unique_seq_to_set();
    assert(a.to_set() =~= b.to_set());
}

/// An indexed pixmap made from colours, no more than 256 of them distinct,
/// reads back through its palette as those colours, and each of its indexes
/// points into the palette.
pub proof fn lemma_indexed_rgb_roundtrip(m: IndexedPixmap, c: Seq<RgbPixel>)
    requires
        indexed_from(m, c),
        first_occurrences(c).len() <= 256,
    ensures
        m.spec_palette().no_duplicates(),
        m.spec_palette().len() == first_occurrences(c).len(),
        indexes_in_palette(m),
        m.spec_pixels().map_values(|p: PaletteIndex| m.spec_palette()[p.i as int]) == c,
{
    lemma_indexed_roundtrip(c);
    let d = first_occurrences(c);
    lemma_first_occurrences(c);
    assert forall|k: int| 0 <= k < m.spec_pixels().len() implies #[trigger] m.spec_pixels()[k].i < m.spec_palette().len() by {
        assert(c.contains(c[k]));
        let j = choose|j: int| 0 <= j < d.len() && d[j] == c[k];
        lemma_position_of(d, j);
        assert(j % 256 == j);
    }
}

/// An indexed pixmap made from colours with alpha, where each colour comes
/// with one alpha and no more than 256 are distinct, reads back through its
/// palette and alphas as those pixels, and each of its indexes points into
/// the palette.
pub proof fn lemma_indexed_alpha_roundtrip(m: IndexedPixmap, s: Seq<RgbAlphaPixel>)
    requires
        indexed_from_alpha(m, s),
        first_occurrences(rgb_pixels(s)).len() <= 256,
        alpha_follows_colour(s),
    ensures
        m.spec_palette().no_duplicates(),
        m.spec_palette().len() == first_occurrences(rgb_pixels(s)).len(),
        indexes_in_palette(m),
        m.spec_pixels().map_values(|p: PaletteIndex| indexed_colour(m.spec_palette(), m.spec_trns(), p)) == s,
{
    let t = sorted_by_alpha(s);
    let d = first_occurrences(rgb_pixels(t));
    let alphas = new_colour_alphas(t);
    lemma_sorted_by_alpha_below(s, 256);
    lemma_first_occurrences(rgb_pixels(s));
    lemma_first_occurrences(rgb_pixels(t));
    assert forall|x: RgbPixel| rgb_pixels(t).contains(x) <==> rgb_pixels(s).contains(x) by {
        if rgb_pixels(t).contains(x) {
            let i = choose|i: int| 0 <= i < rgb_pixels(t).len() && rgb_pixels(t)[i] == x;
            assert(s.contains(t[i]));
            let k = choose|k: int| 0 <= k < s.len() && s[k] == t[i];
            assert(rgb_pixels(s)[k] == x);
        }
        if rgb_pixels(s).contains(x) {
            let k = choose|k: int| 0 <= k < rgb_pixels(s).len() && rgb_pixels(s)[k] == x;
            lemma_sorted_by_alpha_contains(s, 256, k);
            let i = choose|i: int| 0 <= i < t.len() && t[i] == s[k];
            assert(rgb_pixels(t)[i] == x);
        }
    }
    assert forall|x: RgbPixel| d.contains(x) <==> first_occurrences(rgb_pixels(s)).contains(x) by {
        if d.contains(x) {
            assert(rgb_pixels(t).contains(x));
        }
        if first_occurrences(rgb_pixels(s)).contains(x) {
            assert(rgb_pixels(s).contains(x));
        }
    }
    lemma_same_elements_len(d, first_occurrences(rgb_pixels(s)));
    lemma_first_occurrences(rgb_pixels(t));
    assert forall|i: int, j: int|
        0 <= i < t.len() && 0 <= j < t.len() && #[trigger] t[i].rgb_of() == #[trigger] t[j].rgb_of() implies t[i].a
        == t[j].a by {
        assert(s.contains(t[i]) && s.contains(t[j]));
        let ki = choose|k: int| 0 <= k < s.len() && s[k] == t[i];
        let kj = choose|k: int| 0 <= k < s.len() && s[k] == t[j];
        assert(s[ki].rgb_of() == s[kj].rgb_of());
    }
    lemma_new_colour_alphas(t);
    let back = m.spec_pixels().map_values(|p: PaletteIndex| indexed_colour(m.spec_palette(), m.spec_trns(), p));
    assert forall|k: int| 0 <= k < s.len() implies #[trigger] m.spec_pixels()[k].i < m.spec_palette().len()
        && back[k] == s[k] by {
        lemma_sorted_by_alpha_contains(s, 256, k);
        let i = choose|i: int| 0 <= i < t.len() && t[i] == s[k];
        let x = s[k].rgb_of();
        assert(rgb_pixels(t)[i] == x);
        assert(rgb_pixels(t).contains(x));
        let j = choose|j: int| 0 <= j < d.len() && d[j] == x;
        lemma_position_of(d, j);
        assert(j % 256 == j);
        assert(rgb_pixels(s)[k] == x);
        assert(alpha_at(alphas, position_of(d, t[i].rgb_of())) == t[i].a);
    }
    assert(back =~= s);
}

/// A greyscale pixmap made opaque and then stripped of its alpha is the
/// pixmap it was.
pub proof fn lemma_luma_alpha_roundtrip(s: Seq<LumaPixel>)
    ensures
        s.map_values(|p: LumaPixel| LumaAlphaPixel { y: p.y, a: u8::MAX }).map_values(
            |p: LumaAlphaPixel| LumaPixel { y: p.y },
        ) == s,
{
    assert(s.map_values(|p: LumaPixel| LumaAlphaPixel { y: p.y, a: u8::MAX }).map_values(
        |p: LumaAlphaPixel| LumaPixel { y: p.y },
    ) =~= s);
}

/// Conversions of a pixmap into the colour layouts.
pub trait IntoPixmap: Sized {
    /// The pixmap holds exactly its width times its height pixels.
    spec fn sized(&self) -> bool;

    /// Every pixel can be converted: the pixmap is sized, and, for an
    /// indexed pixmap, every index lies in its palette.
    spec fn convertible(&self) -> bool;

    /// Converts the value to an `RgbPixmap`.
    fn into_rgb(self) -> (m: RgbPixmap)
        requires
            self.convertible(),
    ;

    /// Converts the value to an `RgbAlphaPixmap`.
    fn into_rgb_alpha(self) -> (m: RgbAlphaPixmap)
        requires
            self.convertible(),
    ;

    /// Converts the value to an `IndexedPixmap`.
    fn into_indexed(self) -> (m: IndexedPixmap)
        requires
            self.sized(),
    ;
}


impl IntoPixmap for LumaPixmap {
    open spec fn sized(&self) -> bool {
        self.spec_pixels().len() == self.spec_width() * self.spec_height()
    }

    open spec fn convertible(&self) -> bool {
        self.sized()
    }

    fn into_rgb(self) -> (m: RgbPixmap)
        ensures
            m.spec_width() == self.spec_width(),
            m.spec_height() == self.spec_height(),
            m.spec_pixels() == rgb_pixels(self.spec_pixels()),
    {
        let (width, height) = self.dimensions();
        let pixels = colours_of(self.pixels());
        RgbPixmap::from_parts(width, height, pixels)
    }

    fn into_rgb_alpha(self) -> (m: RgbAlphaPixmap)
        ensures
            m.spec_width() == self.spec_width(),
            m.spec_height() == self.spec_height(),
            m.spec_pixels() == rgb_alpha_pixels(self.spec_pixels()),
    {
        let (width, height) = self.dimensions();
        let pixels = colours_with_alpha_of(self.pixels());
        RgbAlphaPixmap::from_parts(width, height, pixels)
    }

    fn into_indexed(self) -> (m: IndexedPixmap)
        ensures
            m.spec_width() == self.spec_width(),
            m.spec_height() == self.spec_height(),
            indexed_from(m, rgb_pixels(self.spec_pixels())),
    {
        let (width, height) = self.dimensions();
        let colours = colours_of(self.pixels());
        let (palette, indexes) = index_colours(&colours);
        proof {
            assert(indexes@ =~= palette_indexes(palette@, colours@));
        }
        IndexedPixmap::from_parts(width, height, indexes, palette, None)
    }
}

impl IntoPixmap for LumaAlphaPixmap {
    open spec fn sized(&self) -> bool {
        self.spec_pixels().len() == self.spec_width() * self.spec_height()
    }

    open spec fn convertible(&self) -> bool {
        self.sized()
    }

    fn into_rgb(self) -> (m: RgbPixmap)
        ensures
            m.spec_width() == self.spec_width(),
            m.spec_height() == self.spec_height(),
            m.spec_pixels() == rgb_pixels(self.spec_pixels()),
    {
        let (width, height) = self.dimensions();
        let pixels = colours_of(self.pixels());
        RgbPixmap::from_parts(width, height, pixels)
    }

    fn into_rgb_alpha(self) -> (m: RgbAlphaPixmap)
        ensures
            m.spec_width() == self.spec_width(),
            m.spec_height() == self.spec_height(),
            m.spec_pixels() == rgb_alpha_pixels(self.spec_pixels()),
    {
        let (width, height) = self.dimensions();
        let pixels = colours_with_alpha_of(self.pixels());
        RgbAlphaPixmap::from_parts(width, height, pixels)
    }

    fn into_indexed(self) -> (m: IndexedPixmap)
        ensures
            m.spec_width() == self.spec_width(),
            m.spec_height() == self.spec_height(),
            indexed_from_alpha(m, rgb_alpha_pixels(self.spec_pixels())),
    {
        self.into_rgb_alpha().into_indexed()
    }
}

impl IntoPixmap for RgbPixmap {
    open spec fn sized(&self) -> bool {
        self.spec_pixels().len() == self.spec_width() * self.spec_height()
    }

    open spec fn convertible(&self) -> bool {
        self.sized()
    }

    fn into_rgb(self) -> (m: RgbPixmap)
        ensures
            m == self,
    {
        self
    }

    fn into_rgb_alpha(self) -> (m: RgbAlphaPixmap)
        ensures
            m.spec_width() == self.spec_width(),
            m.spec_height() == self.spec_height(),
            m.spec_pixels() == rgb_alpha_pixels(self.spec_pixels()),
    {
        let (width, height) = self.dimensions();
        let pixels = colours_with_alpha_of(self.pixels());
        RgbAlphaPixmap::from_parts(width, height, pixels)
    }

    fn into_indexed(self) -> (m: IndexedPixmap)
        ensures
            m.spec_width() == self.spec_width(),
            m.spec_height() == self.spec_height(),
            indexed_from(m, rgb_pixels(self.spec_pixels())),
    {
        let (width, height) = self.dimensions();
        let colours = colours_of(self.pixels());
        let (palette, indexes) = index_colours(&colours);
        proof {
            assert(indexes@ =~= palette_indexes(palette@, colours@));
        }
        IndexedPixmap::from_parts(width, height, indexes, palette, None)
    }
}

impl IntoPixmap for RgbAlphaPixmap {
    open spec fn sized(&self) -> bool {
        self.spec_pixels().len() == self.spec_width() * self.spec_height()
    }

    open spec fn convertible(&self) -> bool {
        self.sized()
    }

    fn into_rgb(self) -> (m: RgbPixmap)
        ensures
            m.spec_width() == self.spec_width(),
            m.spec_height() == self.spec_height(),
            m.spec_pixels() == rgb_pixels(self.spec_pixels()),
    {
        let (width, height) = self.dimensions();
        let pixels = colours_of(self.pixels());
        RgbPixmap::from_parts(width, height, pixels)
    }

    fn into_rgb_alpha(self) -> (m: RgbAlphaPixmap)
        ensures
            m == self,
    {
        self
    }

    fn into_indexed(self) -> (m: IndexedPixmap)
        ensures
            m.spec_width() == self.spec_width(),
            m.spec_height() == self.spec_height(),
            indexed_from_alpha(m, self.spec_pixels()),
    {
        let (width, height) = self.dimensions();
        let (palette, trns, indexes) = index_colours_by_alpha(self.pixels());
        IndexedPixmap::from_parts(width, height, indexes, palette, Some(trns))
    }
}

impl IntoPixmap for IndexedPixmap {
    open spec fn sized(&self) -> bool {
        self.spec_pixels().len() == self.spec_width() * self.spec_height()
    }

    open spec fn convertible(&self) -> bool {
        self.sized() && indexes_in_palette(*self)
    }

    fn into_rgb(self) -> (m: RgbPixmap)
        ensures
            m.spec_width() == self.spec_width(),
            m.spec_height() == self.spec_height(),
            m.spec_pixels() == self.spec_pixels().map_values(|p: PaletteIndex| self.spec_palette()[p.i as int]),
    {
        let (width, height) = self.dimensions();
        let indexes = self.pixels();
        let palette = self.palette();
        let mut out: Vec<RgbPixel> = Vec::with_capacity(indexes.len());
        let mut k: usize = 0;
        while k < indexes.len()
            invariant
                k <= indexes@.len(),
                indexes@ == self.spec_pixels(),
                palette@ == self.spec_palette(),
                indexes_in_palette(self),
                out@ == indexes@.take(k as int).map_values(|p: PaletteIndex| palette@[p.i as int]),
            decreases indexes@.len() - k,
        {
            let i = indexes[k].i;
            let c = palette[i as usize];
            out.push(c);
            proof {
                assert(out@ =~= indexes@.take(k + 1).map_values(|p: PaletteIndex| palette@[p.i as int]));
            }
            k = k + 1;
        }
        proof {
            assert(indexes@.take(indexes@.len() as int) =~= indexes@);
        }
        RgbPixmap::from_parts(width, height, out)
    }

    fn into_rgb_alpha(self) -> (m: RgbAlphaPixmap)
        ensures
            m.spec_width() == self.spec_width(),
            m.spec_height() == self.spec_height(),
            m.spec_pixels() == self.spec_pixels().map_values(
                |p: PaletteIndex| indexed_colour(self.spec_palette(), self.spec_trns(), p),
            ),
    {
        let (width, height) = self.dimensions();
        let indexes = self.pixels();
        let palette = self.palette();
        let trns = self.trns();
        let ghost pal = self.spec_palette();
        let ghost alphas = self.spec_trns();
        let mut out: Vec<RgbAlphaPixel> = Vec::with_capacity(indexes.len());
        let mut k: usize = 0;
        while k < indexes.len()
            invariant
                k <= indexes@.len(),
                indexes@ == self.spec_pixels(),
                palette@ == self.spec_palette(),
                trns_view(*trns) == self.spec_trns(),
                pal == self.spec_palette(),
                alphas == self.spec_trns(),
                indexes_in_palette(self),
                out@ == indexes@.take(k as int).map_values(|p: PaletteIndex| indexed_colour(pal, alphas, p)),
            decreases indexes@.len() - k,
        {
            let i = indexes[k].i;
            let c = palette[i as usize];
            let alpha = match trns {
                Some(t) => if (i as usize) < t.len() {
                    t[i as usize]
                } else {
                    u8::MAX
                },
                None => u8::MAX,
            };
            out.push(RgbAlphaPixel { r: c.r, g: c.g, b: c.b, a: alpha });
            proof {
                assert(out@ =~= indexes@.take(k + 1).map_values(|p: PaletteIndex| indexed_colour(pal, alphas, p)));
            }
            k = k + 1;
        }
        proof {
            assert(indexes@.take(indexes@.len() as int) =~= indexes@);
        }
        RgbAlphaPixmap::from_parts(width, height, out)
    }

    fn into_indexed(self) -> (m: IndexedPixmap)
        ensures
            m == self,
    {
        self
    }
}

impl LumaPixmap {
    /// Converts the value to a `LumaPixmap`: the pixmap itself.
    pub fn into_luma(self) -> (m: LumaPixmap)
        ensures
            m == self,
    {
        self
    }

    /// Converts the value to a `LumaAlphaPixmap`, every pixel opaque.
    pub fn into_luma_alpha(self) -> (m: LumaAlphaPixmap)
        requires
            self.spec_pixels().len() == self.spec_width() * self.spec_height(),
        ensures
            m.spec_width() == self.spec_width(),
            m.spec_height() == self.spec_height(),
            m.spec_pixels() == self.spec_pixels().map_values(|p: LumaPixel| LumaAlphaPixel { y: p.y, a: u8::MAX }),
    {
        let (width, height) = self.dimensions();
        let pixels = self.pixels();
        let mut out: Vec<LumaAlphaPixel> = Vec::with_capacity(pixels.len());
        let mut k: usize = 0;
        while k < pixels.len()
            invariant
                k <= pixels@.len(),
                out@ == pixels@.take(k as int).map_values(|p: LumaPixel| LumaAlphaPixel { y: p.y, a: u8::MAX }),
            decreases pixels@.len() - k,
        {
            out.push(pixels[k].into_luma_alpha());
            proof {
                assert(out@ =~= pixels@.take(k + 1).map_values(|p: LumaPixel| LumaAlphaPixel { y: p.y, a: u8::MAX }));
            }
            k = k + 1;
        }
        proof {
            assert(pixels@.take(pixels@.len() as int) =~= pixels@);
        }
        LumaAlphaPixmap::from_parts(width, height, out)
    }
}

impl LumaAlphaPixmap {
    /// Converts the value to a `LumaPixmap`, dropping the alpha.
    pub fn into_luma(self) -> (m: LumaPixmap)
        requires
            self.spec_pixels().len() == self.spec_width() * self.spec_height(),
        ensures
            m.spec_width() == self.spec_width(),
            m.spec_height() == self.spec_height(),
            m.spec_pixels() == self.spec_pixels().map_values(|p: LumaAlphaPixel| LumaPixel { y: p.y }),
    {
        let (width, height) = self.dimensions();
        let pixels = self.pixels();
        let mut out: Vec<LumaPixel> = Vec::with_capacity(pixels.len());
        let mut k: usize = 0;
        while k < pixels.len()
            invariant
                k <= pixels@.len(),
                out@ == pixels@.take(k as int).map_values(|p: LumaAlphaPixel| LumaPixel { y: p.y }),
            decreases pixels@.len() - k,
        {
            out.push(pixels[k].into_luma());
            proof {
                assert(out@ =~= pixels@.take(k + 1).map_values(|p: LumaAlphaPixel| LumaPixel { y: p.y }));
            }
            k = k + 1;
        }
        proof {
            assert(pixels@.take(pixels@.len() as int) =~= pixels@);
        }
        LumaPixmap::from_parts(width, height, out)
    }

    /// Converts the value to a `LumaAlphaPixmap`: the pixmap itself.
    pub fn into_luma_alpha(self) -> (m: LumaAlphaPixmap)
        ensures
            m == self,
    {
        self
    }
}

} // verus!
