//! Building the palette of an indexed pixmap: the distinct colours in the
//! order they are first met, held in an `indexmap::IndexSet`.

use super::pixel::{PaletteIndex, RgbPixel};
use indexmap::IndexSet;
use vstd::prelude::*;

verus! {

#[verifier::external_type_specification]
#[verifier::external_body]
#[verifier::reject_recursive_types(T)]
#[verifier::reject_recursive_types(S)]
pub struct ExIndexSet<T, S>(IndexSet<T, S>);

/// The colours an `IndexSet` of colour triples holds, in insertion order.
pub uninterp spec fn colour_set_items(s: IndexSet<(u8, u8, u8)>) -> Seq<(u8, u8, u8)>;

/// A colour as the triple that the set holds.
pub open spec fn rgb_key(p: RgbPixel) -> (u8, u8, u8) {
    (p.r, p.g, p.b)
}

/// `IndexSet::with_capacity`: a new set, empty.
#[verifier::external_body]
pub(crate) fn colour_set_with_capacity(n: usize) -> (s: IndexSet<(u8, u8, u8)>)
    ensures
        colour_set_items(s) == Seq::<(u8, u8, u8)>::empty(),
{
    IndexSet::with_capacity(n)
}

/// `IndexSet::insert_full`: where an equal item is in the set, its index
/// and `false`, the set unchanged; else the item is added at the end, and
/// the new index and `true` come back.
#[verifier::external_body]
pub(crate) fn colour_set_insert_full(s: &mut IndexSet<(u8, u8, u8)>, c: (u8, u8, u8)) -> (r: (usize, bool))
    requires
        colour_set_items(*old(s)).len() < usize::MAX,
    ensures
        colour_set_items(*old(s)).contains(c) ==> {
            &&& !r.1
            &&& r.0 < colour_set_items(*old(s)).len()
            &&& colour_set_items(*old(s))[r.0 as int] == c
            &&& colour_set_items(*final(s)) == colour_set_items(*old(s))
        },
        !colour_set_items(*old(s)).contains(c) ==> {
            &&& r.1
            &&& r.0 == colour_set_items(*old(s)).len()
            &&& colour_set_items(*final(s)) == colour_set_items(*old(s)).push(c)
        },
{
    s.insert_full(c)
}

/// `IndexSet::get_index_of`: the index of an item equal to `c`, or `None`
/// where there is none.
#[verifier::external_body]
pub(crate) fn colour_set_index_of(s: &IndexSet<(u8, u8, u8)>, c: &(u8, u8, u8)) -> (r: Option<usize>)
    ensures
        match r {
            Some(i) => i < colour_set_items(*s).len() && colour_set_items(*s)[i as int] == *c,
            None => !colour_set_items(*s).contains(*c),
        },
{
    s.get_index_of(c)
}

/// The items of an `IndexSet`, in order, by `into_iter`.
#[verifier::external_body]
pub(crate) fn colour_set_into_vec(s: IndexSet<(u8, u8, u8)>) -> (v: Vec<(u8, u8, u8)>)
    ensures
        v@ == colour_set_items(s),
{
    s.into_iter().collect()
}

/// The distinct elements of `s`, each where it first occurs.
pub open spec fn first_occurrences<A>(s: Seq<A>) -> Seq<A>
    decreases s.len(),
{
    if s.len() == 0 {
        Seq::empty()
    } else {
        let d = first_occurrences(s.drop_last());
        if d.contains(s.last()) {
            d
        } else {
            d.push(s.last())
        }
    }
}

/// The place of `a` in a sequence without duplicates that holds it.
pub open spec fn position_of<A>(d: Seq<A>, a: A) -> int {
    choose|i: int| 0 <= i < d.len() && d[i] == a
}

/// The index byte that stands for colour `c` in `palette`: its place,
/// truncated to 8 bits.
pub open spec fn palette_index_of(palette: Seq<RgbPixel>, c: RgbPixel) -> PaletteIndex {
    PaletteIndex { i: (position_of(palette, c) % 256) as u8 }
}

/// The first occurrences hold no element twice, and hold what `s` holds.
pub proof fn lemma_first_occurrences<A>(s: Seq<A>)
    ensures
        first_occurrences(s).no_duplicates(),
        forall|a: A|
            #![trigger first_occurrences(s).contains(a)]
            #![trigger s.contains(a)]
            first_occurrences(s).contains(a) <==> s.contains(a),
        first_occurrences(s).len() <= s.len(),
    decreases s.len(),
{
    if s.len() > 0 {
        let p = s.drop_last();
        let d = first_occurrences(p);
        let f = first_occurrences(s);
        lemma_first_occurrences(p);
        assert(f == if d.contains(s.last()) {
            d
        } else {
            d.push(s.last())
        });
        assert forall|a: A| f.contains(a) <==> s.contains(a) by {
            if s.contains(a) {
                let k = choose|k: int| 0 <= k < s.len() && s[k] == a;
                if k < s.len() - 1 {
                    assert(p[k] == s[k]);
                    assert(p.contains(a));
                    let m = choose|m: int| 0 <= m < d.len() && d[m] == a;
                    assert(f[m] == a);
                } else if d.contains(a) {
                    let m = choose|m: int| 0 <= m < d.len() && d[m] == a;
                    assert(f[m] == a);
                } else {
                    assert(f[f.len() - 1] == a);
                }
            }
            if f.contains(a) {
                let m = choose|m: int| 0 <= m < f.len() && f[m] == a;
                if m < d.len() {
                    assert(d[m] == a);
                    assert(d.contains(a));
                    let k = choose|k: int| 0 <= k < p.len() && p[k] == a;
                    assert(p[k] == s[k]);
                } else {
                    assert(s[s.len() - 1] == a);
                }
            }
        }
        if !d.contains(s.last()) {
            assert forall|i: int, j: int| 0 <= i < f.len() && 0 <= j < f.len() && i != j implies f[i]
                != f[j] by {
                if i == f.len() - 1 {
                    assert(d[j] == f[j]);
                } else if j == f.len() - 1 {
                    assert(d[i] == f[i]);
                }
            }
        }
    }
}

/// In a sequence without duplicates, the place of an element is the one
/// index that holds it.
pub proof fn lemma_position_of<A>(d: Seq<A>, k: int)
    requires
        d.no_duplicates(),
        0 <= k < d.len(),
    ensures
        position_of(d, d[k]) == k,
{
    let i = position_of(d, d[k]);
    assert(0 <= i < d.len() && d[i] == d[k]);
}

/// The palette of a sequence of colours, and each colour's index into it.
pub fn index_colours(colours: &Vec<RgbPixel>) -> (r: (Vec<RgbPixel>, Vec<PaletteIndex>))
    ensures
        r.0@ == first_occurrences(colours@),
        r.1@.len() == colours@.len(),
        forall|i: int| 0 <= i < colours@.len() ==> #[trigger] r.1@[i] == palette_index_of(r.0@, colours@[i]),
{
    let mut set = colour_set_with_capacity(255);
    let mut indexes: Vec<PaletteIndex> = Vec::with_capacity(colours.len());
    let ghost mut places: Seq<int> = Seq::empty();
    let mut i: usize = 0;
    while i < colours.len()
        invariant
            i <= colours@.len(),
            colour_set_items(set) == first_occurrences(colours@.take(i as int)).map_values(|p: RgbPixel| rgb_key(p)),
            indexes@.len() == i,
            places.len() == i,
            forall|j: int| 0 <= j < i ==> 0 <= #[trigger] places[j] < first_occurrences(colours@.take(i as int)).len(),
            forall|j: int|
                0 <= j < i ==> first_occurrences(colours@.take(i as int))[#[trigger] places[j]] == colours@[j],
            forall|j: int| 0 <= j < i ==> #[trigger] indexes@[j] == (PaletteIndex { i: (places[j] % 256) as u8 }),
        decreases colours@.len() - i,
    {
        let c = colours[i];
        let ghost before = first_occurrences(colours@.take(i as int));
        proof {
            lemma_first_occurrences(colours@.take(i as int));
            assert(colours@.take(i as int + 1).drop_last() =~= colours@.take(i as int));
            assert(colour_set_items(set).len() == before.len());
            assert(before.contains(c) <==> colour_set_items(set).contains(rgb_key(c))) by {
                if before.contains(c) {
                    let k = choose|k: int| 0 <= k < before.len() && before[k] == c;
                    assert(colour_set_items(set)[k] == rgb_key(c));
                }
                if colour_set_items(set).contains(rgb_key(c)) {
                    let k = choose|k: int|
                        0 <= k < colour_set_items(set).len() && colour_set_items(set)[k] == rgb_key(c);
                    assert(rgb_key(before[k]) == rgb_key(c));
                    assert(before[k] == c);
                }
            }
        }
        let (index, _) = colour_set_insert_full(&mut set, (c.r, c.g, c.b));
        let ghost after = first_occurrences(colours@.take(i as int + 1));
        proof {
            assert(colour_set_items(set) =~= after.map_values(|p: RgbPixel| rgb_key(p)));
            assert(after[index as int] == c) by {
                assert(rgb_key(after[index as int]) == rgb_key(c));
            }
            places = places.push(index as int);
        }
        indexes.push(PaletteIndex { i: (index % 256) as u8 });
        i = i + 1;
    }
    proof {
        assert(colours@.take(colours@.len() as int) =~= colours@);
    }
    let items = colour_set_into_vec(set);
    let mut palette: Vec<RgbPixel> = Vec::with_capacity(items.len());
    let mut k: usize = 0;
    while k < items.len()
        invariant
            k <= items@.len(),
            items@ == first_occurrences(colours@).map_values(|p: RgbPixel| rgb_key(p)),
            palette@ == first_occurrences(colours@).take(k as int),
        decreases items@.len() - k,
    {
        let (r, g, b) = items[k];
        let ghost d = first_occurrences(colours@);
        proof {
            assert(rgb_key(d[k as int]) == (r, g, b));
        }
        palette.push(RgbPixel { r, g, b });
        proof {
            assert(palette@ =~= d.take(k as int + 1));
        }
        k = k + 1;
    }
    proof {
        assert(colours@.take(colours@.len() as int) =~= colours@);
        assert(palette@ =~= first_occurrences(colours@));
        lemma_first_occurrences(colours@);
        assert forall|j: int| 0 <= j < colours@.len() implies #[trigger] indexes@[j] == palette_index_of(
            palette@,
            colours@[j],
        ) by {
            lemma_position_of(palette@, places[j]);
        }
    }
    (palette, indexes)
}

} // verus!
