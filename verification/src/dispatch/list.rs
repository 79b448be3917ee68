//! Listing wallpapers: which ones, which page, and what is known of them.

use crate::catalog::{self, SourceManager, WallpaperEntry};
use crate::text::str_eq;
use crate::wire::{self, entry_to_pb, ItemMeta, WallpaperInfo};
use vstd::prelude::*;

verus! {

/// What the database knows of all wallpapers, and where its libraries lie.
#[derive(Debug)]
pub struct Media {
    pub libraries: Vec<(i64, String)>,
    pub items: Vec<ItemMeta>,
}

/// The library of that number lies at the path, going by the last entry.
pub open spec fn lies_at(libs: Seq<(i64, String)>, id: i64, path: Seq<char>) -> bool {
    exists|i: int|
        0 <= i < libs.len() && (#[trigger] libs[i]).0 == id && libs[i].1@ == path && forall|j: int|
            i < j < libs.len() ==> (#[trigger] libs[j]).0 != id
}

/// The item is the file `rel` of the library at `root`.
pub open spec fn is_item(m: Media, k: int, root: Seq<char>, rel: Seq<char>) -> bool {
    m.items@[k].path@ == rel && lies_at(m.libraries@, m.items@[k].library_id, root)
}

/// What is known of the file: the last item that is this file.
pub open spec fn known_of(m: Media, root: Seq<char>, rel: Seq<char>, n: int) -> Option<ItemMeta>
    decreases n,
{
    if n <= 0 {
        None
    } else if is_item(m, n - 1, root, rel) {
        Some(m.items@[n - 1])
    } else {
        known_of(m, root, rel, n - 1)
    }
}

pub open spec fn meta_of(m: Media, e: WallpaperEntry) -> Option<ItemMeta> {
    match e.relative {
        Some(rel) => known_of(m, e.library_root@, rel@, m.items@.len() as int),
        None => None,
    }
}

fn library_at(libs: &Vec<(i64, String)>, id: i64, path: &str) -> (r: bool)
    ensures
        r == lies_at(libs@, id, path@),
{
    let mut i: usize = libs.len();
    while i > 0
        invariant
            i <= libs@.len(),
            forall|j: int| i <= j < libs@.len() ==> (#[trigger] libs@[j]).0 != id,
        decreases i,
    {
        i = i - 1;
        if libs[i].0 == id {
            let same = str_eq(libs[i].1.as_str(), path);
            proof {
                if lies_at(libs@, id, path@) {
                    let k = choose|k: int|
                        0 <= k < libs@.len() && (#[trigger] libs@[k]).0 == id && libs@[k].1@
                            == path@ && forall|j: int|
                            k < j < libs@.len() ==> (#[trigger] libs@[j]).0 != id;
                    assert(libs@[k].0 == id);
                    assert(k == i);
                }
                assert(libs@[i as int].0 == id);
            }
            return same;
        }
    }
    false
}

impl Media {
    pub fn meta(&self, e: &WallpaperEntry) -> (r: Option<&ItemMeta>)
        ensures
            match r {
                Some(m) => meta_of(*self, *e) == Some(*m),
                None => meta_of(*self, *e) is None,
            },
    {
        let rel = match &e.relative {
            Some(rel) => rel,
            None => {
                return None;
            },
        };
        let mut i: usize = self.items.len();
        while i > 0
            invariant
                i <= self.items@.len(),
                e.relative == Some(*rel),
                known_of(*self, e.library_root@, rel@, self.items@.len() as int) == known_of(
                    *self,
                    e.library_root@,
                    rel@,
                    i as int,
                ),
            decreases i,
        {
            i = i - 1;
            if str_eq(self.items[i].path.as_str(), rel.as_str()) && library_at(
                &self.libraries,
                self.items[i].library_id,
                e.library_root.as_str(),
            ) {
                return Some(&self.items[i]);
            }
        }
        None
    }
}

/// Some key names the file of the wallpaper.
pub open spec fn keyed(keys: Seq<(String, String)>, e: WallpaperEntry) -> bool {
    e.relative is Some && exists|i: int|
        0 <= i < keys.len() && (#[trigger] keys[i]).0@ == e.library_root@ && keys[i].1@
            == e.relative->0@
}

/// The wallpaper is asked for: of the type, where one is given, and among the
/// keys, where there are any given.
pub open spec fn asked_for(
    e: WallpaperEntry,
    wp_type: Seq<char>,
    keys: Option<Seq<(String, String)>>,
) -> bool {
    &&& wp_type.len() == 0 || e.wp_type@ == wp_type
    &&& keys is None || keyed(keys->0, e)
}

/// Places of those of the first `n` wallpapers that are asked for, in order.
pub open spec fn selection(
    entries: Seq<WallpaperEntry>,
    wp_type: Seq<char>,
    keys: Option<Seq<(String, String)>>,
    n: int,
) -> Seq<usize>
    decreases n,
{
    if n <= 0 {
        Seq::empty()
    } else if asked_for(entries[n - 1], wp_type, keys) {
        selection(entries, wp_type, keys, n - 1).push((n - 1) as usize)
    } else {
        selection(entries, wp_type, keys, n - 1)
    }
}

/// One page of a list; the whole list where pages have no size.
pub open spec fn page_of<T>(all: Seq<T>, page: u32, page_size: u32) -> Seq<T> {
    if page_size == 0 {
        all
    } else {
        let from = if page * page_size <= all.len() {
            page * page_size
        } else {
            all.len() as int
        };
        let to = if from + page_size <= all.len() {
            from + page_size
        } else {
            all.len() as int
        };
        all.subrange(from, to)
    }
}

fn is_keyed(keys: &Vec<(String, String)>, e: &WallpaperEntry) -> (r: bool)
    ensures
        r == keyed(keys@, *e),
{
    let rel = match &e.relative {
        Some(rel) => rel,
        None => {
            return false;
        },
    };
    let mut i: usize = 0;
    while i < keys.len()
        invariant
            i <= keys@.len(),
            e.relative == Some(*rel),
            forall|j: int|
                0 <= j < i ==> !((#[trigger] keys@[j]).0@ == e.library_root@ && keys@[j].1@
                    == rel@),
        decreases keys.len() - i,
    {
        if str_eq(keys[i].0.as_str(), e.library_root.as_str()) && str_eq(
            keys[i].1.as_str(),
            rel.as_str(),
        ) {
            assert(keys@[i as int].0@ == e.library_root@);
            return true;
        }
        i = i + 1;
    }
    false
}

pub fn select(
    catalog: &SourceManager,
    wp_type: &str,
    keys: &Option<Vec<(String, String)>>,
) -> (out: Vec<
    usize,
>)
    ensures
        out@ == selection(
            catalog@,
            wp_type@,
            match keys {
                Some(k) => Some(k@),
                None => None,
            },
            catalog@.len() as int,
        ),
        forall|k: int| #![trigger out@[k]] 0 <= k < out@.len() ==> out@[k] < catalog@.len(),
{
    let ghost ks = match keys {
        Some(k) => Some(k@),
        None => None,
    };
    let any: bool = wp_type.unicode_len() == 0;
    let n: usize = catalog.len();
    let mut out: Vec<usize> = Vec::new();
    let mut i: usize = 0;
    while i < n
        invariant
            n == catalog@.len(),
            i <= n,
            any == (wp_type@.len() == 0),
            ks == (match keys {
                Some(k) => Some(k@),
                None => None,
            }),
            out@ == selection(catalog@, wp_type@, ks, i as int),
            forall|k: int| 0 <= k < out@.len() ==> (#[trigger] out@[k]) < i,
        decreases n - i,
    {
        let e = catalog.entry(i);
        let typed = any || str_eq(e.wp_type.as_str(), wp_type);
        let named = match keys {
            Some(k) => is_keyed(k, e),
            None => true,
        };
        if typed && named {
            out.push(i);
        }
        i = i + 1;
    }
    out
}

/// The wallpapers on the page, each with what is known of it.
pub open spec fn tells_page(
    out: Seq<WallpaperInfo>,
    entries: Seq<WallpaperEntry>,
    places: Seq<usize>,
    media: Media,
) -> bool {
    out.len() == places.len() && forall|i: int|
        0 <= i < out.len() ==> wire::tells_entry(
            #[trigger] out[i],
            entries[places[i] as int],
            meta_of(media, entries[places[i] as int]),
        )
}

/// One page of the wallpapers that are asked for, and how many there are in
/// all.
pub fn list_page(
    catalog: &SourceManager,
    wp_type: &str,
    keys: &Option<Vec<(String, String)>>,
    page: u32,
    page_size: u32,
    media: &Media,
) -> (r: (Vec<WallpaperInfo>, u32))
    ensures
        ({
            let all = selection(
                catalog@,
                wp_type@,
                match keys {
                    Some(k) => Some(k@),
                    None => None,
                },
                catalog@.len() as int,
            );
            &&& r.1 == all.len() as u32
            &&& tells_page(r.0@, catalog@, page_of(all, page, page_size), *media)
        }),
{
    let all = select(catalog, wp_type, keys);
    let total: usize = all.len();
    let (from, to): (usize, usize) = if page_size == 0 {
        (0, total)
    } else {
        assert(page * page_size <= u32::MAX * u32::MAX) by (nonlinear_arith)
            requires
                page <= u32::MAX,
                page_size <= u32::MAX,
        ;
        let offset: u64 = (page as u64) * (page_size as u64);
        let from: usize = if offset <= total as u64 {
            offset as usize
        } else {
            total
        };
        let left: usize = total - from;
        let to: usize = if (page_size as u64) <= left as u64 {
            from + page_size as usize
        } else {
            total
        };
        (from, to)
    };
    let ghost shown = page_of(all@, page, page_size);
    assert(shown =~= all@.subrange(from as int, to as int));
    let mut out: Vec<WallpaperInfo> = Vec::new();
    let mut i: usize = from;
    while i < to
        invariant
            from <= i <= to <= all@.len(),
            shown == all@.subrange(from as int, to as int),
            forall|k: int| 0 <= k < all@.len() ==> (#[trigger] all@[k]) < catalog@.len(),
            out@.len() == i - from,
            forall|k: int|
                0 <= k < out@.len() ==> wire::tells_entry(
                    #[trigger] out@[k],
                    catalog@[shown[k] as int],
                    meta_of(*media, catalog@[shown[k] as int]),
                ),
        decreases to - i,
    {
        let e = catalog.entry(all[i]);
        let info = entry_to_pb(e, media.meta(e));
        assert(shown[i - from] == all@[i as int]);
        out.push(info);
        i = i + 1;
    }
    (out, total as u32)
}

/// Pages of a size hold, one after the other, the whole list: each place lies
/// on exactly the page that its number says.
pub proof fn pages_cover_the_list<T>(all: Seq<T>, page_size: u32, i: int)
    requires
        page_size > 0,
        0 <= i < all.len() <= u32::MAX,
    ensures
        ({
            let page = (i / page_size as int) as u32;
            let at = i % page_size as int;
            &&& at < page_of(all, page, page_size).len()
            &&& page_of(all, page, page_size)[at] == all[i]
        }),
{
    let size = page_size as int;
    let p = i / size;
    vstd::arithmetic::div_mod::lemma_fundamental_div_mod(i, size);
    vstd::arithmetic::div_mod::lemma_div_pos_is_pos(i, size);
    vstd::arithmetic::div_mod::lemma_div_is_ordered_by_denominator(i, 1, size);
    vstd::arithmetic::div_mod::lemma_mod_bound(i, size);
    assert(p * size == size * p) by (nonlinear_arith);
    assert(0 <= p <= i);
    assert((p as u32) == p);
}

proof fn lemma_selection(
    entries: Seq<WallpaperEntry>,
    wp_type: Seq<char>,
    keys: Option<Seq<(String, String)>>,
    n: int,
    i: int,
)
    requires
        0 <= n <= entries.len() <= usize::MAX,
        0 <= i < n,
    ensures
        selection(entries, wp_type, keys, n).contains(i as usize) <==> asked_for(
            entries[i],
            wp_type,
            keys,
        ),
        forall|k: int|
            0 <= k < selection(entries, wp_type, keys, n).len() ==> (#[trigger] selection(
                entries,
                wp_type,
                keys,
                n,
            )[k]) < n,
        forall|j: int, k: int|
            0 <= j < k < selection(entries, wp_type, keys, n).len() ==> (#[trigger] selection(
                entries,
                wp_type,
                keys,
                n,
            )[j]) < (#[trigger] selection(entries, wp_type, keys, n)[k]),
    decreases n,
{
    let s = selection(entries, wp_type, keys, n);
    let r = selection(entries, wp_type, keys, n - 1);
    if n > 1 {
        lemma_selection(
            entries,
            wp_type,
            keys,
            n - 1,
            if i < n - 1 {
                i
            } else {
                0
            },
        );
    } else {
        assert(r.len() == 0);
    }
    if asked_for(entries[n - 1], wp_type, keys) {
        assert(s == r.push((n - 1) as usize));
        assert(s.last() == (n - 1) as usize);
        if r.contains(i as usize) {
            assert(s[r.index_of(i as usize)] == i as usize);
        }
        if s.contains(i as usize) && i < n - 1 {
            let k = s.index_of(i as usize);
            assert(r[k] == i as usize);
        }
    } else {
        if r.contains(i as usize) {
            let k = r.index_of(i as usize);
            assert(r[k] < n - 1);
        }
    }
}

/// Exactly those wallpapers are selected that are of the type, where one is
/// given, and that some key names, where keys are given. They stand in the
/// order of the catalog, each once.
pub proof fn selection_is_what_was_asked_for(
    catalog: &SourceManager,
    wp_type: &str,
    keys: &Option<Vec<(String, String)>>,
    out: Vec<usize>,
    i: usize,
    j: int,
    k: int,
)
    requires
        call_ensures(select, (catalog, wp_type, keys), out),
        i < catalog@.len() <= usize::MAX,
    ensures
        ({
            let e = catalog@[i as int];
            out@.contains(i) <==> (wp_type@.len() == 0 || e.wp_type@ == wp_type@) && (*keys is None || (
            e.relative is Some && exists|x: int|
                0 <= x < keys->0@.len() && (#[trigger] keys->0@[x]).0@ == e.library_root@
                    && keys->0@[x].1@ == e.relative->0@))
        }),
        0 <= j < k < out@.len() ==> out@[j] < out@[k],
{
    let ks = match keys {
        Some(x) => Some(x@),
        None => None,
    };
    lemma_selection(catalog@, wp_type@, ks, catalog@.len() as int, i as int);
}

/// A list tells how many wallpapers were selected in all, and each page those
/// that stand on it.
pub proof fn page_holds_its_part(
    catalog: &SourceManager,
    wp_type: &str,
    keys: &Option<Vec<(String, String)>>,
    page: u32,
    page_size: u32,
    media: &Media,
    r: (Vec<WallpaperInfo>, u32),
    all: Vec<usize>,
    i: int,
)
    requires
        call_ensures(list_page, (catalog, wp_type, keys, page, page_size, media), r),
        call_ensures(select, (catalog, wp_type, keys), all),
        all@.len() <= u32::MAX,
        0 <= i < r.0@.len(),
    ensures
        r.1 == all@.len(),
        page_size == 0 ==> r.0@.len() == all@.len() && r.0@[i].id
            == catalog@[all@[i] as int].id,
        page_size > 0 ==> {
            let at = page * page_size + i;
            &&& i < page_size
            &&& at < all@.len()
            &&& r.0@[i].id == catalog@[all@[at] as int].id
            &&& r.0@.len() == page_size || page * page_size + r.0@.len() == all@.len()
        },
{
    let places = page_of(all@, page, page_size);
    assert(wire::tells_entry(
        r.0@[i],
        catalog@[places[i] as int],
        meta_of(*media, catalog@[places[i] as int]),
    ));
    if page_size > 0 {
        assert(page * page_size >= 0) by (nonlinear_arith);
    }
}

} // verus!
