//! The wallpapers that source plugins found.

use crate::probe::{FileStat, MediaMeta};
use crate::strmap::StrMap;
use crate::text::str_eq;
use vstd::prelude::*;

verus! {

/// A wallpaper, as its source plugin describes it.
#[derive(Debug)]
pub struct WallpaperEntry {
    pub id: String,
    pub name: String,
    pub wp_type: String,
    pub resource: String,
    pub preview: Option<String>,
    pub metadata: StrMap<String>,
    pub plugin_name: String,
    /// Library the wallpaper lies in, empty where it lies in none.
    pub library_root: String,
    /// Path of the resource below the library, where it lies below it.
    pub relative: Option<String>,
    pub description: Option<String>,
    pub tags: Vec<String>,
    pub external_id: Option<String>,
    pub size: Option<i64>,
    pub width: Option<u32>,
    pub height: Option<u32>,
    pub format: Option<String>,
}

/// A loaded source plugin.
#[derive(Debug)]
pub struct SourcePluginInfo {
    pub name: String,
    pub types: Vec<String>,
    pub version: String,
}

/// Places of the wallpapers of a type among the first `n`, in order.
pub open spec fn places(entries: Seq<WallpaperEntry>, wp_type: Seq<char>, n: int) -> Seq<usize>
    decreases n,
{
    if n <= 0 {
        Seq::empty()
    } else if entries[n - 1].wp_type@ == wp_type {
        places(entries, wp_type, n - 1).push((n - 1) as usize)
    } else {
        places(entries, wp_type, n - 1)
    }
}

/// `i` is the place of the first wallpaper of that id.
pub open spec fn first_with_id(entries: Seq<WallpaperEntry>, id: Seq<char>, i: int) -> bool {
    &&& 0 <= i < entries.len()
    &&& entries[i].id@ == id
    &&& forall|j: int| 0 <= j < i ==> (#[trigger] entries[j]).id@ != id
}

proof fn lemma_places_of_push(
    entries: Seq<WallpaperEntry>,
    e: WallpaperEntry,
    wp_type: Seq<char>,
    n: int,
)
    requires
        0 <= n <= entries.len(),
    ensures
        places(entries.push(e), wp_type, n) == places(entries, wp_type, n),
    decreases n,
{
    if n > 0 {
        lemma_places_of_push(entries, e, wp_type, n - 1);
    }
}

proof fn lemma_places_in_range(entries: Seq<WallpaperEntry>, wp_type: Seq<char>, n: int)
    requires
        0 <= n <= entries.len() <= usize::MAX,
    ensures
        forall|k: int|
            0 <= k < places(entries, wp_type, n).len() ==> {
                &&& (#[trigger] places(entries, wp_type, n)[k]) < n
                &&& entries[places(entries, wp_type, n)[k] as int].wp_type@ == wp_type
            },
    decreases n,
{
    if n > 0 {
        lemma_places_in_range(entries, wp_type, n - 1);
    }
}

/// All wallpapers, with an index by type.
#[derive(Debug)]
pub struct SourceManager {
    entries: Vec<WallpaperEntry>,
    by_type: StrMap<Vec<usize>>,
    plugins: Vec<SourcePluginInfo>,
}

impl View for SourceManager {
    type V = Seq<WallpaperEntry>;

    closed spec fn view(&self) -> Seq<WallpaperEntry> {
        self.entries@
    }
}

spec fn indexed(entries: Seq<WallpaperEntry>, by_type: Map<Seq<char>, Vec<usize>>) -> bool {
    forall|t: Seq<char>|
        #![trigger by_type.contains_key(t)]
        #![trigger places(entries, t, entries.len() as int)]
        if by_type.contains_key(t) {
            by_type[t]@ == places(entries, t, entries.len() as int)
        } else {
            places(entries, t, entries.len() as int).len() == 0
        }
}

impl SourceManager {
    #[verifier::type_invariant]
    spec fn index_is_right(self) -> bool {
        indexed(self.entries@, self.by_type@)
    }

    pub closed spec fn loaded(self) -> Seq<SourcePluginInfo> {
        self.plugins@
    }

    pub fn new() -> (r: Self)
        ensures
            r@ == Seq::<WallpaperEntry>::empty(),
            r.loaded() == Seq::<SourcePluginInfo>::empty(),
    {
        let entries: Vec<WallpaperEntry> = Vec::new();
        let by_type: StrMap<Vec<usize>> = StrMap::new();
        assert(indexed(entries@, by_type@));
        SourceManager { entries, by_type, plugins: Vec::new() }
    }

    /// Adds a wallpaper behind the others.
    pub fn add(&mut self, e: WallpaperEntry)
        ensures
            final(self)@ == old(self)@.push(e),
            final(self).loaded() == old(self).loaded(),
    {
        proof {
            use_type_invariant(&*self);
        }
        let ghost before = self.entries@;
        let ghost index = self.by_type@;
        let ghost entry = e;
        let mut taken: SourceManager = SourceManager::new();
        std::mem::swap(&mut taken, self);
        let SourceManager { mut entries, mut by_type, plugins } = taken;
        let at: usize = entries.len();
        let key = e.wp_type.clone();
        let mut list: Vec<usize> = match by_type.remove(key.as_str()) {
            Some(l) => l,
            None => Vec::new(),
        };
        list.push(at);
        by_type.insert(key, list);
        entries.push(e);
        proof {
            let t0 = entry.wp_type@;
            let all = entries@;
            let n = before.len() as int;
            assert(all.drop_last() =~= before);
            assert forall|t: Seq<char>|
                #![trigger by_type@.contains_key(t)]
                #![trigger places(all, t, all.len() as int)]
                if by_type@.contains_key(t) {
                    by_type@[t]@ == places(all, t, all.len() as int)
                } else {
                    places(all, t, all.len() as int).len() == 0
                } by {
                lemma_places_of_push(before, entry, t, n);
                assert(all == before.push(entry));
                assert(index.contains_key(t) || !index.contains_key(t));
                if t == t0 {
                    assert(places(all, t, n + 1) == places(before, t, n).push(at));
                }
            }
        }
        *self = SourceManager { entries, by_type, plugins };
    }

    /// Replaces everything.
    pub fn install(&mut self, entries: Vec<WallpaperEntry>, plugins: Vec<SourcePluginInfo>)
        ensures
            final(self)@ == entries@,
            final(self).loaded() == plugins@,
    {
        let none: Vec<WallpaperEntry> = Vec::new();
        let by_type: StrMap<Vec<usize>> = StrMap::new();
        assert(indexed(none@, by_type@));
        let mut fresh = SourceManager { entries: none, by_type, plugins };
        let ghost all = entries@;
        let mut rest = entries;
        let mut reversed: Vec<WallpaperEntry> = Vec::new();
        while rest.len() > 0
            invariant
                rest@ + reversed@.reverse() == all,
            decreases rest.len(),
        {
            let ghost r0 = rest@;
            let ghost v0 = reversed@;
            match rest.pop() {
                Some(e) => {
                    reversed.push(e);
                },
                None => {},
            }
            assert(rest@ + reversed@.reverse() =~= r0 + v0.reverse());
        }
        assert(rest@ + reversed@.reverse() =~= reversed@.reverse());
        while reversed.len() > 0
            invariant
                fresh@ + reversed@.reverse() == all,
                fresh.loaded() == plugins@,
            decreases reversed.len(),
        {
            let ghost f0 = fresh@;
            let ghost v0 = reversed@;
            match reversed.pop() {
                Some(e) => {
                    fresh.add(e);
                },
                None => {},
            }
            assert(fresh@ + reversed@.reverse() =~= f0 + v0.reverse());
        }
        assert(fresh@ + reversed@.reverse() =~= fresh@);
        *self = fresh;
    }

    /// All wallpapers, in the order in which they were found.
    pub fn list(&self) -> (r: &Vec<WallpaperEntry>)
        ensures
            r@ == self@,
    {
        &self.entries
    }

    pub fn len(&self) -> (n: usize)
        ensures
            n == self@.len(),
    {
        self.entries.len()
    }

    /// The wallpaper at a place.
    pub fn entry(&self, i: usize) -> (e: &WallpaperEntry)
        requires
            i < self@.len(),
        ensures
            *e == self@[i as int],
    {
        &self.entries[i]
    }

    /// Places of the wallpapers of a type, in order.
    pub fn list_by_type(&self, wp_type: &str) -> (out: Vec<usize>)
        ensures
            out@ == places(self@, wp_type@, self@.len() as int),
            forall|k: int| 0 <= k < out@.len() ==> (#[trigger] out@[k]) < self@.len(),
    {
        let n: usize = self.entries.len();
        proof {
            use_type_invariant(self);
            lemma_places_in_range(self.entries@, wp_type@, n as int);
        }
        match self.by_type.get(wp_type) {
            Some(list) => {
                let mut out: Vec<usize> = Vec::new();
                let mut i: usize = 0;
                while i < list.len()
                    invariant
                        i <= list@.len(),
                        out@ == list@.take(i as int),
                    decreases list.len() - i,
                {
                    out.push(list[i]);
                    i = i + 1;
                    assert(out@ =~= list@.take(i as int));
                }
                assert(out@ =~= list@);
                out
            },
            None => {
                assert(places(self@, wp_type@, self@.len() as int) =~= Seq::<usize>::empty());
                Vec::new()
            },
        }
    }

    /// The first wallpaper of that id.
    pub fn get(&self, id: &str) -> (r: Option<&WallpaperEntry>)
        ensures
            match r {
                Some(e) => exists|i: int| #[trigger]
                    first_with_id(self@, id@, i) && self@[i] == *e,
                None => forall|i: int| 0 <= i < self@.len() ==> (#[trigger] self@[i]).id@ != id@,
            },
    {
        let mut i: usize = 0;
        while i < self.entries.len()
            invariant
                i <= self.entries@.len(),
                forall|j: int| 0 <= j < i ==> (#[trigger] self.entries@[j]).id@ != id@,
            decreases self.entries.len() - i,
        {
            if str_eq(self.entries[i].id.as_str(), id) {
                assert(first_with_id(self@, id@, i as int));
                return Some(&self.entries[i]);
            }
            i = i + 1;
        }
        None
    }

    /// The loaded source plugins.
    pub fn plugins(&self) -> (r: &Vec<SourcePluginInfo>)
        ensures
            r@ == self.loaded(),
    {
        &self.plugins
    }
}

/// Every wallpaper is listed under its own type and under no other.
pub proof fn each_wallpaper_has_one_type(
    entries: Seq<WallpaperEntry>,
    wp_type: Seq<char>,
    i: usize,
    n: int,
)
    requires
        i < n <= entries.len() <= usize::MAX,
    ensures
        places(entries, wp_type, n).contains(i) <==> entries[i as int].wp_type@ == wp_type,
    decreases n,
{
    let all = places(entries, wp_type, n);
    let rest = places(entries, wp_type, n - 1);
    lemma_places_in_range(entries, wp_type, n);
    if i < n - 1 {
        each_wallpaper_has_one_type(entries, wp_type, i, n - 1);
        if rest.contains(i) {
            let k = choose|k: int| 0 <= k < rest.len() && rest[k] == i;
            assert(all[k] == i);
        }
        if all.contains(i) {
            let k = choose|k: int| 0 <= k < all.len() && all[k] == i;
            assert(k < rest.len());
            assert(rest[k] == i);
        }
    } else {
        if entries[i as int].wp_type@ == wp_type {
            assert(all[rest.len() as int] == i);
        }
        if all.contains(i) {
            let k = choose|k: int| 0 <= k < all.len() && all[k] == i;
            assert(entries[all[k] as int].wp_type@ == wp_type);
        }
    }
}

// ---------------------------------------------------------------------------
// What plugins are handed
// ---------------------------------------------------------------------------

/// Bytes of the largest file that plugins may read.
pub const READ_FILE_MAX: u64 = 1_048_576;

/// Whether plugins may read a file of that length.
pub fn may_read_file(len: u64) -> (r: bool)
    ensures
        r == (len <= READ_FILE_MAX),
{
    len <= READ_FILE_MAX
}

/// What a plugin is told of a file: each property that is known, or nothing
/// where none is.
#[derive(Debug)]
pub struct ProbeTable {
    pub size: Option<i64>,
    pub width: Option<u32>,
    pub height: Option<u32>,
    pub format: Option<String>,
}

pub fn probe_table(stat: Option<FileStat>, media: MediaMeta) -> (r: Option<ProbeTable>)
    ensures
        r is None <==> stat is None && media.width is None && media.height is None && media.format
            is None,
        r is Some ==> {
            &&& r->0.size == (match stat {
                Some(s) => Some(s.size),
                None => None::<i64>,
            })
            &&& r->0.width == media.width
            &&& r->0.height == media.height
            &&& r->0.format == media.format
        },
{
    if stat.is_none() && media.width.is_none() && media.height.is_none() && media.format.is_none() {
        return None;
    }
    Some(
        ProbeTable {
            size: match stat {
                Some(s) => Some(s.size),
                None => None,
            },
            width: media.width,
            height: media.height,
            format: media.format,
        },
    )
}

pub open spec fn opt_field(key: Seq<char>, value: Option<String>) -> Seq<(Seq<char>, Seq<char>)> {
    match value {
        Some(v) => seq![(key, v@)],
        None => Seq::empty(),
    }
}

/// The fields of a wallpaper that its plugin is handed back, besides its
/// metadata.
pub open spec fn entry_fields(e: WallpaperEntry) -> Seq<(Seq<char>, Seq<char>)> {
    seq![("id"@, e.id@), ("name"@, e.name@), ("wp_type"@, e.wp_type@), ("resource"@, e.resource@)]
        + opt_field("preview"@, e.preview) + opt_field("description"@, e.description) + (
    if e.library_root@.len() > 0 {
        seq![("library_root"@, e.library_root@)]
    } else {
        Seq::empty()
    }) + opt_field("external_id"@, e.external_id)
}

spec fn fields_text(v: Seq<(&'static str, String)>) -> Seq<(Seq<char>, Seq<char>)> {
    Seq::new(v.len(), |i: int| (v[i].0@, v[i].1@))
}

/// What a list of named fields reads.
pub open spec fn reads_as(v: Seq<(&'static str, String)>, t: Seq<(Seq<char>, Seq<char>)>) -> bool {
    v.len() == t.len() && forall|i: int|
        0 <= i < v.len() ==> (#[trigger] v[i]).0@ == t[i].0 && v[i].1@ == t[i].1
}

fn push_field(out: &mut Vec<(&'static str, String)>, key: &'static str, value: String)
    ensures
        fields_text(final(out)@) == fields_text(old(out)@).push((key@, value@)),
{
    let ghost before = out@;
    out.push((key, value));
    assert(fields_text(out@) =~= fields_text(before).push((key@, value@)));
}

fn push_opt(out: &mut Vec<(&'static str, String)>, key: &'static str, value: &Option<String>)
    ensures
        fields_text(final(out)@) == fields_text(old(out)@) + opt_field(key@, *value),
{
    let ghost before = fields_text(out@);
    match value {
        Some(v) => {
            push_field(out, key, v.clone());
        },
        None => {},
    }
    assert(fields_text(out@) =~= before + opt_field(key@, *value));
}

/// The fields of a wallpaper that its plugin is handed back.
pub fn extras_fields(e: &WallpaperEntry) -> (out: Vec<(&'static str, String)>)
    ensures
        reads_as(out@, entry_fields(*e)),
{
    let mut out: Vec<(&'static str, String)> = Vec::new();
    assert(fields_text(out@) =~= Seq::<(Seq<char>, Seq<char>)>::empty());
    push_field(&mut out, "id", e.id.clone());
    push_field(&mut out, "name", e.name.clone());
    push_field(&mut out, "wp_type", e.wp_type.clone());
    push_field(&mut out, "resource", e.resource.clone());
    assert(fields_text(out@) =~= seq![
        ("id"@, e.id@),
        ("name"@, e.name@),
        ("wp_type"@, e.wp_type@),
        ("resource"@, e.resource@),
    ]);
    push_opt(&mut out, "preview", &e.preview);
    push_opt(&mut out, "description", &e.description);
    let ghost before = fields_text(out@);
    if e.library_root.as_str().unicode_len() > 0 {
        push_field(&mut out, "library_root", e.library_root.clone());
        assert(fields_text(out@) =~= before + seq![("library_root"@, e.library_root@)]);
    } else {
        assert(fields_text(out@) =~= before + Seq::<(Seq<char>, Seq<char>)>::empty());
    }
    push_opt(&mut out, "external_id", &e.external_id);
    proof {
        assert(fields_text(out@) == entry_fields(*e));
        assert forall|i: int| 0 <= i < out@.len() implies (#[trigger] out@[i]).0@ == entry_fields(
            *e,
        )[i].0 && out@[i].1@ == entry_fields(*e)[i].1 by {
            assert(fields_text(out@)[i] == (out@[i].0@, out@[i].1@));
        }
    }
    out
}

/// The wallpapers of a type are exactly those that have it; the wallpaper of an
/// id is the first that has it.
pub proof fn wallpapers_are_found(
    m: SourceManager,
    wp_type: &str,
    out: Vec<usize>,
    id: &str,
    r: Option<&WallpaperEntry>,
    i: usize,
)
    requires
        call_ensures(SourceManager::list_by_type, (&m, wp_type), out),
        call_ensures(SourceManager::get, (&m, id), r),
        i < m@.len() <= usize::MAX,
        forall|j: int| 0 <= j < i ==> (#[trigger] m@[j]).id@ != id@,
    ensures
        out@.contains(i) <==> m@[i as int].wp_type@ == wp_type@,
        m@[i as int].id@ == id@ ==> r == Some(&m@[i as int]),
        r matches Some(e) ==> e.id@ == id@,
{
    each_wallpaper_has_one_type(m@, wp_type@, i, m@.len() as int);
    if m@[i as int].id@ == id@ {
        let k = choose|k: int| #[trigger] first_with_id(m@, id@, k) && m@[k] == *r->0;
        assert(first_with_id(m@, id@, k));
        if k < i {
            assert(m@[k].id@ != id@);
        }
    }
}

/// What was found out about a file is handed on as it is; nothing is, where
/// nothing was found out.
pub proof fn findings_are_handed_on(stat: Option<FileStat>, media: MediaMeta, r: Option<ProbeTable>)
    requires
        call_ensures(probe_table, (stat, media), r),
    ensures
        r is None <==> stat is None && media.width is None && media.height is None && media.format
            is None,
        r matches Some(t) ==> {
            &&& stat matches Some(s) ==> t.size == Some(s.size)
            &&& stat is None ==> t.size is None
            &&& t.width == media.width
            &&& t.height == media.height
            &&& t.format == media.format
        },
{
}

/// A plugin is handed back what it said of a wallpaper, each thing under its
/// name.
pub proof fn plugin_is_handed_its_wallpaper(
    e: &WallpaperEntry,
    out: Vec<(&'static str, String)>,
)
    requires
        call_ensures(extras_fields, (e,), out),
    ensures
        out@.len() >= 4,
        out@[0].0@ == "id"@ && out@[0].1@ == e.id@,
        out@[1].0@ == "name"@ && out@[1].1@ == e.name@,
        out@[2].0@ == "wp_type"@ && out@[2].1@ == e.wp_type@,
        out@[3].0@ == "resource"@ && out@[3].1@ == e.resource@,
        e.preview matches Some(p) ==> out@.len() > 4 && out@[4].0@ == "preview"@ && out@[4].1@ == p@,
        e.external_id matches Some(x) ==> out@.last().0@ == "external_id"@ && out@.last().1@ == x@,
{
    let t = entry_fields(*e);
    assert(t[0] == ("id"@, e.id@) && t[1] == ("name"@, e.name@) && t[2] == (
        "wp_type"@,
        e.wp_type@,
    ) && t[3] == ("resource"@, e.resource@));
    assert(out@[0].0@ == t[0].0 && out@[1].0@ == t[1].0 && out@[2].0@ == t[2].0 && out@[3].0@
        == t[3].0);
    if let Some(p) = e.preview {
        assert(t[4] == ("preview"@, p@));
        assert(out@[4].0@ == t[4].0);
    }
    if let Some(x) = e.external_id {
        assert(t.last() == ("external_id"@, x@));
        assert(out@[out@.len() - 1].0@ == t[out@.len() - 1].0);
    }
}

} // verus!
