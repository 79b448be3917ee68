//! Background probing of wallpaper files in two tiers: a cheap one that looks
//! at size and change time, and a costly one that reads media properties. The
//! results are written in batches.

use crate::paths::{self, path_extension};
use crate::text::{self, str_eq, to_ascii_lowercase, trim_end, trim_start};
use vstd::prelude::*;

verus! {

/// Milliseconds between two passes.
pub const PROBE_TICK_MS: i64 = 300_000;

/// Milliseconds between two looks at the same file.
pub const STAT_COOLDOWN_MS: i64 = 3_600_000;

/// Milliseconds between two media probes of the same file.
pub const PROBE_COOLDOWN_MS: i64 = 21_600_000;

/// Items that the pass after a scan takes on.
pub const PROBE_REFRESH_BATCH: usize = 256;

/// Results that are written together.
pub const COMMIT_BATCH: usize = 32;

/// What a look at a file tells.
#[derive(Debug, Clone, Copy, PartialEq, Eq, Structural)]
pub struct FileStat {
    pub size: i64,
    /// Milliseconds since the epoch.
    pub modified_at: i64,
}

/// The look at a file of that length, changed that many milliseconds after the
/// epoch; none where a number is too large or the time is not known.
pub fn file_stat(len: u64, modified_ms: Option<u128>) -> (r: Option<FileStat>)
    ensures
        match (r, modified_ms) {
            (Some(s), Some(m)) => s.size == len && s.modified_at == m,
            (Some(_), None) => false,
            (None, Some(m)) => len > i64::MAX || m > i64::MAX,
            (None, None) => true,
        },
{
    match modified_ms {
        Some(m) => if len <= i64::MAX as u64 && m <= i64::MAX as u128 {
            Some(FileStat { size: len as i64, modified_at: m as i64 })
        } else {
            None
        },
        None => None,
    }
}

// ---------------------------------------------------------------------------
// Which files are media
// ---------------------------------------------------------------------------

/// Extension of files whose media properties can be read.
pub open spec fn media_extension(e: Seq<char>) -> bool {
    ||| e == "mp4"@
    ||| e == "mkv"@
    ||| e == "webm"@
    ||| e == "mov"@
    ||| e == "avi"@
    ||| e == "png"@
    ||| e == "jpg"@
    ||| e == "jpeg"@
    ||| e == "webp"@
    ||| e == "gif"@
    ||| e == "bmp"@
    ||| e == "tiff"@
    ||| e == "tif"@
    ||| e == "avif"@
}

/// Whether files with the extension have media properties to read.
pub open spec fn probable(extension: Option<Seq<char>>) -> bool {
    extension is Some && media_extension(text::lower_text(extension->0))
}

/// Whether files with the extension have media properties to read; case does
/// not matter.
pub fn is_probable_extension(extension: &Option<String>) -> (r: bool)
    ensures
        r == probable(text::opt_text(*extension)),
{
    match extension {
        None => false,
        Some(e) => {
            let lower = to_ascii_lowercase(e.as_str());
            let l = lower.as_str();
            str_eq(l, "mp4") || str_eq(l, "mkv") || str_eq(l, "webm") || str_eq(l, "mov") || str_eq(
                l,
                "avi",
            ) || str_eq(l, "png") || str_eq(l, "jpg") || str_eq(l, "jpeg") || str_eq(l, "webp")
                || str_eq(l, "gif") || str_eq(l, "bmp") || str_eq(l, "tiff") || str_eq(l, "tif")
                || str_eq(l, "avif")
        },
    }
}

/// Whether the file at the path has media properties to read.
pub fn is_probable(path: &str) -> (r: bool)
    ensures
        r == probable(paths::extension_text(path@)),
{
    let e = path_extension(path);
    is_probable_extension(&e)
}

/// A path below a root.
pub open spec fn joined_path(root: Seq<char>, rel: Seq<char>) -> Seq<char> {
    let r = text::without_end(root, '/');
    let p = text::without_start(rel, '/');
    if p.len() == 0 {
        r
    } else {
        r + "/"@ + p
    }
}

pub fn join_path(root: &str, rel: &str) -> (s: String)
    ensures
        s@ == joined_path(root@, rel@),
{
    let mut s = trim_end(root, '/');
    let p = trim_start(rel, '/');
    if p.as_str().unicode_len() > 0 {
        s.append("/");
        s.append(p.as_str());
    }
    s
}

/// A resource below the root of its library is found again from the root and
/// its path below it.
pub proof fn relative_path_joins_back(root: Seq<char>, resource: Seq<char>)
    requires
        paths::below(root, resource) matches Some(rel) && rel.len() > 0 && rel[0] != '/',
    ensures
        joined_path(root, paths::below(root, resource)->0) == resource,
{
    let r = text::without_end(root, '/');
    let rel = paths::below(root, resource)->0;
    reveal_strlit("/");
    assert(r + "/"@ + rel =~= resource);
}

// ---------------------------------------------------------------------------
// What is due
// ---------------------------------------------------------------------------

/// How many candidates to ask for when at most `max` are to be handled.
pub fn sql_limit(max: Option<usize>) -> (r: u64)
    ensures
        match max {
            Some(m) => r == if 4 * m <= u64::MAX {
                4 * m
            } else {
                u64::MAX as int
            },
            None => r == u64::MAX,
        },
{
    match max {
        Some(m) => if m as u64 <= u64::MAX / 4 {
            (m as u64) * 4
        } else {
            u64::MAX
        },
        None => u64::MAX,
    }
}

/// What is stored of an item.
#[derive(Debug)]
pub struct ItemRow {
    pub id: i64,
    pub path: String,
    pub stat_at: Option<i64>,
    pub modified_at: Option<i64>,
    pub probed_at: Option<i64>,
    pub width: Option<i32>,
    pub height: Option<i32>,
    pub format: Option<String>,
}

/// Media properties of a file.
#[derive(Debug)]
pub struct MediaMeta {
    pub width: Option<u32>,
    pub height: Option<u32>,
    pub format: Option<String>,
}

/// The last look at the item is too old, or there was none.
pub open spec fn is_stat_stale(stat_at: Option<i64>, cutoff: i64) -> bool {
    match stat_at {
        Some(t) => t < cutoff,
        None => true,
    }
}

/// Change time to go by: that of a new look where it succeeded, else the
/// stored one.
pub open spec fn known_modified(stat: Option<FileStat>, stored: Option<i64>) -> Option<i64> {
    match stat {
        Some(s) => Some(s.modified_at),
        None => stored,
    }
}

/// The media properties are missing, or older than the file or the cutoff.
pub open spec fn is_media_due(item: ItemRow, modified: Option<i64>, cutoff: i64) -> bool {
    &&& probable(paths::extension_text(item.path@))
    &&& match item.probed_at {
        None => true,
        Some(p) => {
            ||| p < cutoff
            ||| modified is Some && p < modified->0
            ||| item.width is None
            ||| item.height is None
            ||| item.format is None
        },
    }
}

pub fn stat_stale(item: &ItemRow, stat_cutoff: i64) -> (r: bool)
    ensures
        r == is_stat_stale(item.stat_at, stat_cutoff),
{
    match item.stat_at {
        Some(t) => t < stat_cutoff,
        None => true,
    }
}

pub fn media_due(item: &ItemRow, stat: &Option<FileStat>, media_cutoff: i64) -> (r: bool)
    ensures
        r == is_media_due(*item, known_modified(*stat, item.modified_at), media_cutoff),
{
    let modified: Option<i64> = match stat {
        Some(s) => Some(s.modified_at),
        None => item.modified_at,
    };
    is_probable(item.path.as_str()) && match item.probed_at {
        None => true,
        Some(p) => {
            let newer = match modified {
                Some(m) => p < m,
                None => false,
            };
            p < media_cutoff || newer || item.width.is_none() || item.height.is_none()
                || item.format.is_none()
        },
    }
}

// ---------------------------------------------------------------------------
// A pass
// ---------------------------------------------------------------------------

/// What a pass did.
#[derive(Debug, Clone, Copy, PartialEq, Eq, Structural)]
pub struct ProbeStats {
    pub candidates: usize,
    pub stat_done: usize,
    pub stat_changed: usize,
    pub media_probed: usize,
    pub gained_dimensions: usize,
    pub gained_format: usize,
    pub write_errors: usize,
    pub elapsed_ms: u128,
}

pub open spec fn no_stats() -> ProbeStats {
    ProbeStats {
        candidates: 0,
        stat_done: 0,
        stat_changed: 0,
        media_probed: 0,
        gained_dimensions: 0,
        gained_format: 0,
        write_errors: 0,
        elapsed_ms: 0,
    }
}

impl Default for ProbeStats {
    fn default() -> (r: Self)
        ensures
            r == no_stats(),
    {
        ProbeStats {
            candidates: 0,
            stat_done: 0,
            stat_changed: 0,
            media_probed: 0,
            gained_dimensions: 0,
            gained_format: 0,
            write_errors: 0,
            elapsed_ms: 0,
        }
    }
}

/// A result that is to be written.
#[derive(Debug)]
pub struct PendingWrite {
    pub id: i64,
    pub path: String,
    pub stat: Option<FileStat>,
    pub media: Option<MediaMeta>,
}

/// How many of the first `n` results hold a look at the file.
pub open spec fn stats_in(p: Seq<PendingWrite>, n: int) -> nat
    decreases n,
{
    if n <= 0 {
        0
    } else {
        stats_in(p, n - 1) + if p[n - 1].stat is Some {
            1nat
        } else {
            0nat
        }
    }
}

/// How many of the first `n` results hold media properties.
pub open spec fn media_in(p: Seq<PendingWrite>, n: int) -> nat
    decreases n,
{
    if n <= 0 {
        0
    } else {
        media_in(p, n - 1) + if p[n - 1].media is Some {
            1nat
        } else {
            0nat
        }
    }
}

/// One pass over the items that may need probing.
#[derive(Debug)]
pub struct ProbePass {
    pub max: Option<usize>,
    pub stat_cutoff: i64,
    pub media_cutoff: i64,
    pub handled: usize,
    pub pending: Vec<PendingWrite>,
    pub stats: ProbeStats,
}

impl ProbePass {
    /// Fewer results wait than are written together, and no count exceeds the
    /// number of items handled.
    pub open spec fn well_formed(self) -> bool {
        &&& self.pending@.len() < COMMIT_BATCH
        &&& self.stats.gained_dimensions <= self.handled
        &&& self.stats.gained_format <= self.handled
        &&& self.stats.stat_done + self.stats.write_errors + self.pending@.len() <= self.handled
        &&& self.stats.media_probed + self.stats.write_errors + self.pending@.len() <= self.handled
        &&& self.stats.stat_changed <= self.stats.stat_done
    }

    /// Nothing keeps the waiting results from being counted as written, `changed`
    /// of their looks as news.
    pub open spec fn may_flush(self, changed: usize) -> bool {
        let n = self.pending@.len();
        &&& n <= COMMIT_BATCH
        &&& self.stats.gained_dimensions <= self.handled
        &&& self.stats.gained_format <= self.handled
        &&& self.stats.stat_done + self.stats.write_errors + n <= self.handled
        &&& self.stats.media_probed + self.stats.write_errors + n <= self.handled
        &&& self.stats.stat_changed <= self.stats.stat_done
        &&& changed <= stats_in(self.pending@, n as int)
    }

    /// A pass that starts now. None is needed where nothing may be handled.
    pub fn start(max: Option<usize>, now: i64) -> (r: Option<Self>)
        requires
            now >= i64::MIN + PROBE_COOLDOWN_MS,
        ensures
            r is None <==> max == Some(0usize),
            r is Some ==> {
                &&& r->0.max == max
                &&& r->0.stat_cutoff == now - STAT_COOLDOWN_MS
                &&& r->0.media_cutoff == now - PROBE_COOLDOWN_MS
                &&& r->0.handled == 0
                &&& r->0.pending@.len() == 0
                &&& r->0.stats == no_stats()
                &&& r->0.well_formed()
            },
    {
        let nothing = match max {
            Some(m) => m == 0,
            None => false,
        };
        if nothing {
            return None;
        }
        Some(
            ProbePass {
                max,
                stat_cutoff: now - STAT_COOLDOWN_MS,
                media_cutoff: now - PROBE_COOLDOWN_MS,
                handled: 0,
                pending: Vec::new(),
                stats: ProbeStats::default(),
            },
        )
    }

    /// Whether another candidate is to be handled.
    pub fn wants_more(&self) -> (r: bool)
        ensures
            r == match self.max {
                Some(m) => self.handled < m,
                None => true,
            },
    {
        match self.max {
            Some(m) => self.handled < m,
            None => true,
        }
    }

    /// Takes the results of one candidate: the look at its file where one was
    /// due and succeeded, and its media properties where they were due. Says
    /// whether the waiting results are to be written now.
    pub fn take(
        &mut self,
        id: i64,
        path: String,
        stat: Option<FileStat>,
        media: Option<MediaMeta>,
    ) -> (flush: bool)
        requires
            old(self).well_formed(),
            old(self).handled < usize::MAX,
        ensures
            final(self).max == old(self).max,
            final(self).stat_cutoff == old(self).stat_cutoff,
            final(self).media_cutoff == old(self).media_cutoff,
            final(self).handled == old(self).handled + 1,
            final(self).pending@ == (if stat is Some || media is Some {
                old(self).pending@.push(PendingWrite { id, path, stat, media })
            } else {
                old(self).pending@
            }),
            final(self).stats.gained_dimensions == old(self).stats.gained_dimensions + (if media
                is Some && (media->0.width is Some || media->0.height is Some) {
                1int
            } else {
                0int
            }),
            final(self).stats.gained_format == old(self).stats.gained_format + (if media is Some
                && media->0.format is Some {
                1int
            } else {
                0int
            }),
            final(self).stats == (ProbeStats {
                gained_dimensions: final(self).stats.gained_dimensions,
                gained_format: final(self).stats.gained_format,
                ..old(self).stats
            }),
            flush == (final(self).pending@.len() >= COMMIT_BATCH),
            !flush ==> final(self).well_formed(),
            final(self).pending@.len() <= COMMIT_BATCH,
    {
        if let Some(m) = &media {
            if m.width.is_some() || m.height.is_some() {
                self.stats.gained_dimensions = self.stats.gained_dimensions + 1;
            }
            if m.format.is_some() {
                self.stats.gained_format = self.stats.gained_format + 1;
            }
        }
        if stat.is_some() || media.is_some() {
            self.pending.push(PendingWrite { id, path, stat, media });
        }
        self.handled = self.handled + 1;
        self.pending.len() >= COMMIT_BATCH
    }

    /// How many of the waiting results hold a look, and how many hold media
    /// properties.
    fn waiting(&self) -> (r: (usize, usize))
        ensures
            r.0 == stats_in(self.pending@, self.pending@.len() as int),
            r.1 == media_in(self.pending@, self.pending@.len() as int),
            r.0 <= self.pending@.len(),
            r.1 <= self.pending@.len(),
    {
        let n: usize = self.pending.len();
        let mut stats_done: usize = 0;
        let mut media_done: usize = 0;
        let mut i: usize = 0;
        while i < n
            invariant
                i <= n,
                n == self.pending@.len(),
                stats_done == stats_in(self.pending@, i as int),
                media_done == media_in(self.pending@, i as int),
                stats_done <= i,
                media_done <= i,
            decreases n - i,
        {
            if self.pending[i].stat.is_some() {
                stats_done = stats_done + 1;
            }
            if self.pending[i].media.is_some() {
                media_done = media_done + 1;
            }
            i = i + 1;
        }
        (stats_done, media_done)
    }

    /// Whether the waiting results can be counted as written.
    pub fn can_flush(&self, changed: usize) -> (r: bool)
        ensures
            r == self.may_flush(changed),
    {
        let n: usize = self.pending.len();
        if n > COMMIT_BATCH || n > self.handled {
            return false;
        }
        let left: usize = self.handled - n;
        if self.stats.write_errors > left {
            return false;
        }
        let written: usize = left - self.stats.write_errors;
        self.stats.stat_done <= written && self.stats.media_probed <= written
            && self.stats.gained_dimensions <= self.handled && self.stats.gained_format
            <= self.handled && self.stats.stat_changed <= self.stats.stat_done && changed
            <= self.waiting().0
    }

    /// The waiting results were written in one transaction, or none of them
    /// was. `changed` says how many of the written looks differed from what was
    /// stored; it is not read after a failure.
    pub fn flushed(&mut self, committed: bool, changed: usize)
        requires
            old(self).may_flush(changed),
        ensures
            final(self).pending@.len() == 0,
            final(self).max == old(self).max,
            final(self).stat_cutoff == old(self).stat_cutoff,
            final(self).media_cutoff == old(self).media_cutoff,
            final(self).handled == old(self).handled,
            final(self).well_formed(),
            ({
                let p = old(self).pending@;
                let n = p.len() as int;
                let a = old(self).stats;
                let b = final(self).stats;
                if committed {
                    &&& b.stat_done == a.stat_done + stats_in(p, n)
                    &&& b.stat_changed == a.stat_changed + changed
                    &&& b.media_probed == a.media_probed + media_in(p, n)
                    &&& b == (ProbeStats {
                        stat_done: b.stat_done,
                        stat_changed: b.stat_changed,
                        media_probed: b.media_probed,
                        ..a
                    })
                } else {
                    &&& b.write_errors == a.write_errors + n
                    &&& b == (ProbeStats { write_errors: b.write_errors, ..a })
                }
            }),
    {
        let n: usize = self.pending.len();
        if committed {
            let (stats_done, media_done) = self.waiting();
            self.stats.stat_done = self.stats.stat_done + stats_done;
            self.stats.stat_changed = self.stats.stat_changed + changed;
            self.stats.media_probed = self.stats.media_probed + media_done;
        } else {
            self.stats.write_errors = self.stats.write_errors + n;
        }
        self.pending = Vec::new();
    }
}

// ---------------------------------------------------------------------------
// Laws
// ---------------------------------------------------------------------------

/// An item is probed for media again exactly when its file is of a media kind
/// and it has not been probed, was probed before the file changed or too long
/// ago, or lacks a property. In particular a complete item that was probed
/// after both the change and the cutoff is left alone.
pub proof fn fresh_items_are_left_alone(item: ItemRow, modified: Option<i64>, cutoff: i64)
    requires
        item.probed_at is Some,
        item.probed_at->0 >= cutoff,
        modified is Some ==> item.probed_at->0 >= modified->0,
        item.width is Some && item.height is Some && item.format is Some,
    ensures
        !is_media_due(item, modified, cutoff),
{
}

/// A path below a root starts with the root, whatever slashes stand between.
pub proof fn joined_path_starts_with_the_root(root: Seq<char>, rel: Seq<char>)
    ensures
        text::without_end(root, '/').is_prefix_of(joined_path(root, rel)),
{
    let r = text::without_end(root, '/');
    let all = joined_path(root, rel);
    assert(all.subrange(0, r.len() as int) =~= r);
}

/// A file is looked at again once the last look at it is older than the cutoff,
/// and where there was none.
pub proof fn old_looks_are_taken_again(item: &ItemRow, cutoff: i64, r: bool)
    requires
        call_ensures(stat_stale, (item, cutoff), r),
    ensures
        item.stat_at is None ==> r,
        item.stat_at matches Some(t) ==> (r <==> t < cutoff),
{
}

/// Media properties are read of files that may have any: where they were never
/// read, where something is missing, where the file changed since, and where
/// the time is up. A new look at the file goes before what is stored.
pub proof fn media_properties_are_read_when_due(
    item: &ItemRow,
    stat: &Option<FileStat>,
    cutoff: i64,
    r: bool,
    path: &str,
    readable: bool,
)
    requires
        call_ensures(media_due, (item, stat, cutoff), r),
        path@ == item.path@,
        call_ensures(is_probable, (path,), readable),
    ensures
        !readable ==> !r,
        readable && item.probed_at is None ==> r,
        readable && (item.width is None || item.height is None || item.format is None) ==> r,
        readable && item.width is Some && item.height is Some && item.format is Some ==> (
        item.probed_at matches Some(p) ==> {
            let changed = if *stat is Some {
                Some(stat->0.modified_at)
            } else {
                item.modified_at
            };
            r <==> p < cutoff || (changed is Some && p < changed->0)
        }),
{
}

/// A run looks at files that were not looked at within the cooldown, and reads
/// media properties that were not read within a longer one.
pub proof fn run_starts_from_now(max: Option<usize>, now: i64, r: Option<ProbePass>, more: bool)
    requires
        now >= i64::MIN + PROBE_COOLDOWN_MS,
        call_ensures(ProbePass::start, (max, now), r),
        r is Some ==> call_ensures(ProbePass::wants_more, (&r->0,), more),
    ensures
        r is None <==> max == Some(0usize),
        r matches Some(p) ==> {
            &&& p.stat_cutoff == now - 3_600_000
            &&& p.media_cutoff == now - 21_600_000
            &&& p.handled == 0
            &&& p.pending@.len() == 0
            &&& more
        },
{
}

proof fn lemma_counts(p: Seq<PendingWrite>, n: int)
    requires
        0 <= n <= p.len(),
    ensures
        stats_in(p, n) == p.take(n).filter(|w: PendingWrite| w.stat is Some).len(),
        media_in(p, n) == p.take(n).filter(|w: PendingWrite| w.media is Some).len(),
    decreases n,
{
    reveal(Seq::filter);
    if n > 0 {
        lemma_counts(p, n - 1);
        assert(p.take(n).drop_last() =~= p.take(n - 1));
    }
}

/// What was written is counted by what it held; what could not be written is
/// counted as that. Either way nothing waits any more.
pub proof fn written_results_are_counted(run: &mut ProbePass, committed: bool, changed: usize)
    requires
        call_ensures(ProbePass::flushed, (run, committed, changed), ()),
    ensures
        ({
            let p = old(run).pending@;
            let a = old(run).stats;
            let b = final(run).stats;
            &&& final(run).pending@.len() == 0
            &&& final(run).handled == old(run).handled
            &&& committed ==> {
                &&& b.stat_done == a.stat_done + p.filter(|w: PendingWrite| w.stat is Some).len()
                &&& b.media_probed == a.media_probed + p.filter(
                    |w: PendingWrite| w.media is Some,
                ).len()
                &&& b.stat_changed == a.stat_changed + changed
                &&& b.write_errors == a.write_errors
            }
            &&& !committed ==> {
                &&& b.write_errors == a.write_errors + p.len()
                &&& b.stat_done == a.stat_done
                &&& b.media_probed == a.media_probed
                &&& b.stat_changed == a.stat_changed
            }
            &&& b.gained_dimensions == a.gained_dimensions
            &&& b.gained_format == a.gained_format
        }),
{
    let p = old(run).pending@;
    lemma_counts(p, p.len() as int);
    assert(p.take(p.len() as int) =~= p);
}

/// A result waits as it was found; results are written together.
pub proof fn results_wait_as_found(
    run: &mut ProbePass,
    id: i64,
    path: String,
    stat: Option<FileStat>,
    media: Option<MediaMeta>,
    flush: bool,
)
    requires
        call_ensures(ProbePass::take, (run, id, path, stat, media), flush),
    ensures
        ({
            let a = old(run).pending@;
            let b = final(run).pending@;
            &&& stat is None && media is None ==> b == a
            &&& stat is Some || media is Some ==> {
                &&& b.len() == a.len() + 1
                &&& b.last().id == id
                &&& b.last().path == path
                &&& b.last().stat == stat
                &&& b.last().media == media
                &&& b.drop_last() == a
            }
            &&& flush <==> b.len() >= 32
            &&& final(run).handled == old(run).handled + 1
        }),
{
}

} // verus!
