//! The queue that decides which wallpaper comes next, and the decisions around
//! it: restoring, rotating, waiting for a display, refreshing the sources.

use crate::catalog::{SourceManager, WallpaperEntry};
use crate::error::Error;
use crate::settings::GlobalSettings;
use crate::snapshot::LibrarySnapshot;
use crate::snapshot::LibraryView;
use crate::seqs;
use crate::strmap::StrMap;
use crate::text::{self, push_line, str_eq, trim_end};
use vstd::prelude::*;

verus! {

broadcast use seqs::group_views;

/// Order in which wallpapers follow each other.
#[derive(Debug, Clone, Copy, PartialEq, Eq, Structural)]
pub enum Mode {
    Sequential,
    Shuffle,
    Random,
}

impl Mode {
    pub open spec fn word(self) -> Seq<char> {
        match self {
            Mode::Sequential => "sequential"@,
            Mode::Shuffle => "shuffle"@,
            Mode::Random => "random"@,
        }
    }

    pub open spec fn of_word(s: Seq<char>) -> Option<Mode> {
        if s == "sequential"@ {
            Some(Mode::Sequential)
        } else if s == "shuffle"@ {
            Some(Mode::Shuffle)
        } else if s == "random"@ {
            Some(Mode::Random)
        } else {
            None
        }
    }

    pub fn as_str(self) -> (s: &'static str)
        ensures
            s@ == self.word(),
    {
        match self {
            Mode::Sequential => "sequential",
            Mode::Shuffle => "shuffle",
            Mode::Random => "random",
        }
    }

    pub fn from_str(s: &str) -> (r: Option<Mode>)
        ensures
            r == Mode::of_word(s@),
    {
        if str_eq(s, "sequential") {
            Some(Mode::Sequential)
        } else if str_eq(s, "shuffle") {
            Some(Mode::Shuffle)
        } else if str_eq(s, "random") {
            Some(Mode::Random)
        } else {
            None
        }
    }
}

/// A mode is read back from its word.
pub proof fn mode_reads_back(m: Mode)
    ensures
        Mode::of_word(m.word()) == Some(m),
{
    reveal_strlit("sequential");
    reveal_strlit("shuffle");
    reveal_strlit("random");
    assert("sequential"@.len() == 10 && "shuffle"@.len() == 7 && "random"@.len() == 6);
}

/// The order that a client asks for; one it does not name, or that is not
/// known, is the sequential one.
pub fn asked_mode(m: Option<Mode>) -> (r: Mode)
    ensures
        r == match m {
            Some(x) => x,
            None => Mode::Sequential,
        },
{
    match m {
        Some(x) => x,
        None => Mode::Sequential,
    }
}

/// Shuffle where it is on, one after the other where it is off.
pub fn shuffle_mode(on: bool) -> (m: Mode)
    ensures
        m == if on {
            Mode::Shuffle
        } else {
            Mode::Sequential
        },
{
    if on {
        Mode::Shuffle
    } else {
        Mode::Sequential
    }
}

/// Where the queue stands.
#[derive(Debug)]
pub struct QueueState {
    pub mode: Mode,
    /// Wallpaper shown now.
    pub current: Option<String>,
    /// Its number in the database, where it is known.
    pub last_db_id: Option<i64>,
    /// Playlist that is played.
    pub active_id: Option<i64>,
    /// Order of the current shuffle round; empty before the first one.
    pub shuffle_round: Vec<i64>,
    pub shuffle_pos: usize,
}

/// Place of the first item of that number, or the length where there is none.
pub open spec fn first_place(round: Seq<i64>, x: i64) -> int
    decreases round.len(),
{
    if round.len() == 0 || round[0] == x {
        0
    } else {
        1 + first_place(round.skip(1), x)
    }
}

/// The place in the round once an item is shown: its own where the round holds
/// it, else the place stays.
pub open spec fn cursor_on(round: Seq<i64>, pos: usize, item: Option<i64>) -> usize {
    match item {
        Some(x) => if first_place(round, x) < round.len() {
            first_place(round, x) as usize
        } else {
            pos
        },
        None => pos,
    }
}

proof fn lemma_first_place(round: Seq<i64>, x: i64, i: int)
    requires
        0 <= i <= round.len(),
        forall|j: int| 0 <= j < i ==> #[trigger] round[j] != x,
        i < round.len() ==> round[i] == x,
    ensures
        first_place(round, x) == i,
    decreases round.len(),
{
    if i > 0 {
        assert(round[0] != x);
        assert forall|j: int| 0 <= j < i - 1 implies #[trigger] round.skip(1)[j] != x by {
            assert(round[j + 1] != x);
        }
        lemma_first_place(round.skip(1), x, i - 1);
    }
}

pub(crate) proof fn lemma_first_place_is_it(round: Seq<i64>, x: i64)
    ensures
        0 <= first_place(round, x) <= round.len(),
        first_place(round, x) < round.len() ==> round[first_place(round, x)] == x,
        round.contains(x) ==> first_place(round, x) < round.len(),
    decreases round.len(),
{
    if round.len() > 0 && round[0] != x {
        lemma_first_place_is_it(round.skip(1), x);
        if round.contains(x) {
            let i = round.index_of(x);
            assert(round.skip(1)[i - 1] == x);
        }
    }
}

/// What a step needs from the database.
#[derive(Debug)]
pub enum StepPlan {
    /// The item behind, or before, the given one.
    Neighbor { after: Option<i64>, forward: bool },
    /// Any item but the given one.
    Any { exclude: Option<i64> },
    /// The numbers of all items, for a first shuffle round.
    LoadRound,
    /// A new order of these items in which, if it can be helped, the last
    /// shown one does not stand at the place that is shown next.
    Reshuffle { candidates: Vec<i64>, avoid: Option<i64>, target: usize },
    /// This item.
    Show(i64),
}

impl QueueState {
    /// The place in the round is one of the round.
    pub open spec fn well_formed(self) -> bool {
        self.shuffle_round@.len() > 0 ==> self.shuffle_pos < self.shuffle_round@.len()
    }

    /// Whether the place lies within the round, where there is one.
    pub fn is_well_formed(&self) -> (r: bool)
        ensures
            r == self.well_formed(),
    {
        self.shuffle_round.len() == 0 || self.shuffle_pos < self.shuffle_round.len()
    }

    pub fn new(mode: Mode) -> (r: Self)
        ensures
            r.mode == mode,
            r.current is None,
            r.last_db_id is None,
            r.active_id is None,
            r.shuffle_round@.len() == 0,
            r.shuffle_pos == 0,
            r.well_formed(),
    {
        QueueState {
            mode,
            current: None,
            last_db_id: None,
            active_id: None,
            shuffle_round: Vec::new(),
            shuffle_pos: 0,
        }
    }

    pub fn set_mode(&mut self, mode: Mode)
        ensures
            *final(self) == (QueueState { mode, ..*old(self) }),
    {
        self.mode = mode;
    }

    /// Forgets the shuffle round; the next shuffle step starts a new one.
    pub fn reset_shuffle_round(&mut self)
        ensures
            final(self).shuffle_round@.len() == 0,
            final(self).shuffle_pos == 0,
            *final(self) == (QueueState {
                shuffle_round: final(self).shuffle_round,
                shuffle_pos: 0,
                ..*old(self)
            }),
    {
        self.shuffle_round = Vec::new();
        self.shuffle_pos = 0;
    }

    /// A wallpaper was put on screen.
    pub fn shown(&mut self, id: String, db_id: Option<i64>)
        ensures
            *final(self) == (QueueState {
                current: Some(id),
                last_db_id: if db_id is Some {
                    db_id
                } else {
                    old(self).last_db_id
                },
                ..*old(self)
            }),
    {
        self.current = Some(id);
        if db_id.is_some() {
            self.last_db_id = db_id;
        }
    }

    /// A wallpaper was chosen and put on screen: steps go on from it, within a
    /// shuffle round from its place in the round.
    pub fn located(&mut self, id: String, db_id: Option<i64>)
        ensures
            *final(self) == (QueueState {
                current: Some(id),
                last_db_id: if db_id is Some {
                    db_id
                } else {
                    old(self).last_db_id
                },
                shuffle_pos: cursor_on(old(self).shuffle_round@, old(self).shuffle_pos, db_id),
                ..*old(self)
            }),
            old(self).well_formed() ==> final(self).well_formed(),
    {
        if let Some(x) = db_id {
            let ghost round = self.shuffle_round@;
            let mut i: usize = 0;
            let mut found = false;
            while i < self.shuffle_round.len() && !found
                invariant
                    i <= self.shuffle_round@.len(),
                    round == self.shuffle_round@,
                    *self == *old(self),
                    forall|j: int| 0 <= j < i ==> #[trigger] round[j] != x,
                    found ==> i < round.len() && round[i as int] == x,
                decreases self.shuffle_round.len() - i + (if found {
                    0int
                } else {
                    1int
                }),
            {
                if self.shuffle_round[i] == x {
                    found = true;
                } else {
                    i = i + 1;
                }
            }
            proof {
                lemma_first_place(round, x, i as int);
            }
            if found {
                self.shuffle_pos = i;
            }
        }
        self.shown(id, db_id);
    }

    /// Plans a step. Within a shuffle round it moves the place; past either end
    /// the round is shuffled anew.
    pub fn plan_step(&mut self, delta: i32) -> (r: StepPlan)
        requires
            old(self).well_formed(),
        ensures
            final(self).well_formed(),
            final(self).shuffle_round == old(self).shuffle_round,
            *final(self) == (QueueState { shuffle_pos: final(self).shuffle_pos, ..*old(self) }),
            ({
                let q = *old(self);
                let len = q.shuffle_round@.len() as int;
                let raw = q.shuffle_pos + delta;
                match q.mode {
                    Mode::Sequential => r == (StepPlan::Neighbor {
                        after: q.last_db_id,
                        forward: delta >= 0,
                    }) && final(self).shuffle_pos == q.shuffle_pos,
                    Mode::Random => r == (StepPlan::Any { exclude: q.last_db_id })
                        && final(self).shuffle_pos == q.shuffle_pos,
                    Mode::Shuffle => if len == 0 {
                        r is LoadRound && final(self).shuffle_pos == q.shuffle_pos
                    } else if in_round(q.shuffle_pos as int, delta as int, len) is Some {
                        r == StepPlan::Show(q.shuffle_round@[raw]) && final(self).shuffle_pos == raw
                    } else {
                        &&& r is Reshuffle
                        &&& r->candidates@ == q.shuffle_round@
                        &&& r->avoid == q.last_db_id
                        &&& r->target == if raw >= len {
                            0
                        } else {
                            len - 1
                        }
                        &&& final(self).shuffle_pos == q.shuffle_pos
                    },
                }
            }),
    {
        match self.mode {
            Mode::Sequential => StepPlan::Neighbor { after: self.last_db_id, forward: delta >= 0 },
            Mode::Random => StepPlan::Any { exclude: self.last_db_id },
            Mode::Shuffle => {
                let len: usize = self.shuffle_round.len();
                if len == 0 {
                    return StepPlan::LoadRound;
                }
                let raw: i128 = self.shuffle_pos as i128 + delta as i128;
                if raw >= len as i128 || raw < 0 {
                    let target: usize = if raw >= len as i128 {
                        0
                    } else {
                        len - 1
                    };
                    let mut candidates: Vec<i64> = Vec::new();
                    let mut i: usize = 0;
                    while i < len
                        invariant
                            len == self.shuffle_round@.len(),
                            i <= len,
                            candidates@ == self.shuffle_round@.take(i as int),
                        decreases len - i,
                    {
                        candidates.push(self.shuffle_round[i]);
                        i = i + 1;
                        assert(candidates@ =~= self.shuffle_round@.take(i as int));
                    }
                    assert(candidates@ =~= self.shuffle_round@);
                    return StepPlan::Reshuffle { candidates, avoid: self.last_db_id, target };
                }
                self.shuffle_pos = raw as usize;
                StepPlan::Show(self.shuffle_round[self.shuffle_pos])
            },
        }
    }

    /// The items for a first round came in: what is to be shuffled, and an
    /// error where there are none.
    pub fn round_loaded(&self, ids: Vec<i64>) -> (r: Result<StepPlan, Error>)
        ensures
            if ids@.len() == 0 {
                r matches Err(Error::FailedPrecondition(m)) && m@ == "queue is empty"@
            } else {
                r == Ok::<StepPlan, Error>(
                    StepPlan::Reshuffle { candidates: ids, avoid: self.last_db_id, target: 0 },
                )
            },
    {
        if ids.len() == 0 {
            return Err(Error::FailedPrecondition("queue is empty".to_owned()));
        }
        Ok(StepPlan::Reshuffle { candidates: ids, avoid: self.last_db_id, target: 0 })
    }

    /// Shuffles a new round: `picks` are random numbers, one for each item. The
    /// item at the target place is shown; it is not the one to avoid where
    /// there is any other.
    pub fn build_shuffle_round(
        &mut self,
        candidates: Vec<i64>,
        picks: &Vec<u64>,
        avoid: Option<i64>,
        target: usize,
    ) -> (pick: i64)
        requires
            target < candidates@.len() <= picks@.len(),
        ensures
            final(self).shuffle_round@ == round_of(candidates@, picks@, avoid, target as int),
            *final(self) == (QueueState {
                shuffle_round: final(self).shuffle_round,
                shuffle_pos: target,
                ..*old(self)
            }),
            pick == final(self).shuffle_round@[target as int],
            final(self).well_formed(),
    {
        let len: usize = candidates.len();
        let mut round = candidates;
        let mut n: usize = len;
        while n > 1
            invariant
                n <= len == round@.len(),
                len == candidates@.len() <= picks@.len(),
                shuffled(round@, picks@, n as int) == shuffled(candidates@, picks@, len as int),
            decreases n,
        {
            let j: usize = (picks[n - 1] % (n as u64)) as usize;
            exchange(&mut round, n - 1, j);
            n = n - 1;
        }
        let ghost s = shuffled(candidates@, picks@, len as int);
        assert(round@ == s);
        if let Some(last) = avoid {
            if round[target] == last {
                let mut k: usize = 0;
                while k < len && round[k] == last
                    invariant
                        k <= len == s.len(),
                        round@ == s,
                        first_other(s, last, k as int) == first_other(s, last, 0),
                    decreases len - k,
                {
                    k = k + 1;
                }
                if k < len {
                    exchange(&mut round, target, k);
                }
            }
        }
        let pick: i64 = round[target];
        self.shuffle_round = round;
        self.shuffle_pos = target;
        pick
    }
}

/// The items at two places change them.
pub open spec fn exchanged(s: Seq<i64>, i: int, j: int) -> Seq<i64> {
    s.update(i, s[j]).update(j, s[i])
}

fn exchange(v: &mut Vec<i64>, i: usize, j: usize)
    requires
        i < old(v)@.len(),
        j < old(v)@.len(),
    ensures
        final(v)@ == exchanged(old(v)@, i as int, j as int),
{
    let a: i64 = v[i];
    let b: i64 = v[j];
    v.set(i, b);
    v.set(j, a);
}

/// The first `n` items in a new order: from the last place down, each changes
/// places with one of those before it, or stays.
pub open spec fn shuffled(s: Seq<i64>, picks: Seq<u64>, n: int) -> Seq<i64>
    decreases n,
{
    if n <= 1 {
        s
    } else {
        shuffled(exchanged(s, n - 1, picks[n - 1] as int % n), picks, n - 1)
    }
}

/// First place, from a place on, that holds another item than the given one.
pub open spec fn first_other(s: Seq<i64>, x: i64, from: int) -> int
    decreases s.len() - from,
{
    if from >= s.len() || s[from] != x {
        from
    } else {
        first_other(s, x, from + 1)
    }
}

/// A round of the items, with another item than the one to avoid at the target
/// where there is any.
pub open spec fn round_of(
    items: Seq<i64>,
    picks: Seq<u64>,
    avoid: Option<i64>,
    target: int,
) -> Seq<i64> {
    let s = shuffled(items, picks, items.len() as int);
    if avoid == Some(s[target]) && first_other(s, s[target], 0) < s.len() {
        exchanged(s, target, first_other(s, s[target], 0))
    } else {
        s
    }
}

proof fn lemma_exchanged(s: Seq<i64>, i: int, j: int)
    requires
        0 <= i < s.len(),
        0 <= j < s.len(),
    ensures
        exchanged(s, i, j).len() == s.len(),
        exchanged(s, i, j).to_multiset() == s.to_multiset(),
{
    let a = s[i];
    let b = s[j];
    let m = s.update(i, b);
    let e = exchanged(s, i, j);
    broadcast use vstd::seq_lib::group_to_multiset_ensures;

    assert(m.remove(i) =~= s.remove(i));
    assert(e.remove(j) =~= m.remove(j));
    assert(m[i] == b && e[j] == a && m[j] == b);
    assert(s.contains(a) && m.contains(b) && e.contains(a));
    assert(m.to_multiset().remove(b) =~= s.to_multiset().remove(a));
    assert(e.to_multiset().remove(a) =~= m.to_multiset().remove(b));
    assert(e.to_multiset().remove(a).insert(a) =~= e.to_multiset());
    assert(s.to_multiset().remove(a).insert(a) =~= s.to_multiset());
}

proof fn lemma_shuffled(s: Seq<i64>, picks: Seq<u64>, n: int)
    requires
        n <= s.len(),
    ensures
        shuffled(s, picks, n).len() == s.len(),
        shuffled(s, picks, n).to_multiset() == s.to_multiset(),
    decreases n,
{
    if n > 1 {
        let j = picks[n - 1] as int % n;
        lemma_exchanged(s, n - 1, j);
        lemma_shuffled(exchanged(s, n - 1, j), picks, n - 1);
    }
}

proof fn lemma_first_other(s: Seq<i64>, x: i64, from: int)
    requires
        0 <= from <= s.len(),
    ensures
        from <= first_other(s, x, from) <= s.len(),
        first_other(s, x, from) < s.len() ==> s[first_other(s, x, from)] != x,
        forall|k: int| from <= k < first_other(s, x, from) ==> (#[trigger] s[k]) == x,
    decreases s.len() - from,
{
    if from < s.len() && s[from] == x {
        lemma_first_other(s, x, from + 1);
    }
}

/// A round holds exactly the items it was made of.
pub proof fn a_round_holds_every_wallpaper(
    items: Seq<i64>,
    picks: Seq<u64>,
    avoid: Option<i64>,
    target: int,
)
    requires
        0 <= target < items.len(),
    ensures
        round_of(items, picks, avoid, target).len() == items.len(),
        round_of(items, picks, avoid, target).to_multiset() == items.to_multiset(),
{
    let s = shuffled(items, picks, items.len() as int);
    lemma_shuffled(items, picks, items.len() as int);
    lemma_first_other(s, s[target], 0);
    if first_other(s, s[target], 0) < s.len() {
        lemma_exchanged(s, target, first_other(s, s[target], 0));
    }
}

/// A new round does not begin with the wallpaper shown last, unless there is no
/// other.
pub proof fn a_round_does_not_repeat_the_last(
    items: Seq<i64>,
    picks: Seq<u64>,
    last: i64,
    target: int,
    other: int,
)
    requires
        0 <= target < items.len(),
        0 <= other < items.len(),
        items[other] != last,
    ensures
        round_of(items, picks, Some(last), target)[target] != last,
{
    broadcast use vstd::seq_lib::group_to_multiset_ensures;

    let s = shuffled(items, picks, items.len() as int);
    lemma_shuffled(items, picks, items.len() as int);
    lemma_first_other(s, last, 0);
    assert(items.contains(items[other]));
    assert(s.to_multiset().count(items[other]) > 0);
    assert(s.contains(items[other]));
    let k = choose|k: int| 0 <= k < s.len() && s[k] == items[other];
    assert(s[k] != last);
}

/// The item of a step was looked up; the queue is empty where there is none.
pub fn step_row(row: Option<QueueRow>) -> (r: Result<QueueRow, Error>)
    ensures
        match row {
            Some(x) => r == Ok::<QueueRow, Error>(x),
            None => r matches Err(Error::FailedPrecondition(m)) && m@ == "queue is empty"@,
        },
{
    match row {
        Some(x) => Ok(x),
        None => Err(Error::FailedPrecondition("queue is empty".to_owned())),
    }
}

/// Place in a round after a step, while it stays within the round.
pub open spec fn in_round(pos: int, delta: int, len: int) -> Option<int> {
    if 0 <= pos + delta < len {
        Some(pos + delta)
    } else {
        None
    }
}

/// Place after `n` steps forward from the start of a round of `len`.
pub open spec fn walked(len: int, n: nat) -> Option<int>
    decreases n,
{
    if n == 0 {
        in_round(0, 0, len)
    } else {
        match walked(len, (n - 1) as nat) {
            Some(pos) => in_round(pos, 1, len),
            None => None,
        }
    }
}

/// Steps forward through a round show each of its places once, in order, and
/// then leave it.
pub proof fn a_round_shows_each_wallpaper_once(len: int, n: nat)
    requires
        len > 0,
    ensures
        walked(len, n) == if n < len {
            Some(n as int)
        } else {
            None
        },
    decreases n,
{
    if n > 0 {
        a_round_shows_each_wallpaper_once(len, (n - 1) as nat);
    }
}

// ---------------------------------------------------------------------------
// From the database to the catalog
// ---------------------------------------------------------------------------

/// An item of the database with the library it lies in.
#[derive(Debug)]
pub struct QueueRow {
    pub item_id: i64,
    pub library_path: String,
    pub item_path: String,
}

/// The wallpaper is the one the row speaks of.
pub open spec fn is_row(e: WallpaperEntry, row: QueueRow) -> bool {
    &&& e.library_root@.len() > 0
    &&& e.relative is Some
    &&& text::without_end(e.library_root@, '/') == text::without_end(row.library_path@, '/')
    &&& e.relative->0@ == row.item_path@
}

/// `i` is the place of the first wallpaper that the row speaks of.
pub open spec fn first_row(entries: Seq<WallpaperEntry>, row: QueueRow, i: int) -> bool {
    &&& 0 <= i < entries.len()
    &&& is_row(entries[i], row)
    &&& forall|j: int| 0 <= j < i ==> !is_row(#[trigger] entries[j], row)
}

/// Id of the wallpaper that a row of the database speaks of.
pub fn bridge_to_entry_id(catalog: &SourceManager, row: &QueueRow) -> (r: Result<String, Error>)
    ensures
        match r {
            Ok(id) => exists|i: int| #[trigger]
                first_row(catalog@, *row, i) && catalog@[i].id == id,
            Err(e) => {
                &&& forall|i: int|
                    0 <= i < catalog@.len() ==> !is_row(#[trigger] catalog@[i], *row)
                &&& e matches Error::WallpaperNotFound(m) && m@ == row.library_path@ + " / "@
                    + row.item_path@
            },
        },
{
    let wanted = trim_end(row.library_path.as_str(), '/');
    let n: usize = catalog.len();
    let mut i: usize = 0;
    while i < n
        invariant
            n == catalog@.len(),
            i <= n,
            wanted@ == text::without_end(row.library_path@, '/'),
            forall|j: int| 0 <= j < i ==> !is_row(#[trigger] catalog@[j], *row),
        decreases n - i,
    {
        let e = catalog.entry(i);
        if e.library_root.as_str().unicode_len() > 0 {
            if let Some(rel) = &e.relative {
                let root = trim_end(e.library_root.as_str(), '/');
                if str_eq(root.as_str(), wanted.as_str()) && str_eq(
                    rel.as_str(),
                    row.item_path.as_str(),
                ) {
                    assert(first_row(catalog@, *row, i as int));
                    return Ok(e.id.clone());
                }
            }
        }
        i = i + 1;
    }
    let mut m = row.library_path.clone();
    m.append(" / ");
    m.append(row.item_path.as_str());
    Err(Error::WallpaperNotFound(m))
}

// ---------------------------------------------------------------------------
// Status and restoring
// ---------------------------------------------------------------------------

/// What was put on screen.
#[derive(Debug)]
pub struct ApplyResult {
    pub renderer_id: String,
    pub entry: WallpaperEntry,
}

/// State of the queue for display.
#[derive(Debug)]
pub struct QueueStatus {
    pub active_id: Option<i64>,
    pub mode: String,
    pub interval_secs: u32,
    pub current: Option<String>,
    pub position: Option<u32>,
    pub count: u32,
    pub is_smart: bool,
}

/// State of the queue: `count` items pass the filter, zero where they could
/// not be counted.
pub fn queue_status(
    queue: &QueueState,
    global: &GlobalSettings,
    count: Option<u64>,
    interval_secs: u32,
) -> (r: QueueStatus)
    ensures
        r.active_id == queue.active_id,
        r.mode@ == queue.mode.word(),
        r.interval_secs == interval_secs,
        r.current == queue.current,
        r.position is None,
        r.count == (match count {
            Some(n) => n as u32,
            None => 0u32,
        }),
        r.is_smart == (global.wallpaper_filter.filters@.len() > 0),
{
    QueueStatus {
        active_id: queue.active_id,
        mode: queue.mode.as_str().to_owned(),
        interval_secs,
        current: text::copy_opt(&queue.current),
        position: None,
        count: match count {
            Some(n) => n as u32,
            None => 0,
        },
        is_smart: global.wallpaper_filter.filters.len() > 0,
    }
}

/// What restoring the last session comes down to.
#[derive(Debug)]
pub struct RestorePlan {
    /// Wallpaper to put on screen.
    pub apply: Option<String>,
    pub mode: Option<Mode>,
    /// Playlist to play again. It is loaded after the mode is set, and brings
    /// its own.
    pub playlist: Option<i64>,
    pub interval: Option<u32>,
}

/// Seconds between wallpapers that are taken up again; zero is nothing to take
/// up.
pub open spec fn interval_kept(secs: u32) -> Option<u32> {
    if secs > 0 {
        Some(secs)
    } else {
        None
    }
}

/// Plans the restoring of the last session.
pub fn restore_plan(global: &GlobalSettings, restore_last: bool) -> (r: RestorePlan)
    ensures
        text::opt_text(r.apply) == (if restore_last {
            global@.last_wallpaper
        } else {
            None
        }),
        r.mode == Mode::of_word(global@.playlist_mode),
        r.playlist == global@.active_playlist_id,
        r.interval == interval_kept(global@.rotation_secs),
{
    RestorePlan {
        apply: if restore_last {
            text::copy_opt(&global.last_wallpaper)
        } else {
            None
        },
        mode: Mode::from_str(global.playlist_mode.as_str()),
        playlist: global.active_playlist_id,
        interval: if global.rotation_secs > 0 {
            Some(global.rotation_secs)
        } else {
            None
        },
    }
}

/// A change that everyone may be told of.
#[derive(Debug)]
pub enum GlobalEvent {
    SourcesReady,
    DisplayReady,
    ScanStarted,
    ScanCompleted { count: usize },
    ScanFailed(String),
    LibrariesAdded { paths: Vec<String> },
    SettingsChanged,
    RestoreApplied(Option<String>),
    RestoreFailed(String),
    StatusChanged,
}

/// Events at the end of restoring: a failure to put the wallpaper on screen is
/// told first, and what was restored last.
pub fn restore_events(plan: &RestorePlan, outcome: Option<Result<(), String>>) -> (out: Vec<
    GlobalEvent,
>)
    ensures
        match outcome {
            Some(Err(m)) => {
                &&& out@.len() == 2
                &&& (out@[0] matches GlobalEvent::RestoreFailed(t) && t@ == "apply: "@ + m@)
                &&& out@[1] == GlobalEvent::RestoreApplied(None)
            },
            Some(Ok(_)) => out@ == seq![GlobalEvent::RestoreApplied(plan.apply)],
            None => out@ == seq![GlobalEvent::RestoreApplied(None)],
        },
{
    let mut out: Vec<GlobalEvent> = Vec::new();
    let applied = match outcome {
        Some(Ok(_)) => text::copy_opt(&plan.apply),
        Some(Err(m)) => {
            let mut t = "apply: ".to_owned();
            t.append(m.as_str());
            out.push(GlobalEvent::RestoreFailed(t));
            None
        },
        None => None,
    };
    out.push(GlobalEvent::RestoreApplied(applied));
    out
}

// ---------------------------------------------------------------------------
// Waiting
// ---------------------------------------------------------------------------

/// Something that happens while a display is waited for.
#[derive(Debug, Clone, Copy, PartialEq, Eq, Structural)]
pub enum WaitEvent {
    Timeout,
    DisplayUpsert,
    DisplaysReplace { count: usize },
    Other,
    /// Events were lost; this many displays are connected.
    Lost { count: usize },
}

/// Whether a display is there, once that is settled.
pub fn display_wait(event: WaitEvent) -> (r: Option<bool>)
    ensures
        r == match event {
            WaitEvent::Timeout => Some(false),
            WaitEvent::DisplayUpsert => Some(true),
            WaitEvent::DisplaysReplace { count } => if count > 0 {
                Some(true)
            } else {
                None
            },
            WaitEvent::Other => None,
            WaitEvent::Lost { count } => Some(count > 0),
        },
{
    match event {
        WaitEvent::Timeout => Some(false),
        WaitEvent::DisplayUpsert => Some(true),
        WaitEvent::DisplaysReplace { count } => if count > 0 {
            Some(true)
        } else {
            None
        },
        WaitEvent::Other => None,
        WaitEvent::Lost { count } => Some(count > 0),
    }
}

/// Something that happens while the rotator waits.
#[derive(Debug, Clone, Copy, PartialEq, Eq, Structural)]
pub enum RotatorEvent {
    /// The waiting time is over; the interval is this many seconds now.
    Elapsed { interval_secs: u32 },
    ConfigChanged,
    /// The stop signal changed; `gone` where nobody can give it any more.
    Shutdown { gone: bool, stop: bool },
}

#[derive(Debug, Clone, Copy, PartialEq, Eq, Structural)]
pub enum RotatorAction {
    /// Wait anew.
    Again,
    /// Go one wallpaper on, then wait anew.
    Step,
    Exit,
}

/// Seconds to wait for the next change; without an interval only a change of
/// it or the stop signal ends the wait.
pub fn rotator_wait(interval_secs: u32) -> (r: Option<u64>)
    ensures
        r == if interval_secs == 0 {
            None
        } else {
            Some(interval_secs as u64)
        },
{
    if interval_secs == 0 {
        None
    } else {
        Some(interval_secs as u64)
    }
}

pub fn rotator_next(event: RotatorEvent) -> (r: RotatorAction)
    ensures
        r == match event {
            RotatorEvent::Elapsed { interval_secs } => if interval_secs == 0 {
                RotatorAction::Again
            } else {
                RotatorAction::Step
            },
            RotatorEvent::ConfigChanged => RotatorAction::Again,
            RotatorEvent::Shutdown { gone, stop } => if gone || stop {
                RotatorAction::Exit
            } else {
                RotatorAction::Again
            },
        },
{
    match event {
        RotatorEvent::Elapsed { interval_secs } => if interval_secs == 0 {
            RotatorAction::Again
        } else {
            RotatorAction::Step
        },
        RotatorEvent::ConfigChanged => RotatorAction::Again,
        RotatorEvent::Shutdown { gone, stop } => if gone || stop {
            RotatorAction::Exit
        } else {
            RotatorAction::Again
        },
    }
}

// ---------------------------------------------------------------------------
// Libraries
// ---------------------------------------------------------------------------

/// A library of the database.
#[derive(Debug)]
pub struct LibraryRow {
    pub id: i64,
    pub plugin_id: i64,
    pub path: String,
}

/// Name of a plugin, empty where it is not known.
pub open spec fn plugin_name_of(plugins: Seq<(i64, String)>, id: i64, n: int) -> Seq<char>
    decreases n,
{
    if n <= 0 {
        Seq::empty()
    } else {
        let rest = plugin_name_of(plugins, id, n - 1);
        if has_plugin(plugins, id, n - 1) {
            rest
        } else if plugins[n - 1].0 == id {
            plugins[n - 1].1@
        } else {
            rest
        }
    }
}

pub open spec fn has_plugin(plugins: Seq<(i64, String)>, id: i64, n: int) -> bool {
    exists|i: int| 0 <= i < n && (#[trigger] plugins[i]).0 == id
}

pub open spec fn library_of(row: LibraryRow, plugins: Seq<(i64, String)>) -> LibraryView {
    LibraryView {
        id: row.id,
        path: row.path@,
        plugin_name: plugin_name_of(plugins, row.plugin_id, plugins.len() as int),
    }
}

pub open spec fn by_id(s: Seq<LibraryView>) -> bool {
    forall|i: int, j: int| 0 <= i < j < s.len() ==> (#[trigger] s[i]).id <= (#[trigger] s[j]).id
}

fn find_plugin_name(plugins: &Vec<(i64, String)>, id: i64) -> (s: String)
    ensures
        s@ == plugin_name_of(plugins@, id, plugins@.len() as int),
{
    let mut found: Option<String> = None;
    let mut i: usize = 0;
    while i < plugins.len()
        invariant
            i <= plugins@.len(),
            match found {
                Some(s) => has_plugin(plugins@, id, i as int) && s@ == plugin_name_of(
                    plugins@,
                    id,
                    i as int,
                ),
                None => !has_plugin(plugins@, id, i as int) && plugin_name_of(
                    plugins@,
                    id,
                    i as int,
                ) == Seq::<char>::empty(),
            },
        decreases plugins.len() - i,
    {
        let ghost had = has_plugin(plugins@, id, i as int);
        if found.is_none() && plugins[i].0 == id {
            found = Some(plugins[i].1.clone());
        }
        proof {
            if had {
                let k = choose|k: int| 0 <= k < i && (#[trigger] plugins@[k]).0 == id;
                assert(plugins@[k].0 == id);
                assert(has_plugin(plugins@, id, i + 1));
            } else if plugins@[i as int].0 == id {
                assert(has_plugin(plugins@, id, i + 1));
            }
        }
        i = i + 1;
    }
    match found {
        Some(s) => s,
        None => String::new(),
    }
}

/// All libraries with the names of their plugins, in ascending order of ids.
pub fn list_library_snapshots(libs: &Vec<LibraryRow>, plugins: &Vec<(i64, String)>) -> (out: Vec<
    LibrarySnapshot,
>)
    ensures
        by_id(seqs::views(out@)),
        seqs::views(out@).to_multiset() == libs@.map_values(
            |row: LibraryRow| library_of(row, plugins@),
        ).to_multiset(),
{
    let ghost all = libs@.map_values(|row: LibraryRow| library_of(row, plugins@));
    let mut out: Vec<LibrarySnapshot> = Vec::new();
    let mut i: usize = 0;
    assert(seqs::views(out@) =~= all.take(0));
    while i < libs.len()
        invariant
            i <= libs@.len(),
            all == libs@.map_values(|row: LibraryRow| library_of(row, plugins@)),
            by_id(seqs::views(out@)),
            seqs::views(out@).to_multiset() == all.take(i as int).to_multiset(),
        decreases libs.len() - i,
    {
        let snap = LibrarySnapshot {
            id: libs[i].id,
            path: libs[i].path.clone(),
            plugin_name: find_plugin_name(plugins, libs[i].plugin_id),
        };
        let ghost x = snap@;
        let ghost before = seqs::views(out@);
        let mut k: usize = out.len();
        while k > 0 && out[k - 1].id > snap.id
            invariant
                k <= out@.len(),
                before == seqs::views(out@),
                x == snap@,
                forall|j: int| k <= j < before.len() ==> (#[trigger] before[j]).id > x.id,
            decreases k,
        {
            assert(before[k - 1] == out@[k - 1]@);
            k = k - 1;
        }
        proof {
            if k > 0 {
                assert(before[k - 1] == out@[k - 1]@);
            }
        }
        out.insert(k, snap);
        proof {
            let after = seqs::views(out@);
            assert(after =~= before.insert(k as int, x));
            broadcast use vstd::seq_lib::group_to_multiset_ensures;

            assert(after.remove(k as int) =~= before);
            assert(after.contains(after[k as int]));
            assert(after.to_multiset() =~= before.to_multiset().insert(x));
            assert(all.take(i + 1) =~= all.take(i as int).push(all[i as int]));
            assert forall|a: int, b: int| 0 <= a < b < after.len() implies (
            #[trigger] after[a]).id <= (#[trigger] after[b]).id by {
                let y = if b < k {
                    b
                } else {
                    b - 1
                };
                let z = if a < k {
                    a
                } else {
                    a - 1
                };
                if b == k {
                    assert(after[a] == before[a]);
                    assert(before[a].id <= before[k - 1].id);
                } else if a == k {
                    assert(after[b] == before[b - 1]);
                } else {
                    assert(after[a] == before[z] && after[b] == before[y]);
                }
            }
        }
        i = i + 1;
    }
    assert(all.take(i as int) =~= all);
    out
}

/// Paths of a plugin's libraries among the first `n`, in order.
pub open spec fn paths_of(libs: Seq<LibraryRow>, plugin_id: i64, n: int) -> Seq<Seq<char>>
    decreases n,
{
    if n <= 0 {
        Seq::empty()
    } else if libs[n - 1].plugin_id == plugin_id {
        paths_of(libs, plugin_id, n - 1).push(libs[n - 1].path@)
    } else {
        paths_of(libs, plugin_id, n - 1)
    }
}

pub open spec fn lists_text(m: Map<Seq<char>, Vec<String>>) -> Map<Seq<char>, Seq<Seq<char>>> {
    Map::new(|k: Seq<char>| m.contains_key(k), |k: Seq<char>| text::lines(m[k]@))
}

/// Libraries of the first `n` plugins that have any, by plugin name.
pub open spec fn grouped(libs: Seq<LibraryRow>, plugins: Seq<(i64, String)>, n: int) -> Map<
    Seq<char>,
    Seq<Seq<char>>,
>
    decreases n,
{
    if n <= 0 {
        Map::empty()
    } else {
        let rest = grouped(libs, plugins, n - 1);
        let paths = paths_of(libs, plugins[n - 1].0, libs.len() as int);
        if paths.len() > 0 {
            rest.insert(plugins[n - 1].1@, paths)
        } else {
            rest
        }
    }
}

/// The libraries of each known plugin that has any.
pub fn libraries_by_plugin_name(libs: &Vec<LibraryRow>, plugins: &Vec<(i64, String)>) -> (out:
    StrMap<Vec<String>>)
    ensures
        lists_text(out@) == grouped(libs@, plugins@, plugins@.len() as int),
{
    let mut out: StrMap<Vec<String>> = StrMap::new();
    let mut i: usize = 0;
    assert(lists_text(out@) =~= Map::<Seq<char>, Seq<Seq<char>>>::empty());
    while i < plugins.len()
        invariant
            i <= plugins@.len(),
            lists_text(out@) == grouped(libs@, plugins@, i as int),
        decreases plugins.len() - i,
    {
        let id: i64 = plugins[i].0;
        let mut paths: Vec<String> = Vec::new();
        let mut k: usize = 0;
        assert(text::lines(paths@) =~= Seq::<Seq<char>>::empty());
        while k < libs.len()
            invariant
                k <= libs@.len(),
                text::lines(paths@) == paths_of(libs@, id, k as int),
            decreases libs.len() - k,
        {
            if libs[k].plugin_id == id {
                push_line(&mut paths, libs[k].path.clone());
            }
            k = k + 1;
        }
        if paths.len() > 0 {
            let ghost before = out@;
            out.insert(plugins[i].1.clone(), paths);
            assert(lists_text(out@) =~= lists_text(before).insert(
                plugins@[i as int].1@,
                text::lines(paths@),
            ));
            assert(text::lines(paths@).len() > 0);
        } else {
            assert(text::lines(paths@).len() == 0);
        }
        i = i + 1;
    }
    out
}

// ---------------------------------------------------------------------------
// Finding libraries
// ---------------------------------------------------------------------------

/// Paths that one plugin found on its own.
#[derive(Debug)]
pub struct Detected {
    pub plugin_name: String,
    pub paths: Vec<String>,
}

/// What to look up or add next.
#[derive(Debug)]
pub enum DetectAction {
    FindPlugin(String),
    FindLibrary { plugin_id: i64, path: String },
    AddLibrary { plugin_id: i64, path: String },
    Finish,
}

/// The search for libraries at well-known places.
#[derive(Debug)]
pub struct AutoDetect {
    pub detected: Vec<Detected>,
    pub plugin: usize,
    pub plugin_id: Option<i64>,
    pub path: usize,
    /// The library at the current path is not there yet.
    pub missing: bool,
    pub added: Vec<LibrarySnapshot>,
}

impl AutoDetect {
    pub open spec fn well_formed(self) -> bool {
        &&& self.plugin <= self.detected@.len()
        &&& self.plugin_id is Some ==> {
            &&& self.plugin < self.detected@.len()
            &&& self.path < self.detected@[self.plugin as int].paths@.len()
        }
    }

    pub fn new(detected: Vec<Detected>) -> (r: Self)
        ensures
            r.detected == detected,
            r.plugin == 0,
            r.plugin_id is None,
            r.path == 0,
            !r.missing,
            r.added@.len() == 0,
            r.well_formed(),
    {
        AutoDetect {
            detected,
            plugin: 0,
            plugin_id: None,
            path: 0,
            missing: false,
            added: Vec::new(),
        }
    }

    /// What comes next.
    pub fn action(&self) -> (r: DetectAction)
        requires
            self.well_formed(),
        ensures
            match self.plugin_id {
                Some(id) => {
                    let path = self.detected@[self.plugin as int].paths@[self.path as int];
                    if self.missing {
                        r == (DetectAction::AddLibrary { plugin_id: id, path })
                    } else {
                        r == (DetectAction::FindLibrary { plugin_id: id, path })
                    }
                },
                None => if self.plugin < self.detected@.len() {
                    r == DetectAction::FindPlugin(self.detected@[self.plugin as int].plugin_name)
                } else {
                    r is Finish
                },
            },
    {
        match self.plugin_id {
            Some(id) => {
                let path = self.detected[self.plugin].paths[self.path].clone();
                if self.missing {
                    DetectAction::AddLibrary { plugin_id: id, path }
                } else {
                    DetectAction::FindLibrary { plugin_id: id, path }
                }
            },
            None => if self.plugin < self.detected.len() {
                DetectAction::FindPlugin(self.detected[self.plugin].plugin_name.clone())
            } else {
                DetectAction::Finish
            },
        }
    }

    /// The plugin was looked up. One that is not known is passed over.
    pub fn on_plugin(&mut self, id: Option<i64>)
        requires
            old(self).well_formed(),
            old(self).plugin_id is None,
            old(self).plugin < old(self).detected@.len(),
        ensures
            final(self).well_formed(),
            ({
                let a = *old(self);
                let has_paths = a.detected@[a.plugin as int].paths@.len() > 0;
                *final(self) == if id is Some && has_paths {
                    AutoDetect { plugin_id: id, path: 0, missing: false, ..a }
                } else {
                    AutoDetect { plugin: (a.plugin + 1) as usize, ..a }
                }
            }),
    {
        let _n: usize = self.detected.len();
        if id.is_some() && self.detected[self.plugin].paths.len() > 0 {
            self.plugin_id = id;
            self.path = 0;
            self.missing = false;
        } else {
            self.plugin = self.plugin + 1;
        }
    }

    pub open spec fn moved_on(self) -> AutoDetect {
        if self.path + 1 < self.detected@[self.plugin as int].paths@.len() {
            AutoDetect { path: (self.path + 1) as usize, missing: false, ..self }
        } else {
            AutoDetect {
                plugin: (self.plugin + 1) as usize,
                plugin_id: None,
                path: 0,
                missing: false,
                ..self
            }
        }
    }

    fn move_on(&mut self)
        requires
            old(self).well_formed(),
            old(self).plugin_id is Some,
        ensures
            final(self).well_formed(),
            *final(self) == old(self).moved_on(),
    {
        let _n: usize = self.detected.len();
        let paths: usize = self.detected[self.plugin].paths.len();
        self.missing = false;
        if self.path + 1 < paths {
            self.path = self.path + 1;
        } else {
            self.plugin = self.plugin + 1;
            self.plugin_id = None;
            self.path = 0;
        }
    }

    /// The library was looked up; `None` where that failed. Only one that is
    /// not there yet is added.
    pub fn on_library(&mut self, exists: Option<bool>)
        requires
            old(self).well_formed(),
            old(self).plugin_id is Some,
            !old(self).missing,
        ensures
            final(self).well_formed(),
            *final(self) == if exists == Some(false) {
                AutoDetect { missing: true, ..*old(self) }
            } else {
                old(self).moved_on()
            },
    {
        let absent = match exists {
            Some(e) => !e,
            None => false,
        };
        if absent {
            self.missing = true;
        } else {
            self.move_on();
        }
    }

    /// The library was added; `None` where that failed. Says what subscribers
    /// are told.
    pub fn on_added(&mut self, added: Option<(i64, String)>) -> (told: Option<LibrarySnapshot>)
        requires
            old(self).well_formed(),
            old(self).plugin_id is Some,
            old(self).missing,
        ensures
            final(self).well_formed(),
            ({
                let a = *old(self);
                let b = *final(self);
                let snap = LibraryView {
                    id: match added {
                        Some((id, _)) => id,
                        None => 0,
                    },
                    path: match added {
                        Some((_, path)) => path@,
                        None => Seq::empty(),
                    },
                    plugin_name: a.detected@[a.plugin as int].plugin_name@,
                };
                &&& b == (AutoDetect { added: b.added, ..a.moved_on() })
                &&& match told {
                    Some(t) => added is Some && t@ == snap && seqs::views(b.added@)
                        == seqs::views(a.added@).push(snap),
                    None => added is None && b.added == a.added,
                }
            }),
    {
        match added {
            Some((id, path)) => {
                let name = self.detected[self.plugin].plugin_name.clone();
                let told = LibrarySnapshot {
                    id,
                    path: path.clone(),
                    plugin_name: name.clone(),
                };
                self.added.push(LibrarySnapshot { id, path, plugin_name: name });
                self.move_on();
                Some(told)
            },
            None => {
                self.move_on();
                None
            },
        }
    }

    /// What is told at the end, and whether the sources are to be scanned: both
    /// only where a library was added.
    pub fn finish(&self) -> (r: Option<GlobalEvent>)
        ensures
            if self.added@.len() == 0 {
                r is None
            } else {
                r matches Some(GlobalEvent::LibrariesAdded { paths }) && text::lines(paths@)
                    == seqs::views(self.added@).map_values(|l: LibraryView| l.path)
            },
    {
        if self.added.len() == 0 {
            return None;
        }
        let mut paths: Vec<String> = Vec::new();
        let mut i: usize = 0;
        while i < self.added.len()
            invariant
                i <= self.added@.len(),
                paths@.len() == i,
                forall|j: int| 0 <= j < i ==> (#[trigger] paths@[j])@ == self.added@[j].path@,
            decreases self.added.len() - i,
        {
            paths.push(self.added[i].path.clone());
            i = i + 1;
        }
        assert(text::lines(paths@) =~= seqs::views(self.added@).map_values(
            |l: LibraryView| l.path,
        ));
        Some(GlobalEvent::LibrariesAdded { paths })
    }
}

// ---------------------------------------------------------------------------
// Refreshing
// ---------------------------------------------------------------------------

/// Places of a plugin's wallpapers among the first `n`, in order.
pub open spec fn plugin_places(
    entries: Seq<WallpaperEntry>,
    plugin: Seq<char>,
    n: int,
) -> Seq<usize>
    decreases n,
{
    if n <= 0 {
        Seq::empty()
    } else if entries[n - 1].plugin_name@ == plugin {
        plugin_places(entries, plugin, n - 1).push((n - 1) as usize)
    } else {
        plugin_places(entries, plugin, n - 1)
    }
}

/// Places of a plugin's wallpapers in the catalog.
pub fn entries_of_plugin(catalog: &SourceManager, plugin: &str) -> (out: Vec<usize>)
    ensures
        out@ == plugin_places(catalog@, plugin@, catalog@.len() as int),
{
    let n: usize = catalog.len();
    let mut out: Vec<usize> = Vec::new();
    let mut i: usize = 0;
    while i < n
        invariant
            n == catalog@.len(),
            i <= n,
            out@ == plugin_places(catalog@, plugin@, i as int),
        decreases n - i,
    {
        if str_eq(catalog.entry(i).plugin_name.as_str(), plugin) {
            out.push(i);
        }
        i = i + 1;
    }
    out
}

/// Events at the end of a refresh: how it ended, then that the status changed.
pub fn refresh_events(result: &Result<usize, Error>) -> (out: Vec<GlobalEvent>)
    ensures
        out@.len() == 2,
        match result {
            Ok(n) => out@[0] == (GlobalEvent::ScanCompleted { count: *n }),
            Err(e) => out@[0] matches GlobalEvent::ScanFailed(m) && m@ == e.says(),
        },
        out@[1] is StatusChanged,
{
    let mut out: Vec<GlobalEvent> = Vec::new();
    match result {
        Ok(n) => {
            out.push(GlobalEvent::ScanCompleted { count: *n });
        },
        Err(e) => {
            out.push(GlobalEvent::ScanFailed(e.message()));
        },
    }
    out.push(GlobalEvent::StatusChanged);
    out
}

/// In order, a step goes to the neighbour of the wallpaper shown last, forward
/// or back as asked.
pub proof fn steps_in_order(q: &mut QueueState, delta: i32, r: StepPlan)
    requires
        old(q).well_formed(),
        old(q).mode == Mode::Sequential,
        call_ensures(QueueState::plan_step, (q, delta), r),
    ensures
        r matches StepPlan::Neighbor { after, forward } && after == old(q).last_db_id && forward
            == (delta >= 0),
{
}

/// At random, a step goes to any wallpaper but the one shown last.
pub proof fn random_steps_do_not_repeat(q: &mut QueueState, delta: i32, r: StepPlan)
    requires
        old(q).well_formed(),
        old(q).mode == Mode::Random,
        call_ensures(QueueState::plan_step, (q, delta), r),
    ensures
        r matches StepPlan::Any { exclude } && exclude == old(q).last_db_id,
        *final(q) == *old(q),
{
}

/// Within a shuffle round a step moves the place by as much as asked and shows
/// what stands there; a step back from there shows what was there before.
pub proof fn shuffle_steps_can_be_taken_back(
    q: &mut QueueState,
    later: &mut QueueState,
    delta: i32,
    back: i32,
    r: StepPlan,
    s: StepPlan,
)
    requires
        old(q).well_formed(),
        old(q).mode == Mode::Shuffle,
        old(q).shuffle_round@.len() > 0,
        0 <= old(q).shuffle_pos + delta < old(q).shuffle_round@.len(),
        back == -delta,
        call_ensures(QueueState::plan_step, (q, delta), r),
        *old(later) == *final(q),
        call_ensures(QueueState::plan_step, (later, back), s),
    ensures
        final(q).shuffle_pos == old(q).shuffle_pos + delta,
        final(q).shuffle_round@ == old(q).shuffle_round@,
        r == StepPlan::Show(old(q).shuffle_round@[old(q).shuffle_pos + delta]),
        s == StepPlan::Show(old(q).shuffle_round@[old(q).shuffle_pos as int]),
        *final(later) == *old(q),
{
}

/// A step past either end of a shuffle round asks for a new round of the same
/// wallpapers, which goes on from its first place forward and from its last one
/// back, and not with the wallpaper shown last.
pub proof fn round_is_followed_by_another(q: &mut QueueState, delta: i32, r: StepPlan)
    requires
        old(q).well_formed(),
        old(q).mode == Mode::Shuffle,
        old(q).shuffle_round@.len() > 0,
        old(q).shuffle_pos + delta < 0 || old(q).shuffle_pos + delta
            >= old(q).shuffle_round@.len(),
        call_ensures(QueueState::plan_step, (q, delta), r),
    ensures
        r matches StepPlan::Reshuffle { candidates, avoid, target } && {
            &&& candidates@ == old(q).shuffle_round@
            &&& avoid == old(q).last_db_id
            &&& delta > 0 ==> target == 0
            &&& delta < 0 ==> target + 1 == candidates@.len()
        },
        *final(q) == *old(q),
{
}

/// Without a round, one is made of the wallpapers that match, and it begins at
/// its first place. There is no step where none matches.
pub proof fn first_round_is_made_of_the_matches(
    q: &mut QueueState,
    after: QueueState,
    delta: i32,
    r: StepPlan,
    ids: Vec<i64>,
    s: Result<StepPlan, Error>,
)
    requires
        old(q).mode == Mode::Shuffle,
        old(q).shuffle_round@.len() == 0,
        call_ensures(QueueState::plan_step, (q, delta), r),
        after == *final(q),
        call_ensures(QueueState::round_loaded, (&after, ids), s),
    ensures
        r is LoadRound,
        after == *old(q),
        ids@.len() == 0 ==> s is Err,
        ids@.len() > 0 ==> (s matches Ok(StepPlan::Reshuffle { candidates, avoid, target })
            && candidates == ids && avoid == old(q).last_db_id && target == 0),
{
}

/// A round holds each of its candidates as often as it was given, in whatever
/// order; it stands at the target, which holds what is shown. That is not the
/// wallpaper to avoid, where there is another.
pub proof fn round_is_made_of_its_candidates(
    q: &mut QueueState,
    candidates: Vec<i64>,
    picks: &Vec<u64>,
    avoid: Option<i64>,
    target: usize,
    pick: i64,
)
    requires
        target < candidates@.len() <= picks@.len(),
        call_ensures(
            QueueState::build_shuffle_round,
            (q, candidates, picks, avoid, target),
            pick,
        ),
    ensures
        final(q).shuffle_round@.to_multiset() == candidates@.to_multiset(),
        final(q).shuffle_round@.len() == candidates@.len(),
        final(q).shuffle_pos == target,
        pick == final(q).shuffle_round@[target as int],
        (exists|k: int| 0 <= k < candidates@.len() && #[trigger] candidates@[k] != pick) ==> avoid
            != Some(pick),
        final(q).mode == old(q).mode,
        final(q).current == old(q).current,
        final(q).last_db_id == old(q).last_db_id,
        final(q).active_id == old(q).active_id,
{
    a_round_holds_every_wallpaper(candidates@, picks@, avoid, target as int);
    if exists|k: int| 0 <= k < candidates@.len() && #[trigger] candidates@[k] != pick {
        let k = choose|k: int| 0 <= k < candidates@.len() && #[trigger] candidates@[k] != pick;
        if avoid == Some(pick) {
            a_round_does_not_repeat_the_last(candidates@, picks@, pick, target as int, k);
        }
    }
}

/// The first draw of a shuffle decides which item comes last.
pub proof fn draws_decide_the_order(items: Seq<i64>, picks: Seq<u64>)
    requires
        items.len() > 1,
        picks.len() >= items.len(),
    ensures
        shuffled(items, picks, items.len() as int).last() == items[picks[items.len() - 1] as int
            % items.len() as int],
{
    let n = items.len() as int;
    let k = picks[n - 1] as int % n;
    let s = exchanged(items, n - 1, k);
    assert(0 <= k < n) by (nonlinear_arith)
        requires
            n > 0,
            k == picks[n - 1] as int % n,
    ;
    lemma_tail_stays(s, picks, n - 1, n - 1);
    assert(s[n - 1] == items[k]);
}

proof fn lemma_tail_stays(s: Seq<i64>, picks: Seq<u64>, n: int, at: int)
    requires
        0 <= n <= at < s.len(),
    ensures
        shuffled(s, picks, n).len() == s.len(),
        shuffled(s, picks, n)[at] == s[at],
    decreases n,
{
    if n > 1 {
        let k = picks[n - 1] as int % n;
        assert(0 <= k < n) by (nonlinear_arith)
            requires
                n > 0,
                k == picks[n - 1] as int % n,
        ;
        lemma_tail_stays(exchanged(s, n - 1, k), picks, n - 1, at);
    }
}

/// A wallpaper that is shown is the current one. Where its number is known it
/// is the one that steps go on from; where not, they go on from the one before.
pub proof fn shown_wallpaper_is_current(q: &mut QueueState, id: String, db_id: Option<i64>)
    requires
        call_ensures(QueueState::shown, (q, id, db_id), ()),
    ensures
        final(q).current == Some(id),
        db_id is Some ==> final(q).last_db_id == db_id,
        db_id is None ==> final(q).last_db_id == old(q).last_db_id,
        final(q).mode == old(q).mode,
        final(q).active_id == old(q).active_id,
        final(q).shuffle_round == old(q).shuffle_round,
        final(q).shuffle_pos == old(q).shuffle_pos,
{
}

/// A wallpaper that is chosen is the current one, and the round goes on from it
/// where the round holds it; otherwise the round stays where it was.
pub proof fn chosen_wallpaper_moves_the_round(q: &mut QueueState, id: String, x: i64)
    requires
        call_ensures(QueueState::located, (q, id, Some(x)), ()),
    ensures
        final(q).current == Some(id),
        final(q).last_db_id == Some(x),
        final(q).shuffle_round == old(q).shuffle_round,
        final(q).mode == old(q).mode,
        final(q).active_id == old(q).active_id,
        old(q).shuffle_round@.contains(x) ==> final(q).shuffle_pos < old(q).shuffle_round@.len()
            && old(q).shuffle_round@[final(q).shuffle_pos as int] == x,
        !old(q).shuffle_round@.contains(x) ==> final(q).shuffle_pos == old(q).shuffle_pos,
{
    let round = old(q).shuffle_round@;
    lemma_first_place_is_it(round, x);
    lemma_first_place_bound(round, x);
    assert(old(q).shuffle_round.len() == round.len());
}

proof fn lemma_first_place_bound(round: Seq<i64>, x: i64)
    ensures
        0 <= first_place(round, x) <= round.len(),
        first_place(round, x) < round.len() ==> round[first_place(round, x)] == x,
    decreases round.len(),
{
    if round.len() > 0 && round[0] != x {
        lemma_first_place_bound(round.skip(1), x);
    }
}

/// Another order leaves everything else of the queue as it is.
pub proof fn order_changes_alone(q: &mut QueueState, mode: Mode)
    requires
        call_ensures(QueueState::set_mode, (q, mode), ()),
    ensures
        final(q).mode == mode,
        final(q).current == old(q).current,
        final(q).last_db_id == old(q).last_db_id,
        final(q).active_id == old(q).active_id,
        final(q).shuffle_round == old(q).shuffle_round,
        final(q).shuffle_pos == old(q).shuffle_pos,
{
}

/// The order goes by its word and comes back from it; no other word is one.
pub proof fn order_has_a_word(m: Mode, w: &'static str, r: Option<Mode>)
    requires
        call_ensures(Mode::as_str, (m,), w),
        call_ensures(Mode::from_str, (w,), r),
    ensures
        r == Some(m),
        m == Mode::Sequential ==> w@ == "sequential"@,
        m == Mode::Shuffle ==> w@ == "shuffle"@,
        m == Mode::Random ==> w@ == "random"@,
{
    mode_reads_back(m);
}

/// The switch for shuffling turns it on, and off again in favour of the order
/// of the library. A playlist without an order of its own is played in order.
pub proof fn shuffle_is_switched(on: bool, m: Mode, asked: Option<Mode>, n: Mode)
    requires
        call_ensures(shuffle_mode, (on,), m),
        call_ensures(asked_mode, (asked,), n),
    ensures
        on == (m == Mode::Shuffle),
        !on ==> m == Mode::Sequential,
        asked matches Some(x) ==> n == x,
        asked is None ==> n == Mode::Sequential,
{
}

/// A row of the database leads to a wallpaper that lies in the library of the
/// row under the path of the row, whatever slashes end the library's path; it
/// is an error only where the catalog has none.
pub proof fn row_leads_to_its_wallpaper(
    catalog: &SourceManager,
    row: &QueueRow,
    r: Result<String, Error>,
    i: int,
)
    requires
        call_ensures(bridge_to_entry_id, (catalog, row), r),
        0 <= i < catalog@.len(),
    ensures
        ({
            let fits = |e: WallpaperEntry|
                {
                    &&& e.library_root@.len() > 0
                    &&& e.relative matches Some(p) && p@ == row.item_path@
                    &&& text::without_end(e.library_root@, '/') == text::without_end(
                        row.library_path@,
                        '/',
                    )
                };
            &&& r is Err ==> !fits(catalog@[i])
            &&& r matches Ok(id) ==> exists|k: int|
                0 <= k < catalog@.len() && (#[trigger] catalog@[k]).id == id && fits(catalog@[k])
                    && (fits(catalog@[i]) ==> k <= i)
        }),
{
    if r is Ok {
        let id = r->Ok_0;
        let k = choose|k: int| #[trigger] first_row(catalog@, *row, k) && catalog@[k].id == id;
        assert(catalog@[k].id == id);
        if i < k {
            assert(!is_row(catalog@[i], *row));
        }
    } else {
        assert(!is_row(catalog@[i], *row));
    }
}

/// What callers see of the queue is what it is.
pub proof fn status_is_the_queue(
    queue: &QueueState,
    global: &GlobalSettings,
    count: Option<u64>,
    interval_secs: u32,
    r: QueueStatus,
)
    requires
        call_ensures(queue_status, (queue, global, count, interval_secs), r),
    ensures
        r.active_id == queue.active_id,
        r.mode@ == queue.mode.word(),
        r.interval_secs == interval_secs,
        r.current == queue.current,
        count matches Some(n) && n <= u32::MAX ==> r.count == count->0,
        count is None ==> r.count == 0,
        r.is_smart <==> global.wallpaper_filter.filters@.len() != 0,
{
}

/// Restoring takes up what the settings keep: the wallpaper shown last where it
/// is asked for, the order, the playlist, and the time between changes where
/// there is one.
pub proof fn restoring_takes_up_what_was_kept(
    global: &GlobalSettings,
    restore_last: bool,
    r: RestorePlan,
)
    requires
        call_ensures(restore_plan, (global, restore_last), r),
    ensures
        !restore_last ==> r.apply is None,
        restore_last ==> text::opt_text(r.apply) == global@.last_wallpaper,
        r.playlist == global@.active_playlist_id,
        forall|m: Mode| global@.playlist_mode == #[trigger] m.word() ==> r.mode == Some(m),
        global@.rotation_secs > 0 ==> r.interval == Some(global@.rotation_secs),
        global@.rotation_secs == 0 ==> r.interval is None,
{
    assert forall|m: Mode| global@.playlist_mode == #[trigger] m.word() implies r.mode == Some(
        m,
    ) by {
        mode_reads_back(m);
    }
}

/// The rotation goes on to another wallpaper exactly when a time between changes
/// is set and has passed, ends exactly when the daemon stops or is gone, and
/// waits that time; without one it waits for a change of the settings.
pub proof fn rotation_steps_when_its_time_has_passed(
    interval_secs: u32,
    wait: Option<u64>,
    event: RotatorEvent,
    r: RotatorAction,
)
    requires
        call_ensures(rotator_wait, (interval_secs,), wait),
        call_ensures(rotator_next, (event,), r),
    ensures
        interval_secs == 0 ==> wait is None,
        interval_secs > 0 ==> wait == Some(interval_secs as u64),
        r is Step <==> (event matches RotatorEvent::Elapsed { interval_secs: s } && s > 0),
        r is Exit <==> (event matches RotatorEvent::Shutdown { gone, stop } && (gone || stop)),
{
}

/// Waiting for a display ends well only once one is connected, and badly only
/// when the time is over or none can come any more.
pub proof fn waiting_ends_with_a_display(event: WaitEvent, r: Option<bool>)
    requires
        call_ensures(display_wait, (event,), r),
    ensures
        r == Some(true) <==> (event is DisplayUpsert || (event matches WaitEvent::DisplaysReplace {
            count,
        } && count > 0) || (event matches WaitEvent::Lost { count } && count > 0)),
        r == Some(false) <==> (event is Timeout || (event matches WaitEvent::Lost { count } && count
            == 0)),
{
}

proof fn lemma_paths_of(libs: Seq<LibraryRow>, plugin_id: i64, n: int)
    requires
        0 <= n <= libs.len(),
    ensures
        forall|p: Seq<char>| #[trigger]
            paths_of(libs, plugin_id, n).contains(p) <==> exists|i: int|
                0 <= i < n && (#[trigger] libs[i]).plugin_id == plugin_id && libs[i].path@ == p,
    decreases n,
{
    if n > 0 {
        lemma_paths_of(libs, plugin_id, n - 1);
        let rest = paths_of(libs, plugin_id, n - 1);
        let all = paths_of(libs, plugin_id, n);
        assert forall|p: Seq<char>| #[trigger] all.contains(p) <==> exists|i: int|
            0 <= i < n && (#[trigger] libs[i]).plugin_id == plugin_id && libs[i].path@ == p by {
            if all.contains(p) {
                let i = all.index_of(p);
                if i < rest.len() {
                    assert(rest[i] == p);
                    assert(rest.contains(p));
                    let k = choose|k: int|
                        0 <= k < n - 1 && (#[trigger] libs[k]).plugin_id == plugin_id
                            && libs[k].path@ == p;
                    assert(libs[k].path@ == p);
                } else {
                    assert(libs[n - 1].path@ == p);
                }
            }
            if exists|i: int|
                0 <= i < n && (#[trigger] libs[i]).plugin_id == plugin_id && libs[i].path@ == p {
                let k = choose|k: int|
                    0 <= k < n && (#[trigger] libs[k]).plugin_id == plugin_id && libs[k].path@ == p;
                if k < n - 1 {
                    assert(libs[k].path@ == p);
                    assert(rest.contains(p));
                    assert(all[rest.index_of(p)] == p);
                } else {
                    assert(all.last() == p);
                }
            }
        }
    }
}

proof fn lemma_grouped(libs: Seq<LibraryRow>, plugins: Seq<(i64, String)>, n: int, k: int)
    requires
        0 <= n <= plugins.len(),
        0 <= k < plugins.len(),
        forall|i: int, j: int|
            0 <= i < j < plugins.len() ==> (#[trigger] plugins[i]).1@ != (#[trigger] plugins[j]).1@,
    ensures
        ({
            let m = grouped(libs, plugins, n);
            let paths = paths_of(libs, plugins[k].0, libs.len() as int);
            &&& m.contains_key(plugins[k].1@) <==> k < n && paths.len() > 0
            &&& m.contains_key(plugins[k].1@) ==> m[plugins[k].1@] == paths
        }),
    decreases n,
{
    if n > 0 {
        lemma_grouped(libs, plugins, n - 1, k);
        if k < n - 1 {
            assert(plugins[k].1@ != plugins[n - 1].1@);
        } else if n - 1 < k {
            assert(plugins[n - 1].1@ != plugins[k].1@);
        }
    }
}

/// A plugin is given exactly the paths of its own libraries; one without a
/// library is not listed.
pub proof fn plugin_gets_its_own_libraries(
    libs: &Vec<LibraryRow>,
    plugins: &Vec<(i64, String)>,
    out: StrMap<Vec<String>>,
    k: int,
    path: Seq<char>,
)
    requires
        call_ensures(libraries_by_plugin_name, (libs, plugins), out),
        0 <= k < plugins@.len(),
        forall|i: int, j: int|
            0 <= i < j < plugins@.len() ==> (#[trigger] plugins@[i]).1@ != (
            #[trigger] plugins@[j]).1@,
    ensures
        ({
            let name = plugins@[k].1@;
            let has = exists|i: int|
                0 <= i < libs@.len() && (#[trigger] libs@[i]).plugin_id == plugins@[k].0
                    && libs@[i].path@ == path;
            &&& out@.contains_key(name) <==> exists|i: int|
                0 <= i < libs@.len() && (#[trigger] libs@[i]).plugin_id == plugins@[k].0
            &&& out@.contains_key(name) ==> (text::lines(out@[name]@).contains(path) <==> has)
        }),
{
    let id = plugins@[k].0;
    let name = plugins@[k].1@;
    let n = libs@.len() as int;
    lemma_grouped(libs@, plugins@, plugins@.len() as int, k);
    lemma_paths_of(libs@, id, n);
    let paths = paths_of(libs@, id, n);
    assert(lists_text(out@).contains_key(name) == out@.contains_key(name));
    if exists|i: int| 0 <= i < n && (#[trigger] libs@[i]).plugin_id == id {
        let i = choose|i: int| 0 <= i < n && (#[trigger] libs@[i]).plugin_id == id;
        assert(paths.contains(libs@[i].path@));
    }
    if paths.len() > 0 {
        assert(paths.contains(paths[0]));
        let i = choose|i: int|
            0 <= i < n && (#[trigger] libs@[i]).plugin_id == id && libs@[i].path@ == paths[0];
        assert(libs@[i].plugin_id == id);
    }
    if out@.contains_key(name) {
        assert(lists_text(out@)[name] == text::lines(out@[name]@));
        assert(paths.contains(path) || !paths.contains(path));
    }
}

proof fn lemma_places(entries: Seq<WallpaperEntry>, plugin: Seq<char>, n: int)
    requires
        0 <= n <= entries.len(),
        entries.len() <= usize::MAX,
    ensures
        forall|x: usize| #[trigger]
            plugin_places(entries, plugin, n).contains(x) <==> x < n && entries[x as int].plugin_name@
                == plugin,
        forall|i: int, j: int|
            0 <= i < j < plugin_places(entries, plugin, n).len() ==> plugin_places(
                entries,
                plugin,
                n,
            )[i] < plugin_places(entries, plugin, n)[j],
    decreases n,
{
    if n > 0 {
        lemma_places(entries, plugin, n - 1);
        let rest = plugin_places(entries, plugin, n - 1);
        let all = plugin_places(entries, plugin, n);
        assert forall|i: int| 0 <= i < rest.len() implies #[trigger] rest[i] < n - 1 by {
            assert(rest.contains(rest[i]));
        }
        assert forall|x: usize| #[trigger] all.contains(x) <==> x < n
            && entries[x as int].plugin_name@ == plugin by {
            if all.contains(x) {
                let i = all.index_of(x);
                if i < rest.len() {
                    assert(rest[i] == x);
                    assert(rest.contains(x));
                }
            }
            if x < n && entries[x as int].plugin_name@ == plugin {
                if x < n - 1 {
                    assert(rest.contains(x));
                    assert(all[rest.index_of(x)] == x);
                } else {
                    assert(all.last() == x);
                }
            }
        }
    }
}

/// The wallpapers of a plugin are exactly those that it brought, in order.
pub proof fn plugin_has_its_own_wallpapers(
    catalog: &SourceManager,
    plugin: &str,
    out: Vec<usize>,
    x: usize,
)
    requires
        catalog@.len() <= usize::MAX,
        call_ensures(entries_of_plugin, (catalog, plugin), out),
    ensures
        out@.contains(x) <==> x < catalog@.len() && catalog@[x as int].plugin_name@ == plugin@,
        forall|i: int, j: int| 0 <= i < j < out@.len() ==> #[trigger] out@[i] < #[trigger] out@[j],
{
    lemma_places(catalog@, plugin@, catalog@.len() as int);
}

} // verus!
