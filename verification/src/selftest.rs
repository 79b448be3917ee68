//! The fan-out self-test: one renderer, several displays, every frame to each
//! of them.

use crate::renderer::{BindBuffers, BindSnapshot};
use crate::snapshot::DisplaySnapshot;
use vstd::prelude::*;

verus! {

pub const FOURCC_AB24: u32 = 0x3432_4241;

pub const WIDTH: u32 = 256;

pub const HEIGHT: u32 = 256;

/// Frames that are sent.
pub const FRAMES: u32 = 60;

/// Displays that they are sent to.
pub const NUM_DISPLAYS: u32 = 2;

/// A layout that the GPU can give an image.
#[derive(Debug, Clone, Copy, PartialEq, Eq, Structural)]
pub struct ModifierEntry {
    pub modifier: u64,
    /// Images in the layout can be cleared and exported.
    pub usable: bool,
}

/// The entry is a tiled layout that can be used.
pub open spec fn fits(e: ModifierEntry) -> bool {
    e.modifier != 0 && e.usable
}

pub open spec fn any_fits(entries: Seq<ModifierEntry>) -> bool {
    exists|i: int| 0 <= i < entries.len() && fits(#[trigger] entries[i])
}

/// `i` is the first entry that fits.
pub open spec fn first_fit(entries: Seq<ModifierEntry>, i: int) -> bool {
    &&& 0 <= i < entries.len()
    &&& fits(entries[i])
    &&& forall|j: int| 0 <= j < i ==> !fits(#[trigger] entries[j])
}

/// The layout of the test images: the first tiled one that can be used, or the
/// linear one where there is none or another GPU has to read them.
pub fn pick_modifier(entries: &Vec<ModifierEntry>, cross_gpu: bool) -> (m: u64)
    ensures
        if cross_gpu || !any_fits(entries@) {
            m == 0
        } else {
            exists|i: int| #[trigger] first_fit(entries@, i) && entries@[i].modifier == m
        },
{
    if cross_gpu {
        return 0;
    }
    let mut i: usize = 0;
    while i < entries.len()
        invariant
            !cross_gpu,
            i <= entries@.len(),
            forall|j: int| 0 <= j < i ==> !fits(#[trigger] entries@[j]),
        decreases entries.len() - i,
    {
        let e: ModifierEntry = entries[i];
        if e.modifier != 0 && e.usable {
            assert(first_fit(entries@, i as int));
            return e.modifier;
        }
        i = i + 1;
    }
    0
}

/// One plane of a test image.
#[derive(Debug, Clone, Copy, PartialEq, Eq, Structural)]
pub struct PlaneLayout {
    pub stride: u64,
    pub offset: u64,
    pub size: u64,
    pub fd: u64,
}

pub open spec fn narrowed(v: u64, otherwise: u32) -> u32 {
    if v <= u32::MAX {
        v as u32
    } else {
        otherwise
    }
}

fn narrow(v: u64, otherwise: u32) -> (r: u32)
    ensures
        r == narrowed(v, otherwise),
{
    if v <= u32::MAX as u64 {
        v as u32
    } else {
        otherwise
    }
}

/// The pool of the two test images.
pub fn test_pool(modifier: u64, a: PlaneLayout, b: PlaneLayout) -> (s: BindSnapshot)
    ensures
        s.generation == 1,
        s.flags == 0,
        s.count == 2,
        s.fourcc == FOURCC_AB24,
        s.width == WIDTH,
        s.height == HEIGHT,
        s.modifier == modifier,
        s.planes_per_buffer == 1,
        s.stride@ == seq![narrowed(a.stride, u32::MAX), narrowed(b.stride, u32::MAX)],
        s.plane_offset@ == seq![narrowed(a.offset, 0), narrowed(b.offset, 0)],
        s.size@ == seq![a.size, b.size],
        s.fds@ == seq![a.fd, b.fd],
        crate::endpoint::consistent(s),
{
    let mut stride: Vec<u32> = Vec::new();
    stride.push(narrow(a.stride, u32::MAX));
    stride.push(narrow(b.stride, u32::MAX));
    let mut plane_offset: Vec<u32> = Vec::new();
    plane_offset.push(narrow(a.offset, 0));
    plane_offset.push(narrow(b.offset, 0));
    let mut size: Vec<u64> = Vec::new();
    size.push(a.size);
    size.push(b.size);
    let mut fds: Vec<u64> = Vec::new();
    fds.push(a.fd);
    fds.push(b.fd);
    assert(stride@ =~= seq![narrowed(a.stride, u32::MAX), narrowed(b.stride, u32::MAX)]);
    assert(plane_offset@ =~= seq![narrowed(a.offset, 0), narrowed(b.offset, 0)]);
    assert(size@ =~= seq![a.size, b.size]);
    assert(fds@ =~= seq![a.fd, b.fd]);
    let s = BindSnapshot {
        generation: 1,
        flags: 0,
        count: 2,
        fourcc: FOURCC_AB24,
        width: WIDTH,
        height: HEIGHT,
        modifier,
        planes_per_buffer: 1,
        stride,
        plane_offset,
        size,
        fds,
    };
    assert(s.count as int * s.planes_per_buffer as int == 2) by (nonlinear_arith)
        requires
            s.count == 2,
            s.planes_per_buffer == 1,
    ;
    s
}

fn copy_words(v: &Vec<u32>) -> (r: Vec<u32>)
    ensures
        r@ == v@,
{
    let mut r: Vec<u32> = Vec::new();
    let mut i: usize = 0;
    while i < v.len()
        invariant
            i <= v@.len(),
            r@ == v@.take(i as int),
        decreases v.len() - i,
    {
        r.push(v[i]);
        i = i + 1;
        assert(r@ =~= v@.take(i as int));
    }
    assert(r@ =~= v@);
    r
}

/// The message with which the test renderer announces a pool.
pub fn make_bind_event(s: &BindSnapshot) -> (m: BindBuffers)
    ensures
        m.generation == s.generation,
        m.flags == s.flags,
        m.count == s.count,
        m.fourcc == s.fourcc,
        m.width == s.width,
        m.height == s.height,
        m.modifier == s.modifier,
        m.planes_per_buffer == s.planes_per_buffer,
        m.stride@ == s.stride@,
        m.plane_offset@ == s.plane_offset@,
        m.size@ == s.size@,
{
    let mut size: Vec<u64> = Vec::new();
    let mut i: usize = 0;
    while i < s.size.len()
        invariant
            i <= s.size@.len(),
            size@ == s.size@.take(i as int),
        decreases s.size.len() - i,
    {
        size.push(s.size[i]);
        i = i + 1;
        assert(size@ =~= s.size@.take(i as int));
    }
    assert(size@ =~= s.size@);
    BindBuffers {
        generation: s.generation,
        flags: s.flags,
        count: s.count,
        fourcc: s.fourcc,
        width: s.width,
        height: s.height,
        modifier: s.modifier,
        planes_per_buffer: s.planes_per_buffer,
        stride: copy_words(&s.stride),
        plane_offset: copy_words(&s.plane_offset),
        size,
    }
}

/// Buffer, number and release point of test frame `n`.
pub fn test_frame(n: u32) -> (r: (u32, u64, u64))
    ensures
        r.0 == n % 2,
        r.1 == n,
        r.2 == n + 1,
{
    (n % 2, n as u64, n as u64 + 1)
}

/// Whether enough displays are there and each of them shows something.
pub fn all_bound(displays: &Vec<DisplaySnapshot>, n: u32) -> (r: bool)
    ensures
        r == (displays@.len() >= n && forall|i: int|
            0 <= i < displays@.len() ==> (#[trigger] displays@[i]).links@.len() > 0),
{
    if (displays.len() as u64) < n as u64 {
        return false;
    }
    let mut i: usize = 0;
    while i < displays.len()
        invariant
            i <= displays@.len(),
            forall|j: int| 0 <= j < i ==> (#[trigger] displays@[j]).links@.len() > 0,
        decreases displays.len() - i,
    {
        if displays[i].links.len() == 0 {
            return false;
        }
        i = i + 1;
    }
    true
}

/// What a test display reports when it ends.
#[derive(Debug)]
pub struct ChildStatus {
    pub slot: u32,
    pub frames: u64,
    pub ok: u64,
    pub mismatch: u64,
    pub clean_exit: bool,
    pub fatal: Option<String>,
}

/// The report that counts: the last one read; without any, one that says so.
pub fn child_status(last: Option<ChildStatus>, slot: u32) -> (s: ChildStatus)
    ensures
        match last {
            Some(l) => s == l,
            None => s.slot == slot && s.frames == 0 && s.ok == 0 && s.mismatch == 0 && !s.clean_exit
                && (s.fatal matches Some(m) && m@ == "child emitted no status"@),
        },
{
    match last {
        Some(l) => l,
        None => ChildStatus {
            slot,
            frames: 0,
            ok: 0,
            mismatch: 0,
            clean_exit: false,
            fatal: Some("child emitted no status".to_owned()),
        },
    }
}

/// Outcome of the test.
#[derive(Debug, Clone, Copy, PartialEq, Eq, Structural)]
pub struct Fanout {
    pub frames: u32,
    /// Frames that each display showed as they were sent, on average.
    pub ok: u32,
    /// Frames that no display reported.
    pub refcount_leaks: u32,
}

/// Frames of the first `n` reports.
pub open spec fn total_frames(s: Seq<ChildStatus>, n: int) -> nat
    decreases n,
{
    if n <= 0 {
        0
    } else {
        total_frames(s, n - 1) + s[n - 1].frames as nat
    }
}

/// Right frames of the first `n` reports.
pub open spec fn total_ok(s: Seq<ChildStatus>, n: int) -> nat
    decreases n,
{
    if n <= 0 {
        0
    } else {
        total_ok(s, n - 1) + s[n - 1].ok as nat
    }
}

proof fn lemma_totals_grow(s: Seq<ChildStatus>, m: int, n: int)
    requires
        0 <= m <= n,
    ensures
        total_frames(s, m) <= total_frames(s, n),
        total_ok(s, m) <= total_ok(s, n),
    decreases n,
{
    if m < n {
        lemma_totals_grow(s, m, n - 1);
    }
}

pub open spec fn at_most_u32(n: int) -> u32 {
    if n > u32::MAX {
        u32::MAX
    } else {
        n as u32
    }
}

/// Adds up the reports.
pub fn tally(s: &Vec<ChildStatus>) -> (r: Fanout)
    requires
        total_frames(s@, s@.len() as int) <= u64::MAX,
        total_ok(s@, s@.len() as int) <= u64::MAX,
    ensures
        ({
            let all = NUM_DISPLAYS * FRAMES;
            let seen = total_frames(s@, s@.len() as int) as int;
            &&& r.frames == FRAMES
            &&& r.ok == at_most_u32(total_ok(s@, s@.len() as int) as int / NUM_DISPLAYS as int)
            &&& r.refcount_leaks == if seen >= all {
                0
            } else {
                all - seen
            }
        }),
{
    let mut frames: u64 = 0;
    let mut ok: u64 = 0;
    let mut i: usize = 0;
    while i < s.len()
        invariant
            i <= s@.len(),
            frames == total_frames(s@, i as int),
            ok == total_ok(s@, i as int),
            total_frames(s@, s@.len() as int) <= u64::MAX,
            total_ok(s@, s@.len() as int) <= u64::MAX,
        decreases s.len() - i,
    {
        proof {
            lemma_totals_grow(s@, i + 1, s@.len() as int);
        }
        frames = frames + s[i].frames;
        ok = ok + s[i].ok;
        i = i + 1;
    }
    let all: u64 = NUM_DISPLAYS as u64 * FRAMES as u64;
    let leaks: u64 = if frames >= all {
        0
    } else {
        all - frames
    };
    let each: u64 = ok / NUM_DISPLAYS as u64;
    Fanout {
        frames: FRAMES,
        ok: if each > u32::MAX as u64 {
            u32::MAX
        } else {
            each as u32
        },
        refcount_leaks: leaks as u32,
    }
}

// ---------------------------------------------------------------------------
// Laws
// ---------------------------------------------------------------------------

/// A tiled layout is used only on one GPU, and is then the first that can be.
pub proof fn first_usable_layout_is_taken(entries: &Vec<ModifierEntry>, m: u64, n: u64, i: int)
    requires
        call_ensures(pick_modifier, (entries, false), m),
        call_ensures(pick_modifier, (entries, true), n),
        0 <= i <= entries@.len(),
        i < entries@.len() ==> entries@[i].modifier != 0 && entries@[i].usable,
        forall|j: int|
            0 <= j < i ==> (#[trigger] entries@[j]).modifier == 0 || !entries@[j].usable,
    ensures
        n == 0,
        i < entries@.len() ==> m == entries@[i].modifier,
        i == entries@.len() ==> m == 0,
{
    if i < entries@.len() {
        assert(fits(entries@[i]));
        let k = choose|k: int| #[trigger] first_fit(entries@, k) && entries@[k].modifier == m;
        assert(first_fit(entries@, k));
        if k < i {
            assert(fits(entries@[k]));
        }
    } else if any_fits(entries@) {
        let k = choose|k: int| 0 <= k < entries@.len() && fits(#[trigger] entries@[k]);
        assert(entries@[k].modifier != 0 && entries@[k].usable);
    }
}

/// The frames take turns over the two buffers, each with a point of its own.
pub proof fn frames_take_turns(a: u32, b: u32, x: (u32, u64, u64), y: (u32, u64, u64))
    requires
        call_ensures(test_frame, (a,), x),
        call_ensures(test_frame, (b,), y),
        b == a + 1,
    ensures
        x.0 != y.0,
        x.0 < 2 && y.0 < 2,
        y.1 == x.1 + 1,
        y.2 == x.2 + 1,
        x.2 == x.1 + 1,
        a == 0 ==> x.0 == 0 && x.1 == 0,
{
}

} // verus!
