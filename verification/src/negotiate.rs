//! Buffer-format negotiation: decoding the capability arrays a peer sends and
//! picking one buffer scheme for a producer/consumer pair.

use crate::drm::DrmNode;
use crate::text::{self, push_dec, push_hex, push_hex_padded, push_line};
use std::collections::BTreeMap;
use vstd::prelude::*;

verus! {

broadcast use {vstd::laws_cmp::group_laws_cmp, vstd::std_specs::btree::group_btree_axioms};

/// Capability of one (fourcc, modifier) pair.
#[derive(Debug, Clone, Copy, PartialEq, Eq, Structural)]
pub struct ModCap {
    pub modifier: u64,
    /// Set of `USAGE_*` bits.
    pub usage: u32,
    pub plane_count: u32,
}

/// Modifier capabilities by fourcc.
#[derive(Debug)]
pub struct FormatCaps {
    pub by_fourcc: BTreeMap<u32, Vec<ModCap>>,
}

impl View for FormatCaps {
    type V = Map<u32, Seq<ModCap>>;

    open spec fn view(&self) -> Map<u32, Seq<ModCap>> {
        Map::new(|f: u32| self.by_fourcc@.contains_key(f), |f: u32| self.by_fourcc@[f]@)
    }
}

impl Clone for FormatCaps {
    fn clone(&self) -> (r: Self)
        ensures
            r@ == self@,
    {
        FormatCaps { by_fourcc: self.by_fourcc.clone() }
    }
}

impl Default for FormatCaps {
    fn default() -> (r: Self)
        ensures
            r@ == Map::<u32, Seq<ModCap>>::empty(),
    {
        let r = FormatCaps { by_fourcc: BTreeMap::new() };
        assert(r@ =~= Map::<u32, Seq<ModCap>>::empty());
        r
    }
}

impl FormatCaps {
    /// The fourccs of the table in ascending order.
    pub fn fourccs(&self) -> (keys: Vec<u32>)
        ensures
            ascending(keys@),
            forall|f: u32| #[trigger] keys@.contains(f) <==> self@.contains_key(f),
    {
        let mut keys: Vec<u32> = Vec::new();
        let ghost mut visited: Seq<&u32> = Seq::empty();
        for k in it: self.by_fourcc.keys()
            invariant
                ascending(keys@),
                forall|f: u32| #[trigger]
                    keys@.contains(f) <==> exists|j: int| 0 <= j < visited.len() && *visited[j] == f,
                it.seq().unref().to_set() == self.by_fourcc@.dom(),
                visited == it.seq().take(it.index() as int),
                it.index() == it.seq().len() ==> visited.unref().to_set() == self.by_fourcc@.dom(),
        {
            let ghost n = it.index();
            let ghost before = keys@;
            let ghost prev = visited;
            insert_ascending(&mut keys, *k);
            proof {
                visited = visited.push(k);
            }
            assert(visited =~= it.seq().take(n + 1));
            assert(n + 1 == it.seq().len() ==> visited =~= it.seq());
            assert forall|f: u32| #[trigger] keys@.contains(f) <==> exists|j: int|
                0 <= j < visited.len() && *visited[j] == f by {
                if before.contains(f) {
                    let j = choose|j: int| 0 <= j < prev.len() && *prev[j] == f;
                    assert(*visited[j] == f);
                }
                assert(*visited[prev.len() as int] == *k);
                if exists|j: int| 0 <= j < visited.len() && *visited[j] == f {
                    let j = choose|j: int| 0 <= j < visited.len() && *visited[j] == f;
                    if j < prev.len() {
                        assert(*prev[j] == f);
                    }
                }
            }
        }
        assert forall|f: u32| #[trigger] keys@.contains(f) <==> self@.contains_key(f) by {
            let u = visited.unref();
            if keys@.contains(f) {
                let j = choose|j: int| 0 <= j < visited.len() && *visited[j] == f;
                assert(u[j] == f);
                assert(u.to_set().contains(f));
            }
            if self.by_fourcc@.contains_key(f) {
                assert(u.to_set().contains(f));
                let j = u.index_of(f);
                assert(*visited[j] == f);
            }
        }
        keys
    }
}

/// Strictly ascending.
pub open spec fn ascending(s: Seq<u32>) -> bool {
    forall|i: int, j: int| 0 <= i < j < s.len() ==> s[i] < s[j]
}

fn insert_ascending(keys: &mut Vec<u32>, k: u32)
    requires
        ascending(old(keys)@),
    ensures
        ascending(final(keys)@),
        forall|f: u32| #[trigger]
            final(keys)@.contains(f) <==> old(keys)@.contains(f) || f == k,
{
    let ghost before = keys@;
    let mut i: usize = 0;
    while i < keys.len() && keys[i] < k
        invariant
            keys@ == before,
            ascending(before),
            i <= keys.len(),
            forall|j: int| 0 <= j < i ==> before[j] < k,
        decreases keys.len() - i,
    {
        i = i + 1;
    }
    if i < keys.len() && keys[i] == k {
        assert(before.contains(k));
        return;
    }
    keys.insert(i, k);
    assert forall|f: u32| #[trigger] keys@.contains(f) <==> before.contains(f) || f == k by {
        if before.contains(f) {
            let j = before.index_of(f);
            if j < i {
                assert(keys@[j] == f);
            } else {
                assert(keys@[j + 1] == f);
            }
        }
        assert(keys@[i as int] == k);
        if keys@.contains(f) {
            let j = keys@.index_of(f);
            if j < i {
                assert(before[j] == f);
            } else if j > i {
                assert(before[j - 1] == f);
            }
        }
    }
}

/// Rejected (fourcc, modifier) pairs.
#[derive(Debug)]
pub struct Blacklist {
    entries: Vec<(u32, u64)>,
}

impl View for Blacklist {
    type V = Set<(u32, u64)>;

    closed spec fn view(&self) -> Set<(u32, u64)> {
        self.entries@.to_set()
    }
}

impl Blacklist {
    #[verifier::type_invariant]
    spec fn distinct(self) -> bool {
        self.entries@.no_duplicates()
    }

    pub fn new() -> (r: Self)
        ensures
            r@ == Set::<(u32, u64)>::empty(),
    {
        let r = Blacklist { entries: Vec::new() };
        assert(r@ =~= Set::<(u32, u64)>::empty());
        r
    }

    pub fn contains(&self, pair: &(u32, u64)) -> (r: bool)
        ensures
            r == self@.contains(*pair),
    {
        let mut i: usize = 0;
        while i < self.entries.len()
            invariant
                i <= self.entries.len(),
                forall|j: int| 0 <= j < i ==> self.entries@[j] != *pair,
            decreases self.entries.len() - i,
        {
            if self.entries[i].0 == pair.0 && self.entries[i].1 == pair.1 {
                assert(self.entries@.contains(self.entries@[i as int]));
                return true;
            }
            i = i + 1;
        }
        false
    }

    /// Adds the pair; `true` when it was not there before.
    pub fn insert(&mut self, pair: (u32, u64)) -> (r: bool)
        ensures
            r == !old(self)@.contains(pair),
            final(self)@ == old(self)@.insert(pair),
    {
        if self.contains(&pair) {
            assert(self@.insert(pair) =~= self@);
            return false;
        }
        proof {
            use_type_invariant(&*self);
        }
        let ghost before = self.entries@;
        let mut entries: Vec<(u32, u64)> = Vec::new();
        std::mem::swap(&mut entries, &mut self.entries);
        entries.push(pair);
        assert(entries@.no_duplicates());
        self.entries = entries;
        assert(self@ =~= before.to_set().insert(pair)) by {
            assert forall|p: (u32, u64)| entries@.contains(p) <==> before.contains(p) || p == pair by {
                if before.contains(p) {
                    assert(entries@[before.index_of(p)] == p);
                }
                assert(entries@[before.len() as int] == pair);
            }
        }
        true
    }

    pub fn len(&self) -> (n: usize)
        ensures
            n == self@.len(),
            self@.finite(),
    {
        proof {
            use_type_invariant(self);
            self.entries@.unique_seq_to_set();
        }
        self.entries.len()
    }
}

impl Clone for Blacklist {
    fn clone(&self) -> (r: Self)
        ensures
            r@ == self@,
    {
        proof {
            use_type_invariant(self);
        }
        let mut entries: Vec<(u32, u64)> = Vec::new();
        let mut i: usize = 0;
        while i < self.entries.len()
            invariant
                i <= self.entries.len(),
                entries@ == self.entries@.take(i as int),
            decreases self.entries.len() - i,
        {
            let e: (u32, u64) = self.entries[i];
            entries.push(e);
            i = i + 1;
            assert(entries@ =~= self.entries@.take(i as int));
        }
        assert(entries@ =~= self.entries@);
        Blacklist { entries }
    }
}

/// Identity of the GPU a peer works on. An all-zero UUID means unknown.
#[derive(Debug, Clone, Copy, PartialEq, Eq)]
pub struct DeviceIdentity {
    pub device_uuid: [u8; 16],
    pub driver_uuid: [u8; 16],
    pub drm: DrmNode,
}

pub open spec fn zero_uuid(u: Seq<u8>) -> bool {
    forall|i: int| 0 <= i < u.len() ==> u[i] == 0
}

pub open spec fn same_gpu(
    a_uuid: Seq<u8>,
    a_drm: DrmNode,
    b_uuid: Seq<u8>,
    b_drm: DrmNode,
) -> bool {
    if !zero_uuid(a_uuid) && !zero_uuid(b_uuid) {
        a_uuid == b_uuid
    } else {
        a_drm.known() && b_drm.known() && a_drm == b_drm
    }
}

fn uuid_is_zero(u: &[u8; 16]) -> (r: bool)
    ensures
        r == zero_uuid(u@),
{
    let mut i: usize = 0;
    while i < 16
        invariant
            i <= 16,
            forall|j: int| 0 <= j < i ==> u@[j] == 0,
        decreases 16 - i,
    {
        if u[i] != 0 {
            return false;
        }
        i = i + 1;
    }
    true
}

fn uuid_eq(a: &[u8; 16], b: &[u8; 16]) -> (r: bool)
    ensures
        r == (a@ == b@),
{
    let mut i: usize = 0;
    while i < 16
        invariant
            i <= 16,
            forall|j: int| 0 <= j < i ==> a@[j] == b@[j],
        decreases 16 - i,
    {
        if a[i] != b[i] {
            return false;
        }
        i = i + 1;
    }
    assert(a@ =~= b@);
    true
}

impl DeviceIdentity {
    /// The identity of which nothing is known.
    pub fn zero() -> (r: Self)
        ensures
            zero_uuid(r.device_uuid@),
            zero_uuid(r.driver_uuid@),
            !r.drm.known(),
    {
        DeviceIdentity { device_uuid: [0; 16], driver_uuid: [0; 16], drm: DrmNode::unknown() }
    }

    /// Whether two identities name the same physical GPU. The device UUID
    /// decides when both sides have one; otherwise the DRM node decides.
    pub fn same_device(&self, other: &Self) -> (r: bool)
        ensures
            r == same_gpu(self.device_uuid@, self.drm, other.device_uuid@, other.drm),
    {
        if !uuid_is_zero(&self.device_uuid) && !uuid_is_zero(&other.device_uuid) {
            return uuid_eq(&self.device_uuid, &other.device_uuid);
        }
        if self.drm.is_known() && other.drm.is_known() {
            return self.drm == other.drm;
        }
        false
    }
}

/// Capability set of one peer.
#[derive(Debug)]
pub struct PeerCaps {
    pub formats: FormatCaps,
    pub identity: DeviceIdentity,
    pub sync: u32,
    pub color: u32,
    pub mem_hint: u32,
    pub extent_max: (u32, u32),
    /// Pairs that were tried before and rejected by the peer.
    pub blacklist: Blacklist,
}

/// What a [`PeerCaps`] says.
pub struct PeerCapsView {
    pub formats: Map<u32, Seq<ModCap>>,
    pub device_uuid: Seq<u8>,
    pub driver_uuid: Seq<u8>,
    pub drm: DrmNode,
    pub sync: u32,
    pub color: u32,
    pub mem_hint: u32,
    pub extent_max: (u32, u32),
    pub blacklist: Set<(u32, u64)>,
}

impl View for PeerCaps {
    type V = PeerCapsView;

    open spec fn view(&self) -> PeerCapsView {
        PeerCapsView {
            formats: self.formats@,
            device_uuid: self.identity.device_uuid@,
            driver_uuid: self.identity.driver_uuid@,
            drm: self.identity.drm,
            sync: self.sync,
            color: self.color,
            mem_hint: self.mem_hint,
            extent_max: self.extent_max,
            blacklist: self.blacklist@,
        }
    }
}

impl Clone for PeerCaps {
    fn clone(&self) -> (r: Self)
        ensures
            r@ == self@,
    {
        PeerCaps {
            formats: self.formats.clone(),
            identity: self.identity,
            sync: self.sync,
            color: self.color,
            mem_hint: self.mem_hint,
            extent_max: self.extent_max,
            blacklist: self.blacklist.clone(),
        }
    }
}

/// Allocation path of a scheme.
#[derive(Debug, Clone, Copy, PartialEq, Eq, Structural)]
pub enum PathCategory {
    /// Both peers on one GPU, with the picked modifier.
    OptimizedSameDevice,
    /// Reserved on the wire, never picked.
    OptimizedSameVendor,
    /// Linear layout: another GPU, or nothing but linear in common.
    CompatLinear,
    /// Reserved on the wire, never picked.
    CompatCpuReadback,
}

/// Memory backend of a scheme.
#[derive(Debug, Clone, Copy, PartialEq, Eq, Structural)]
pub enum MemSource {
    GpuNative,
    GpuLinear,
    DmabufHeap,
}

impl PathCategory {
    pub open spec fn code(self) -> u32 {
        match self {
            PathCategory::OptimizedSameDevice => 0,
            PathCategory::OptimizedSameVendor => 1,
            PathCategory::CompatLinear => 2,
            PathCategory::CompatCpuReadback => 3,
        }
    }

    /// Wire value.
    pub fn as_u32(self) -> (r: u32)
        ensures
            r == self.code(),
    {
        match self {
            PathCategory::OptimizedSameDevice => 0,
            PathCategory::OptimizedSameVendor => 1,
            PathCategory::CompatLinear => 2,
            PathCategory::CompatCpuReadback => 3,
        }
    }
}

impl MemSource {
    pub open spec fn code(self) -> u32 {
        match self {
            MemSource::GpuNative => 0,
            MemSource::GpuLinear => 1,
            MemSource::DmabufHeap => 2,
        }
    }

    /// Wire value.
    pub fn as_u32(self) -> (r: u32)
        ensures
            r == self.code(),
    {
        match self {
            MemSource::GpuNative => 0,
            MemSource::GpuLinear => 1,
            MemSource::DmabufHeap => 2,
        }
    }
}

/// The scheme both peers use until the next negotiation.
#[derive(Debug, Clone, Copy, PartialEq, Eq, Structural)]
pub struct NegotiatedScheme {
    pub fourcc: u32,
    pub modifier: u64,
    pub plane_count: u32,
    /// Exactly one `SYNC_*` bit.
    pub sync_mode: u32,
    pub color: u32,
    pub mem_hint: u32,
    /// Number of buffers in the pool.
    pub count: u32,
    pub path: PathCategory,
    pub mem_source: MemSource,
}

#[derive(Debug, Clone, PartialEq, Eq)]
pub enum NegotiateError {
    NoFormatIntersection,
    NoSyncIntersection,
    /// The capability arrays do not fit together.
    MalformedCaps(&'static str),
}

pub const USAGE_SAMPLED: u32 = 1;
pub const USAGE_STORAGE: u32 = 2;
pub const USAGE_COLOR_ATTACHMENT: u32 = 4;
pub const USAGE_DEPTH_STENCIL: u32 = 8;
pub const USAGE_TRANSFER_SRC: u32 = 16;
pub const USAGE_TRANSFER_DST: u32 = 32;
pub const USAGE_SCANOUT: u32 = 64;

pub const MEM_HINT_DEVICE_LOCAL: u32 = 1;
pub const MEM_HINT_HOST_VISIBLE: u32 = 2;
pub const MEM_HINT_SCANOUT_CAPABLE: u32 = 4;
pub const MEM_HINT_PROTECTED: u32 = 8;
/// Reserved on the wire and not read.
pub const MEM_HINT_LINEAR_ONLY: u32 = 16;

pub const SYNC_IMPLICIT: u32 = 1;
pub const SYNC_SYNCOBJ_BINARY: u32 = 2;
pub const SYNC_SYNCOBJ_TIMELINE: u32 = 4;

pub const COLOR_ENC_SRGB: u32 = 1;
pub const COLOR_ENC_LINEAR: u32 = 2;
pub const COLOR_ENC_BT601: u32 = 4;
pub const COLOR_ENC_BT709: u32 = 8;
pub const COLOR_ENC_BT2020: u32 = 16;
pub const COLOR_RANGE_FULL: u32 = 32;
pub const COLOR_RANGE_LIMITED: u32 = 64;
pub const COLOR_ALPHA_PREMUL: u32 = 128;
pub const COLOR_ALPHA_STRAIGHT: u32 = 256;

/// sRGB, limited range, premultiplied: used on every axis without overlap.
pub const DEFAULT_COLOR: u32 = 193;

pub const DRM_FORMAT_MOD_LINEAR: u64 = 0;
pub const DRM_FORMAT_MOD_INVALID: u64 = 0xffff_ffff_ffff_ffff;

pub const DRM_FORMAT_ABGR8888: u32 = 0x3432_4241;
pub const DRM_FORMAT_XBGR8888: u32 = 0x3432_4258;
pub const DRM_FORMAT_ARGB8888: u32 = 0x3432_5241;
pub const DRM_FORMAT_XRGB8888: u32 = 0x3432_5258;

const COLOR_MASK_ENCODING: u32 = 31;
const COLOR_MASK_RANGE: u32 = 96;
const COLOR_MASK_ALPHA: u32 = 384;

/// Pool size of every scheme.
pub const DEFAULT_POOL_COUNT: u32 = 3;

// ---------------------------------------------------------------------------
// Decoding
// ---------------------------------------------------------------------------

/// Sum of the first `n` group sizes.
pub open spec fn group_start(counts: Seq<u32>, n: int) -> int
    decreases n,
{
    if n <= 0 {
        0
    } else {
        group_start(counts, n - 1) + counts[n - 1] as int
    }
}

pub open spec fn lists_modifier(list: Seq<ModCap>, modifier: u64) -> bool {
    exists|i: int| 0 <= i < list.len() && (#[trigger] list[i]).modifier == modifier
}

/// The list with one more entry: it takes the place of the one with the same
/// modifier, and comes last where there is none.
pub open spec fn with_cap(list: Seq<ModCap>, c: ModCap) -> Seq<ModCap> {
    if lists_modifier(list, c.modifier) {
        Seq::new(
            list.len(),
            |i: int|
                if list[i].modifier == c.modifier {
                    c
                } else {
                    list[i]
                },
        )
    } else {
        list.push(c)
    }
}

/// The entries merged by modifier: of several with the same one the last
/// counts, in the place of the first.
pub open spec fn last_wins(entries: Seq<ModCap>) -> Seq<ModCap>
    decreases entries.len(),
{
    if entries.len() == 0 {
        Seq::empty()
    } else {
        with_cap(last_wins(entries.drop_last()), entries.last())
    }
}

pub open spec fn modifiers_differ(list: Seq<ModCap>) -> bool {
    forall|i: int, j: int|
        0 <= i < j < list.len() ==> (#[trigger] list[i]).modifier != (#[trigger] list[j]).modifier
}

/// No entry behind the `i`th has its modifier.
pub open spec fn listed_last(entries: Seq<ModCap>, i: int) -> bool {
    forall|j: int| i < j < entries.len() ==> (#[trigger] entries[j]).modifier != entries[i].modifier
}

/// The parallel arrays a peer announces its formats with.
pub struct CapArrays {
    pub fourccs: Seq<u32>,
    pub counts: Seq<u32>,
    pub modifiers: Seq<u64>,
    pub usages: Seq<u32>,
    pub planes: Seq<u32>,
}

impl CapArrays {
    pub open spec fn total(self) -> int {
        group_start(self.counts, self.counts.len() as int)
    }

    /// The `k`th entry over all groups.
    pub open spec fn entry(self, k: int) -> ModCap {
        ModCap { modifier: self.modifiers[k], usage: self.usages[k], plane_count: self.planes[k] }
    }

    /// Entries of group `g`.
    pub open spec fn group(self, g: int) -> Seq<ModCap> {
        Seq::new(self.counts[g] as nat, |j: int| self.entry(group_start(self.counts, g) + j))
    }

    /// Entries of every group among the first `n` that names `fourcc`, in order.
    pub open spec fn listed(self, fourcc: u32, n: int) -> Seq<ModCap>
        decreases n,
    {
        if n <= 0 {
            Seq::empty()
        } else if self.fourccs[n - 1] == fourcc {
            self.listed(fourcc, n - 1) + self.group(n - 1)
        } else {
            self.listed(fourcc, n - 1)
        }
    }

    /// How many of the first `n` groups name `fourcc`.
    pub open spec fn times(self, fourcc: u32, n: int) -> int
        decreases n,
    {
        if n <= 0 {
            0
        } else if self.fourccs[n - 1] == fourcc {
            self.times(fourcc, n - 1) + 1
        } else {
            self.times(fourcc, n - 1)
        }
    }

    /// What the first `n` groups say of `fourcc`. A single group counts as it
    /// stands; several are merged, each modifier once, as it was listed last.
    pub open spec fn caps_for(self, fourcc: u32, n: int) -> Seq<ModCap> {
        if self.times(fourcc, n) > 1 {
            last_wins(self.listed(fourcc, n))
        } else {
            self.listed(fourcc, n)
        }
    }

    /// The table the first `n` groups describe.
    pub open spec fn table(self, n: int) -> Map<u32, Seq<ModCap>> {
        Map::new(|f: u32| self.fourccs.take(n).contains(f), |f: u32| self.caps_for(f, n))
    }
}

proof fn lemma_group_start_monotone(counts: Seq<u32>, m: int, n: int)
    requires
        0 <= m <= n <= counts.len(),
    ensures
        0 <= group_start(counts, m) <= group_start(counts, n),
    decreases n,
{
    if n > 0 {
        if m < n {
            lemma_group_start_monotone(counts, m, n - 1);
        } else {
            lemma_group_start_monotone(counts, m - 1, n - 1);
        }
    }
}

/// Byte `k` of a little-endian word.
pub open spec fn le_byte(w: u32, k: int) -> u8 {
    if k == 0 {
        (w % 256) as u8
    } else if k == 1 {
        (w / 256 % 256) as u8
    } else if k == 2 {
        (w / 65536 % 256) as u8
    } else {
        (w / 16777216) as u8
    }
}

/// The 16 bytes of four little-endian words.
pub open spec fn uuid_bytes(words: Seq<u32>) -> Seq<u8> {
    Seq::new(16, |i: int| le_byte(words[i / 4], i % 4))
}

fn word_byte(w: u32, k: usize) -> (b: u8)
    requires
        k < 4,
    ensures
        b == le_byte(w, k as int),
{
    match k {
        0 => (w % 256) as u8,
        1 => (w / 256 % 256) as u8,
        2 => (w / 65536 % 256) as u8,
        _ => (w / 16777216) as u8,
    }
}

pub fn pack_uuid_words(words: &[u32]) -> (out: [u8; 16])
    requires
        words@.len() == 4,
    ensures
        out@ == uuid_bytes(words@),
{
    let mut out: [u8; 16] = [0u8;16];
    let mut i: usize = 0;
    while i < 16
        invariant
            i <= 16,
            words@.len() == 4,
            forall|j: int| 0 <= j < i ==> out@[j] == #[trigger] uuid_bytes(words@)[j],
        decreases 16 - i,
    {
        out[i] = word_byte(words[i / 4], i % 4);
        i = i + 1;
    }
    assert(out@ =~= uuid_bytes(words@));
    out
}

/// Merges one entry into a list.
fn merge_cap(list: &mut Vec<ModCap>, c: ModCap)
    requires
        modifiers_differ(old(list)@),
    ensures
        final(list)@ == with_cap(old(list)@, c),
{
    let ghost before = list@;
    let mut i: usize = 0;
    while i < list.len()
        invariant
            i <= list@.len(),
            before == old(list)@,
            list@ == before,
            modifiers_differ(before),
            forall|j: int| 0 <= j < i ==> (#[trigger] before[j]).modifier != c.modifier,
        decreases list.len() - i,
    {
        if list[i].modifier == c.modifier {
            list.set(i, c);
            proof {
                assert(before[i as int].modifier == c.modifier);
                assert forall|j: int| i < j < before.len() implies (#[trigger] before[j]).modifier
                    != c.modifier by {
                    assert(before[i as int].modifier != before[j].modifier);
                }
                assert(list@ =~= with_cap(before, c));
            }
            return ;
        }
        i = i + 1;
    }
    list.push(c);
}

/// Merges every entry of `more` into a list that holds what was merged before.
fn merge_caps(list: &mut Vec<ModCap>, more: &Vec<ModCap>, Ghost(read): Ghost<Seq<ModCap>>)
    requires
        old(list)@ == last_wins(read),
    ensures
        final(list)@ == last_wins(read + more@),
{
    let mut i: usize = 0;
    assert(read + more@.take(0) =~= read);
    while i < more.len()
        invariant
            i <= more@.len(),
            list@ == last_wins(read + more@.take(i as int)),
        decreases more.len() - i,
    {
        proof {
            each_modifier_is_listed_once(read + more@.take(i as int));
            let longer = read + more@.take(i + 1);
            assert(longer.drop_last() =~= read + more@.take(i as int));
            assert(longer.last() == more@[i as int]);
        }
        merge_cap(list, more[i]);
        i = i + 1;
    }
    assert(more@.take(i as int) =~= more@);
}

/// Reads one group of the arrays.
fn read_group(
    modifiers: &[u64],
    usages: &[u32],
    plane_counts: &[u32],
    start: usize,
    n: usize,
    Ghost(arrays): Ghost<CapArrays>,
) -> (list: Vec<ModCap>)
    requires
        arrays.modifiers == modifiers@,
        arrays.usages == usages@,
        arrays.planes == plane_counts@,
        start + n <= modifiers@.len(),
        usages@.len() == modifiers@.len(),
        plane_counts@.len() == modifiers@.len(),
    ensures
        list@ == Seq::new(n as nat, |j: int| arrays.entry(start + j)),
{
    let ghost want = Seq::new(n as nat, |j: int| arrays.entry(start + j));
    let limit: usize = modifiers.len();
    let mut list: Vec<ModCap> = Vec::new();
    let mut j: usize = 0;
    while j < n
        invariant
            j <= n,
            limit == modifiers@.len(),
            arrays.modifiers == modifiers@,
            arrays.usages == usages@,
            arrays.planes == plane_counts@,
            start + n <= modifiers@.len(),
            usages@.len() == modifiers@.len(),
            plane_counts@.len() == modifiers@.len(),
            want == Seq::new(n as nat, |j: int| arrays.entry(start + j)),
            list@ == want.take(j as int),
        decreases n - j,
    {
        list.push(
            ModCap {
                modifier: modifiers[start + j],
                usage: usages[start + j],
                plane_count: plane_counts[start + j],
            },
        );
        j = j + 1;
        assert(list@ =~= want.take(j as int));
    }
    assert(want.take(n as int) =~= want);
    list
}

/// Merging what was merged already comes to the same.
proof fn lemma_merged_before(read: Seq<ModCap>, more: Seq<ModCap>)
    ensures
        last_wins(last_wins(read) + more) == last_wins(read + more),
    decreases more.len(),
{
    let once = last_wins(read);
    if more.len() == 0 {
        each_modifier_is_listed_once(read);
        lemma_nothing_to_merge(once);
        assert(once + more =~= once);
        assert(read + more =~= read);
    } else {
        lemma_merged_before(read, more.drop_last());
        assert((once + more).drop_last() =~= once + more.drop_last());
        assert((read + more).drop_last() =~= read + more.drop_last());
    }
}

/// A format that a single group names keeps every entry of the group, in order.
pub proof fn format_listed_once_keeps_its_group(a: CapArrays, g: int, n: int)
    requires
        0 <= g < n <= a.fourccs.len(),
        forall|i: int| 0 <= i < n && i != g ==> (#[trigger] a.fourccs[i]) != a.fourccs[g],
    ensures
        a.table(n).contains_key(a.fourccs[g]),
        a.table(n)[a.fourccs[g]] == a.group(g),
{
    assert(a.fourccs.take(n)[g] == a.fourccs[g]);
    lemma_single_group(a, g, n);
}

proof fn lemma_single_group(a: CapArrays, g: int, n: int)
    requires
        0 <= g < n <= a.fourccs.len(),
        forall|i: int| 0 <= i < n && i != g ==> (#[trigger] a.fourccs[i]) != a.fourccs[g],
    ensures
        a.listed(a.fourccs[g], n) == a.group(g),
        a.times(a.fourccs[g], n) == 1,
    decreases n,
{
    if g == n - 1 {
        let before = a.fourccs.take(n - 1);
        assert forall|k: int| 0 <= k < n - 1 implies before[k] != a.fourccs[g] by {
            assert(before[k] == a.fourccs[k]);
        }
        lemma_not_listed(a, a.fourccs[g], n - 1);
        assert(a.listed(a.fourccs[g], n) =~= a.group(g));
    } else {
        lemma_single_group(a, g, n - 1);
        assert(a.fourccs[n - 1] != a.fourccs[g]);
    }
}

/// Merging leaves no modifier twice.
pub proof fn each_modifier_is_listed_once(entries: Seq<ModCap>)
    ensures
        modifiers_differ(last_wins(entries)),
    decreases entries.len(),
{
    if entries.len() > 0 {
        let rest = last_wins(entries.drop_last());
        let c = entries.last();
        each_modifier_is_listed_once(entries.drop_last());
        let all = with_cap(rest, c);
        assert forall|i: int, j: int| 0 <= i < j < all.len() implies (#[trigger] all[i]).modifier
            != (#[trigger] all[j]).modifier by {
            if lists_modifier(rest, c.modifier) {
                assert(rest[i].modifier != rest[j].modifier);
            } else if j < rest.len() {
                assert(rest[i].modifier != rest[j].modifier);
            } else {
                assert(rest[i].modifier != c.modifier);
            }
        }
    }
}

/// Of the entries with one modifier exactly the one listed last is kept.
pub proof fn last_entry_of_a_modifier_wins(entries: Seq<ModCap>, c: ModCap)
    ensures
        last_wins(entries).contains(c) <==> exists|i: int|
            0 <= i < entries.len() && #[trigger] entries[i] == c && listed_last(entries, i),
    decreases entries.len(),
{
    let all = last_wins(entries);
    if entries.len() > 0 {
        let shorter = entries.drop_last();
        let rest = last_wins(shorter);
        let last = entries.last();
        last_entry_of_a_modifier_wins(shorter, c);
        let n = entries.len() - 1;
        assert(entries[n] == last && listed_last(entries, n));
        if all.contains(c) {
            let k = all.index_of(c);
            if c == last {
                assert(entries[n] == c);
            } else {
                assert(k < rest.len());
                assert(rest[k] == c);
                assert(rest.contains(c));
                assert(c.modifier != last.modifier) by {
                    if c.modifier == last.modifier {
                        assert(lists_modifier(rest, last.modifier));
                    }
                }
                let i = choose|i: int|
                    0 <= i < shorter.len() && #[trigger] shorter[i] == c && listed_last(shorter, i);
                assert(entries[i] == c);
                assert forall|j: int| i < j < entries.len() implies (#[trigger] entries[j]).modifier
                    != entries[i].modifier by {
                    if j < n {
                        assert(shorter[j] == entries[j]);
                    }
                }
                assert(listed_last(entries, i));
            }
        }
        if exists|i: int|
            0 <= i < entries.len() && #[trigger] entries[i] == c && listed_last(entries, i) {
            let i = choose|i: int|
                0 <= i < entries.len() && #[trigger] entries[i] == c && listed_last(entries, i);
            if i == n {
                if lists_modifier(rest, last.modifier) {
                    let k = choose|k: int|
                        0 <= k < rest.len() && (#[trigger] rest[k]).modifier == last.modifier;
                    assert(all[k] == c);
                } else {
                    assert(all[rest.len() as int] == c);
                }
            } else {
                assert(entries[n].modifier != entries[i].modifier);
                assert(shorter[i] == c);
                assert forall|j: int| i < j < shorter.len() implies (#[trigger] shorter[j]).modifier
                    != shorter[i].modifier by {
                    assert(entries[j].modifier != entries[i].modifier);
                }
                assert(listed_last(shorter, i));
                assert(rest.contains(c));
                let k = rest.index_of(c);
                assert(all[k] == c);
            }
        }
    }
}

/// Entries that differ in their modifiers stay as they are.
proof fn lemma_nothing_to_merge(entries: Seq<ModCap>)
    requires
        modifiers_differ(entries),
    ensures
        last_wins(entries) == entries,
    decreases entries.len(),
{
    if entries.len() > 0 {
        let shorter = entries.drop_last();
        assert forall|i: int, j: int| 0 <= i < j < shorter.len() implies (
        #[trigger] shorter[i]).modifier != (#[trigger] shorter[j]).modifier by {
            assert(entries[i].modifier != entries[j].modifier);
        }
        lemma_nothing_to_merge(shorter);
        assert(!lists_modifier(shorter, entries.last().modifier)) by {
            assert forall|i: int| 0 <= i < shorter.len() implies (#[trigger] shorter[i]).modifier
                != entries.last().modifier by {
                assert(entries[i].modifier != entries[entries.len() - 1].modifier);
            }
        }
        assert(shorter.push(entries.last()) =~= entries);
    }
}

/// Turns the parallel capability arrays into [`PeerCaps`], checking every
/// length on the way. Groups that repeat a fourcc are merged, and where they
/// repeat a modifier the last one counts.
pub fn unflatten_caps(
    fourccs: &[u32],
    mod_counts: &[u32],
    modifiers: &[u64],
    usages: &[u32],
    plane_counts: &[u32],
    device_uuid: &[u32],
    driver_uuid: &[u32],
    drm: DrmNode,
    sync: u32,
    color: u32,
    mem_hint: u32,
    extent_max: (u32, u32),
) -> (r: Result<PeerCaps, NegotiateError>)
    ensures
        ({
            let a = CapArrays {
                fourccs: fourccs@,
                counts: mod_counts@,
                modifiers: modifiers@,
                usages: usages@,
                planes: plane_counts@,
            };
            match r {
                Ok(caps) => {
                    &&& caps_fault(a, device_uuid@, driver_uuid@) is None
                    &&& caps@ == (PeerCapsView {
                        formats: a.table(fourccs@.len() as int),
                        device_uuid: uuid_bytes(device_uuid@),
                        driver_uuid: uuid_bytes(driver_uuid@),
                        drm,
                        sync,
                        color,
                        mem_hint,
                        extent_max,
                        blacklist: Set::empty(),
                    })
                },
                Err(e) => {
                    &&& e is MalformedCaps
                    &&& caps_fault(a, device_uuid@, driver_uuid@) == Some(e->MalformedCaps_0@)
                },
            }
        }),
{
    let ghost a = CapArrays {
        fourccs: fourccs@,
        counts: mod_counts@,
        modifiers: modifiers@,
        usages: usages@,
        planes: plane_counts@,
    };
    if fourccs.len() != mod_counts.len() {
        return Err(NegotiateError::MalformedCaps("fourccs.len() != mod_counts.len()"));
    }
    let mut total: usize = 0;
    let mut i: usize = 0;
    while i < mod_counts.len()
        invariant
            i <= mod_counts@.len(),
            a.counts == mod_counts@,
            a.modifiers == modifiers@,
            fourccs@.len() == mod_counts@.len(),
            a.fourccs == fourccs@,
            total == group_start(a.counts, i as int),
            total <= modifiers@.len(),
        decreases mod_counts.len() - i,
    {
        let n: usize = mod_counts[i] as usize;
        proof {
            lemma_group_start_monotone(a.counts, i + 1, a.counts.len() as int);
        }
        if n > modifiers.len() - total {
            return Err(NegotiateError::MalformedCaps("modifiers.len() != sum(mod_counts)"));
        }
        total = total + n;
        i = i + 1;
    }
    if modifiers.len() != total {
        return Err(NegotiateError::MalformedCaps("modifiers.len() != sum(mod_counts)"));
    }
    if usages.len() != total {
        return Err(NegotiateError::MalformedCaps("usages.len() != sum(mod_counts)"));
    }
    if plane_counts.len() != total {
        return Err(NegotiateError::MalformedCaps("plane_counts.len() != sum(mod_counts)"));
    }
    if device_uuid.len() != 4 || driver_uuid.len() != 4 {
        return Err(
            NegotiateError::MalformedCaps(
                "device_uuid/driver_uuid must be 4×u32 (16 bytes packed LE)",
            ),
        );
    }
    let mut formats = FormatCaps { by_fourcc: BTreeMap::new() };
    let mut cursor: usize = 0;
    let mut g: usize = 0;
    assert(formats@ =~= a.table(0));
    while g < fourccs.len()
        invariant
            g <= fourccs@.len(),
            total == modifiers@.len(),
            fourccs@.len() == mod_counts@.len(),
            a.fourccs == fourccs@,
            a.counts == mod_counts@,
            a.modifiers == modifiers@,
            a.usages == usages@,
            a.planes == plane_counts@,
            a.total() == modifiers@.len(),
            usages@.len() == modifiers@.len(),
            plane_counts@.len() == modifiers@.len(),
            cursor == group_start(a.counts, g as int),
            formats@ == a.table(g as int),
        decreases fourccs.len() - g,
    {
        let fourcc: u32 = fourccs[g];
        let n: usize = mod_counts[g] as usize;
        proof {
            lemma_group_start_monotone(a.counts, g + 1, a.counts.len() as int);
        }
        let ghost before = formats@;
        let ghost read = a.listed(fourcc, g as int);
        let group = read_group(modifiers, usages, plane_counts, cursor, n, Ghost(a));
        assert(group@ =~= a.group(g as int));
        assert(read + group@ =~= a.listed(fourcc, g + 1));
        let list: Vec<ModCap> = match formats.by_fourcc.remove(&fourcc) {
            Some(held) => {
                let mut merged: Vec<ModCap> = Vec::new();
                assert(merged@ =~= last_wins(Seq::<ModCap>::empty()));
                merge_caps(&mut merged, &held, Ghost(Seq::empty()));
                assert(Seq::<ModCap>::empty() + held@ =~= held@);
                merge_caps(&mut merged, &group, Ghost(held@));
                proof {
                    assert(before.contains_key(fourcc) && held@ == before[fourcc]);
                    lemma_listed(a, fourcc, g as int);
                    lemma_merged_before(read, group@);
                }
                merged
            },
            None => {
                proof {
                    assert(!before.contains_key(fourcc));
                    lemma_not_listed(a, fourcc, g as int);
                    assert(read + group@ =~= group@);
                }
                group
            },
        };
        assert(list@ == a.caps_for(fourcc, g + 1));
        formats.by_fourcc.insert(fourcc, list);
        proof {
            let taken = a.fourccs.take(g + 1);
            assert forall|f: u32| #[trigger]
                taken.contains(f) <==> a.fourccs.take(g as int).contains(f) || f == fourcc by {
                if a.fourccs.take(g as int).contains(f) {
                    assert(taken[a.fourccs.take(g as int).index_of(f)] == f);
                }
                assert(taken[g as int] == fourcc);
                if taken.contains(f) {
                    let k = taken.index_of(f);
                    if k < g {
                        assert(a.fourccs.take(g as int)[k] == f);
                    }
                }
            }
            assert forall|f: u32| #[trigger]
                formats@.contains_key(f) <==> a.table(g + 1).contains_key(f) by {
                assert(before.contains_key(f) <==> a.fourccs.take(g as int).contains(f));
                assert(taken.contains(f) <==> a.table(g + 1).contains_key(f));
            }
            assert forall|f: u32| formats@.contains_key(f) implies #[trigger] formats@[f]
                == a.table(g + 1)[f] by {
                if f != fourcc {
                    assert(formats@[f] == before[f]);
                }
            }
            assert(formats@ =~= a.table(g + 1));
        }
        cursor = cursor + n;
        g = g + 1;
    }
    Ok(
        PeerCaps {
            formats,
            identity: DeviceIdentity {
                device_uuid: pack_uuid_words(device_uuid),
                driver_uuid: pack_uuid_words(driver_uuid),
                drm,
            },
            sync,
            color,
            mem_hint,
            extent_max,
            blacklist: Blacklist::new(),
        },
    )
}

proof fn lemma_listed(a: CapArrays, fourcc: u32, n: int)
    requires
        0 <= n <= a.fourccs.len(),
    ensures
        a.times(fourcc, n) >= 0,
        a.fourccs.take(n).contains(fourcc) ==> a.times(fourcc, n) >= 1,
    decreases n,
{
    if n > 0 {
        lemma_listed(a, fourcc, n - 1);
        if a.fourccs.take(n).contains(fourcc) && a.fourccs[n - 1] != fourcc {
            let k = a.fourccs.take(n).index_of(fourcc);
            assert(a.fourccs.take(n - 1)[k] == fourcc);
        }
    }
}

proof fn lemma_not_listed(a: CapArrays, fourcc: u32, n: int)
    requires
        0 <= n <= a.fourccs.len(),
        !a.fourccs.take(n).contains(fourcc),
    ensures
        a.listed(fourcc, n) == Seq::<ModCap>::empty(),
        a.times(fourcc, n) == 0,
    decreases n,
{
    if n > 0 {
        assert(a.fourccs.take(n)[n - 1] == a.fourccs[n - 1]);
        let shorter = a.fourccs.take(n - 1);
        assert forall|k: int| 0 <= k < n - 1 implies shorter[k] != fourcc by {
            assert(a.fourccs.take(n)[k] == shorter[k]);
        }
        lemma_not_listed(a, fourcc, n - 1);
    }
}

/// The first length rule that the arrays break, if any.
pub open spec fn caps_fault(a: CapArrays, device_uuid: Seq<u32>, driver_uuid: Seq<u32>) -> Option<
    Seq<char>,
> {
    if a.fourccs.len() != a.counts.len() {
        Some("fourccs.len() != mod_counts.len()"@)
    } else if a.modifiers.len() != a.total() {
        Some("modifiers.len() != sum(mod_counts)"@)
    } else if a.usages.len() != a.total() {
        Some("usages.len() != sum(mod_counts)"@)
    } else if a.planes.len() != a.total() {
        Some("plane_counts.len() != sum(mod_counts)"@)
    } else if device_uuid.len() != 4 || driver_uuid.len() != 4 {
        Some("device_uuid/driver_uuid must be 4×u32 (16 bytes packed LE)"@)
    } else {
        None
    }
}

// ---------------------------------------------------------------------------
// Picking
// ---------------------------------------------------------------------------

/// The synchronisation bit both sides share, explicit fences first.
pub open spec fn sync_choice(producer: u32, consumer: u32) -> Option<u32> {
    let common = producer & consumer;
    if common == 0 {
        None
    } else if common & SYNC_SYNCOBJ_TIMELINE != 0 {
        Some(SYNC_SYNCOBJ_TIMELINE)
    } else if common & SYNC_SYNCOBJ_BINARY != 0 {
        Some(SYNC_SYNCOBJ_BINARY)
    } else {
        Some(SYNC_IMPLICIT)
    }
}

pub fn pick_sync(producer: u32, consumer: u32) -> (r: Result<u32, NegotiateError>)
    ensures
        match sync_choice(producer, consumer) {
            Some(bit) => r == Ok::<u32, NegotiateError>(bit),
            None => r == Err::<u32, NegotiateError>(NegotiateError::NoSyncIntersection),
        },
{
    let common: u32 = producer & consumer;
    if common == 0 {
        return Err(NegotiateError::NoSyncIntersection);
    }
    if common & SYNC_SYNCOBJ_TIMELINE != 0 {
        Ok(SYNC_SYNCOBJ_TIMELINE)
    } else if common & SYNC_SYNCOBJ_BINARY != 0 {
        Ok(SYNC_SYNCOBJ_BINARY)
    } else {
        Ok(SYNC_IMPLICIT)
    }
}

/// Lowest set bit of a non-zero mask.
pub open spec fn lowest_bit(x: u32) -> u32 {
    x & ((!x + 1) as u32)
}

/// The colour bit chosen on one axis: the lowest common one, or the default.
pub open spec fn axis_choice(common: u32, mask: u32) -> u32 {
    if common & mask != 0 {
        lowest_bit(common & mask)
    } else {
        DEFAULT_COLOR & mask
    }
}

pub open spec fn color_choice(producer: u32, consumer: u32) -> u32 {
    let common = producer & consumer;
    axis_choice(common, 31) | axis_choice(common, 96) | axis_choice(common, 384)
}

fn pick_axis(common: u32, mask: u32) -> (r: u32)
    ensures
        r == axis_choice(common, mask),
{
    let x: u32 = common & mask;
    if x != 0 {
        assert(!x < 0xffff_ffffu32) by (bit_vector)
            requires
                x != 0u32,
        ;
        x & (!x + 1)
    } else {
        DEFAULT_COLOR & mask
    }
}

pub fn pick_color(producer: u32, consumer: u32) -> (r: u32)
    ensures
        r == color_choice(producer, consumer),
{
    let common: u32 = producer & consumer;
    pick_axis(common, COLOR_MASK_ENCODING) | pick_axis(common, COLOR_MASK_RANGE) | pick_axis(
        common,
        COLOR_MASK_ALPHA,
    )
}

pub open spec fn mem_hint_choice(producer: u32, consumer: u32) -> u32 {
    let common = producer & consumer;
    if common & MEM_HINT_DEVICE_LOCAL != 0 {
        MEM_HINT_DEVICE_LOCAL
    } else if common & MEM_HINT_HOST_VISIBLE != 0 {
        MEM_HINT_HOST_VISIBLE
    } else if common != 0 {
        common
    } else {
        MEM_HINT_HOST_VISIBLE
    }
}

pub fn pick_mem_hint_same_dev(producer: u32, consumer: u32) -> (r: u32)
    ensures
        r == mem_hint_choice(producer, consumer),
{
    let common: u32 = producer & consumer;
    if common & MEM_HINT_DEVICE_LOCAL != 0 {
        MEM_HINT_DEVICE_LOCAL
    } else if common & MEM_HINT_HOST_VISIBLE != 0 {
        MEM_HINT_HOST_VISIBLE
    } else if common != 0 {
        common
    } else {
        MEM_HINT_HOST_VISIBLE
    }
}

/// Format tables and blacklists of a producer and a consumer.
pub struct FormatPair {
    pub p: Map<u32, Seq<ModCap>>,
    pub c: Map<u32, Seq<ModCap>>,
    pub p_black: Set<(u32, u64)>,
    pub c_black: Set<(u32, u64)>,
}

impl FormatPair {
    /// Both sides list the fourcc and neither rejected it with the linear layout.
    pub open spec fn linear_ok(self, f: u32) -> bool {
        &&& self.p.contains_key(f)
        &&& self.c.contains_key(f)
        &&& !self.p_black.contains((f, DRM_FORMAT_MOD_LINEAR))
        &&& !self.c_black.contains((f, DRM_FORMAT_MOD_LINEAR))
    }

    pub open spec fn is_lowest_linear(self, f: u32) -> bool {
        self.linear_ok(f) && forall|g: u32| #[trigger] self.linear_ok(g) ==> f <= g
    }

    /// The lowest fourcc usable across devices.
    pub open spec fn fourcc_choice(self) -> Option<u32> {
        if exists|f: u32| self.is_lowest_linear(f) {
            Some(choose|f: u32| self.is_lowest_linear(f))
        } else {
            None
        }
    }

    /// Consumer entry `j` takes what producer entry `i` offers for `f`.
    pub open spec fn agrees(self, f: u32, i: int, j: int) -> bool {
        &&& 0 <= j < self.c[f].len()
        &&& self.c[f][j].modifier == self.p[f][i].modifier
        &&& self.c[f][j].plane_count == self.p[f][i].plane_count
        &&& !self.c_black.contains((f, self.c[f][j].modifier))
    }

    /// Producer entry `i` of fourcc `f` is usable on both sides.
    pub open spec fn matched(self, f: u32, i: int) -> bool {
        &&& self.p.contains_key(f)
        &&& self.c.contains_key(f)
        &&& 0 <= i < self.p[f].len()
        &&& !self.p_black.contains((f, self.p[f][i].modifier))
        &&& exists|j: int| self.agrees(f, i, j)
    }

    /// A usable entry that is linear, or that is not.
    pub open spec fn wanted(self, linear: bool, f: u32, i: int) -> bool {
        self.matched(f, i) && (self.p[f][i].modifier == DRM_FORMAT_MOD_LINEAR) == linear
    }

    /// The wanted entry of the lowest fourcc that comes first in the producer's order.
    pub open spec fn is_first(self, linear: bool, f: u32, i: int) -> bool {
        &&& self.wanted(linear, f, i)
        &&& forall|g: u32, k: int| #[trigger]
            self.wanted(linear, g, k) ==> f < g || (f == g && i <= k)
    }

    pub open spec fn some_first(self, linear: bool) -> bool {
        exists|f: u32, i: int| self.is_first(linear, f, i)
    }

    pub open spec fn the_first(self, linear: bool) -> (u32, u64, u32) {
        let (f, i) = choose|f: u32, i: int| self.is_first(linear, f, i);
        (f, self.p[f][i].modifier, self.p[f][i].plane_count)
    }

    /// (fourcc, modifier, plane count) for two peers on one device: any tiled
    /// layout before any linear one.
    pub open spec fn format_choice(self) -> Option<(u32, u64, u32)> {
        if self.some_first(false) {
            Some(self.the_first(false))
        } else if self.some_first(true) {
            Some(self.the_first(true))
        } else {
            None
        }
    }
}

proof fn lemma_first_is_unique(s: FormatPair, linear: bool, f: u32, i: int)
    requires
        s.is_first(linear, f, i),
    ensures
        s.some_first(linear),
        s.the_first(linear) == (f, s.p[f][i].modifier, s.p[f][i].plane_count),
{
    let (g, k) = choose|g: u32, k: int| s.is_first(linear, g, k);
    assert(s.is_first(linear, g, k));
    assert(s.wanted(linear, g, k) && s.wanted(linear, f, i));
}

proof fn lemma_none_first(s: FormatPair, linear: bool)
    requires
        forall|f: u32, i: int| !#[trigger] s.wanted(linear, f, i),
    ensures
        !s.some_first(linear),
{
    if s.some_first(linear) {
        let (g, k) = choose|g: u32, k: int| s.is_first(linear, g, k);
        assert(s.wanted(linear, g, k));
    }
}

pub open spec fn format_pair(producer: PeerCapsView, consumer: PeerCapsView) -> FormatPair {
    FormatPair {
        p: producer.formats,
        c: consumer.formats,
        p_black: producer.blacklist,
        c_black: consumer.blacklist,
    }
}

pub fn pick_fourcc_only(
    producer: &FormatCaps,
    consumer: &FormatCaps,
    p_blacklist: &Blacklist,
    c_blacklist: &Blacklist,
) -> (r: Result<u32, NegotiateError>)
    ensures
        ({
            let s = FormatPair {
                p: producer@,
                c: consumer@,
                p_black: p_blacklist@,
                c_black: c_blacklist@,
            };
            match s.fourcc_choice() {
                Some(f) => r == Ok::<u32, NegotiateError>(f),
                None => r == Err::<u32, NegotiateError>(NegotiateError::NoFormatIntersection),
            }
        }),
{
    let ghost s = FormatPair {
        p: producer@,
        c: consumer@,
        p_black: p_blacklist@,
        c_black: c_blacklist@,
    };
    let keys = producer.fourccs();
    let mut n: usize = 0;
    while n < keys.len()
        invariant
            n <= keys@.len(),
            ascending(keys@),
            forall|f: u32| #[trigger] keys@.contains(f) <==> producer@.contains_key(f),
            s.p == producer@,
            s.c == consumer@,
            s.p_black == p_blacklist@,
            s.c_black == c_blacklist@,
            forall|k: int| 0 <= k < n ==> !s.linear_ok(#[trigger] keys@[k]),
        decreases keys.len() - n,
    {
        let f: u32 = keys[n];
        assert(keys@.contains(f));
        if consumer.by_fourcc.contains_key(&f) && !p_blacklist.contains(
            &(f, DRM_FORMAT_MOD_LINEAR),
        ) && !c_blacklist.contains(&(f, DRM_FORMAT_MOD_LINEAR)) {
            proof {
                assert forall|g: u32| #[trigger] s.linear_ok(g) implies f <= g by {
                    assert(keys@.contains(g));
                    let k = keys@.index_of(g);
                    if k < n {
                        assert(!s.linear_ok(keys@[k]));
                    }
                }
                assert(s.is_lowest_linear(f));
            }
            return Ok(f);
        }
        n = n + 1;
    }
    proof {
        if exists|f: u32| s.is_lowest_linear(f) {
            let f = choose|f: u32| s.is_lowest_linear(f);
            assert(keys@.contains(f));
            assert(!s.linear_ok(keys@[keys@.index_of(f)]));
        }
    }
    Err(NegotiateError::NoFormatIntersection)
}

fn consumer_takes(
    offer: &ModCap,
    list: &Vec<ModCap>,
    fourcc: u32,
    c_blacklist: &Blacklist,
    Ghost(s): Ghost<FormatPair>,
    Ghost(i): Ghost<int>,
) -> (r: bool)
    requires
        s.c[fourcc] == list@,
        s.c_black == c_blacklist@,
        s.p[fourcc][i] == *offer,
    ensures
        r == exists|j: int| s.agrees(fourcc, i, j),
{
    let mut j: usize = 0;
    while j < list.len()
        invariant
            j <= list@.len(),
            s.c[fourcc] == list@,
            s.c_black == c_blacklist@,
            s.p[fourcc][i] == *offer,
            forall|k: int| 0 <= k < j ==> !#[trigger] s.agrees(fourcc, i, k),
        decreases list.len() - j,
    {
        let other: ModCap = list[j];
        if other.modifier == offer.modifier && other.plane_count == offer.plane_count
            && !c_blacklist.contains(&(fourcc, other.modifier)) {
            assert(s.agrees(fourcc, i, j as int));
            return true;
        }
        j = j + 1;
    }
    false
}

pub fn pick_format_same_device(
    producer: &FormatCaps,
    consumer: &FormatCaps,
    p_blacklist: &Blacklist,
    c_blacklist: &Blacklist,
) -> (r: Result<(u32, u64, u32), NegotiateError>)
    ensures
        ({
            let s = FormatPair {
                p: producer@,
                c: consumer@,
                p_black: p_blacklist@,
                c_black: c_blacklist@,
            };
            match s.format_choice() {
                Some(t) => r == Ok::<(u32, u64, u32), NegotiateError>(t),
                None => r == Err::<(u32, u64, u32), NegotiateError>(
                    NegotiateError::NoFormatIntersection,
                ),
            }
        }),
{
    let ghost s = FormatPair {
        p: producer@,
        c: consumer@,
        p_black: p_blacklist@,
        c_black: c_blacklist@,
    };
    let keys = producer.fourccs();
    let mut linear: Option<(u32, u64, u32)> = None;
    let ghost mut linear_at: (u32, int) = (0, 0);
    let mut n: usize = 0;
    assert forall|lin: bool, g: u32, k: int| #[trigger] s.wanted(lin, g, k) implies keys@.len() > 0
        && keys@[0] <= g by {
        assert(keys@.contains(g));
        let m = keys@.index_of(g);
        assert(keys@[m] == g);
    }
    while n < keys.len()
        invariant
            n <= keys@.len(),
            ascending(keys@),
            forall|f: u32| #[trigger] keys@.contains(f) <==> producer@.contains_key(f),
            s.p == producer@,
            s.c == consumer@,
            s.p_black == p_blacklist@,
            s.c_black == c_blacklist@,
            forall|g: u32, k: int|
                n < keys@.len() && g < keys@[n as int] ==> !#[trigger] s.wanted(false, g, k),
            n == keys@.len() ==> forall|g: u32, k: int| !#[trigger] s.wanted(false, g, k),
            linear is None ==> forall|g: u32, k: int|
                n < keys@.len() && g < keys@[n as int] ==> !#[trigger] s.wanted(true, g, k),
            linear is None && n == keys@.len() ==> forall|g: u32, k: int|
                !#[trigger] s.wanted(true, g, k),
            linear is Some ==> {
                &&& s.is_first(true, linear_at.0, linear_at.1)
                &&& linear->0 == (
                    linear_at.0,
                    s.p[linear_at.0][linear_at.1].modifier,
                    s.p[linear_at.0][linear_at.1].plane_count,
                )
            },
        decreases keys.len() - n,
    {
        let f: u32 = keys[n];
        assert(keys@.contains(f));
        let c_list_opt = consumer.by_fourcc.get(&f);
        let p_list_opt = producer.by_fourcc.get(&f);
        if let (Some(p_list), Some(c_list)) = (p_list_opt, c_list_opt) {
            let mut i: usize = 0;
            while i < p_list.len()
                invariant
                    i <= p_list@.len(),
                    s.p == producer@,
                    s.c == consumer@,
                    s.p[f] == p_list@,
                    s.c[f] == c_list@,
                    s.p.contains_key(f),
                    s.c.contains_key(f),
                    s.p_black == p_blacklist@,
                    s.c_black == c_blacklist@,
                    forall|k: int| 0 <= k < i ==> !#[trigger] s.wanted(false, f, k),
                    forall|g: u32, k: int| g < f ==> !#[trigger] s.wanted(false, g, k),
                    linear is None ==> forall|g: u32, k: int|
                        g < f ==> !#[trigger] s.wanted(true, g, k),
                    linear is None ==> forall|k: int|
                        0 <= k < i ==> !#[trigger] s.wanted(true, f, k),
                    linear is Some ==> {
                        &&& s.is_first(true, linear_at.0, linear_at.1)
                        &&& linear->0 == (
                            linear_at.0,
                            s.p[linear_at.0][linear_at.1].modifier,
                            s.p[linear_at.0][linear_at.1].plane_count,
                        )
                    },
                decreases p_list.len() - i,
            {
                let offer: ModCap = p_list[i];
                if !p_blacklist.contains(&(f, offer.modifier)) && consumer_takes(
                    &offer,
                    c_list,
                    f,
                    c_blacklist,
                    Ghost(s),
                    Ghost(i as int),
                ) {
                    assert(s.matched(f, i as int));
                    if offer.modifier != DRM_FORMAT_MOD_LINEAR {
                        proof {
                            assert(s.wanted(false, f, i as int));
                            assert forall|g: u32, k: int| #[trigger]
                                s.wanted(false, g, k) implies f < g || (f == g && i <= k) by {}
                            assert(s.is_first(false, f, i as int));
                            lemma_first_is_unique(s, false, f, i as int);
                        }
                        return Ok((f, offer.modifier, offer.plane_count));
                    }
                    if linear.is_none() {
                        proof {
                            linear_at = (f, i as int);
                            assert(s.wanted(true, f, i as int));
                            assert forall|g: u32, k: int| #[trigger]
                                s.wanted(true, g, k) implies f < g || (f == g && i <= k) by {}
                            assert(s.is_first(true, f, i as int));
                        }
                        linear = Some((f, offer.modifier, offer.plane_count));
                    }
                }
                i = i + 1;
            }
        }
        proof {
            assert forall|k: int| !#[trigger] s.wanted(false, f, k) by {}
            assert(linear is None ==> forall|k: int| !#[trigger] s.wanted(true, f, k));
            assert forall|g: u32, k: int, lin: bool| #[trigger]
                s.wanted(lin, g, k) implies keys@.contains(g) by {}
            assert forall|g: u32, k: int|
                n + 1 < keys@.len() && g < keys@[n + 1] implies !#[trigger] s.wanted(
                false,
                g,
                k,
            ) by {
                if s.wanted(false, g, k) {
                    assert(keys@.contains(g));
                    let m = keys@.index_of(g);
                    assert(m <= n);
                }
            }
            assert forall|g: u32, k: int| n + 1 == keys@.len() implies !#[trigger] s.wanted(
                false,
                g,
                k,
            ) by {
                if s.wanted(false, g, k) {
                    assert(keys@.contains(g));
                    let m = keys@.index_of(g);
                    assert(m <= n);
                }
            }
            if linear is None {
                assert forall|g: u32, k: int|
                    n + 1 < keys@.len() && g < keys@[n + 1] implies !#[trigger] s.wanted(
                    true,
                    g,
                    k,
                ) by {
                    if s.wanted(true, g, k) {
                        assert(keys@.contains(g));
                        let m = keys@.index_of(g);
                        assert(m <= n);
                    }
                }
                assert forall|g: u32, k: int| n + 1 == keys@.len() implies !#[trigger] s.wanted(
                    true,
                    g,
                    k,
                ) by {
                    if s.wanted(true, g, k) {
                        assert(keys@.contains(g));
                        let m = keys@.index_of(g);
                        assert(m <= n);
                    }
                }
            }
        }
        n = n + 1;
    }
    proof {
        lemma_none_first(s, false);
    }
    match linear {
        Some(t) => {
            proof {
                lemma_first_is_unique(s, true, linear_at.0, linear_at.1);
            }
            Ok(t)
        },
        None => {
            proof {
                lemma_none_first(s, true);
            }
            Err(NegotiateError::NoFormatIntersection)
        },
    }
}

/// What [`pick`] returns.
pub open spec fn pick_result(producer: PeerCapsView, consumer: PeerCapsView) -> Result<
    NegotiatedScheme,
    NegotiateError,
> {
    let pair = format_pair(producer, consumer);
    match sync_choice(producer.sync, consumer.sync) {
        None => Err(NegotiateError::NoSyncIntersection),
        Some(sync_mode) => {
            let color = color_choice(producer.color, consumer.color);
            if same_gpu(producer.device_uuid, producer.drm, consumer.device_uuid, consumer.drm) {
                match pair.format_choice() {
                    None => Err(NegotiateError::NoFormatIntersection),
                    Some((fourcc, modifier, plane_count)) => Ok(
                        NegotiatedScheme {
                            fourcc,
                            modifier,
                            plane_count,
                            sync_mode,
                            color,
                            mem_hint: mem_hint_choice(producer.mem_hint, consumer.mem_hint),
                            count: DEFAULT_POOL_COUNT,
                            path: if modifier == DRM_FORMAT_MOD_LINEAR {
                                PathCategory::CompatLinear
                            } else {
                                PathCategory::OptimizedSameDevice
                            },
                            mem_source: if modifier == DRM_FORMAT_MOD_LINEAR {
                                MemSource::GpuLinear
                            } else {
                                MemSource::GpuNative
                            },
                        },
                    ),
                }
            } else {
                match pair.fourcc_choice() {
                    None => Err(NegotiateError::NoFormatIntersection),
                    Some(fourcc) => Ok(
                        NegotiatedScheme {
                            fourcc,
                            modifier: DRM_FORMAT_MOD_LINEAR,
                            plane_count: 1,
                            sync_mode,
                            color,
                            mem_hint: 0,
                            count: DEFAULT_POOL_COUNT,
                            path: PathCategory::CompatLinear,
                            mem_source: MemSource::GpuLinear,
                        },
                    ),
                }
            }
        },
    }
}

/// Picks the buffer scheme for a producer and a consumer. On one GPU the
/// modifiers are intersected and a tiled layout wins; across GPUs only the
/// fourcc is matched and the layout is linear.
pub fn pick(producer: &PeerCaps, consumer: &PeerCaps) -> (r: Result<
    NegotiatedScheme,
    NegotiateError,
>)
    ensures
        r == pick_result(producer@, consumer@),
{
    let same_dev = producer.identity.same_device(&consumer.identity);
    let sync_mode: u32 = match pick_sync(producer.sync, consumer.sync) {
        Ok(bit) => bit,
        Err(e) => return Err(e),
    };
    let color: u32 = pick_color(producer.color, consumer.color);
    if same_dev {
        return match pick_format_same_device(
            &producer.formats,
            &consumer.formats,
            &producer.blacklist,
            &consumer.blacklist,
        ) {
            Err(e) => Err(e),
            Ok((fourcc, modifier, plane_count)) => {
                let (path, mem_source) = if modifier == DRM_FORMAT_MOD_LINEAR {
                    (PathCategory::CompatLinear, MemSource::GpuLinear)
                } else {
                    (PathCategory::OptimizedSameDevice, MemSource::GpuNative)
                };
                Ok(
                    NegotiatedScheme {
                        fourcc,
                        modifier,
                        plane_count,
                        sync_mode,
                        color,
                        mem_hint: pick_mem_hint_same_dev(producer.mem_hint, consumer.mem_hint),
                        count: DEFAULT_POOL_COUNT,
                        path,
                        mem_source,
                    },
                )
            },
        };
    }
    match pick_fourcc_only(
        &producer.formats,
        &consumer.formats,
        &producer.blacklist,
        &consumer.blacklist,
    ) {
        Err(e) => Err(e),
        Ok(fourcc) => Ok(
            NegotiatedScheme {
                fourcc,
                modifier: DRM_FORMAT_MOD_LINEAR,
                plane_count: 1,
                sync_mode,
                color,
                mem_hint: 0,
                count: DEFAULT_POOL_COUNT,
                path: PathCategory::CompatLinear,
                mem_source: MemSource::GpuLinear,
            },
        ),
    }
}

// ---------------------------------------------------------------------------
// Laws
// ---------------------------------------------------------------------------

/// Being on one device does not depend on which side asks.
pub proof fn same_gpu_is_symmetric(a_uuid: Seq<u8>, a_drm: DrmNode, b_uuid: Seq<u8>, b_drm: DrmNode)
    ensures
        same_gpu(a_uuid, a_drm, b_uuid, b_drm) == same_gpu(b_uuid, b_drm, a_uuid, a_drm),
{
}

/// A picked (fourcc, modifier) pair is on neither side's blacklist, so a pair
/// that a peer rejected is never picked again.
pub proof fn picked_pair_is_not_blacklisted(producer: PeerCapsView, consumer: PeerCapsView)
    requires
        pick_result(producer, consumer) is Ok,
    ensures
        ({
            let s = pick_result(producer, consumer)->Ok_0;
            &&& !producer.blacklist.contains((s.fourcc, s.modifier))
            &&& !consumer.blacklist.contains((s.fourcc, s.modifier))
        }),
{
    let pair = format_pair(producer, consumer);
    if same_gpu(producer.device_uuid, producer.drm, consumer.device_uuid, consumer.drm) {
        let linear = !pair.some_first(false);
        let (f, i) = choose|f: u32, i: int| pair.is_first(linear, f, i);
        assert(pair.wanted(linear, f, i));
        let j = choose|j: int| pair.agrees(f, i, j);
        assert(pair.agrees(f, i, j));
    } else {
        let f = choose|f: u32| pair.is_lowest_linear(f);
        assert(pair.linear_ok(f));
    }
}

/// After either peer rejects the pair it was given, the next pick is another
/// pair or an error.
pub proof fn rejected_pair_is_not_picked_again(
    producer: PeerCapsView,
    consumer: PeerCapsView,
    fourcc: u32,
    modifier: u64,
)
    ensures
        ({
            let p = PeerCapsView {
                blacklist: producer.blacklist.insert((fourcc, modifier)),
                ..producer
            };
            let c = PeerCapsView {
                blacklist: consumer.blacklist.insert((fourcc, modifier)),
                ..consumer
            };
            &&& pick_result(p, consumer) matches Ok(s) ==> (s.fourcc, s.modifier) != (
                fourcc,
                modifier,
            )
            &&& pick_result(producer, c) matches Ok(s) ==> (s.fourcc, s.modifier) != (
                fourcc,
                modifier,
            )
        }),
{
    let p = PeerCapsView { blacklist: producer.blacklist.insert((fourcc, modifier)), ..producer };
    let c = PeerCapsView { blacklist: consumer.blacklist.insert((fourcc, modifier)), ..consumer };
    if pick_result(p, consumer) is Ok {
        picked_pair_is_not_blacklisted(p, consumer);
    }
    if pick_result(producer, c) is Ok {
        picked_pair_is_not_blacklisted(producer, c);
    }
}

/// Across GPUs only the linear layout with one plane is used; a tiled layout
/// means that both peers are on one GPU and both announced it.
pub proof fn tiled_layout_stays_on_one_gpu(producer: PeerCapsView, consumer: PeerCapsView)
    requires
        pick_result(producer, consumer) is Ok,
    ensures
        ({
            let s = pick_result(producer, consumer)->Ok_0;
            let one_gpu = same_gpu(
                producer.device_uuid,
                producer.drm,
                consumer.device_uuid,
                consumer.drm,
            );
            &&& !one_gpu ==> s.modifier == DRM_FORMAT_MOD_LINEAR && s.plane_count == 1 && s.mem_hint
                == 0
            &&& s.modifier != DRM_FORMAT_MOD_LINEAR ==> one_gpu
            &&& (s.modifier == DRM_FORMAT_MOD_LINEAR) == (s.path == PathCategory::CompatLinear)
            &&& (s.modifier == DRM_FORMAT_MOD_LINEAR) == (s.mem_source == MemSource::GpuLinear)
            &&& producer.formats.contains_key(s.fourcc)
            &&& consumer.formats.contains_key(s.fourcc)
            &&& one_gpu ==> exists|i: int, j: int|
                0 <= i < producer.formats[s.fourcc].len() && 0 <= j
                    < consumer.formats[s.fourcc].len() && (#[trigger] producer.formats[s.fourcc][i]).modifier
                    == s.modifier && (#[trigger] consumer.formats[s.fourcc][j]).modifier
                    == s.modifier
        }),
{
    let pair = format_pair(producer, consumer);
    let s = pick_result(producer, consumer)->Ok_0;
    if same_gpu(producer.device_uuid, producer.drm, consumer.device_uuid, consumer.drm) {
        let linear = !pair.some_first(false);
        let (f, i) = choose|f: u32, i: int| pair.is_first(linear, f, i);
        assert(pair.wanted(linear, f, i));
        let j = choose|j: int| pair.agrees(f, i, j);
        assert(pair.agrees(f, i, j));
        assert(producer.formats[s.fourcc][i].modifier == s.modifier);
        assert(consumer.formats[s.fourcc][j].modifier == s.modifier);
    } else {
        let f = choose|f: u32| pair.is_lowest_linear(f);
        assert(pair.linear_ok(f));
    }
}

/// The synchronisation mode of a scheme is a single bit, the strongest of the
/// three known ones that both sides have, when they share any of those.
pub proof fn sync_bit_is_shared(producer: u32, consumer: u32)
    requires
        producer & consumer & 7 != 0,
    ensures
        sync_choice(producer, consumer) is Some,
        ({
            let bit = sync_choice(producer, consumer)->0;
            &&& bit == SYNC_IMPLICIT || bit == SYNC_SYNCOBJ_BINARY || bit == SYNC_SYNCOBJ_TIMELINE
            &&& producer & bit == bit
            &&& consumer & bit == bit
            &&& producer & consumer & 4 != 0 ==> bit == SYNC_SYNCOBJ_TIMELINE
        }),
{
    let common = producer & consumer;
    assert(common & 7 != 0 ==> common != 0) by (bit_vector);
    assert(common & 7 != 0 && common & 4 == 0 && common & 2 == 0 ==> common & 1 == 1) by (bit_vector);
    assert(common == producer & consumer && common & 4 != 0 ==> producer & 4 == 4 && consumer & 4
        == 4) by (bit_vector);
    assert(common == producer & consumer && common & 2 != 0 ==> producer & 2 == 2 && consumer & 2
        == 2) by (bit_vector);
    assert(common == producer & consumer && common & 1 == 1 ==> producer & 1 == 1 && consumer & 1
        == 1) by (bit_vector);
}

/// The lowest set bit of a mask is one of its bits, and it has none below.
pub proof fn lowest_bit_is_lowest(x: u32)
    requires
        x != 0,
    ensures
        lowest_bit(x) != 0,
        x & lowest_bit(x) == lowest_bit(x),
        lowest_bit(x) & ((lowest_bit(x) - 1) as u32) == 0,
        x & ((lowest_bit(x) - 1) as u32) == 0,
{
    let n = (!x + 1) as u32;
    let b = x & n;
    assert(b != 0) by (bit_vector)
        requires
            x != 0u32,
            n == (!x + 1) as u32,
            b == x & n,
    ;
    assert(x & b == b && b & ((b - 1) as u32) == 0 && x & ((b - 1) as u32) == 0) by (bit_vector)
        requires
            x != 0u32,
            n == (!x + 1) as u32,
            b == x & n,
    ;
}

/// On each colour axis exactly one bit is chosen: one both sides have when
/// there is any, the default otherwise.
pub proof fn color_axes_are_independent(producer: u32, consumer: u32)
    ensures
        ({
            let common = producer & consumer;
            let color = color_choice(producer, consumer);
            &&& color & 31 == axis_choice(common, 31)
            &&& color & 96 == axis_choice(common, 96)
            &&& color & 384 == axis_choice(common, 384)
            &&& common & 31 == 0 ==> color & 31 == COLOR_ENC_SRGB
            &&& common & 96 == 0 ==> color & 96 == COLOR_RANGE_LIMITED
            &&& common & 384 == 0 ==> color & 384 == COLOR_ALPHA_PREMUL
            &&& common & 31 != 0 ==> common & color & 31 == color & 31 && color & 31 != 0
            &&& common & 96 != 0 ==> common & color & 96 == color & 96 && color & 96 != 0
            &&& common & 384 != 0 ==> common & color & 384 == color & 384 && color & 384 != 0
        }),
{
    let common = producer & consumer;
    let e = axis_choice(common, 31);
    let r = axis_choice(common, 96);
    let a = axis_choice(common, 384);
    lemma_axis_choice(common, 31, e);
    lemma_axis_choice(common, 96, r);
    lemma_axis_choice(common, 384, a);
    assert(193u32 & 31 == 1 && 193u32 & 96 == 64 && 193u32 & 384 == 128) by (bit_vector);
    assert((e | r | a) & 31 == e && (e | r | a) & 96 == r && (e | r | a) & 384 == a) by (bit_vector)
        requires
            e & 31 == e,
            r & 96 == r,
            a & 384 == a,
    ;
    assert(common & (e | r | a) & 31 == common & e && common & (e | r | a) & 96 == common & r
        && common & (e | r | a) & 384 == common & a) by (bit_vector)
        requires
            e & 31 == e,
            r & 96 == r,
            a & 384 == a,
    ;
}

proof fn lemma_axis_choice(common: u32, mask: u32, bit: u32)
    requires
        bit == axis_choice(common, mask),
    ensures
        bit & mask == bit,
        common & mask != 0 ==> bit != 0 && common & bit == bit,
        common & mask == 0 ==> bit == DEFAULT_COLOR & mask,
{
    let x = common & mask;
    if x != 0 {
        lowest_bit_is_lowest(x);
        assert(bit & mask == bit && common & bit == bit) by (bit_vector)
            requires
                x == common & mask,
                x & bit == bit,
        ;
    } else {
        assert((193u32 & mask) & mask == 193u32 & mask) by (bit_vector);
    }
}

// ---------------------------------------------------------------------------
// Diagnostics
// ---------------------------------------------------------------------------

pub open spec fn printable(b: u8) -> bool {
    0x20 <= b <= 0x7e
}

/// `'AB24'` for a printable fourcc, its eight hexadecimal digits otherwise.
pub open spec fn fourcc_text(fourcc: u32) -> Seq<char> {
    if printable(le_byte(fourcc, 0)) && printable(le_byte(fourcc, 1)) && printable(
        le_byte(fourcc, 2),
    ) && printable(le_byte(fourcc, 3)) {
        seq![
            '\'',
            le_byte(fourcc, 0) as char,
            le_byte(fourcc, 1) as char,
            le_byte(fourcc, 2) as char,
            le_byte(fourcc, 3) as char,
            '\'',
        ]
    } else {
        seq!['0', 'x'] + text::hex_padded(fourcc as nat, 8)
    }
}

pub fn fourcc_str(fourcc: u32) -> (s: String)
    ensures
        s@ == fourcc_text(fourcc),
{
    let b0: u8 = word_byte(fourcc, 0);
    let b1: u8 = word_byte(fourcc, 1);
    let b2: u8 = word_byte(fourcc, 2);
    let b3: u8 = word_byte(fourcc, 3);
    let mut s = String::new();
    if 0x20 <= b0 && b0 <= 0x7e && 0x20 <= b1 && b1 <= 0x7e && 0x20 <= b2 && b2 <= 0x7e && 0x20
        <= b3 && b3 <= 0x7e {
        s.push('\'');
        s.push(b0 as char);
        s.push(b1 as char);
        s.push(b2 as char);
        s.push(b3 as char);
        s.push('\'');
    } else {
        s.push('0');
        s.push('x');
        push_hex_padded(&mut s, fourcc as u64, 8);
    }
    assert(s@ =~= fourcc_text(fourcc));
    s
}

/// Two hexadecimal digits for each of the first `n` bytes.
pub open spec fn hex_bytes(bytes: Seq<u8>, n: int) -> Seq<char>
    decreases n,
{
    if n <= 0 {
        Seq::empty()
    } else {
        hex_bytes(bytes, n - 1) + text::hex_padded(bytes[n - 1] as nat, 2)
    }
}

pub fn hex_uuid(bytes: &[u8; 16]) -> (s: String)
    ensures
        s@ == hex_bytes(bytes@, 16),
{
    let mut s = String::new();
    let mut i: usize = 0;
    while i < 16
        invariant
            i <= 16,
            s@ == hex_bytes(bytes@, i as int),
        decreases 16 - i,
    {
        push_hex_padded(&mut s, bytes[i] as u64, 2);
        i = i + 1;
    }
    s
}

/// Summary line of a capability dump.
pub open spec fn dump_header(prefix: Seq<char>, v: PeerCapsView) -> Seq<char> {
    prefix + ": device_uuid="@ + hex_bytes(v.device_uuid, 16) + " driver_uuid="@ + hex_bytes(
        v.driver_uuid,
        16,
    ) + " drm_render="@ + text::dec_text(v.drm.major as nat) + ":"@ + text::dec_text(v.drm.minor as nat)
        + " sync=0x"@ + text::hex_text(v.sync as nat) + " color=0x"@ + text::hex_text(v.color as nat)
        + " mem_hint=0x"@ + text::hex_text(v.mem_hint as nat) + " extent_max="@ + text::dec_text(
        v.extent_max.0 as nat,
    ) + "x"@ + text::dec_text(v.extent_max.1 as nat)
}

/// Line for one fourcc of a capability dump.
pub open spec fn dump_fourcc(prefix: Seq<char>, fourcc: u32, n: nat) -> Seq<char> {
    prefix + ": fourcc="@ + fourcc_text(fourcc) + " (0x"@ + text::hex_padded(fourcc as nat, 8) + ") — "@
        + text::dec_text(n) + (if n == 1 {
        " modifier"@
    } else {
        " modifiers"@
    })
}

/// Line for one modifier of a capability dump.
pub open spec fn dump_modifier(prefix: Seq<char>, m: ModCap) -> Seq<char> {
    prefix + ":   modifier=0x"@ + text::hex_padded(m.modifier as nat, 16) + " usage=0x"@ + text::hex_text(
        m.usage as nat,
    ) + " planes="@ + text::dec_text(m.plane_count as nat)
}

/// Lines for the first `n` modifiers of one fourcc.
pub open spec fn dump_modifiers(prefix: Seq<char>, mods: Seq<ModCap>, n: int) -> Seq<Seq<char>>
    decreases n,
{
    if n <= 0 {
        Seq::empty()
    } else {
        dump_modifiers(prefix, mods, n - 1).push(dump_modifier(prefix, mods[n - 1]))
    }
}

/// Lines for the first `n` fourccs of `keys`.
pub open spec fn dump_formats(
    prefix: Seq<char>,
    keys: Seq<u32>,
    formats: Map<u32, Seq<ModCap>>,
    n: int,
) -> Seq<Seq<char>>
    decreases n,
{
    if n <= 0 {
        Seq::empty()
    } else {
        let mods = formats[keys[n - 1]];
        dump_formats(prefix, keys, formats, n - 1).push(
            dump_fourcc(prefix, keys[n - 1], mods.len()),
        ) + dump_modifiers(prefix, mods, mods.len() as int)
    }
}

impl PeerCaps {
    fn header_line(&self, prefix: &str) -> (s: String)
        ensures
            s@ == dump_header(prefix@, self@),
    {
        let mut s = prefix.to_owned();
        s.append(": device_uuid=");
        s.append(hex_uuid(&self.identity.device_uuid).as_str());
        s.append(" driver_uuid=");
        s.append(hex_uuid(&self.identity.driver_uuid).as_str());
        s.append(" drm_render=");
        push_dec(&mut s, self.identity.drm.major as u64);
        s.append(":");
        push_dec(&mut s, self.identity.drm.minor as u64);
        s.append(" sync=0x");
        push_hex(&mut s, self.sync as u64);
        s.append(" color=0x");
        push_hex(&mut s, self.color as u64);
        s.append(" mem_hint=0x");
        push_hex(&mut s, self.mem_hint as u64);
        s.append(" extent_max=");
        push_dec(&mut s, self.extent_max.0 as u64);
        s.append("x");
        push_dec(&mut s, self.extent_max.1 as u64);
        s
    }

    /// The lines of a full capability dump: one summary, then one line per
    /// fourcc in ascending order, each followed by its modifiers.
    pub fn log_dump(&self, prefix: &str) -> (out: Vec<String>)
        ensures
            exists|keys: Seq<u32>|
                {
                    &&& ascending(keys)
                    &&& forall|f: u32| #[trigger] keys.contains(f) <==> self@.formats.contains_key(f)
                    &&& text::lines(out@) == seq![dump_header(prefix@, self@)] + #[trigger] dump_formats(
                        prefix@,
                        keys,
                        self@.formats,
                        keys.len() as int,
                    )
                },
    {
        let mut out: Vec<String> = Vec::new();
        push_line(&mut out, self.header_line(prefix));
        let keys = self.formats.fourccs();
        let mut n: usize = 0;
        assert(text::lines(out@) =~= seq![dump_header(prefix@, self@)] + dump_formats(
            prefix@,
            keys@,
            self@.formats,
            0,
        ));
        while n < keys.len()
            invariant
                n <= keys@.len(),
                forall|f: u32| #[trigger] keys@.contains(f) <==> self@.formats.contains_key(f),
                text::lines(out@) == seq![dump_header(prefix@, self@)] + dump_formats(
                    prefix@,
                    keys@,
                    self@.formats,
                    n as int,
                ),
            decreases keys.len() - n,
        {
            let fourcc: u32 = keys[n];
            assert(keys@.contains(fourcc));
            if let Some(mods) = self.formats.by_fourcc.get(&fourcc) {
                assert(mods@ == self@.formats[fourcc]);
                let ghost start = text::lines(out@);
                let mut s = prefix.to_owned();
                s.append(": fourcc=");
                s.append(fourcc_str(fourcc).as_str());
                s.append(" (0x");
                push_hex_padded(&mut s, fourcc as u64, 8);
                s.append(") — ");
                push_dec(&mut s, mods.len() as u64);
                if mods.len() == 1 {
                    s.append(" modifier");
                } else {
                    s.append(" modifiers");
                }
                assert(s@ == dump_fourcc(prefix@, fourcc, mods@.len()));
                push_line(&mut out, s);
                let ghost head = start.push(dump_fourcc(prefix@, fourcc, mods@.len()));
                let mut i: usize = 0;
                assert(text::lines(out@) =~= head + dump_modifiers(prefix@, mods@, 0));
                while i < mods.len()
                    invariant
                        i <= mods@.len(),
                        text::lines(out@) == head + dump_modifiers(prefix@, mods@, i as int),
                    decreases mods.len() - i,
                {
                    let m: ModCap = mods[i];
                    let mut t = prefix.to_owned();
                    t.append(":   modifier=0x");
                    push_hex_padded(&mut t, m.modifier, 16);
                    t.append(" usage=0x");
                    push_hex(&mut t, m.usage as u64);
                    t.append(" planes=");
                    push_dec(&mut t, m.plane_count as u64);
                    push_line(&mut out, t);
                    i = i + 1;
                    assert(text::lines(out@) =~= head + dump_modifiers(prefix@, mods@, i as int));
                }
                assert(text::lines(out@) =~= seq![dump_header(prefix@, self@)] + dump_formats(
                    prefix@,
                    keys@,
                    self@.formats,
                    n + 1,
                ));
            }
            n = n + 1;
        }
        out
    }
}

/// Both peers list the format with the modifier and as many planes, and neither
/// rejected it.
pub open spec fn shared(p: PeerCapsView, c: PeerCapsView, fourcc: u32, modifier: u64, planes: u32) -> bool {
    &&& p.formats.contains_key(fourcc)
    &&& c.formats.contains_key(fourcc)
    &&& exists|i: int|
        0 <= i < p.formats[fourcc].len() && (#[trigger] p.formats[fourcc][i]).modifier == modifier
            && p.formats[fourcc][i].plane_count == planes
    &&& exists|j: int|
        0 <= j < c.formats[fourcc].len() && (#[trigger] c.formats[fourcc][j]).modifier == modifier
            && c.formats[fourcc][j].plane_count == planes
    &&& !p.blacklist.contains((fourcc, modifier))
    &&& !c.blacklist.contains((fourcc, modifier))
}

/// The peers are on one GPU: their device ids are known and equal, or where one
/// is not known the DRM nodes are.
pub open spec fn on_one_gpu(p: PeerCapsView, c: PeerCapsView) -> bool {
    let known = (exists|i: int| 0 <= i < p.device_uuid.len() && #[trigger] p.device_uuid[i] != 0)
        && (exists|i: int| 0 <= i < c.device_uuid.len() && #[trigger] c.device_uuid[i] != 0);
    if known {
        p.device_uuid == c.device_uuid
    } else {
        p.drm == c.drm && !(p.drm.major == 0 && p.drm.minor == 0)
    }
}

proof fn lemma_shared(
    p: PeerCapsView,
    c: PeerCapsView,
    f: u32,
    m: u64,
    planes: u32,
    linear: bool,
)
    requires
        shared(p, c, f, m, planes),
        linear == (m == DRM_FORMAT_MOD_LINEAR),
    ensures
        exists|i: int|
            #[trigger] format_pair(p, c).wanted(linear, f, i) && p.formats[f][i].modifier == m,
{
    let pair = format_pair(p, c);
    let i = choose|i: int|
        0 <= i < p.formats[f].len() && (#[trigger] p.formats[f][i]).modifier == m
            && p.formats[f][i].plane_count == planes;
    let j = choose|j: int|
        0 <= j < c.formats[f].len() && (#[trigger] c.formats[f][j]).modifier == m
            && c.formats[f][j].plane_count == planes;
    assert(pair.agrees(f, i, j));
    assert(pair.matched(f, i));
    assert(pair.wanted(linear, f, i));
}

proof fn lemma_wanted(p: PeerCapsView, c: PeerCapsView, linear: bool, f: u32, i: int)
    requires
        format_pair(p, c).wanted(linear, f, i),
    ensures
        shared(p, c, f, p.formats[f][i].modifier, p.formats[f][i].plane_count),
        (p.formats[f][i].modifier == DRM_FORMAT_MOD_LINEAR) == linear,
{
    let pair = format_pair(p, c);
    let j = choose|j: int| pair.agrees(f, i, j);
    assert(pair.agrees(f, i, j));
    assert(c.formats[f][j].modifier == p.formats[f][i].modifier);
    assert(p.formats[f][i].modifier == p.formats[f][i].modifier);
}

proof fn lemma_one_gpu(p: PeerCapsView, c: PeerCapsView)
    ensures
        on_one_gpu(p, c) == same_gpu(p.device_uuid, p.drm, c.device_uuid, c.drm),
{
    if !zero_uuid(p.device_uuid) {
        let i = choose|i: int| 0 <= i < p.device_uuid.len() && p.device_uuid[i] != 0;
        assert(p.device_uuid[i] != 0);
    }
    if !zero_uuid(c.device_uuid) {
        let i = choose|i: int| 0 <= i < c.device_uuid.len() && c.device_uuid[i] != 0;
        assert(c.device_uuid[i] != 0);
    }
}

/// Every scheme asks for a pool of three buffers, whichever peers it is picked
/// for.
pub proof fn every_scheme_has_a_pool(
    producer: &PeerCaps,
    consumer: &PeerCaps,
    r: Result<NegotiatedScheme, NegotiateError>,
)
    requires
        call_ensures(pick, (producer, consumer), r),
        r is Ok,
    ensures
        r->Ok_0.count == DEFAULT_POOL_COUNT,
        r->Ok_0.count == 3,
{
}

/// On one GPU the scheme is a format, modifier and number of planes that both
/// peers announced and neither rejected, with the lowest format code there is
/// among the tiled ones, or where there are none among the linear ones. Any
/// such tiled layout is better than every linear one.
pub proof fn scheme_on_one_gpu_is_shared(
    producer: &PeerCaps,
    consumer: &PeerCaps,
    r: Result<NegotiatedScheme, NegotiateError>,
    f: u32,
    m: u64,
    planes: u32,
)
    requires
        call_ensures(pick, (producer, consumer), r),
        on_one_gpu(producer@, consumer@),
    ensures
        r matches Ok(s) ==> shared(producer@, consumer@, s.fourcc, s.modifier, s.plane_count),
        r is Ok && shared(producer@, consumer@, f, m, planes) ==> {
            let s = r->Ok_0;
            &&& m != DRM_FORMAT_MOD_LINEAR ==> s.modifier != DRM_FORMAT_MOD_LINEAR && s.fourcc <= f
            &&& s.modifier == DRM_FORMAT_MOD_LINEAR ==> m == DRM_FORMAT_MOD_LINEAR && s.fourcc <= f
        },
        r is Err && shared(producer@, consumer@, f, m, planes) ==> producer.sync & consumer.sync
            == 0,
        r matches Ok(s) ==> s.path == (if s.modifier == DRM_FORMAT_MOD_LINEAR {
            PathCategory::CompatLinear
        } else {
            PathCategory::OptimizedSameDevice
        }),
        r matches Ok(s) ==> s.mem_source == (if s.modifier == DRM_FORMAT_MOD_LINEAR {
            MemSource::GpuLinear
        } else {
            MemSource::GpuNative
        }),
{
    let p = producer@;
    let c = consumer@;
    let pair = format_pair(p, c);
    lemma_one_gpu(p, c);
    let flat = m == DRM_FORMAT_MOD_LINEAR;
    if shared(p, c, f, m, planes) {
        lemma_shared(p, c, f, m, planes, flat);
    }
    lemma_first_exists(pair, false);
    lemma_first_exists(pair, true);
    if r is Ok {
        let linear = !pair.some_first(false);
        let (g, i) = choose|g: u32, i: int| pair.is_first(linear, g, i);
        assert(pair.is_first(linear, g, i));
        lemma_wanted(p, c, linear, g, i);
        if shared(p, c, f, m, planes) {
            let k = choose|k: int|
                #[trigger] pair.wanted(flat, f, k) && p.formats[f][k].modifier == m;
            assert(pair.wanted(flat, f, k));
        }
    }
}

/// Where some entry is wanted, one of them comes first.
proof fn lemma_first_exists(s: FormatPair, linear: bool)
    ensures
        (exists|f: u32, i: int| #[trigger] s.wanted(linear, f, i)) ==> s.some_first(linear),
{
    if exists|f: u32, i: int| #[trigger] s.wanted(linear, f, i) {
        let (f, i) = choose|f: u32, i: int| #[trigger] s.wanted(linear, f, i);
        lemma_first_below(s, linear, f, i);
    }
}

proof fn lemma_first_below(s: FormatPair, linear: bool, f: u32, i: int)
    requires
        s.wanted(linear, f, i),
    ensures
        s.some_first(linear),
    decreases f, i,
{
    if s.is_first(linear, f, i) {
    } else {
        let (g, k) = choose|g: u32, k: int| #[trigger]
            s.wanted(linear, g, k) && !(f < g || (f == g && i <= k));
        assert(s.wanted(linear, g, k));
        assert(0 <= k);
        lemma_first_below(s, linear, g, k);
    }
}

/// Within its format, the layout that is picked is the first usable one in the
/// order in which the renderer prefers them.
pub proof fn renderer_order_decides(
    producer: &PeerCaps,
    consumer: &PeerCaps,
    r: Result<NegotiatedScheme, NegotiateError>,
    i: int,
)
    requires
        call_ensures(pick, (producer, consumer), r),
        on_one_gpu(producer@, consumer@),
        r is Ok,
        0 <= i < producer@.formats[r->Ok_0.fourcc].len(),
        ({
            let o = producer@.formats[r->Ok_0.fourcc][i];
            &&& shared(producer@, consumer@, r->Ok_0.fourcc, o.modifier, o.plane_count)
            &&& (o.modifier == DRM_FORMAT_MOD_LINEAR) == (r->Ok_0.modifier == DRM_FORMAT_MOD_LINEAR)
        }),
    ensures
        exists|k: int|
            0 <= k <= i && (#[trigger] producer@.formats[r->Ok_0.fourcc][k]).modifier
                == r->Ok_0.modifier && producer@.formats[r->Ok_0.fourcc][k].plane_count
                == r->Ok_0.plane_count,
{
    let p = producer@;
    let c = consumer@;
    let s = r->Ok_0;
    let pair = format_pair(p, c);
    lemma_one_gpu(p, c);
    let linear = !pair.some_first(false);
    let (g, k) = choose|g: u32, k: int| pair.is_first(linear, g, k);
    assert(pair.is_first(linear, g, k));
    lemma_wanted(p, c, linear, g, k);
    let o = p.formats[s.fourcc][i];
    let j = choose|j: int|
        0 <= j < c.formats[s.fourcc].len() && (#[trigger] c.formats[s.fourcc][j]).modifier
            == o.modifier && c.formats[s.fourcc][j].plane_count == o.plane_count;
    assert(pair.agrees(s.fourcc, i, j));
    assert(pair.wanted(linear, s.fourcc, i));
    assert(p.formats[s.fourcc][k].modifier == s.modifier);
}

/// Across GPUs the scheme is linear with one plane, in the lowest format code
/// that both peers list and that neither rejected with the linear layout. It
/// asks for no kind of memory.
pub proof fn scheme_across_gpus_is_linear(
    producer: &PeerCaps,
    consumer: &PeerCaps,
    r: Result<NegotiatedScheme, NegotiateError>,
    f: u32,
)
    requires
        call_ensures(pick, (producer, consumer), r),
        !on_one_gpu(producer@, consumer@),
    ensures
        ({
            let usable = |g: u32|
                {
                    &&& producer@.formats.contains_key(g)
                    &&& consumer@.formats.contains_key(g)
                    &&& !producer@.blacklist.contains((g, DRM_FORMAT_MOD_LINEAR))
                    &&& !consumer@.blacklist.contains((g, DRM_FORMAT_MOD_LINEAR))
                };
            &&& r matches Ok(s) ==> {
                &&& usable(s.fourcc)
                &&& usable(f) ==> s.fourcc <= f
                &&& s.modifier == DRM_FORMAT_MOD_LINEAR
                &&& s.plane_count == 1
                &&& s.mem_hint == 0
                &&& s.path == PathCategory::CompatLinear
                &&& s.mem_source == MemSource::GpuLinear
            }
            &&& r is Err && usable(f) ==> producer.sync & consumer.sync == 0
        }),
{
    let pair = format_pair(producer@, consumer@);
    lemma_one_gpu(producer@, consumer@);
    if pair.linear_ok(f) {
        lemma_lowest_linear(pair, f);
    }
    if r is Ok {
        let g = choose|g: u32| pair.is_lowest_linear(g);
        assert(pair.is_lowest_linear(g));
        assert(pair.linear_ok(g));
    }
}

proof fn lemma_lowest_linear(s: FormatPair, f: u32)
    requires
        s.linear_ok(f),
    ensures
        exists|g: u32| s.is_lowest_linear(g),
    decreases f,
{
    if !s.is_lowest_linear(f) {
        let g = choose|g: u32| #[trigger] s.linear_ok(g) && g < f;
        lemma_lowest_linear(s, g);
    }
}

/// The fault says what is missing: no way to synchronise where the peers share
/// none, and no format otherwise.
pub proof fn fault_says_what_is_missing(
    producer: &PeerCaps,
    consumer: &PeerCaps,
    r: Result<NegotiatedScheme, NegotiateError>,
)
    requires
        call_ensures(pick, (producer, consumer), r),
    ensures
        producer.sync & consumer.sync == 0 ==> r == Err::<NegotiatedScheme, NegotiateError>(
            NegotiateError::NoSyncIntersection,
        ),
        producer.sync & consumer.sync != 0 && r is Err ==> r == Err::<
            NegotiatedScheme,
            NegotiateError,
        >(NegotiateError::NoFormatIntersection),
{
}

/// The fences of a scheme are the strongest that both peers have: a timeline
/// before single ones, and these before none.
pub proof fn scheme_has_the_strongest_fences(
    producer: &PeerCaps,
    consumer: &PeerCaps,
    r: Result<NegotiatedScheme, NegotiateError>,
)
    requires
        call_ensures(pick, (producer, consumer), r),
        r is Ok,
    ensures
        ({
            let both = producer.sync & consumer.sync;
            &&& both & 4 != 0 ==> r->Ok_0.sync_mode == 4
            &&& both & 4 == 0 && both & 2 != 0 ==> r->Ok_0.sync_mode == 2
            &&& both & 4 == 0 && both & 2 == 0 ==> r->Ok_0.sync_mode == 1
        }),
{
}

/// On one GPU memory that both peers have is asked for: of the GPU where they
/// can, else such that the processor can reach.
pub proof fn scheme_asks_for_shared_memory(
    producer: &PeerCaps,
    consumer: &PeerCaps,
    r: Result<NegotiatedScheme, NegotiateError>,
)
    requires
        call_ensures(pick, (producer, consumer), r),
        on_one_gpu(producer@, consumer@),
        r is Ok,
    ensures
        ({
            let both = producer.mem_hint & consumer.mem_hint;
            &&& both & 1 != 0 ==> r->Ok_0.mem_hint == 1
            &&& both & 1 == 0 && both & 2 != 0 ==> r->Ok_0.mem_hint == 2
            &&& both & 1 == 0 && both & 2 == 0 && both != 0 ==> r->Ok_0.mem_hint == both
            &&& both == 0 ==> r->Ok_0.mem_hint == 2
        }),
{
    lemma_one_gpu(producer@, consumer@);
    let both = producer.mem_hint & consumer.mem_hint;
    assert(both == 0 ==> both & 1 == 0 && both & 2 == 0) by (bit_vector);
}

/// On each colour axis the scheme has one bit: the lowest that both peers have,
/// or where they share none sRGB, limited range and premultiplied.
pub proof fn scheme_has_one_colour_on_each_axis(
    producer: &PeerCaps,
    consumer: &PeerCaps,
    r: Result<NegotiatedScheme, NegotiateError>,
)
    requires
        call_ensures(pick, (producer, consumer), r),
        r is Ok,
    ensures
        ({
            let both = producer.color & consumer.color;
            let color = r->Ok_0.color;
            &&& both & 31 == 0 ==> color & 31 == 1
            &&& both & 96 == 0 ==> color & 96 == 64
            &&& both & 384 == 0 ==> color & 384 == 128
            &&& both & 31 != 0 ==> color & 31 == lowest_bit(both & 31)
            &&& both & 96 != 0 ==> color & 96 == lowest_bit(both & 96)
            &&& both & 384 != 0 ==> color & 384 == lowest_bit(both & 384)
        }),
{
    color_axes_are_independent(producer.color, consumer.color);
}

/// What a peer announces besides its formats is kept as it is, and nothing
/// counts as rejected yet.
pub proof fn announced_caps_are_kept(
    fourccs: &[u32],
    mod_counts: &[u32],
    modifiers: &[u64],
    usages: &[u32],
    plane_counts: &[u32],
    device_uuid: &[u32],
    driver_uuid: &[u32],
    drm: DrmNode,
    sync: u32,
    color: u32,
    mem_hint: u32,
    extent_max: (u32, u32),
    r: Result<PeerCaps, NegotiateError>,
)
    requires
        call_ensures(
            unflatten_caps,
            (
                fourccs,
                mod_counts,
                modifiers,
                usages,
                plane_counts,
                device_uuid,
                driver_uuid,
                drm,
                sync,
                color,
                mem_hint,
                extent_max,
            ),
            r,
        ),
        r is Ok,
    ensures
        ({
            let caps = r->Ok_0;
            &&& caps.identity.drm == drm
            &&& caps.sync == sync
            &&& caps.color == color
            &&& caps.mem_hint == mem_hint
            &&& caps.extent_max == extent_max
            &&& caps.blacklist@ == Set::<(u32, u64)>::empty()
            &&& forall|f: u32| #[trigger] caps.formats@.contains_key(f) <==> fourccs@.contains(f)
            &&& fourccs@.len() == mod_counts@.len()
            &&& modifiers@.len() == usages@.len() == plane_counts@.len()
            &&& device_uuid@.len() == 4 && driver_uuid@.len() == 4
        }),
{
    assert(fourccs@.take(fourccs@.len() as int) =~= fourccs@);
    let caps = r->Ok_0;
    assert(caps@.sync == sync && caps@.color == color && caps@.mem_hint == mem_hint);
    assert(caps@.drm == drm && caps@.extent_max == extent_max);
    assert(caps@.blacklist == Set::<(u32, u64)>::empty());
    assert(caps@.formats == caps.formats@);
}

/// A format that is named once keeps the modifiers, usages and plane counts that
/// stand in its part of the arrays, in order. Its part begins where those of the
/// formats before it end.
pub proof fn entries_stand_in_their_part(
    fourccs: &[u32],
    mod_counts: &[u32],
    modifiers: &[u64],
    usages: &[u32],
    plane_counts: &[u32],
    device_uuid: &[u32],
    driver_uuid: &[u32],
    drm: DrmNode,
    sync: u32,
    color: u32,
    mem_hint: u32,
    extent_max: (u32, u32),
    r: Result<PeerCaps, NegotiateError>,
    g: int,
    start: Seq<int>,
)
    requires
        call_ensures(
            unflatten_caps,
            (
                fourccs,
                mod_counts,
                modifiers,
                usages,
                plane_counts,
                device_uuid,
                driver_uuid,
                drm,
                sync,
                color,
                mem_hint,
                extent_max,
            ),
            r,
        ),
        r is Ok,
        0 <= g < fourccs@.len(),
        forall|i: int|
            0 <= i < fourccs@.len() && i != g ==> (#[trigger] fourccs@[i]) != fourccs@[g],
        start.len() == fourccs@.len(),
        start[0] == 0,
        forall|i: int|
            0 < i < fourccs@.len() ==> #[trigger] start[i] == start[i - 1] + mod_counts@[i - 1],
    ensures
        ({
            let list = r->Ok_0.formats@[fourccs@[g]];
            &&& r->Ok_0.formats@.contains_key(fourccs@[g])
            &&& list.len() == mod_counts@[g]
            &&& forall|j: int|
                0 <= j < list.len() ==> {
                    &&& (#[trigger] list[j]).modifier == modifiers@[start[g] + j]
                    &&& list[j].usage == usages@[start[g] + j]
                    &&& list[j].plane_count == plane_counts@[start[g] + j]
                }
        }),
{
    let a = CapArrays {
        fourccs: fourccs@,
        counts: mod_counts@,
        modifiers: modifiers@,
        usages: usages@,
        planes: plane_counts@,
    };
    format_listed_once_keeps_its_group(a, g, fourccs@.len() as int);
    lemma_starts(mod_counts@, start, g);
    assert(r->Ok_0@.formats == r->Ok_0.formats@);
}

proof fn lemma_starts(counts: Seq<u32>, start: Seq<int>, g: int)
    requires
        0 <= g < start.len() == counts.len(),
        start[0] == 0,
        forall|i: int| 0 < i < counts.len() ==> #[trigger] start[i] == start[i - 1] + counts[i - 1],
    ensures
        start[g] == group_start(counts, g),
    decreases g,
{
    if g > 0 {
        lemma_starts(counts, start, g - 1);
        assert(start[g] == start[g - 1] + counts[g - 1]);
    }
}

/// The words of a device id are read from their bytes, the lowest first.
pub proof fn uuid_words_read_back(words: &[u32], out: [u8; 16], k: int)
    requires
        words@.len() == 4,
        0 <= k < 4,
        call_ensures(pack_uuid_words, (words,), out),
    ensures
        words@[k] == out@[4 * k] + 256 * out@[4 * k + 1] + 65536 * out@[4 * k + 2] + 16777216
            * out@[4 * k + 3],
{
    let w = words@[k];
    assert(out@[4 * k] == le_byte(words@[(4 * k) / 4], (4 * k) % 4));
    assert(out@[4 * k + 1] == le_byte(words@[(4 * k + 1) / 4], (4 * k + 1) % 4));
    assert(out@[4 * k + 2] == le_byte(words@[(4 * k + 2) / 4], (4 * k + 2) % 4));
    assert(out@[4 * k + 3] == le_byte(words@[(4 * k + 3) / 4], (4 * k + 3) % 4));
    assert(w == w % 256 + 256 * (w / 256 % 256) + 65536 * (w / 65536 % 256) + 16777216 * (w
        / 16777216));
}

} // verus!
