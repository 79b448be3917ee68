//! State the daemon keeps for one renderer process, and how the messages of
//! that process change it.
//!
//! File descriptors are named by tokens: the process that owns the
//! descriptors maps each token to one of them, and closes the ones that an
//! operation hands back.

use crate::drm::DrmNode;
use crate::negotiate::{
    self, unflatten_caps, NegotiatedScheme, PeerCaps, PeerCapsView,
};
use crate::strmap::{self, StrMap};
use crate::text::{self, str_eq};
use vstd::prelude::*;

verus! {

/// Most acquire fences kept for one renderer.
pub const SYNC_FD_RETENTION: usize = 16;

/// Placement flag: the pool lies in host-visible memory.
pub const BUF_HOST_VISIBLE: u32 = 1;

/// A clear colour as the bit patterns of its four components.
#[derive(Debug, Clone, Copy, PartialEq, Eq, Structural)]
pub struct ClearColor {
    pub r: u32,
    pub g: u32,
    pub b: u32,
    pub a: u32,
}

pub open spec fn opaque_black() -> ClearColor {
    ClearColor { r: 0, g: 0, b: 0, a: 0x3f80_0000 }
}

impl Default for ClearColor {
    fn default() -> (r: Self)
        ensures
            r == opaque_black(),
    {
        ClearColor { r: 0, g: 0, b: 0, a: 0x3f80_0000 }
    }
}

/// A buffer pool as a renderer announces it. The per-plane lists are flat:
/// entry `buffer * planes_per_buffer + plane`.
#[derive(Debug)]
pub struct BindBuffers {
    pub generation: u64,
    pub flags: u32,
    pub count: u32,
    pub fourcc: u32,
    pub width: u32,
    pub height: u32,
    pub modifier: u64,
    pub planes_per_buffer: u32,
    pub stride: Vec<u32>,
    pub plane_offset: Vec<u32>,
    pub size: Vec<u64>,
}

/// The latest accepted pool of a renderer with its buffer descriptors.
#[derive(Debug)]
pub struct BindSnapshot {
    pub generation: u64,
    pub flags: u32,
    pub count: u32,
    pub fourcc: u32,
    pub width: u32,
    pub height: u32,
    pub modifier: u64,
    pub planes_per_buffer: u32,
    pub stride: Vec<u32>,
    pub plane_offset: Vec<u32>,
    pub size: Vec<u64>,
    pub fds: Vec<u64>,
}

pub struct BindView {
    pub generation: u64,
    pub flags: u32,
    pub count: u32,
    pub fourcc: u32,
    pub width: u32,
    pub height: u32,
    pub modifier: u64,
    pub planes_per_buffer: u32,
    pub stride: Seq<u32>,
    pub plane_offset: Seq<u32>,
    pub size: Seq<u64>,
    pub fds: Seq<u64>,
}

impl View for BindSnapshot {
    type V = BindView;

    open spec fn view(&self) -> BindView {
        BindView {
            generation: self.generation,
            flags: self.flags,
            count: self.count,
            fourcc: self.fourcc,
            width: self.width,
            height: self.height,
            modifier: self.modifier,
            planes_per_buffer: self.planes_per_buffer,
            stride: self.stride@,
            plane_offset: self.plane_offset@,
            size: self.size@,
            fds: self.fds@,
        }
    }
}

impl BindView {
    /// Every per-plane list has one entry per plane of each buffer.
    pub open spec fn well_formed(self) -> bool {
        let n = self.count as int * self.planes_per_buffer as int;
        &&& self.stride.len() == n
        &&& self.plane_offset.len() == n
        &&& self.size.len() == n
        &&& self.fds.len() == n
        &&& n > 0
    }
}

/// The capability announcement of a renderer.
#[derive(Debug)]
pub struct FormatCapsMsg {
    pub fourccs: Vec<u32>,
    pub mod_counts: Vec<u32>,
    pub modifiers: Vec<u64>,
    pub usages: Vec<u32>,
    pub plane_counts: Vec<u32>,
    pub device_uuid: Vec<u32>,
    pub driver_uuid: Vec<u32>,
    pub drm_render_major: u32,
    pub drm_render_minor: u32,
    pub mem_hints: u32,
    pub sync_caps: u32,
    pub color_caps: u32,
    pub extent_max_w: u32,
    pub extent_max_h: u32,
}

/// One reported state entry. `color` is the colour that the value spells out,
/// if it spells one.
#[derive(Debug)]
pub struct StateEntry {
    pub key: String,
    pub color: Option<ClearColor>,
}

/// A message of a renderer process.
#[derive(Debug)]
pub enum RendererEvent {
    Ready { drm_render_major: u32, drm_render_minor: u32 },
    InitNack { received_spawn_version: u32, supported_spawn_version: u32, reason: String },
    BindBuffers(BindBuffers),
    FrameReady { image_index: u32, seq: u64, release_point: u64 },
    ReleaseSyncobj,
    FormatCaps(FormatCapsMsg),
    BindFailed { fourcc: u32, modifier: u64 },
    ReportState { state: Vec<StateEntry> },
    Other,
}

/// What the daemon keeps of one renderer.
#[derive(Debug)]
pub struct RendererHandle {
    pub id: String,
    pub wp_type: String,
    pub width: u32,
    pub height: u32,
    pub extent_mode: u32,
    pub extras: StrMap<String>,
    pub name: String,
    pub pid: Option<u32>,
    pub gpu: DrmNode,
    pub bind_snapshot: Option<BindSnapshot>,
    pub pending_configure: Option<u32>,
    /// Acquire fences by frame number, oldest first.
    pub sync_fds: Vec<(u64, u64)>,
    pub release_syncobj: Option<u64>,
    pub format_caps: Option<PeerCaps>,
    pub last_dispatched_scheme: Option<NegotiatedScheme>,
    pub events_subscribed: Vec<String>,
    pub clear_rgba: ClearColor,
}

#[verifier::ext_equal]
pub struct RendererView {
    pub id: Seq<char>,
    pub wp_type: Seq<char>,
    pub width: u32,
    pub height: u32,
    pub extent_mode: u32,
    pub extras: Map<Seq<char>, Seq<char>>,
    pub name: Seq<char>,
    pub pid: Option<u32>,
    pub gpu: DrmNode,
    pub bind: Option<BindView>,
    pub pending_configure: Option<u32>,
    pub sync_fds: Seq<(u64, u64)>,
    pub release_syncobj: Option<u64>,
    pub caps: Option<PeerCapsView>,
    pub scheme: Option<NegotiatedScheme>,
    pub events: Seq<Seq<char>>,
    pub clear: ClearColor,
}

impl View for RendererHandle {
    type V = RendererView;

    open spec fn view(&self) -> RendererView {
        RendererView {
            id: self.id@,
            wp_type: self.wp_type@,
            width: self.width,
            height: self.height,
            extent_mode: self.extent_mode,
            extras: strmap::kv_text(self.extras@),
            name: self.name@,
            pid: self.pid,
            gpu: self.gpu,
            bind: match self.bind_snapshot {
                Some(b) => Some(b@),
                None => None,
            },
            pending_configure: self.pending_configure,
            sync_fds: self.sync_fds@,
            release_syncobj: self.release_syncobj,
            caps: match self.format_caps {
                Some(c) => Some(c@),
                None => None,
            },
            scheme: self.last_dispatched_scheme,
            events: text::lines(self.events_subscribed@),
            clear: self.clear_rgba,
        }
    }
}

impl RendererView {
    /// Size of the latest pool, or the size asked for while there is none.
    pub open spec fn texture(self) -> (u32, u32) {
        match self.bind {
            Some(b) => (b.width, b.height),
            None => (self.width, self.height),
        }
    }

    /// The latest pool is the one the last negotiation asked for.
    pub open spec fn satisfied(self) -> bool {
        self.scheme is Some && self.bind is Some && self.bind->0.fourcc == self.scheme->0.fourcc
            && self.bind->0.modifier == self.scheme->0.modifier
    }

    /// Position of the fence kept for frame `seq`.
    pub open spec fn fence_at(self, seq: u64, i: int) -> bool {
        &&& 0 <= i < self.sync_fds.len()
        &&& self.sync_fds[i].0 == seq
        &&& forall|j: int| 0 <= j < i ==> (#[trigger] self.sync_fds[j]).0 != seq
    }

    /// Every descriptor token the renderer holds.
    pub open spec fn held(self) -> Seq<u64> {
        (match self.bind {
            Some(b) => b.fds,
            None => Seq::empty(),
        }) + fence_tokens(self.sync_fds) + (match self.release_syncobj {
            Some(t) => seq![t],
            None => Seq::empty(),
        })
    }
}

pub open spec fn fence_tokens(fences: Seq<(u64, u64)>) -> Seq<u64> {
    Seq::new(fences.len(), |i: int| fences[i].1)
}

/// The lists of a pool announcement fit its counts and its descriptors.
pub open spec fn bind_fits(b: BindBuffers, n_fds: int) -> bool {
    let n = b.count as int * b.planes_per_buffer as int;
    &&& b.stride@.len() == n
    &&& b.plane_offset@.len() == n
    &&& b.size@.len() == n
    &&& n_fds == n
}

/// Capabilities that a well-formed announcement describes.
pub open spec fn announced_caps(c: FormatCapsMsg) -> Option<PeerCapsView> {
    let a = negotiate::CapArrays {
        fourccs: c.fourccs@,
        counts: c.mod_counts@,
        modifiers: c.modifiers@,
        usages: c.usages@,
        planes: c.plane_counts@,
    };
    if negotiate::caps_fault(a, c.device_uuid@, c.driver_uuid@) is None {
        Some(
            PeerCapsView {
                formats: a.table(c.fourccs@.len() as int),
                device_uuid: negotiate::uuid_bytes(c.device_uuid@),
                driver_uuid: negotiate::uuid_bytes(c.driver_uuid@),
                drm: DrmNode { major: c.drm_render_major, minor: c.drm_render_minor },
                sync: c.sync_caps,
                color: c.color_caps,
                mem_hint: c.mem_hints,
                extent_max: (c.extent_max_w, c.extent_max_h),
                blacklist: Set::empty(),
            },
        )
    } else {
        None
    }
}

/// The clear colour after the first `n` state entries.
pub open spec fn color_after(before: ClearColor, state: Seq<StateEntry>, n: int) -> ClearColor
    decreases n,
{
    if n <= 0 {
        before
    } else if state[n - 1].key@ == "clear_color"@ && state[n - 1].color is Some {
        state[n - 1].color->0
    } else {
        color_after(before, state, n - 1)
    }
}

/// How many of `len` kept fences leave to make room for one more.
pub open spec fn evicted(len: int) -> int {
    if len >= SYNC_FD_RETENTION {
        len - SYNC_FD_RETENTION + 1
    } else {
        0
    }
}

/// Messages that carry their own descriptor bring at least one.
pub open spec fn fds_as_announced(ev: RendererEvent, n_fds: int) -> bool {
    ev is FrameReady || ev is ReleaseSyncobj ==> n_fds >= 1
}

/// The renderer state after a message, and the descriptors it lets go of.
pub open spec fn after_event(v: RendererView, ev: RendererEvent, fds: Seq<u64>) -> (
    RendererView,
    Seq<u64>,
) {
    match ev {
        RendererEvent::BindBuffers(b) => if bind_fits(b, fds.len() as int) && fds.len() > 0 {
            (
                RendererView {
                    bind: Some(
                        BindView {
                            generation: b.generation,
                            flags: b.flags,
                            count: b.count,
                            fourcc: b.fourcc,
                            width: b.width,
                            height: b.height,
                            modifier: b.modifier,
                            planes_per_buffer: b.planes_per_buffer,
                            stride: b.stride@,
                            plane_offset: b.plane_offset@,
                            size: b.size@,
                            fds,
                        },
                    ),
                    sync_fds: Seq::empty(),
                    pending_configure: None,
                    ..v
                },
                (match v.bind {
                    Some(old) => old.fds,
                    None => Seq::empty(),
                }) + fence_tokens(v.sync_fds),
            )
        } else {
            (v, fds)
        },
        RendererEvent::FrameReady { seq, .. } => {
            let gone = evicted(v.sync_fds.len() as int);
            (
                RendererView { sync_fds: v.sync_fds.skip(gone).push((seq, fds[0])), ..v },
                fence_tokens(v.sync_fds.take(gone)) + fds.skip(1),
            )
        },
        RendererEvent::ReleaseSyncobj => (
            RendererView { release_syncobj: Some(fds[0]), ..v },
            (match v.release_syncobj {
                Some(old) => seq![old],
                None => Seq::empty(),
            }) + fds.skip(1),
        ),
        RendererEvent::FormatCaps(c) => (
            match announced_caps(c) {
                Some(caps) => RendererView { caps: Some(caps), ..v },
                None => v,
            },
            fds,
        ),
        RendererEvent::ReportState { state } => (
            RendererView { clear: color_after(v.clear, state@, state@.len() as int), ..v },
            fds,
        ),
        _ => (v, fds),
    }
}

fn push_all(out: &mut Vec<u64>, more: &Vec<u64>, from: usize)
    requires
        from <= more@.len(),
    ensures
        final(out)@ == old(out)@ + more@.skip(from as int),
{
    let ghost before = out@;
    let mut i: usize = from;
    while i < more.len()
        invariant
            from <= i <= more@.len(),
            out@ == before + more@.skip(from as int).take(i - from),
        decreases more.len() - i,
    {
        out.push(more[i]);
        i = i + 1;
        assert(out@ =~= before + more@.skip(from as int).take(i - from));
    }
    assert(more@.skip(from as int).take(more@.len() - from) =~= more@.skip(from as int));
}

impl RendererHandle {
    /// Texture size of the renderer.
    pub fn texture_size(&self) -> (r: (u32, u32))
        ensures
            r == self@.texture(),
    {
        match &self.bind_snapshot {
            Some(b) => (b.width, b.height),
            None => (self.width, self.height),
        }
    }

    /// Placement flags of the latest pool, zero while there is none.
    pub fn current_flags(&self) -> (r: u32)
        ensures
            r == (match self@.bind {
                Some(b) => b.flags,
                None => 0u32,
            }),
    {
        match &self.bind_snapshot {
            Some(b) => b.flags,
            None => 0,
        }
    }

    /// The reconfiguration that the renderer has not answered yet.
    pub fn pending_configure(&self) -> (r: Option<u32>)
        ensures
            r == self@.pending_configure,
    {
        self.pending_configure
    }

    /// Generation of the latest pool.
    pub fn bind_generation(&self) -> (r: Option<u64>)
        ensures
            r == (match self@.bind {
                Some(b) => Some(b.generation),
                None => None::<u64>,
            }),
    {
        match &self.bind_snapshot {
            Some(b) => Some(b.generation),
            None => None,
        }
    }

    /// The scheme the renderer was last told to use.
    pub fn current_scheme(&self) -> (r: Option<NegotiatedScheme>)
        ensures
            r == self@.scheme,
    {
        self.last_dispatched_scheme
    }

    /// Whether the latest pool has the layout that was negotiated last.
    pub fn scheme_satisfied(&self) -> (r: bool)
        ensures
            r == self@.satisfied(),
    {
        match (&self.last_dispatched_scheme, &self.bind_snapshot) {
            (Some(s), Some(b)) => b.fourcc == s.fourcc && b.modifier == s.modifier,
            _ => false,
        }
    }

    /// The clear colour the renderer asked for last.
    pub fn clear_rgba(&self) -> (r: ClearColor)
        ensures
            r == self@.clear,
    {
        self.clear_rgba
    }

    /// Adds a rejected pair to the renderer's blacklist; `true` when the pair
    /// is new. A renderer without capabilities keeps no blacklist.
    pub fn blacklist_format(&mut self, fourcc: u32, modifier: u64) -> (r: bool)
        ensures
            r == (old(self)@.caps is Some && !old(self)@.caps->0.blacklist.contains(
                (fourcc, modifier),
            )),
            final(self)@ == (RendererView {
                caps: match old(self)@.caps {
                    Some(c) => Some(
                        PeerCapsView { blacklist: c.blacklist.insert((fourcc, modifier)), ..c },
                    ),
                    None => None,
                },
                ..old(self)@
            }),
    {
        match &mut self.format_caps {
            Some(caps) => caps.blacklist.insert((fourcc, modifier)),
            None => false,
        }
    }

    /// Token of the acquire fence that came with frame `seq`, while it is kept.
    pub fn clone_sync_fd(&self, seq: u64) -> (r: Option<u64>)
        ensures
            match r {
                Some(t) => exists|i: int| self@.fence_at(seq, i) && t == #[trigger] self@.sync_fds[i].1,
                None => forall|i: int|
                    0 <= i < self@.sync_fds.len() ==> (#[trigger] self@.sync_fds[i]).0 != seq,
            },
    {
        let mut i: usize = 0;
        while i < self.sync_fds.len()
            invariant
                i <= self.sync_fds@.len(),
                forall|j: int| 0 <= j < i ==> (#[trigger] self.sync_fds@[j]).0 != seq,
            decreases self.sync_fds.len() - i,
        {
            if self.sync_fds[i].0 == seq {
                assert(self@.fence_at(seq, i as int));
                assert(self@.sync_fds[i as int].1 == self.sync_fds@[i as int].1);
                return Some(self.sync_fds[i].1);
            }
            i = i + 1;
        }
        None
    }

    /// Keeps one more fence, letting the oldest go when there are too many.
    fn keep_fence(&mut self, seq: u64, fd: u64, released: &mut Vec<u64>)
        ensures
            final(self)@ == (RendererView {
                sync_fds: old(self)@.sync_fds.skip(
                    evicted(old(self)@.sync_fds.len() as int),
                ).push((seq, fd)),
                ..old(self)@
            }),
            final(released)@ == old(released)@ + fence_tokens(
                old(self)@.sync_fds.take(evicted(old(self)@.sync_fds.len() as int)),
            ),
    {
        let ghost first = self.sync_fds@;
        let ghost given = released@;
        let ghost gone = evicted(first.len() as int);
        let ghost mut k: int = 0;
        let ghost other = self@;
        assert(first.skip(0) =~= first);
        assert(given + fence_tokens(first.take(0)) =~= given);
        while self.sync_fds.len() >= SYNC_FD_RETENTION
            invariant
                0 <= k <= gone,
                gone == evicted(first.len() as int),
                self.sync_fds@ == first.skip(k),
                released@ == given + fence_tokens(first.take(k)),
                self@ == (RendererView { sync_fds: first.skip(k), ..other }),
                other.sync_fds == first,
            decreases self.sync_fds.len(),
        {
            let oldest: (u64, u64) = self.sync_fds.remove(0);
            released.push(oldest.1);
            proof {
                k = k + 1;
                assert(self.sync_fds@ =~= first.skip(k));
                assert(released@ =~= given + fence_tokens(first.take(k)));
            }
        }
        assert(k == gone);
        self.sync_fds.push((seq, fd));
    }

    /// Takes one message of the renderer with the descriptors that came with
    /// it, and hands back the descriptors that are no longer kept.
    pub fn apply_event(&mut self, ev: RendererEvent, fds: Vec<u64>) -> (released: Vec<u64>)
        requires
            fds_as_announced(ev, fds@.len() as int),
        ensures
            final(self)@ == after_event(old(self)@, ev, fds@).0,
            released@ == after_event(old(self)@, ev, fds@).1,
    {
        let ghost ev0 = ev;
        match ev {
            RendererEvent::BindBuffers(b) => {
                let expected: u64 = mul_u32(b.count, b.planes_per_buffer);
                if b.stride.len() as u64 != expected || b.plane_offset.len() as u64 != expected
                    || b.size.len() as u64 != expected || fds.len() as u64 != expected
                    || fds.len() == 0 {
                    return fds;
                }
                let mut released: Vec<u64> = Vec::new();
                if let Some(old_bind) = &self.bind_snapshot {
                    push_all(&mut released, &old_bind.fds, 0);
                    assert(old_bind.fds@.skip(0) =~= old_bind.fds@);
                }
                let ghost kept = released@;
                let mut i: usize = 0;
                assert(kept + fence_tokens(self.sync_fds@.take(0)) =~= kept);
                while i < self.sync_fds.len()
                    invariant
                        i <= self.sync_fds@.len(),
                        released@ == kept + fence_tokens(self.sync_fds@.take(i as int)),
                    decreases self.sync_fds.len() - i,
                {
                    released.push(self.sync_fds[i].1);
                    i = i + 1;
                    assert(released@ =~= kept + fence_tokens(self.sync_fds@.take(i as int)));
                }
                assert(self.sync_fds@.take(i as int) =~= self.sync_fds@);
                assert(released@ =~= after_event(old(self)@, ev0, fds@).1);
                self.bind_snapshot = Some(
                    BindSnapshot {
                        generation: b.generation,
                        flags: b.flags,
                        count: b.count,
                        fourcc: b.fourcc,
                        width: b.width,
                        height: b.height,
                        modifier: b.modifier,
                        planes_per_buffer: b.planes_per_buffer,
                        stride: b.stride,
                        plane_offset: b.plane_offset,
                        size: b.size,
                        fds,
                    },
                );
                self.sync_fds = Vec::new();
                self.pending_configure = None;
                released
            },
            RendererEvent::FrameReady { seq, .. } => {
                let mut released: Vec<u64> = Vec::new();
                let fd: u64 = fds[0];
                self.keep_fence(seq, fd, &mut released);
                push_all(&mut released, &fds, 1);
                assert(released@ =~= after_event(old(self)@, ev0, fds@).1);
                released
            },
            RendererEvent::ReleaseSyncobj => {
                let mut released: Vec<u64> = Vec::new();
                if let Some(previous) = self.release_syncobj {
                    released.push(previous);
                }
                self.release_syncobj = Some(fds[0]);
                push_all(&mut released, &fds, 1);
                assert(released@ =~= after_event(old(self)@, ev0, fds@).1);
                released
            },
            RendererEvent::FormatCaps(c) => {
                let decoded = unflatten_caps(
                    c.fourccs.as_slice(),
                    c.mod_counts.as_slice(),
                    c.modifiers.as_slice(),
                    c.usages.as_slice(),
                    c.plane_counts.as_slice(),
                    c.device_uuid.as_slice(),
                    c.driver_uuid.as_slice(),
                    DrmNode { major: c.drm_render_major, minor: c.drm_render_minor },
                    c.sync_caps,
                    c.color_caps,
                    c.mem_hints,
                    (c.extent_max_w, c.extent_max_h),
                );
                if let Ok(caps) = decoded {
                    self.format_caps = Some(caps);
                }
                fds
            },
            RendererEvent::ReportState { state } => {
                let ghost first = self.clear_rgba;
                let mut color: ClearColor = self.clear_rgba;
                let mut i: usize = 0;
                while i < state.len()
                    invariant
                        i <= state@.len(),
                        color == color_after(first, state@, i as int),
                    decreases state.len() - i,
                {
                    if str_eq(state[i].key.as_str(), "clear_color") {
                        if let Some(c) = state[i].color {
                            color = c;
                        }
                    }
                    i = i + 1;
                }
                self.clear_rgba = color;
                fds
            },
            _ => fds,
        }
    }
}

fn mul_u32(a: u32, b: u32) -> (r: u64)
    ensures
        r == a as int * b as int,
{
    assert(a as int * b as int <= 0xffff_ffff * 0xffff_ffff) by (nonlinear_arith)
        requires
            0 <= a <= 0xffff_ffff,
            0 <= b <= 0xffff_ffff,
    ;
    assert(a as int * b as int >= 0) by (nonlinear_arith)
        requires
            0 <= a,
            0 <= b,
    ;
    (a as u64) * (b as u64)
}

// ---------------------------------------------------------------------------
// Laws
// ---------------------------------------------------------------------------

/// No descriptor is lost or duplicated: what a renderer held and what a
/// message brought is afterwards either held or handed back.
pub proof fn descriptors_are_conserved(v: RendererView, ev: RendererEvent, fds: Seq<u64>)
    requires
        fds_as_announced(ev, fds.len() as int),
    ensures
        v.held().to_multiset().add(fds.to_multiset()) == after_event(
            v,
            ev,
            fds,
        ).0.held().to_multiset().add(after_event(v, ev, fds).1.to_multiset()),
{
    broadcast use vstd::seq_lib::group_to_multiset_ensures;

    let (w, out) = after_event(v, ev, fds);
    let bind = match v.bind {
        Some(b) => b.fds,
        None => Seq::empty(),
    };
    let fences = fence_tokens(v.sync_fds);
    let release = match v.release_syncobj {
        Some(t) => seq![t],
        None => Seq::empty(),
    };
    vstd::seq_lib::lemma_multiset_commutative(bind, fences);
    vstd::seq_lib::lemma_multiset_commutative(bind + fences, release);
    match ev {
        RendererEvent::BindBuffers(b) => {
            if bind_fits(b, fds.len() as int) && fds.len() > 0 {
                assert(w.held() =~= fds + release);
                vstd::seq_lib::lemma_multiset_commutative(fds, release);
                assert(v.held().to_multiset().add(fds.to_multiset())
                    =~= w.held().to_multiset().add(out.to_multiset()));
            }
        },
        RendererEvent::FrameReady { seq, .. } => {
            let gone = evicted(v.sync_fds.len() as int);
            let left = fence_tokens(v.sync_fds.take(gone));
            let stay = fence_tokens(v.sync_fds.skip(gone));
            let rest = fds.skip(1);
            assert(fences =~= left + stay);
            assert(fence_tokens(w.sync_fds) =~= stay + seq![fds[0]]);
            assert(fds =~= seq![fds[0]] + rest);
            vstd::seq_lib::lemma_multiset_commutative(left, stay);
            vstd::seq_lib::lemma_multiset_commutative(stay, seq![fds[0]]);
            vstd::seq_lib::lemma_multiset_commutative(seq![fds[0]], rest);
            vstd::seq_lib::lemma_multiset_commutative(left, rest);
            vstd::seq_lib::lemma_multiset_commutative(bind, fence_tokens(w.sync_fds));
            vstd::seq_lib::lemma_multiset_commutative(
                bind + fence_tokens(w.sync_fds),
                release,
            );
            assert(v.held().to_multiset().add(fds.to_multiset())
                =~= w.held().to_multiset().add(out.to_multiset()));
        },
        RendererEvent::ReleaseSyncobj => {
            let rest = fds.skip(1);
            assert(fds =~= seq![fds[0]] + rest);
            vstd::seq_lib::lemma_multiset_commutative(seq![fds[0]], rest);
            vstd::seq_lib::lemma_multiset_commutative(release, rest);
            vstd::seq_lib::lemma_multiset_commutative(bind + fences, seq![fds[0]]);
            assert(v.held().to_multiset().add(fds.to_multiset())
                =~= w.held().to_multiset().add(out.to_multiset()));
        },
        _ => {},
    }
}

/// Every message keeps the recorded pool well formed and the number of kept
/// fences within its bound.
pub proof fn messages_keep_the_state_well_formed(v: RendererView, ev: RendererEvent, fds: Seq<u64>)
    requires
        fds_as_announced(ev, fds.len() as int),
        v.bind is Some ==> v.bind->0.well_formed(),
        v.sync_fds.len() <= SYNC_FD_RETENTION,
    ensures
        after_event(v, ev, fds).0.bind is Some ==> after_event(v, ev, fds).0.bind->0.well_formed(),
        after_event(v, ev, fds).0.sync_fds.len() <= SYNC_FD_RETENTION,
{
}

/// The fence of the frame that was announced last is kept, whatever the
/// number of fences before it.
pub proof fn newest_fence_is_kept(v: RendererView, ev: RendererEvent, fds: Seq<u64>)
    requires
        ev is FrameReady,
        fds.len() >= 1,
    ensures
        after_event(v, ev, fds).0.sync_fds.last() == (ev->FrameReady_seq, fds[0]),
{
}

/// A new pool retires every fence of the previous one and answers a pending
/// reconfiguration; a malformed announcement changes nothing.
pub proof fn pool_change_retires_fences(v: RendererView, b: BindBuffers, fds: Seq<u64>)
    ensures
        ({
            let (w, out) = after_event(v, RendererEvent::BindBuffers(b), fds);
            if bind_fits(b, fds.len() as int) && fds.len() > 0 {
                &&& w.sync_fds.len() == 0
                &&& w.pending_configure is None
                &&& w.texture() == (b.width, b.height)
            } else {
                w == v && out == fds
            }
        }),
{
}

/// A pool is kept as it was announced, with its descriptors, where its lists
/// fit its counts; the descriptors of the pool before it, and all fences, are
/// given back. Any other announcement leaves the renderer as it is and gives
/// its descriptors back.
pub proof fn pool_is_kept_as_announced(
    h: &mut RendererHandle,
    b: BindBuffers,
    fds: Vec<u64>,
    released: Vec<u64>,
)
    requires
        call_ensures(RendererHandle::apply_event, (h, RendererEvent::BindBuffers(b), fds), released),
    ensures
        ({
            let n = b.count * b.planes_per_buffer;
            let fit = n > 0 && b.stride@.len() == n && b.plane_offset@.len() == n && b.size@.len()
                == n && fds@.len() == n;
            &&& fit ==> {
                &&& final(h)@.bind matches Some(p) && {
                    &&& p.generation == b.generation
                    &&& p.flags == b.flags
                    &&& p.count == b.count
                    &&& p.fourcc == b.fourcc
                    &&& (p.width, p.height) == (b.width, b.height)
                    &&& p.modifier == b.modifier
                    &&& p.planes_per_buffer == b.planes_per_buffer
                    &&& p.stride == b.stride@
                    &&& p.plane_offset == b.plane_offset@
                    &&& p.size == b.size@
                    &&& p.fds == fds@
                }
                &&& final(h)@.sync_fds.len() == 0
                &&& final(h)@.pending_configure is None
                &&& released@.len() == old(h)@.sync_fds.len() + (match old(h)@.bind {
                    Some(p) => p.fds.len(),
                    None => 0,
                })
            }
            &&& !fit ==> final(h)@ == old(h)@ && released@ == fds@
            &&& final(h)@ == (RendererView {
                bind: final(h)@.bind,
                sync_fds: final(h)@.sync_fds,
                pending_configure: final(h)@.pending_configure,
                ..old(h)@
            })
        }),
{
    if b.count * b.planes_per_buffer == fds@.len() && fds@.len() > 0 {
        assert(bind_fits(b, fds@.len() as int) <==> b.stride@.len() == fds@.len()
            && b.plane_offset@.len() == fds@.len() && b.size@.len() == fds@.len());
    }
}

/// The fence of a frame is found under the number of the frame, until as many
/// frames came after it as fences are kept. Fences leave in the order in which
/// they came.
pub proof fn fences_stand_in_their_order(
    h: &mut RendererHandle,
    image_index: u32,
    seq: u64,
    release_point: u64,
    fds: Vec<u64>,
    released: Vec<u64>,
)
    requires
        fds@.len() >= 1,
        old(h)@.sync_fds.len() <= 16,
        call_ensures(
            RendererHandle::apply_event,
            (h, RendererEvent::FrameReady { image_index, seq, release_point }, fds),
            released,
        ),
    ensures
        ({
            let a = old(h)@.sync_fds;
            let b = final(h)@.sync_fds;
            &&& a.len() < 16 ==> b.len() == a.len() + 1
            &&& a.len() == 16 ==> b.len() == 16 && released@[0] == a[0].1
            &&& b.last() == (seq, fds@[0])
            &&& forall|i: int| 0 <= i < b.len() - 1 ==> #[trigger] b[i] == a[i + a.len() + 1 - b.len()]
            &&& final(h)@ == (RendererView { sync_fds: b, ..old(h)@ })
        }),
{
}

/// What a renderer announces of itself counts where it can be read; so does the
/// last colour that it reports. Neither changes anything else.
pub proof fn renderer_is_what_it_says(
    h: &mut RendererHandle,
    c: FormatCapsMsg,
    fds: Vec<u64>,
    released: Vec<u64>,
)
    requires
        call_ensures(RendererHandle::apply_event, (h, RendererEvent::FormatCaps(c), fds), released),
    ensures
        released@ == fds@,
        final(h)@ == (RendererView { caps: final(h)@.caps, ..old(h)@ }),
        final(h)@.caps == old(h)@.caps || (final(h)@.caps matches Some(p) && {
            &&& p.drm == (DrmNode { major: c.drm_render_major, minor: c.drm_render_minor })
            &&& p.sync == c.sync_caps
            &&& p.color == c.color_caps
            &&& p.mem_hint == c.mem_hints
            &&& p.extent_max == (c.extent_max_w, c.extent_max_h)
            &&& p.blacklist == Set::<(u32, u64)>::empty()
        }),
        announced_caps(c) is Some ==> final(h)@.caps == announced_caps(c),
{
}

proof fn lemma_color_after(before: ClearColor, state: Seq<StateEntry>, n: int, i: int)
    requires
        0 <= i < n <= state.len(),
        state[i].key@ == "clear_color"@,
        state[i].color is Some,
        forall|j: int|
            i < j < n ==> !((#[trigger] state[j]).key@ == "clear_color"@ && state[j].color is Some),
    ensures
        color_after(before, state, n) == state[i].color->0,
    decreases n,
{
    if i < n - 1 {
        assert(!(state[n - 1].key@ == "clear_color"@ && state[n - 1].color is Some));
        lemma_color_after(before, state, n - 1, i);
    }
}

proof fn lemma_no_color(before: ClearColor, state: Seq<StateEntry>, n: int)
    requires
        0 <= n <= state.len(),
        forall|j: int|
            0 <= j < n ==> !((#[trigger] state[j]).key@ == "clear_color"@ && state[j].color is Some),
    ensures
        color_after(before, state, n) == before,
    decreases n,
{
    if n > 0 {
        assert(!(state[n - 1].key@ == "clear_color"@ && state[n - 1].color is Some));
        lemma_no_color(before, state, n - 1);
    }
}

/// The colour is the one that the report gives last, and stays where it gives
/// none.
pub proof fn last_reported_colour_counts(
    h: &mut RendererHandle,
    state: Vec<StateEntry>,
    fds: Vec<u64>,
    released: Vec<u64>,
    i: int,
)
    requires
        call_ensures(
            RendererHandle::apply_event,
            (h, RendererEvent::ReportState { state }, fds),
            released,
        ),
        -1 <= i < state@.len(),
        i >= 0 ==> state@[i].key@ == "clear_color"@ && state@[i].color is Some,
        forall|j: int|
            i < j < state@.len() ==> !((#[trigger] state@[j]).key@ == "clear_color"@
                && state@[j].color is Some),
    ensures
        i >= 0 ==> final(h)@.clear == state@[i].color->0,
        i < 0 ==> final(h)@.clear == old(h)@.clear,
        released@ == fds@,
        final(h)@ == (RendererView { clear: final(h)@.clear, ..old(h)@ }),
{
    if i >= 0 {
        lemma_color_after(old(h)@.clear, state@, state@.len() as int, i);
    } else {
        lemma_no_color(old(h)@.clear, state@, state@.len() as int);
    }
}

/// The object that a renderer waits on is the one it sent last; the one before
/// it is given back.
pub proof fn last_release_object_counts(
    h: &mut RendererHandle,
    fds: Vec<u64>,
    released: Vec<u64>,
    p: u64,
)
    requires
        fds@.len() >= 1,
        call_ensures(RendererHandle::apply_event, (h, RendererEvent::ReleaseSyncobj, fds), released),
    ensures
        final(h)@.release_syncobj == Some(fds@[0]),
        old(h)@.release_syncobj == Some(p) ==> released@.contains(p),
        final(h)@ == (RendererView { release_syncobj: final(h)@.release_syncobj, ..old(h)@ }),
{
    if old(h)@.release_syncobj == Some(p) {
        assert(released@[0] == p);
    }
}

/// What is read of a renderer is what it has: its pool where there is one, and
/// what it was asked for where there is none.
pub proof fn renderer_is_read_as_it_is(
    h: RendererHandle,
    size: (u32, u32),
    flags: u32,
    generation: Option<u64>,
    scheme: Option<NegotiatedScheme>,
    agreed: bool,
    color: ClearColor,
)
    requires
        call_ensures(RendererHandle::texture_size, (&h,), size),
        call_ensures(RendererHandle::current_flags, (&h,), flags),
        call_ensures(RendererHandle::bind_generation, (&h,), generation),
        call_ensures(RendererHandle::current_scheme, (&h,), scheme),
        call_ensures(RendererHandle::scheme_satisfied, (&h,), agreed),
        call_ensures(RendererHandle::clear_rgba, (&h,), color),
    ensures
        h.bind_snapshot matches Some(b) ==> size == (b.width, b.height) && flags == b.flags
            && generation == Some(b.generation),
        h.bind_snapshot is None ==> size == (h.width, h.height) && flags == 0 && generation is None
            && !agreed,
        scheme == h.last_dispatched_scheme,
        scheme is None ==> !agreed,
        h.bind_snapshot matches Some(b) ==> (scheme matches Some(s) ==> (agreed <==> b.fourcc
            == s.fourcc && b.modifier == s.modifier)),
        color == h.clear_rgba,
{
}

/// A fence is the first that is kept under the number of its frame.
pub proof fn fence_is_found_by_its_frame(h: RendererHandle, seq: u64, r: Option<u64>, i: int)
    requires
        call_ensures(RendererHandle::clone_sync_fd, (&h, seq), r),
        0 <= i < h.sync_fds@.len(),
        h.sync_fds@[i].0 == seq,
        forall|j: int| 0 <= j < i ==> (#[trigger] h.sync_fds@[j]).0 != seq,
    ensures
        r == Some(h.sync_fds@[i].1),
{
    assert(h@.sync_fds[i].0 == seq);
    let k = choose|k: int| h@.fence_at(seq, k) && r->0 == #[trigger] h@.sync_fds[k].1;
    assert(h@.fence_at(seq, k));
    if k < i {
        assert(h.sync_fds@[k].0 != seq);
    }
}

/// A pair that a renderer was found unable to use is kept from then on, beside
/// those before it. It is news once.
pub proof fn rejected_pair_is_news_once(h: &mut RendererHandle, fourcc: u32, modifier: u64, r: bool, p: (u32, u64))
    requires
        call_ensures(RendererHandle::blacklist_format, (h, fourcc, modifier), r),
        old(h)@.caps is Some,
    ensures
        r <==> !old(h)@.caps->0.blacklist.contains((fourcc, modifier)),
        final(h)@.caps is Some,
        final(h)@.caps->0.blacklist.contains(p) <==> p == (fourcc, modifier)
            || old(h)@.caps->0.blacklist.contains(p),
        final(h)@.caps->0.formats == old(h)@.caps->0.formats,
{
}

} // verus!
