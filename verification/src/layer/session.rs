//! A connection of an output to the daemon: introducing the display, and
//! putting the frames it is sent on screen.

use super::output::Binding;
use crate::endpoint::{self, DisplayEvent, DisplayRequest, HelloOutcome, PoolMsg, Protocol};
use crate::layout::Rect;
use crate::renderer::BindSnapshot;
use crate::text::{self, list_contains, push_dec};
use vstd::prelude::*;

verus! {

/// A message of the daemon. Lengths in a composition are bit patterns of
/// floating-point numbers.
#[derive(Debug)]
pub enum ServerEvent {
    Welcome { features: Vec<String> },
    DisplayAccepted { display_id: u64 },
    BindBuffers(PoolMsg),
    SetConfig { source: Rect, dest_w: u32, dest_h: u32, transform: u32 },
    FrameReady { buffer_generation: u64, buffer_index: u32, seq: u64 },
    Unbind { buffer_generation: u64 },
    Error { code: u32, message: String },
    Other,
}

/// Orientation of a buffer on its surface.
#[derive(Debug, Clone, Copy, PartialEq, Eq, Structural)]
pub enum Transform {
    Normal,
    Rotated90,
    Rotated180,
    Rotated270,
    Flipped,
    Flipped90,
    Flipped180,
    Flipped270,
}

impl Transform {
    /// Number of the orientation.
    pub open spec fn code(self) -> u32 {
        match self {
            Transform::Normal => 0,
            Transform::Rotated90 => 1,
            Transform::Rotated180 => 2,
            Transform::Rotated270 => 3,
            Transform::Flipped => 4,
            Transform::Flipped90 => 5,
            Transform::Flipped180 => 6,
            Transform::Flipped270 => 7,
        }
    }
}

/// The orientation of that number; an unknown number leaves the buffer as it
/// is.
pub fn map_transform(t: u32) -> (r: Transform)
    ensures
        t < 8 ==> r.code() == t,
        t >= 8 ==> r == Transform::Normal,
{
    match t {
        1 => Transform::Rotated90,
        2 => Transform::Rotated180,
        3 => Transform::Rotated270,
        4 => Transform::Flipped,
        5 => Transform::Flipped90,
        6 => Transform::Flipped180,
        7 => Transform::Flipped270,
        _ => Transform::Normal,
    }
}

// ---------------------------------------------------------------------------
// Introducing the display
// ---------------------------------------------------------------------------

/// The greeting: the protocol, the display's name, and the client's version.
pub fn hello(
    b: &Binding,
    protocol: &str,
    protocol_version: u32,
    version: &str,
) -> (r: DisplayRequest)
    ensures
        r matches DisplayRequest::Hello { protocol: p, client_name, client_version, client_protocol_version }
            && p@ == protocol@ && client_name == b.display_name && client_version@ == version@
            && client_protocol_version == protocol_version,
{
    DisplayRequest::Hello {
        protocol: protocol.to_owned(),
        client_name: b.display_name.clone(),
        client_version: version.to_owned(),
        client_protocol_version: protocol_version,
    }
}

fn unexpected(expected: &str, opcode: u32) -> (m: String)
    ensures
        m@ == endpoint::out_of_turn(expected@, opcode),
{
    let mut m = "expected ".to_owned();
    m.append(expected);
    m.append(", got opcode ");
    push_dec(&mut m, opcode as u64);
    m
}

/// Takes the answer to the greeting. The daemon has to offer explicit fences.
pub fn on_welcome(ev: &ServerEvent, opcode: u32) -> (r: Result<(), String>)
    ensures
        match *ev {
            ServerEvent::Welcome { features } => if text::lines(features@).contains(
                "explicit_sync_fd"@,
            ) {
                r is Ok
            } else {
                r is Err && r->Err_0@ == "server missing explicit_sync_fd feature"@
            },
            _ => r is Err && r->Err_0@ == endpoint::out_of_turn("welcome"@, opcode),
        },
{
    match ev {
        ServerEvent::Welcome { features } => {
            if list_contains(features, "explicit_sync_fd") {
                Ok(())
            } else {
                Err("server missing explicit_sync_fd feature".to_owned())
            }
        },
        _ => Err(unexpected("welcome", opcode)),
    }
}

/// The registration carries the size in pixels and the compositor's GPU. From
/// then on the daemon is taken to know the size.
pub fn register(b: &mut Binding) -> (r: DisplayRequest)
    requires
        old(b).configured is Some,
    ensures
        *final(b) == (Binding { last_pushed: old(b).configured, ..*old(b) }),
        r matches DisplayRequest::RegisterDisplay {
            name,
            instance_id,
            width,
            height,
            refresh_mhz,
            drm_render_major,
            drm_render_minor,
            properties,
        } && name == old(b).display_name && instance_id@.len() == 0 && Some((width, height))
            == old(b).configured && refresh_mhz == 60_000 && drm_render_major == old(b).node.major
            && drm_render_minor == old(b).node.minor && properties@.len() == 0,
{
    let (width, height): (u32, u32) = match b.configured {
        Some(s) => s,
        None => (0, 0),
    };
    b.last_pushed = Some((width, height));
    let r = DisplayRequest::RegisterDisplay {
        name: b.display_name.clone(),
        instance_id: String::new(),
        width,
        height,
        refresh_mhz: 60_000,
        drm_render_major: b.node.major,
        drm_render_minor: b.node.minor,
        properties: Vec::new(),
    };
    r
}

/// Takes the answer to the registration: the number of the display.
pub fn on_accepted(ev: &ServerEvent, opcode: u32) -> (r: Result<u64, String>)
    ensures
        match *ev {
            ServerEvent::DisplayAccepted { display_id } => r == Ok::<u64, String>(display_id),
            _ => r is Err && r->Err_0@ == endpoint::out_of_turn("display_accepted"@, opcode),
        },
{
    match ev {
        ServerEvent::DisplayAccepted { display_id } => Ok(*display_id),
        _ => Err(unexpected("display_accepted", opcode)),
    }
}

/// The daemon knows the display. The surface may have got another size since
/// the registration was sent: then that size is to be sent now.
pub fn introduced(b: &mut Binding, sent: (u32, u32)) -> (r: Option<(u32, u32)>)
    ensures
        *final(b) == (Binding { registered: true, ..*old(b) }),
        r == match old(b).configured {
            Some(s) => if s != sent {
                Some(s)
            } else {
                None
            },
            None => None,
        },
{
    b.registered = true;
    match b.configured {
        Some(s) => if s.0 != sent.0 || s.1 != sent.1 {
            Some(s)
        } else {
            None
        },
        None => None,
    }
}

// ---------------------------------------------------------------------------
// Frames
// ---------------------------------------------------------------------------

/// What the client keeps while the daemon sends frames.
#[derive(Debug)]
pub struct Session {
    /// Generation of the pool at hand.
    pub generation: Option<u64>,
    /// Buffers of the pool.
    pub pool: u32,
    pub buf_width: u32,
    pub buf_height: u32,
    /// Part of the buffer to show, and the size to show it at, once told.
    pub source: Option<Rect>,
    pub dest: Option<(u32, u32)>,
    pub transform: u32,
    /// The surface does not know the orientation yet.
    pub transform_dirty: bool,
}

/// One plane of one buffer to be handed to the compositor.
#[derive(Debug, Clone, Copy, PartialEq, Eq, Structural)]
pub struct PlaneImport {
    pub buffer: u32,
    pub plane: u32,
    pub fd: u64,
    pub offset: u32,
    pub stride: u32,
    pub modifier_hi: u32,
    pub modifier_lo: u32,
}

/// A frame to be put on screen.
#[derive(Debug)]
pub struct Commit {
    pub buffer_index: u32,
    /// Part of the buffer to show; all of it where none is given.
    pub source: Option<Rect>,
    /// Size to show it at; that of the surface where none is given.
    pub dest: Option<(u32, u32)>,
    pub surface_size: (u32, u32),
    /// Scale of the buffer, where no viewport maps it.
    pub buffer_scale: Option<i32>,
    /// Orientation, where it is new.
    pub transform: Option<Transform>,
    pub buf_width: u32,
    pub buf_height: u32,
}

/// What is to be done.
#[derive(Debug)]
pub enum Action {
    Nothing,
    /// Hand a pool to the compositor.
    Import { pool: PoolMsg, planes: Vec<PlaneImport> },
    /// A frame came: signal a descriptor at once, and put it on screen.
    Frame { signal: Option<u64>, commit: Option<Commit> },
    DropPool,
}

/// Planes of a pool, and so descriptors that come with it.
pub open spec fn plane_count(m: PoolMsg) -> int {
    m.count as int * m.planes_per_buffer as int
}

/// How plane `i` of a pool is handed over.
pub open spec fn plane_import(m: PoolMsg, fds: Seq<u64>, i: int) -> PlaneImport {
    PlaneImport {
        buffer: (i / m.planes_per_buffer as int) as u32,
        plane: (i % m.planes_per_buffer as int) as u32,
        fd: fds[i],
        offset: m.plane_offset@[i],
        stride: m.stride@[i],
        modifier_hi: (m.modifier / 0x1_0000_0000) as u32,
        modifier_lo: (m.modifier % 0x1_0000_0000) as u32,
    }
}

/// What is wrong with a pool, if anything.
pub open spec fn pool_fault(m: PoolMsg, n_fds: nat) -> Option<Seq<char>> {
    let n = plane_count(m);
    if n_fds != n {
        Some(
            "bind_buffers expected "@ + text::dec_text(n as nat) + " fds, got "@ + text::dec_text(
                n_fds,
            ),
        )
    } else if m.stride@.len() != n || m.plane_offset@.len() != n {
        Some(
            "bind_buffers stride/offset arrays size mismatch (expected "@ + text::dec_text(n as nat)
                + ", stride="@ + text::dec_text(m.stride@.len()) + ", offset="@ + text::dec_text(
                m.plane_offset@.len(),
            ) + ")"@,
        )
    } else {
        None
    }
}

fn pool_error(m: &PoolMsg, n_fds: usize) -> (r: Option<String>)
    requires
        plane_count(*m) <= u32::MAX,
    ensures
        text::opt_text(r) == pool_fault(*m, n_fds as nat),
{
    assert(0 <= m.count as int * m.planes_per_buffer as int) by (nonlinear_arith);
    let n: u32 = m.count * m.planes_per_buffer;
    if n_fds as u64 != n as u64 {
        let mut e = "bind_buffers expected ".to_owned();
        push_dec(&mut e, n as u64);
        e.append(" fds, got ");
        push_dec(&mut e, n_fds as u64);
        return Some(e);
    }
    if m.stride.len() as u64 != n as u64 || m.plane_offset.len() as u64 != n as u64 {
        let mut e = "bind_buffers stride/offset arrays size mismatch (expected ".to_owned();
        push_dec(&mut e, n as u64);
        e.append(", stride=");
        push_dec(&mut e, m.stride.len() as u64);
        e.append(", offset=");
        push_dec(&mut e, m.plane_offset.len() as u64);
        e.append(")");
        return Some(e);
    }
    None
}

fn plan_import(m: &PoolMsg, fds: &Vec<u64>) -> (out: Vec<PlaneImport>)
    requires
        plane_count(*m) <= u32::MAX,
        pool_fault(*m, fds@.len()) is None,
    ensures
        out@ == Seq::new(plane_count(*m) as nat, |i: int| plane_import(*m, fds@, i)),
{
    assert(0 <= m.count as int * m.planes_per_buffer as int) by (nonlinear_arith);
    let n: usize = fds.len();
    let ghost want = Seq::new(plane_count(*m) as nat, |i: int| plane_import(*m, fds@, i));
    let mut out: Vec<PlaneImport> = Vec::new();
    let mut i: usize = 0;
    while i < n
        invariant
            i <= n,
            n == fds@.len(),
            n == plane_count(*m),
            plane_count(*m) <= u32::MAX,
            m.stride@.len() == n,
            m.plane_offset@.len() == n,
            want == Seq::new(plane_count(*m) as nat, |i: int| plane_import(*m, fds@, i)),
            out@ == want.take(i as int),
        decreases n - i,
    {
        let p: u32 = m.planes_per_buffer;
        proof {
            if p == 0 {
                assert(m.count as int * 0 == 0) by (nonlinear_arith);
            }
        }
        let k: u32 = i as u32;
        out.push(
            PlaneImport {
                buffer: k / p,
                plane: k % p,
                fd: fds[i],
                offset: m.plane_offset[i],
                stride: m.stride[i],
                modifier_hi: (m.modifier / 0x1_0000_0000) as u32,
                modifier_lo: (m.modifier % 0x1_0000_0000) as u32,
            },
        );
        i = i + 1;
        assert(out@ =~= want.take(i as int));
    }
    assert(want.take(n as int) =~= want);
    out
}

/// The frame is one of the pool at hand.
pub open spec fn current(s: Session, generation: u64, index: u32) -> bool {
    s.generation == Some(generation) && index < s.pool
}

/// How a frame is put on screen.
pub open spec fn is_commit(c: Commit, s: Session, b: Binding, index: u32) -> bool {
    &&& c.buffer_index == index
    &&& c.source == s.source
    &&& c.dest == s.dest
    &&& c.surface_size == match b.logical {
        Some(l) => l,
        None => (s.buf_width, s.buf_height),
    }
    &&& c.buffer_scale == if !b.viewport && b.scale > 1 {
        Some(b.scale)
    } else {
        None
    }
    &&& if s.transform_dirty {
        c.transform is Some && (s.transform < 8 ==> c.transform->0.code() == s.transform) && (
        s.transform >= 8 ==> c.transform->0 == Transform::Normal)
    } else {
        c.transform is None
    }
    &&& c.buf_width == s.buf_width
    &&& c.buf_height == s.buf_height
}

/// What a frame leads to. With a release descriptor (the second one of two) it
/// waits for the compositor, or is signalled at once where the pool has no such
/// buffer. A frame of the pool at hand is put on screen, unless the compositor
/// has not shown the last one yet.
pub open spec fn framed(
    s0: Session,
    s1: Session,
    b0: Binding,
    b1: Binding,
    generation: u64,
    index: u32,
    fds: Seq<u64>,
    a: Action,
) -> bool {
    let queued = fds.len() == 2 && index < b0.releases@.len();
    let shown = current(s0, generation, index) && !b0.frame_pending;
    &&& a matches Action::Frame { signal, commit } && signal == (if fds.len() == 2 && !queued {
        Some(fds[1])
    } else {
        None
    }) && (if shown {
        commit is Some && is_commit(commit->0, s0, b0, index)
    } else {
        commit is None
    })
    &&& b1 == (Binding {
        releases: b1.releases,
        frame_pending: b0.frame_pending || shown,
        ..b0
    })
    &&& b1.releases@ == if queued {
        b0.releases@.update(index as int, b0.releases@[index as int].push(fds[1]))
    } else {
        b0.releases@
    }
    &&& s1 == if shown {
        Session { transform_dirty: false, ..s0 }
    } else {
        s0
    }
}

/// What a message of the daemon leads to.
pub open spec fn taken(
    s0: Session,
    s1: Session,
    b0: Binding,
    b1: Binding,
    ev: ServerEvent,
    fds: Seq<u64>,
    r: Result<Action, String>,
) -> bool {
    match ev {
        ServerEvent::BindBuffers(m) => match pool_fault(m, fds.len()) {
            Some(e) => r is Err && r->Err_0@ == e && s1 == s0 && b1 == b0,
            None => {
                &&& r matches Ok(Action::Import { pool, planes }) && pool == m && planes@
                    == Seq::new(plane_count(m) as nat, |i: int| plane_import(m, fds, i))
                &&& s1 == (Session {
                    generation: Some(m.buffer_generation),
                    pool: m.count,
                    buf_width: m.width,
                    buf_height: m.height,
                    ..s0
                })
                &&& b1 == (Binding { releases: b1.releases, ..b0 })
                &&& b1.releases@ == Seq::new(m.count as nat, |i: int| Seq::<u64>::empty())
            },
        },
        ServerEvent::SetConfig { source, dest_w, dest_h, transform } => {
            &&& r == Ok::<Action, String>(Action::Nothing)
            &&& b1 == b0
            &&& s1 == (Session {
                source: Some(source),
                dest: Some((dest_w, dest_h)),
                transform,
                transform_dirty: s0.transform_dirty || transform != s0.transform,
                ..s0
            })
        },
        ServerEvent::FrameReady { buffer_generation, buffer_index, .. } => r is Ok && framed(
            s0,
            s1,
            b0,
            b1,
            buffer_generation,
            buffer_index,
            fds,
            r->Ok_0,
        ),
        ServerEvent::Unbind { buffer_generation } => b1 == b0 && if s0.generation == Some(
            buffer_generation,
        ) {
            r == Ok::<Action, String>(Action::DropPool) && s1 == (Session {
                generation: None,
                pool: 0,
                ..s0
            })
        } else {
            r == Ok::<Action, String>(Action::Nothing) && s1 == s0
        },
        ServerEvent::Error { code, message } => r is Err && r->Err_0@ == "server error "@
            + text::dec_text(code as nat) + ": "@ + message@ && s1 == s0 && b1 == b0,
        _ => r == Ok::<Action, String>(Action::Nothing) && s1 == s0 && b1 == b0,
    }
}

impl Session {
    /// A session that has no pool yet, for a display registered at a size.
    pub fn new(width: u32, height: u32) -> (s: Self)
        ensures
            s == (Session {
                generation: None,
                pool: 0,
                buf_width: width,
                buf_height: height,
                source: None,
                dest: None,
                transform: 0,
                transform_dirty: true,
            }),
    {
        Session {
            generation: None,
            pool: 0,
            buf_width: width,
            buf_height: height,
            source: None,
            dest: None,
            transform: 0,
            transform_dirty: true,
        }
    }

    fn commit(&self, b: &Binding, index: u32) -> (c: Commit)
        ensures
            is_commit(c, *self, *b, index),
    {
        Commit {
            buffer_index: index,
            source: self.source,
            dest: self.dest,
            surface_size: match b.logical {
                Some(l) => l,
                None => (self.buf_width, self.buf_height),
            },
            buffer_scale: if !b.viewport && b.scale > 1 {
                Some(b.scale)
            } else {
                None
            },
            transform: if self.transform_dirty {
                Some(map_transform(self.transform))
            } else {
                None
            },
            buf_width: self.buf_width,
            buf_height: self.buf_height,
        }
    }

    fn on_frame(
        &mut self,
        b: &mut Binding,
        generation: u64,
        index: u32,
        fds: &Vec<u64>,
    ) -> (a: Action)
        ensures
            framed(*old(self), *final(self), *old(b), *final(b), generation, index, fds@, a),
    {
        let mut signal: Option<u64> = None;
        if fds.len() == 2 {
            if !b.releases.push(index, fds[1]) {
                signal = Some(fds[1]);
            }
        }
        let mut commit: Option<Commit> = None;
        let at_hand: bool = match self.generation {
            Some(g) => g == generation,
            None => false,
        };
        if at_hand && index < self.pool && !b.frame_pending {
            commit = Some(self.commit(b, index));
            self.transform_dirty = false;
            b.frame_pending = true;
        }
        Action::Frame { signal, commit }
    }

    /// Takes a message of the daemon with the tokens of the descriptors that
    /// came with it. An error ends the session.
    pub fn on_event(&mut self, b: &mut Binding, ev: ServerEvent, fds: Vec<u64>) -> (r: Result<
        Action,
        String,
    >)
        requires
            ev matches ServerEvent::BindBuffers(m) ==> plane_count(m) <= u32::MAX,
        ensures
            taken(*old(self), *final(self), *old(b), *final(b), ev, fds@, r),
    {
        match ev {
            ServerEvent::BindBuffers(m) => {
                if let Some(e) = pool_error(&m, fds.len()) {
                    return Err(e);
                }
                let planes = plan_import(&m, &fds);
                self.generation = Some(m.buffer_generation);
                self.pool = m.count;
                self.buf_width = m.width;
                self.buf_height = m.height;
                b.releases.reset(m.count);
                Ok(Action::Import { pool: m, planes })
            },
            ServerEvent::SetConfig { source, dest_w, dest_h, transform } => {
                self.source = Some(source);
                self.dest = Some((dest_w, dest_h));
                if self.transform != transform {
                    self.transform = transform;
                    self.transform_dirty = true;
                }
                Ok(Action::Nothing)
            },
            ServerEvent::FrameReady { buffer_generation, buffer_index, .. } => Ok(
                self.on_frame(b, buffer_generation, buffer_index, &fds),
            ),
            ServerEvent::Unbind { buffer_generation } => {
                let at_hand: bool = match self.generation {
                    Some(g) => g == buffer_generation,
                    None => false,
                };
                if at_hand {
                    self.generation = None;
                    self.pool = 0;
                    return Ok(Action::DropPool);
                }
                Ok(Action::Nothing)
            },
            ServerEvent::Error { code, message } => {
                let mut e = "server error ".to_owned();
                push_dec(&mut e, code as u64);
                e.append(": ");
                e.append(message.as_str());
                Err(e)
            },
            _ => Ok(Action::Nothing),
        }
    }
}

// ---------------------------------------------------------------------------
// Laws
// ---------------------------------------------------------------------------

/// While the compositor has not shown the last frame no other one is put on
/// screen, and the release of every frame is still taken care of: its
/// descriptor is queued or signalled at once.
pub proof fn waiting_frames_are_not_shown(
    s0: Session,
    s1: Session,
    b0: Binding,
    b1: Binding,
    generation: u64,
    index: u32,
    seq: u64,
    fds: Seq<u64>,
    r: Result<Action, String>,
)
    requires
        b0.frame_pending,
        fds.len() == 2,
        taken(
            s0,
            s1,
            b0,
            b1,
            ServerEvent::FrameReady { buffer_generation: generation, buffer_index: index, seq },
            fds,
            r,
        ),
    ensures
        r matches Ok(Action::Frame { signal, commit }) && commit is None && (signal == Some(fds[1])
            || signal is None && index < b1.releases@.len() && b1.releases@[index as int].last()
            == fds[1]),
        b1.frame_pending,
{
}

/// Only frames of the pool at hand are put on screen; after the pool is taken
/// back none is until the next one comes.
pub proof fn frames_need_their_pool(
    s0: Session,
    s1: Session,
    s2: Session,
    b0: Binding,
    b1: Binding,
    b2: Binding,
    generation: u64,
    later: u64,
    index: u32,
    seq: u64,
    fds: Seq<u64>,
    r1: Result<Action, String>,
    r2: Result<Action, String>,
)
    requires
        s0.generation == Some(generation),
        taken(
            s0,
            s1,
            b0,
            b1,
            ServerEvent::Unbind { buffer_generation: generation },
            Seq::empty(),
            r1,
        ),
        taken(
            s1,
            s2,
            b1,
            b2,
            ServerEvent::FrameReady { buffer_generation: later, buffer_index: index, seq },
            fds,
            r2,
        ),
    ensures
        r2 matches Ok(Action::Frame { commit, .. }) && commit is None,
        s2 == s1,
{
}

/// A pool that the daemon tells of is one that the client takes.
pub proof fn announced_pool_is_taken(snap: BindSnapshot, m: PoolMsg, fds: Seq<u64>)
    requires
        endpoint::consistent(snap),
        endpoint::tells_pool(m, snap),
        fds == snap.fds@,
    ensures
        pool_fault(m, fds.len()) is None,
{
}

/// A client that speaks a version the daemon understands is welcomed, and the
/// welcome is one that the client takes.
pub proof fn client_and_daemon_understand_each_other(
    req: DisplayRequest,
    opcode: u32,
    p: Protocol,
    version: Seq<char>,
    o: HelloOutcome,
)
    requires
        req matches DisplayRequest::Hello { protocol, client_protocol_version, .. } && protocol@
            == p.name@ && p.min_version <= client_protocol_version <= p.max_version,
        endpoint::greeted(
            req,
            opcode,
            p,
            version,
            endpoint::quoted_text(endpoint::named_protocol(req)),
            endpoint::quoted_text(p.name@),
            o,
        ),
    ensures
        o matches HelloOutcome::Welcome(DisplayEvent::Welcome { features, .. }) && text::lines(
            features@,
        ).contains("explicit_sync_fd"@),
{
    assert(endpoint::features()[0] == "explicit_sync_fd"@);
}

/// The daemon is greeted under the name of the display, in the protocol and the
/// version that are spoken.
pub proof fn greeting_names_the_display(
    b: &Binding,
    protocol: &str,
    protocol_version: u32,
    version: &str,
    r: DisplayRequest,
)
    requires
        call_ensures(hello, (b, protocol, protocol_version, version), r),
    ensures
        r matches DisplayRequest::Hello { protocol: p, client_name, client_version, client_protocol_version: v }
            && p@ == protocol@ && client_name@ == b.display_name@ && client_version@ == version@ && v
            == protocol_version,
{
}

/// A display is registered in the size that it has, and that size counts as
/// told: only another one is told after the daemon accepted it.
pub proof fn display_registers_in_its_size(
    b: &mut Binding,
    c: &mut Binding,
    r: DisplayRequest,
    sent: (u32, u32),
    told: Option<(u32, u32)>,
)
    requires
        old(b).configured is Some,
        call_ensures(register, (b,), r),
        call_ensures(introduced, (c, sent), told),
    ensures
        r matches DisplayRequest::RegisterDisplay { name, width, height, refresh_mhz, drm_render_major, drm_render_minor, .. }
            && {
            &&& name == old(b).display_name
            &&& old(b).configured == Some((width, height))
            &&& final(b).last_pushed == Some((width, height))
            &&& refresh_mhz == 60_000
            &&& (drm_render_major, drm_render_minor) == (old(b).node.major, old(b).node.minor)
        },
        final(c).registered,
        told is Some <==> old(c).configured is Some && old(c).configured != Some(sent),
        told is Some ==> told == old(c).configured,
{
}

/// Each plane of a pool is handed over once, with its own descriptor, offset
/// and stride, under the buffer and the place in it that it belongs to.
pub proof fn planes_are_handed_over(
    s: &mut Session,
    b: &mut Binding,
    m: PoolMsg,
    fds: Vec<u64>,
    r: Result<Action, String>,
    i: int,
)
    requires
        plane_count(m) <= u32::MAX,
        call_ensures(Session::on_event, (s, b, ServerEvent::BindBuffers(m), fds), r),
        r is Ok,
        0 <= i < fds@.len(),
    ensures
        fds@.len() == m.count * m.planes_per_buffer,
        r->Ok_0 matches Action::Import { pool, planes } && pool == m && planes@.len() == fds@.len()
            && {
            let p = planes@[i];
            &&& p.fd == fds@[i]
            &&& p.stride == m.stride@[i]
            &&& p.offset == m.plane_offset@[i]
            &&& p.buffer * m.planes_per_buffer + p.plane == i
            &&& p.plane < m.planes_per_buffer
            &&& p.buffer < m.count
            &&& p.modifier_hi * 0x1_0000_0000 + p.modifier_lo == m.modifier
        },
        final(s).generation == Some(m.buffer_generation),
        final(s).pool == m.count,
        (final(s).buf_width, final(s).buf_height) == (m.width, m.height),
        final(b).releases@.len() == m.count,
{
    let k = m.planes_per_buffer as int;
    let n = m.count as int;
    assert(k > 0 && i / k < n && (i / k) * k + i % k == i && i / k >= 0 && 0 <= i % k < k)
        by (nonlinear_arith)
        requires
            0 <= i < n * k,
            n >= 0,
            k >= 0,
    ;
}

/// A frame of the pool at hand is put on screen as the session has it, and is
/// waited for; one that comes before that is not. What is to be released waits
/// behind what waits already.
pub proof fn frame_is_put_on_screen(
    s: &mut Session,
    b: &mut Binding,
    generation: u64,
    index: u32,
    seq: u64,
    fds: Vec<u64>,
    r: Result<Action, String>,
)
    requires
        call_ensures(
            Session::on_event,
            (
                s,
                b,
                ServerEvent::FrameReady { buffer_generation: generation, buffer_index: index, seq },
                fds,
            ),
            r,
        ),
    ensures
        r matches Ok(Action::Frame { signal, commit }) && {
            &&& commit is Some <==> old(s).generation == Some(generation) && index < old(s).pool
                && !old(b).frame_pending
            &&& commit matches Some(c) ==> {
                &&& c.buffer_index == index
                &&& c.source == old(s).source
                &&& c.dest == old(s).dest
                &&& (c.buf_width, c.buf_height) == (old(s).buf_width, old(s).buf_height)
                &&& old(b).logical matches Some(l) ==> c.surface_size == l
                &&& old(b).logical is None ==> c.surface_size == (
                    old(s).buf_width,
                    old(s).buf_height,
                )
                &&& c.buffer_scale is Some <==> !old(b).viewport && old(b).scale > 1
                &&& c.buffer_scale is Some ==> c.buffer_scale == Some(old(b).scale)
                &&& c.transform is Some <==> old(s).transform_dirty
                &&& final(b).frame_pending
                &&& !final(s).transform_dirty
            }
            &&& commit is None ==> *final(s) == *old(s) && final(b).frame_pending == old(b).frame_pending
            &&& fds@.len() == 2 && index < old(b).releases@.len() ==> signal is None && final(b).releases@[index as int] == old(b).releases@[index as int].push(fds@[1])
            &&& fds@.len() == 2 && index >= old(b).releases@.len() ==> signal == Some(fds@[1])
            &&& fds@.len() != 2 ==> signal is None && final(b).releases@ == old(b).releases@
        },
{
}

/// A composition is kept as it was told; an orientation is put on screen with
/// the next frame where it is another one.
pub proof fn composition_is_kept(
    s: &mut Session,
    b: &mut Binding,
    ev: ServerEvent,
    fds: Vec<u64>,
    r: Result<Action, String>,
)
    requires
        ev is SetConfig,
        call_ensures(Session::on_event, (s, b, ev, fds), r),
    ensures
        ev matches ServerEvent::SetConfig { source, dest_w, dest_h, transform } && {
            &&& final(s).source == Some(source)
            &&& final(s).dest == Some((dest_w, dest_h))
            &&& final(s).transform == transform
            &&& final(s).transform_dirty <==> old(s).transform_dirty || transform != old(s).transform
            &&& final(s).generation == old(s).generation
            &&& final(s).pool == old(s).pool
        },
        *final(b) == *old(b),
{
}

/// An orientation is the one of its number.
pub proof fn orientations_have_their_numbers(t: u32, r: Transform)
    requires
        call_ensures(map_transform, (t,), r),
    ensures
        r == Transform::Rotated90 <==> t == 1,
        r == Transform::Rotated180 <==> t == 2,
        r == Transform::Rotated270 <==> t == 3,
        r == Transform::Flipped <==> t == 4,
        r == Transform::Flipped90 <==> t == 5,
        r == Transform::Flipped180 <==> t == 6,
        r == Transform::Flipped270 <==> t == 7,
{
}

} // verus!
