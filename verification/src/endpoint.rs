//! The daemon's side of a connection to a display: greeting it, registering it,
//! telling it of pools and frames, and taking what it says.

use crate::drm::DrmNode;
use crate::error::Error;
use crate::layout::ProjectedConfig;
use crate::negotiate::{unflatten_caps, PeerCaps};
use crate::renderer::{self, BindSnapshot, FormatCapsMsg, RendererHandle};
use crate::router::{self, events, ops, DisplayRegistration, Effect, Router, Step};
use crate::seqs;
use crate::text::{self, push_dec, push_line, str_eq};
use vstd::prelude::*;

verus! {

broadcast use seqs::group_views;

/// A message of a display.
#[derive(Debug)]
pub enum DisplayRequest {
    Hello {
        protocol: String,
        client_name: String,
        client_version: String,
        client_protocol_version: u32,
    },
    RegisterDisplay {
        name: String,
        instance_id: String,
        width: u32,
        height: u32,
        refresh_mhz: u32,
        drm_render_major: u32,
        drm_render_minor: u32,
        properties: Vec<(String, String)>,
    },
    UpdateDisplay { width: u32, height: u32 },
    ConsumerCaps(FormatCapsMsg),
    BindFailed { fourcc: u32, modifier: u64 },
    /// The display let go of a pool that was taken from it.
    UnbindDone { buffer_generation: u64 },
    Bye,
    MouseEvent,
    Other,
}

/// Why a display is turned away.
#[derive(Debug, Clone, Copy, PartialEq, Eq, Structural)]
pub enum RefusalCode {
    ProtoNameMismatch,
    VersionUnsupported,
}

/// A pool as displays are told of it.
#[derive(Debug)]
pub struct PoolMsg {
    pub buffer_generation: u64,
    pub count: u32,
    pub width: u32,
    pub height: u32,
    pub fourcc: u32,
    pub modifier: u64,
    pub planes_per_buffer: u32,
    pub stride: Vec<u32>,
    pub plane_offset: Vec<u32>,
    pub size: Vec<u64>,
}

/// A message to a display.
#[derive(Debug)]
pub enum DisplayEvent {
    Welcome { server_version: String, features: Vec<String> },
    DisplayAccepted { display_id: u64 },
    BindBuffers(PoolMsg),
    SetConfig(ProjectedConfig),
    FrameReady { buffer_generation: u64, buffer_index: u32, seq: u64 },
    Unbind { buffer_generation: u64 },
    Error { code: RefusalCode, message: String },
}

/// The protocol that is spoken: its name, and the first and the last version
/// that are understood.
#[derive(Debug)]
pub struct Protocol {
    pub name: String,
    pub min_version: u32,
    pub max_version: u32,
}

// ---------------------------------------------------------------------------
// Handshake
// ---------------------------------------------------------------------------

/// A text in quotes, with what is special in it escaped, in the sense of the
/// standard library's debug form.
pub uninterp spec fn quoted_text(s: Seq<char>) -> Seq<char>;

/// The debug form that `std::fmt::Debug` gives a `str`. The contract says only
/// that the result follows from the text.
#[verifier::external_body]
fn quoted(s: &str) -> (r: String)
    ensures
        r@ == quoted_text(s@),
{
    format!("{:?}", s)
}

/// What is wrong with the protocol that a display names.
pub open spec fn name_fault(quoted_protocol: Seq<char>, quoted_name: Seq<char>) -> Seq<char> {
    "unsupported protocol: "@ + quoted_protocol + " (expected "@ + quoted_name + ")"@
}

/// What is wrong with the version that a display speaks.
pub open spec fn version_fault(version: u32, p: Protocol) -> Seq<char> {
    "client protocol v"@ + text::dec_text(version as nat) + " not supported; daemon accepts ["@
        + text::dec_text(p.min_version as nat) + "..="@ + text::dec_text(p.max_version as nat)
        + "]"@
}

/// Text of an error about a message out of turn.
pub open spec fn out_of_turn(expected: Seq<char>, opcode: u32) -> Seq<char> {
    "expected "@ + expected + ", got opcode "@ + text::dec_text(opcode as nat)
}

/// What the daemon offers to displays.
pub open spec fn features() -> Seq<Seq<char>> {
    seq!["explicit_sync_fd"@, "drm_syncobj_release"@, "modifier_negotiation_v1"@]
}

/// How a greeting is answered.
#[derive(Debug)]
pub enum HelloOutcome {
    Welcome(DisplayEvent),
    /// The connection ends; the display is told first where there is an event.
    Refuse { event: Option<DisplayEvent>, error: Error },
}

/// The display is told the reason, and the connection ends with it.
pub open spec fn refused(
    o: HelloOutcome,
    code: RefusalCode,
    message: Seq<char>,
    intro: Seq<char>,
) -> bool {
    o matches HelloOutcome::Refuse { event: Some(DisplayEvent::Error { code: c, message: m }), error: Error::Internal(e) }
        && c == code && m@ == message && e@ == intro + message
}

/// How the first message of a display is answered, given the debug forms of
/// the protocol it names and of the one that is spoken.
pub open spec fn greeted(
    req: DisplayRequest,
    opcode: u32,
    p: Protocol,
    version: Seq<char>,
    quoted_protocol: Seq<char>,
    quoted_name: Seq<char>,
    o: HelloOutcome,
) -> bool {
    match req {
        DisplayRequest::Hello { protocol, client_protocol_version, .. } => if protocol@ != p.name@ {
            refused(
                o,
                RefusalCode::ProtoNameMismatch,
                name_fault(quoted_protocol, quoted_name),
                "bad protocol string: "@,
            )
        } else if !(p.min_version <= client_protocol_version <= p.max_version) {
            refused(
                o,
                RefusalCode::VersionUnsupported,
                version_fault(client_protocol_version, p),
                "version mismatch: "@,
            )
        } else {
            o matches HelloOutcome::Welcome(DisplayEvent::Welcome { server_version, features: f })
                && server_version@ == "waywallen "@ + version && text::lines(f@) == features()
        },
        _ => o matches HelloOutcome::Refuse { event: None, error: Error::Internal(e) } && e@
            == out_of_turn("hello"@, opcode),
    }
}

fn refuse(code: RefusalCode, message: String, intro: &str) -> (o: HelloOutcome)
    ensures
        refused(o, code, message@, intro@),
{
    let mut e = intro.to_owned();
    e.append(message.as_str());
    HelloOutcome::Refuse {
        event: Some(DisplayEvent::Error { code, message }),
        error: Error::Internal(e),
    }
}

fn unexpected(expected: &str, opcode: u32) -> (e: Error)
    ensures
        e matches Error::Internal(m) && m@ == out_of_turn(expected@, opcode),
{
    let mut m = "expected ".to_owned();
    m.append(expected);
    m.append(", got opcode ");
    push_dec(&mut m, opcode as u64);
    Error::Internal(m)
}

fn feature_list() -> (v: Vec<String>)
    ensures
        text::lines(v@) == features(),
{
    let mut v: Vec<String> = Vec::new();
    push_line(&mut v, "explicit_sync_fd".to_owned());
    push_line(&mut v, "drm_syncobj_release".to_owned());
    push_line(&mut v, "modifier_negotiation_v1".to_owned());
    assert(text::lines(v@) =~= features());
    v
}

/// Answers the first message of a display, given the debug forms of the
/// protocol it names and of the one that is spoken. `opcode` is the message's
/// number on the wire, `version` the daemon's.
pub fn hello_reply(
    req: &DisplayRequest,
    opcode: u32,
    p: &Protocol,
    version: &str,
    quoted_protocol: &str,
    quoted_name: &str,
) -> (o: HelloOutcome)
    ensures
        greeted(*req, opcode, *p, version@, quoted_protocol@, quoted_name@, o),
{
    match req {
        DisplayRequest::Hello { protocol, client_protocol_version, .. } => {
            if !str_eq(protocol.as_str(), p.name.as_str()) {
                let mut m = "unsupported protocol: ".to_owned();
                m.append(quoted_protocol);
                m.append(" (expected ");
                m.append(quoted_name);
                m.append(")");
                return refuse(RefusalCode::ProtoNameMismatch, m, "bad protocol string: ");
            }
            let v: u32 = *client_protocol_version;
            if v < p.min_version || v > p.max_version {
                let mut m = "client protocol v".to_owned();
                push_dec(&mut m, v as u64);
                m.append(" not supported; daemon accepts [");
                push_dec(&mut m, p.min_version as u64);
                m.append("..=");
                push_dec(&mut m, p.max_version as u64);
                m.append("]");
                return refuse(RefusalCode::VersionUnsupported, m, "version mismatch: ");
            }
            let mut server_version = "waywallen ".to_owned();
            server_version.append(version);
            HelloOutcome::Welcome(
                DisplayEvent::Welcome { server_version, features: feature_list() },
            )
        },
        _ => HelloOutcome::Refuse { event: None, error: unexpected("hello", opcode) },
    }
}

/// The protocol that a greeting names; nothing for any other message.
pub open spec fn named_protocol(req: DisplayRequest) -> Seq<char> {
    match req {
        DisplayRequest::Hello { protocol, .. } => protocol@,
        _ => Seq::empty(),
    }
}

/// Answers the first message of a display.
pub fn on_hello(req: &DisplayRequest, opcode: u32, p: &Protocol, version: &str) -> (o: HelloOutcome)
    ensures
        greeted(
            *req,
            opcode,
            *p,
            version@,
            quoted_text(named_protocol(*req)),
            quoted_text(p.name@),
            o,
        ),
{
    let named: String = match req {
        DisplayRequest::Hello { protocol, .. } => protocol.clone(),
        _ => String::new(),
    };
    assert(named@ =~= named_protocol(*req));
    let quoted_protocol = quoted(named.as_str());
    let quoted_name = quoted(p.name.as_str());
    hello_reply(req, opcode, p, version, quoted_protocol.as_str(), quoted_name.as_str())
}

/// What a registration comes down to: an empty identifier is none, and what the
/// display can take is told later.
pub open spec fn is_registration(r: DisplayRegistration, req: DisplayRequest) -> bool {
    match req {
        DisplayRequest::RegisterDisplay {
            name,
            instance_id,
            width,
            height,
            refresh_mhz,
            drm_render_major,
            drm_render_minor,
            properties,
        } => r == (DisplayRegistration {
            name,
            instance_id: if instance_id@.len() == 0 {
                None
            } else {
                Some(instance_id)
            },
            width,
            height,
            refresh_mhz,
            gpu: DrmNode { major: drm_render_major, minor: drm_render_minor },
            properties,
            consumer_caps: None,
        }),
        _ => false,
    }
}

/// Takes the second message of a display, its registration.
pub fn on_register(req: DisplayRequest, opcode: u32) -> (r: Result<DisplayRegistration, Error>)
    ensures
        match r {
            Ok(reg) => is_registration(reg, req),
            Err(e) => !(req is RegisterDisplay) && (e matches Error::Internal(m) && m@
                == out_of_turn("register_display"@, opcode)),
        },
{
    match req {
        DisplayRequest::RegisterDisplay {
            name,
            instance_id,
            width,
            height,
            refresh_mhz,
            drm_render_major,
            drm_render_minor,
            properties,
        } => {
            let empty: bool = instance_id.as_str().unicode_len() == 0;
            Ok(
                DisplayRegistration {
                    name,
                    instance_id: if empty {
                        None
                    } else {
                        Some(instance_id)
                    },
                    width,
                    height,
                    refresh_mhz,
                    gpu: DrmNode { major: drm_render_major, minor: drm_render_minor },
                    properties,
                    consumer_caps: None,
                },
            )
        },
        _ => Err(unexpected("register_display", opcode)),
    }
}

// ---------------------------------------------------------------------------
// The connection once the display is registered
// ---------------------------------------------------------------------------

/// Something that happened on the connection.
#[derive(Debug)]
pub enum LoopEvent {
    Shutdown,
    /// The router lets the display go.
    RouterClosed,
    Request(DisplayRequest),
    /// The display is gone, or sends what cannot be read.
    ReadFailed,
    ReaderEnded,
}

/// The connection ends with the event.
pub open spec fn ends(ev: LoopEvent) -> bool {
    match ev {
        LoopEvent::Request(req) => req is Bye,
        _ => true,
    }
}

/// What a message of a display does to the routing.
pub open spec fn said(s: Step, display: u64, req: DisplayRequest) -> Step {
    match req {
        DisplayRequest::UpdateDisplay { width, height } => events::resized(s, display, width, height),
        DisplayRequest::ConsumerCaps(c) => match renderer::announced_caps(c) {
            Some(caps) => events::take_caps(s, display, caps),
            None => s,
        },
        DisplayRequest::BindFailed { fourcc, modifier } => events::display_rejects(
            s,
            display,
            (fourcc, modifier),
        ),
        _ => s,
    }
}

/// What an event of the connection does to the routing.
pub open spec fn happened(s: Step, display: u64, ev: LoopEvent) -> Step {
    match ev {
        LoopEvent::Request(req) => said(s, display, req),
        _ => s,
    }
}

fn decode_caps(c: &FormatCapsMsg) -> (r: Option<PeerCaps>)
    ensures
        router::caps_view(r) == renderer::announced_caps(*c),
{
    match unflatten_caps(
        c.fourccs.as_slice(),
        c.mod_counts.as_slice(),
        c.modifiers.as_slice(),
        c.usages.as_slice(),
        c.plane_counts.as_slice(),
        c.device_uuid.as_slice(),
        c.driver_uuid.as_slice(),
        DrmNode { major: c.drm_render_major, minor: c.drm_render_minor },
        c.sync_caps,
        c.color_caps,
        c.mem_hints,
        (c.extent_max_w, c.extent_max_h),
    ) {
        Ok(caps) => Some(caps),
        Err(_) => None,
    }
}

/// Takes an event of a display's connection; `true` when the connection ends.
/// Capabilities that are not well-formed are passed over, as is any message
/// that has no meaning here.
pub fn on_loop_event(
    router: &mut Router,
    display_id: u64,
    ev: LoopEvent,
) -> (r: (bool, Vec<Effect>))
    ensures
        r.0 == ends(ev),
        router::at(*final(router), r.1@) == happened(ops::start(old(router)@), display_id, ev),
{
    let none: Vec<Effect> = Vec::new();
    assert(seqs::views(none@) =~= Seq::<router::EffectView>::empty());
    match ev {
        LoopEvent::Request(req) => match req {
            DisplayRequest::UpdateDisplay { width, height } => (
                false,
                router.update_display_size(display_id, width, height),
            ),
            DisplayRequest::ConsumerCaps(c) => match decode_caps(&c) {
                Some(caps) => (false, router.set_consumer_caps(display_id, caps)),
                None => (false, none),
            },
            DisplayRequest::BindFailed { fourcc, modifier } => (
                false,
                router.on_consumer_bind_failed(display_id, fourcc, modifier),
            ),
            DisplayRequest::Bye => (true, none),
            _ => (false, none),
        },
        _ => (true, none),
    }
}

// ---------------------------------------------------------------------------
// Pools and frames
// ---------------------------------------------------------------------------

/// Entries that each list of a pool should have.
pub open spec fn planes_in(s: BindSnapshot) -> int {
    s.count as int * s.planes_per_buffer as int
}

/// Every list of the pool has an entry for each plane of each buffer.
pub open spec fn consistent(s: BindSnapshot) -> bool {
    let n = planes_in(s);
    s.stride@.len() == n && s.plane_offset@.len() == n && s.size@.len() == n && s.fds@.len() == n
}

/// What is wrong with the lists of a pool.
pub open spec fn lists_fault(s: BindSnapshot) -> Seq<char> {
    "BindSnapshot parallel arrays inconsistent: count="@ + text::dec_text(s.count as nat)
        + " planes="@ + text::dec_text(s.planes_per_buffer as nat) + " expected="@
        + text::dec_text(planes_in(s) as nat) + " stride="@ + text::dec_text(s.stride@.len())
        + " offset="@ + text::dec_text(s.plane_offset@.len()) + " size="@ + text::dec_text(
        s.size@.len(),
    ) + " fds="@ + text::dec_text(s.fds@.len())
}

/// The message tells of the pool as it is.
pub open spec fn tells_pool(m: PoolMsg, s: BindSnapshot) -> bool {
    &&& m.buffer_generation == s.generation
    &&& m.count == s.count
    &&& m.width == s.width
    &&& m.height == s.height
    &&& m.fourcc == s.fourcc
    &&& m.modifier == s.modifier
    &&& m.planes_per_buffer == s.planes_per_buffer
    &&& m.stride@ == s.stride@
    &&& m.plane_offset@ == s.plane_offset@
    &&& m.size@ == s.size@
}

fn copy_u32(v: &Vec<u32>) -> (r: Vec<u32>)
    ensures
        r@ == v@,
{
    let mut r: Vec<u32> = Vec::new();
    let mut i: usize = 0;
    while i < v.len()
        invariant
            i <= v@.len(),
            r@ == v@.take(i as int),
        decreases v.len() - i,
    {
        r.push(v[i]);
        i = i + 1;
        assert(r@ =~= v@.take(i as int));
    }
    assert(r@ =~= v@);
    r
}

fn copy_u64(v: &Vec<u64>) -> (r: Vec<u64>)
    ensures
        r@ == v@,
{
    let mut r: Vec<u64> = Vec::new();
    let mut i: usize = 0;
    while i < v.len()
        invariant
            i <= v@.len(),
            r@ == v@.take(i as int),
        decreases v.len() - i,
    {
        r.push(v[i]);
        i = i + 1;
        assert(r@ =~= v@.take(i as int));
    }
    assert(r@ =~= v@);
    r
}

fn lists_error(s: &BindSnapshot, n: u64) -> (e: Error)
    requires
        n == planes_in(*s),
    ensures
        e matches Error::Internal(m) && m@ == lists_fault(*s),
{
    let mut m = "BindSnapshot parallel arrays inconsistent: count=".to_owned();
    push_dec(&mut m, s.count as u64);
    m.append(" planes=");
    push_dec(&mut m, s.planes_per_buffer as u64);
    m.append(" expected=");
    push_dec(&mut m, n);
    m.append(" stride=");
    push_dec(&mut m, s.stride.len() as u64);
    m.append(" offset=");
    push_dec(&mut m, s.plane_offset.len() as u64);
    m.append(" size=");
    push_dec(&mut m, s.size.len() as u64);
    m.append(" fds=");
    push_dec(&mut m, s.fds.len() as u64);
    Error::Internal(m)
}

/// The message that tells a display of a pool, and the descriptors that go with
/// it. Lists that do not fit together are an error.
pub fn build_bind_event(snap: &BindSnapshot) -> (r: Result<(DisplayEvent, Vec<u64>), Error>)
    ensures
        match r {
            Ok((ev, fds)) => {
                &&& consistent(*snap)
                &&& ev matches DisplayEvent::BindBuffers(m) && tells_pool(m, *snap)
                &&& fds@ == snap.fds@
            },
            Err(e) => !consistent(*snap) && (e matches Error::Internal(m) && m@ == lists_fault(
                *snap,
            )),
        },
{
    assert(snap.count as int * snap.planes_per_buffer as int <= u64::MAX) by (nonlinear_arith)
        requires
            snap.count <= u32::MAX,
            snap.planes_per_buffer <= u32::MAX,
    ;
    assert(0 <= snap.count as int * snap.planes_per_buffer as int) by (nonlinear_arith);
    let n: u64 = snap.count as u64 * snap.planes_per_buffer as u64;
    if snap.stride.len() as u64 != n || snap.plane_offset.len() as u64 != n || snap.size.len() as u64
        != n || snap.fds.len() as u64 != n {
        return Err(lists_error(snap, n));
    }
    let m = PoolMsg {
        buffer_generation: snap.generation,
        count: snap.count,
        width: snap.width,
        height: snap.height,
        fourcc: snap.fourcc,
        modifier: snap.modifier,
        planes_per_buffer: snap.planes_per_buffer,
        stride: copy_u32(&snap.stride),
        plane_offset: copy_u32(&snap.plane_offset),
        size: copy_u64(&snap.size),
    };
    Ok((DisplayEvent::BindBuffers(m), copy_u64(&snap.fds)))
}

/// The message that tells a display of a renderer's pool. A renderer without a
/// pool is an error.
pub fn bind_event(handle: &RendererHandle) -> (r: Result<(DisplayEvent, Vec<u64>), Error>)
    ensures
        match handle.bind_snapshot {
            None => r matches Err(Error::Internal(m)) && m@ == "renderer "@ + handle.id@
                + " has no snapshot"@,
            Some(s) => match r {
                Ok((ev, fds)) => {
                    &&& consistent(s)
                    &&& ev matches DisplayEvent::BindBuffers(m) && tells_pool(m, s)
                    &&& fds@ == s.fds@
                },
                Err(e) => !consistent(s) && (e matches Error::Internal(m) && m@ == lists_fault(s)),
            },
        },
{
    match &handle.bind_snapshot {
        Some(s) => build_bind_event(s),
        None => {
            let mut m = "renderer ".to_owned();
            m.append(handle.id.as_str());
            m.append(" has no snapshot");
            Err(Error::Internal(m))
        },
    }
}

/// The message that tells a display of a frame, and the token of the fence that
/// goes with it. A frame whose fence is not kept any more is an error.
pub fn frame_event(handle: &RendererHandle, generation: u64, buffer_index: u32, seq: u64) -> (r:
    Result<(DisplayEvent, u64), Error>)
    ensures
        match r {
            Ok((ev, fence)) => {
                &&& ev == (DisplayEvent::FrameReady {
                    buffer_generation: generation,
                    buffer_index,
                    seq,
                })
                &&& exists|i: int| handle@.fence_at(seq, i) && fence == #[trigger] handle@.sync_fds[i].1
            },
            Err(e) => {
                &&& forall|i: int|
                    0 <= i < handle@.sync_fds.len() ==> (#[trigger] handle@.sync_fds[i]).0 != seq
                &&& e matches Error::Internal(m) && m@ == "acquire sync_fd for seq="@
                    + text::dec_text(seq as nat) + " missing (evicted or never arrived)"@
            },
        },
{
    match handle.clone_sync_fd(seq) {
        Some(fence) => Ok(
            (DisplayEvent::FrameReady { buffer_generation: generation, buffer_index, seq }, fence),
        ),
        None => {
            let mut m = "acquire sync_fd for seq=".to_owned();
            push_dec(&mut m, seq);
            m.append(" missing (evicted or never arrived)");
            Err(Error::Internal(m))
        },
    }
}

// ---------------------------------------------------------------------------
// Laws
// ---------------------------------------------------------------------------

/// A display that greets and is turned away is told why, in the words that the
/// connection ends with.
pub proof fn refused_greeting_is_answered(
    req: DisplayRequest,
    opcode: u32,
    p: Protocol,
    version: Seq<char>,
    o: HelloOutcome,
)
    requires
        req is Hello,
        o is Refuse,
        greeted(
            req,
            opcode,
            p,
            version,
            quoted_text(named_protocol(req)),
            quoted_text(p.name@),
            o,
        ),
    ensures
        o matches HelloOutcome::Refuse { event: Some(DisplayEvent::Error { message, .. }), error: Error::Internal(e) }
            && exists|intro: Seq<char>| e@ == #[trigger] (intro + message@),
{
}

/// A display whose capabilities cannot be read, or whose message has no meaning
/// for the routing, changes nothing.
pub proof fn meaningless_message_changes_nothing(s: Step, display: u64, req: DisplayRequest)
    requires
        req is MouseEvent || req is Other || req is Hello || req is RegisterDisplay
            || req is UnbindDone || (
        req matches DisplayRequest::ConsumerCaps(c) && renderer::announced_caps(c) is None),
    ensures
        happened(s, display, LoopEvent::Request(req)) == s,
        !ends(LoopEvent::Request(req)),
{
}

/// A display is welcome exactly when it names the protocol that is spoken, in a
/// version that is. What it gets then does not depend on what it said.
pub proof fn welcome_takes_name_and_version(
    req: &DisplayRequest,
    opcode: u32,
    p: &Protocol,
    version: &str,
    o: HelloOutcome,
)
    requires
        call_ensures(on_hello, (req, opcode, p, version), o),
    ensures
        o is Welcome <==> (*req matches DisplayRequest::Hello { protocol, client_protocol_version, .. }
            && protocol@ == p.name@ && p.min_version <= client_protocol_version
            && client_protocol_version <= p.max_version),
        o matches HelloOutcome::Welcome(w) ==> (w matches DisplayEvent::Welcome { server_version, features: f }
            && server_version@ == "waywallen "@ + version@ && f@.len() == 3 && f@[0]@
            == "explicit_sync_fd"@ && f@[1]@ == "drm_syncobj_release"@ && f@[2]@
            == "modifier_negotiation_v1"@),
        o matches HelloOutcome::Refuse { event, error } ==> {
            &&& event is Some <==> *req is Hello
            &&& error is Internal
            &&& *req matches DisplayRequest::Hello { protocol, .. } ==> (event
                matches Some(DisplayEvent::Error { code, .. }) && code == (if protocol@ != p.name@ {
                RefusalCode::ProtoNameMismatch
            } else {
                RefusalCode::VersionUnsupported
            }))
        },
{
    if let HelloOutcome::Welcome(DisplayEvent::Welcome { server_version, features: f }) = o {
        assert(text::lines(f@).len() == f@.len());
        assert(text::lines(f@)[0] == f@[0]@);
        assert(text::lines(f@)[1] == f@[1]@);
        assert(text::lines(f@)[2] == f@[2]@);
    }
}

/// A display is registered with what it says of itself.
pub proof fn display_registers_as_it_says(
    req: DisplayRequest,
    opcode: u32,
    r: Result<DisplayRegistration, Error>,
)
    requires
        call_ensures(on_register, (req, opcode), r),
    ensures
        r is Ok <==> req is RegisterDisplay,
        req matches DisplayRequest::RegisterDisplay {
            name,
            instance_id,
            width,
            height,
            refresh_mhz,
            drm_render_major,
            drm_render_minor,
            properties,
        } ==> {
            let d = r->Ok_0;
            &&& d.name == name
            &&& (d.width, d.height, d.refresh_mhz) == (width, height, refresh_mhz)
            &&& (d.gpu.major, d.gpu.minor) == (drm_render_major, drm_render_minor)
            &&& d.properties == properties
            &&& d.consumer_caps is None
            &&& instance_id@.len() == 0 ==> d.instance_id is None
            &&& instance_id@.len() > 0 ==> d.instance_id == Some(instance_id)
        },
{
}

/// What a display says does what the router's call of that name does: a new
/// size resizes it, a pair that it cannot use is rejected, and what it can take
/// counts where it can be read. Only a farewell, or the end of the connection,
/// ends the session.
pub proof fn display_is_taken_at_its_word(
    q: &mut Router,
    p: &mut Router,
    id: u64,
    ev: LoopEvent,
    ended: bool,
    out: Vec<Effect>,
    other: Vec<Effect>,
)
    requires
        old(q)@ == old(p)@,
        call_ensures(on_loop_event, (q, id, ev), (ended, out)),
    ensures
        ended <==> !(ev is Request) || ev->Request_0 is Bye,
        ev matches LoopEvent::Request(DisplayRequest::UpdateDisplay { width, height }) ==> (
        call_ensures(Router::update_display_size, (p, id, width, height), other) ==> final(q)@
            == final(p)@ && seqs::views(out@) == seqs::views(other@)),
        ev matches LoopEvent::Request(DisplayRequest::BindFailed { fourcc, modifier }) ==> (
        call_ensures(Router::on_consumer_bind_failed, (p, id, fourcc, modifier), other) ==> final(q)@
            == final(p)@ && seqs::views(out@) == seqs::views(other@)),
{
    assert(router::at(*final(q), out@).v == final(q)@);
    assert(router::at(*final(p), other@).v == final(p)@);
}

/// What a display says that it can take counts for it where it can be read, as
/// a call with it does.
pub proof fn display_caps_count(
    q: &mut Router,
    p: &mut Router,
    id: u64,
    c: FormatCapsMsg,
    caps: PeerCaps,
    ended: bool,
    out: Vec<Effect>,
    other: Vec<Effect>,
)
    requires
        old(q)@ == old(p)@,
        call_ensures(
            on_loop_event,
            (q, id, LoopEvent::Request(DisplayRequest::ConsumerCaps(c))),
            (ended, out),
        ),
        renderer::announced_caps(c) == Some(caps@),
        call_ensures(Router::set_consumer_caps, (p, id, caps), other),
    ensures
        final(q)@ == final(p)@,
        seqs::views(out@) == seqs::views(other@),
        !ended,
{
    assert(router::at(*final(q), out@).v == final(q)@);
    assert(router::at(*final(p), other@).v == final(p)@);
}

/// A pool is told as it is, with its descriptors, where its lists have an entry
/// for each plane of each buffer; any other is not told.
pub proof fn pool_is_told_whole(
    handle: &RendererHandle,
    r: Result<(DisplayEvent, Vec<u64>), Error>,
)
    requires
        call_ensures(bind_event, (handle,), r),
    ensures
        r is Ok <==> (handle.bind_snapshot matches Some(s) && {
            let n = s.count * s.planes_per_buffer;
            s.stride@.len() == n && s.plane_offset@.len() == n && s.size@.len() == n && s.fds@.len()
                == n
        }),
        r is Ok ==> {
            let s = handle.bind_snapshot->0;
            &&& r->Ok_0.1@ == s.fds@
            &&& r->Ok_0.0 matches DisplayEvent::BindBuffers(m) && {
                &&& m.buffer_generation == s.generation
                &&& m.count == s.count
                &&& (m.width, m.height) == (s.width, s.height)
                &&& m.fourcc == s.fourcc
                &&& m.modifier == s.modifier
                &&& m.planes_per_buffer == s.planes_per_buffer
                &&& m.stride@ == s.stride@
                &&& m.plane_offset@ == s.plane_offset@
                &&& m.size@ == s.size@
            }
        },
{
}

/// A frame is told with the buffer and the number that it has, and with the
/// fence that is kept for that number; without one it is not told.
pub proof fn frame_is_told_with_its_fence(
    handle: &RendererHandle,
    generation: u64,
    buffer: u32,
    seq: u64,
    r: Result<(DisplayEvent, u64), Error>,
    fence: Option<u64>,
)
    requires
        call_ensures(frame_event, (handle, generation, buffer, seq), r),
        call_ensures(RendererHandle::clone_sync_fd, (handle, seq), fence),
    ensures
        r is Ok <==> fence is Some,
        r is Ok ==> fence == Some(r->Ok_0.1),
        r is Ok ==> (r->Ok_0.0 matches DisplayEvent::FrameReady {
            buffer_generation,
            buffer_index,
            seq: n,
        } && buffer_generation == generation && buffer_index == buffer && n == seq),
{
    if r is Ok {
        let i = choose|i: int|
            handle@.fence_at(seq, i) && r->Ok_0.1 == #[trigger] handle@.sync_fds[i].1;
        assert(handle@.sync_fds[i].0 == seq);
        assert(fence is Some);
        let k = choose|k: int|
            handle@.fence_at(seq, k) && fence->0 == #[trigger] handle@.sync_fds[k].1;
        assert(handle@.fence_at(seq, k));
        if i < k {
            assert(handle@.sync_fds[i].0 != seq);
        }
        if k < i {
            assert(handle@.sync_fds[k].0 != seq);
        }
    } else if fence is Some {
        let k = choose|k: int|
            handle@.fence_at(seq, k) && fence->0 == #[trigger] handle@.sync_fds[k].1;
        assert(handle@.sync_fds[k].0 != seq);
    }
}

} // verus!
