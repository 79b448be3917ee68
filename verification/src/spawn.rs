//! Starting renderer processes: choosing the manifest, building the start-up
//! message and the argument list, and keeping the list of live renderers.

use crate::drm::DrmNode;
use crate::error::Error;
use crate::negotiate::NegotiatedScheme;
use crate::registry::RendererDef;
use crate::renderer::{self, ClearColor, RendererEvent, RendererHandle, RendererView};
use crate::strmap::{self, StrMap};
use crate::text::{
    self, copy_lines, copy_opt, find_char, list_contains, parse_u32, push_dec, push_line, str_eq,
};
use vstd::prelude::*;

verus! {

broadcast use {strmap::kv_text_of_insert, strmap::kv_text_of_remove};

/// Version of the start-up message for renderers that do not name one.
pub const SPAWN_VERSION: u32 = 4;

/// A renderer to start.
#[derive(Debug)]
pub struct SpawnRequest {
    pub wp_type: String,
    /// Handed over as `--<key> <value>` arguments; `path` names the resource.
    pub extras: StrMap<String>,
    /// Handed over in the start-up message.
    pub settings: StrMap<String>,
    pub width: u32,
    pub height: u32,
    pub extent_mode: u32,
    pub test_pattern: bool,
    /// Renderer plugin to use; the best one for the type when absent.
    pub renderer_name: Option<String>,
    /// Per-item property overrides, passed on as they are.
    pub user_properties_json: Option<String>,
}

pub struct SpawnView {
    pub wp_type: Seq<char>,
    pub extras: Map<Seq<char>, Seq<char>>,
    pub settings: Map<Seq<char>, Seq<char>>,
    pub width: u32,
    pub height: u32,
    pub extent_mode: u32,
    pub test_pattern: bool,
    pub renderer_name: Option<Seq<char>>,
    pub user_properties: Option<Seq<char>>,
}

impl View for SpawnRequest {
    type V = SpawnView;

    open spec fn view(&self) -> SpawnView {
        SpawnView {
            wp_type: self.wp_type@,
            extras: strmap::kv_text(self.extras@),
            settings: strmap::kv_text(self.settings@),
            width: self.width,
            height: self.height,
            extent_mode: self.extent_mode,
            test_pattern: self.test_pattern,
            renderer_name: text::opt_text(self.renderer_name),
            user_properties: text::opt_text(self.user_properties_json),
        }
    }
}

impl Default for SpawnRequest {
    fn default() -> (r: Self)
        ensures
            r@ == (SpawnView {
                wp_type: Seq::empty(),
                extras: Map::empty(),
                settings: Map::empty(),
                width: 0,
                height: 0,
                extent_mode: 0,
                test_pattern: false,
                renderer_name: None,
                user_properties: None,
            }),
    {
        let r = SpawnRequest {
            wp_type: String::new(),
            extras: StrMap::new(),
            settings: StrMap::new(),
            width: 0,
            height: 0,
            extent_mode: 0,
            test_pattern: false,
            renderer_name: None,
            user_properties_json: None,
        };
        assert(r@.extras =~= Map::empty());
        assert(r@.settings =~= Map::empty());
        r
    }
}

/// Start-up message of a renderer.
#[derive(Debug)]
pub struct InitMsg {
    pub spawn_version: u32,
    pub extent_w: u32,
    pub extent_h: u32,
    pub extent_mode: u32,
    /// Settings in ascending key order.
    pub settings: Vec<(String, String)>,
    pub user_properties: String,
}

#[verifier::ext_equal]
pub struct InitView {
    pub spawn_version: u32,
    pub extent_w: u32,
    pub extent_h: u32,
    pub extent_mode: u32,
    pub settings: Seq<(Seq<char>, Seq<char>)>,
    pub user_properties: Seq<char>,
}

impl View for InitMsg {
    type V = InitView;

    open spec fn view(&self) -> InitView {
        InitView {
            spawn_version: self.spawn_version,
            extent_w: self.extent_w,
            extent_h: self.extent_h,
            extent_mode: self.extent_mode,
            settings: strmap::pairs_text(self.settings@),
            user_properties: self.user_properties@,
        }
    }
}

/// The settings a renderer starts with: those of the request, with the test
/// pattern switched on where it is asked for and the manifest declares it.
pub open spec fn start_settings(req: SpawnView, def: RendererDef) -> Map<Seq<char>, Seq<char>> {
    if def.settings@.contains_key("test_pattern"@) && req.test_pattern {
        req.settings.insert("test_pattern"@, "1"@)
    } else {
        req.settings
    }
}

pub open spec fn init_of(req: SpawnView, def: RendererDef) -> InitView {
    InitView {
        spawn_version: match def.spawn_version {
            Some(v) => v,
            None => SPAWN_VERSION,
        },
        extent_w: req.width,
        extent_h: req.height,
        extent_mode: req.extent_mode,
        settings: strmap::sorted_list(start_settings(req, def)),
        user_properties: match req.user_properties {
            Some(p) => p,
            None => Seq::empty(),
        },
    }
}

pub fn build_init_msg(req: &SpawnRequest, def: &RendererDef) -> (msg: InitMsg)
    ensures
        msg@ == init_of(req@, *def),
        strmap::lists_sorted(msg@.settings, start_settings(req@, *def)),
{
    let spawn_version: u32 = match def.spawn_version {
        Some(v) => v,
        None => SPAWN_VERSION,
    };
    let mut kv = req.settings.copy();
    if def.settings.contains_key("test_pattern") && req.test_pattern {
        kv.insert("test_pattern".to_owned(), "1".to_owned());
    }
    InitMsg {
        spawn_version,
        extent_w: req.width,
        extent_h: req.height,
        extent_mode: req.extent_mode,
        settings: kv.sorted_pairs(),
        user_properties: match &req.user_properties_json {
            Some(p) => p.clone(),
            None => String::new(),
        },
    }
}

// ---------------------------------------------------------------------------
// GPU choice
// ---------------------------------------------------------------------------

/// One GPU of the machine.
#[derive(Debug)]
pub struct GpuInfo {
    pub major: u32,
    pub minor: u32,
    pub render_node: Option<String>,
}

/// The `<major>:<minor>` pair that a text spells.
pub open spec fn drm_dev_value(s: Seq<char>) -> Option<(u32, u32)> {
    if s.contains(':') {
        let i = choose|i: int| text::first_at(s, ':', i);
        match (text::u32_value(s.take(i)), text::u32_value(s.skip(i + 1))) {
            (Some(major), Some(minor)) => Some((major, minor)),
            _ => None,
        }
    } else {
        None
    }
}

pub fn parse_drm_dev(s: &str) -> (r: Option<(u32, u32)>)
    ensures
        r == drm_dev_value(s@),
{
    match find_char(s, ':') {
        None => None,
        Some(i) => {
            let n: usize = s.unicode_len();
            proof {
                assert(s@.contains(s@[i as int]));
                let k = choose|k: int| text::first_at(s@, ':', k);
                assert(text::first_at(s@, ':', k));
                assert(k == i);
            }
            let left = s.substring_char(0, i);
            let right = s.substring_char(i + 1, n);
            assert(left@ =~= s@.take(i as int));
            assert(right@ =~= s@.skip(i + 1));
            match (parse_u32(left), parse_u32(right)) {
                (Some(major), Some(minor)) => Some((major, minor)),
                _ => None,
            }
        },
    }
}

/// `i` is the first GPU with the given node numbers.
pub open spec fn first_gpu(gpus: Seq<GpuInfo>, dev: (u32, u32), i: int) -> bool {
    &&& 0 <= i < gpus.len()
    &&& gpus[i].major == dev.0 && gpus[i].minor == dev.1
    &&& forall|j: int|
        0 <= j < i ==> !((#[trigger] gpus[j]).major == dev.0 && gpus[j].minor == dev.1)
}

/// Path of the render node with the given numbers, where the machine has it.
pub open spec fn node_path(gpus: Seq<GpuInfo>, dev: (u32, u32)) -> Option<Seq<char>> {
    if exists|i: int| first_gpu(gpus, dev, i) {
        let i = choose|i: int| first_gpu(gpus, dev, i);
        text::opt_text(gpus[i].render_node)
    } else {
        None
    }
}

fn find_node_path(gpus: &Vec<GpuInfo>, dev: (u32, u32)) -> (r: Option<String>)
    ensures
        text::opt_text(r) == node_path(gpus@, dev),
{
    let mut i: usize = 0;
    while i < gpus.len()
        invariant
            i <= gpus@.len(),
            forall|j: int|
                0 <= j < i ==> !((#[trigger] gpus@[j]).major == dev.0 && gpus@[j].minor == dev.1),
        decreases gpus.len() - i,
    {
        if gpus[i].major == dev.0 && gpus[i].minor == dev.1 {
            proof {
                assert(first_gpu(gpus@, dev, i as int));
                let k = choose|k: int| first_gpu(gpus@, dev, k);
                assert(first_gpu(gpus@, dev, k));
                assert(k == i);
            }
            return copy_opt(&gpus[i].render_node);
        }
        i = i + 1;
    }
    proof {
        if exists|k: int| first_gpu(gpus@, dev, k) {
            let k = choose|k: int| first_gpu(gpus@, dev, k);
            assert(first_gpu(gpus@, dev, k));
        }
    }
    None
}

/// Settings with the GPU selection turned into a render-node path. A selection
/// that names no known node is dropped.
pub open spec fn placed_settings(kv: Map<Seq<char>, Seq<char>>, gpus: Seq<GpuInfo>) -> Map<
    Seq<char>,
    Seq<char>,
> {
    if !kv.contains_key("gpu_drm_dev"@) {
        kv
    } else {
        let rest = kv.remove("gpu_drm_dev"@);
        match drm_dev_value(kv["gpu_drm_dev"@]) {
            None => rest,
            Some(dev) => match node_path(gpus, dev) {
                Some(path) => rest.insert("render_node"@, path),
                None => rest,
            },
        }
    }
}

pub fn place_on_gpu(settings: &mut StrMap<String>, gpus: &Vec<GpuInfo>)
    ensures
        strmap::kv_text(final(settings)@) == placed_settings(strmap::kv_text(old(settings)@), gpus@),
{
    if let Some(raw) = settings.remove("gpu_drm_dev") {
        if let Some(dev) = parse_drm_dev(raw.as_str()) {
            if let Some(path) = find_node_path(gpus, dev) {
                settings.insert("render_node".to_owned(), path);
            }
        }
    } else {
        assert(strmap::kv_text(settings@) =~= strmap::kv_text(old(settings)@));
    }
}

// ---------------------------------------------------------------------------
// Spawn plan
// ---------------------------------------------------------------------------

/// Everything needed to start one renderer process.
#[derive(Debug)]
pub struct SpawnPlan {
    pub id: String,
    pub bin: String,
    pub socket: String,
    pub argv: Vec<String>,
    pub init: InitMsg,
    pub request: SpawnRequest,
}

/// Arguments for the first `n` extras.
pub open spec fn extra_args(pairs: Seq<(Seq<char>, Seq<char>)>, n: int) -> Seq<Seq<char>>
    decreases n,
{
    if n <= 0 {
        Seq::empty()
    } else {
        extra_args(pairs, n - 1).push("--"@ + pairs[n - 1].0).push(pairs[n - 1].1)
    }
}

/// Argument list: the socket, then every extra in ascending key order.
pub open spec fn argv_of(socket: Seq<char>, extras: Map<Seq<char>, Seq<char>>) -> Seq<Seq<char>> {
    let pairs = strmap::sorted_list(extras);
    seq!["--ipc"@, socket] + extra_args(pairs, pairs.len() as int)
}

/// Name of the socket a renderer connects back to.
pub open spec fn socket_path(dir: Seq<char>, id: Seq<char>) -> Seq<char> {
    dir + "/renderer-"@ + id + ".sock"@
}

fn build_argv(socket: &String, extras: &StrMap<String>) -> (argv: Vec<String>)
    ensures
        text::lines(argv@) == argv_of(socket@, strmap::kv_text(extras@)),
        strmap::lists_sorted(
            strmap::sorted_list(strmap::kv_text(extras@)),
            strmap::kv_text(extras@),
        ),
{
    let mut argv: Vec<String> = Vec::new();
    push_line(&mut argv, "--ipc".to_owned());
    push_line(&mut argv, socket.clone());
    let pairs = extras.sorted_pairs();
    let ghost want = strmap::sorted_list(strmap::kv_text(extras@));
    let mut n: usize = 0;
    assert(text::lines(argv@) =~= seq!["--ipc"@, socket@] + extra_args(want, 0));
    while n < pairs.len()
        invariant
            n <= pairs@.len(),
            want == strmap::sorted_list(strmap::kv_text(extras@)),
            strmap::pairs_text(pairs@) == want,
            text::lines(argv@) == seq!["--ipc"@, socket@] + extra_args(want, n as int),
        decreases pairs.len() - n,
    {
        let mut flag = "--".to_owned();
        flag.append(pairs[n].0.as_str());
        assert(want[n as int] == (pairs@[n as int].0@, pairs@[n as int].1@));
        push_line(&mut argv, flag);
        push_line(&mut argv, pairs[n].1.clone());
        n = n + 1;
        assert(text::lines(argv@) =~= seq!["--ipc"@, socket@] + extra_args(want, n as int));
    }
    argv
}

/// What a plan says, for the renderer named `id`.
pub open spec fn is_plan_for(
    plan: SpawnPlan,
    id: Seq<char>,
    req: SpawnView,
    def: RendererDef,
    gpus: Seq<GpuInfo>,
    dir: Seq<char>,
) -> bool {
    let placed = SpawnView { settings: placed_settings(req.settings, gpus), ..req };
    &&& plan.id@ == id
    &&& plan.bin@ == def.bin@
    &&& plan.socket@ == socket_path(dir, id)
    &&& plan.request@ == placed
    &&& plan.init@ == init_of(placed, def)
    &&& strmap::lists_sorted(plan.init@.settings, start_settings(placed, def))
    &&& strmap::lists_sorted(strmap::sorted_list(req.extras), req.extras)
    &&& text::lines(plan.argv@) == argv_of(socket_path(dir, id), req.extras)
}

/// The plan for starting a renderer under a given id.
pub fn plan_with_id(
    id: String,
    req: SpawnRequest,
    def: &RendererDef,
    gpus: &Vec<GpuInfo>,
    dir: &str,
) -> (plan: SpawnPlan)
    ensures
        is_plan_for(plan, id@, req@, *def, gpus@, dir@),
{
    let mut request = req;
    place_on_gpu(&mut request.settings, gpus);
    let mut socket = dir.to_owned();
    socket.append("/renderer-");
    socket.append(id.as_str());
    socket.append(".sock");
    let argv = build_argv(&socket, &request.extras);
    let init = build_init_msg(&request, def);
    SpawnPlan { id, bin: def.bin.clone(), socket, argv, init, request }
}

/// The hyphenated form of an identifier of sixteen bytes: five groups of
/// lower-case hexadecimal digits.
pub open spec fn uuid_shaped(s: Seq<char>) -> bool {
    &&& s.len() == 36
    &&& forall|i: int|
        0 <= i < 36 ==> if i == 8 || i == 13 || i == 18 || i == 23 {
            #[trigger] s[i] == '-'
        } else {
            ('0' <= s[i] && s[i] <= '9') || ('a' <= s[i] && s[i] <= 'f')
        }
}

/// `uuid::Uuid::new_v4` and the `Display` text of its result: a random
/// identifier in hyphenated lower-case form.
#[verifier::external_body]
fn uuid_v4_text() -> (s: String)
    ensures
        uuid_shaped(s@),
{
    uuid::Uuid::new_v4().to_string()
}

/// The plan for starting a renderer under a fresh random id.
pub fn plan_spawn(
    req: SpawnRequest,
    def: &RendererDef,
    gpus: &Vec<GpuInfo>,
    dir: &str,
) -> (plan: SpawnPlan)
    ensures
        is_plan_for(plan, plan.id@, req@, *def, gpus@, dir@),
        uuid_shaped(plan.id@),
{
    let id = uuid_v4_text();
    plan_with_id(id, req, def, gpus, dir)
}

/// The manifest a request is served with: the one it names, or the best one
/// for its type. `by_name` and `by_type` are the registry's answers.
pub fn choose_renderer<'a>(
    req: &SpawnRequest,
    by_name: Option<&'a RendererDef>,
    by_type: Option<&'a RendererDef>,
) -> (r: Result<&'a RendererDef, Error>)
    ensures
        match req.renderer_name {
            Some(name) => match by_name {
                Some(def) => r == Ok::<&RendererDef, Error>(def),
                None => r == Err::<&RendererDef, Error>(Error::RendererNotFound(name)),
            },
            None => match by_type {
                Some(def) => r == Ok::<&RendererDef, Error>(def),
                None => r == Err::<&RendererDef, Error>(Error::NoRendererForType(req.wp_type)),
            },
        },
{
    match &req.renderer_name {
        Some(name) => match by_name {
            Some(def) => Ok(def),
            None => Err(Error::RendererNotFound(name.clone())),
        },
        None => match by_type {
            Some(def) => Ok(def),
            None => Err(Error::NoRendererForType(req.wp_type.clone())),
        },
    }
}

/// The state of a renderer that has just come up.
pub open spec fn fresh_renderer(
    id: Seq<char>,
    req: SpawnView,
    def: RendererDef,
    pid: Option<u32>,
    gpu: DrmNode,
) -> RendererView {
    RendererView {
        id,
        wp_type: req.wp_type,
        width: req.width,
        height: req.height,
        extent_mode: req.extent_mode,
        extras: req.extras,
        name: def.name@,
        pid,
        gpu,
        bind: None,
        pending_configure: None,
        sync_fds: Seq::empty(),
        release_syncobj: None,
        caps: None,
        scheme: None,
        events: text::lines(def.events@),
        clear: renderer::opaque_black(),
    }
}

/// The handle of a renderer that was started with `req` and has reported its
/// GPU.
pub fn started(
    id: String,
    req: &SpawnRequest,
    def: &RendererDef,
    pid: Option<u32>,
    gpu: DrmNode,
) -> (h: RendererHandle)
    ensures
        h@ == fresh_renderer(id@, req@, *def, pid, gpu),
{
    RendererHandle {
        id,
        wp_type: req.wp_type.clone(),
        width: req.width,
        height: req.height,
        extent_mode: req.extent_mode,
        extras: req.extras.copy(),
        name: def.name.clone(),
        pid,
        gpu,
        bind_snapshot: None,
        pending_configure: None,
        sync_fds: Vec::new(),
        release_syncobj: None,
        format_caps: None,
        last_dispatched_scheme: None,
        events_subscribed: copy_lines(&def.events),
        clear_rgba: ClearColor::default(),
    }
}

/// Reason text for a renderer that turned the start-up message down.
pub open spec fn nack_text(reason: Seq<char>, received: u32, supported: u32) -> Seq<char> {
    "renderer rejected Init: "@ + reason + " (received spawn_version="@ + text::dec_text(
        received as nat,
    ) + ", supported="@ + text::dec_text(supported as nat) + ")"@
}

/// Judges the first message of a renderer: only `Ready` lets it live. `shown`
/// is the message as it is to appear in a diagnostic.
pub fn check_init_reply(reply: &RendererEvent, shown: &str) -> (r: Result<DrmNode, Error>)
    ensures
        match *reply {
            RendererEvent::Ready { drm_render_major, drm_render_minor } => r == Ok::<DrmNode, Error>(
                DrmNode { major: drm_render_major, minor: drm_render_minor },
            ),
            RendererEvent::InitNack { received_spawn_version, supported_spawn_version, reason } => r
                matches Err(Error::RendererSpawnFailed(m)) && m@ == nack_text(
                reason@,
                received_spawn_version,
                supported_spawn_version,
            ),
            _ => r matches Err(Error::RendererSpawnFailed(m)) && m@ == "host emitted "@ + shown@
                + " before Ready; aborting spawn"@,
        },
{
    match reply {
        RendererEvent::Ready { drm_render_major, drm_render_minor } => Ok(
            DrmNode { major: *drm_render_major, minor: *drm_render_minor },
        ),
        RendererEvent::InitNack { received_spawn_version, supported_spawn_version, reason } => {
            let mut m = "renderer rejected Init: ".to_owned();
            m.append(reason.as_str());
            m.append(" (received spawn_version=");
            push_dec(&mut m, *received_spawn_version as u64);
            m.append(", supported=");
            push_dec(&mut m, *supported_spawn_version as u64);
            m.append(")");
            Err(Error::RendererSpawnFailed(m))
        },
        _ => {
            let mut m = "host emitted ".to_owned();
            m.append(shown);
            m.append(" before Ready; aborting spawn");
            Err(Error::RendererSpawnFailed(m))
        },
    }
}

// ---------------------------------------------------------------------------
// Messages to a running renderer
// ---------------------------------------------------------------------------

/// The buffer negotiation message of a scheme.
#[derive(Debug, Clone, Copy, PartialEq, Eq, Structural)]
pub struct NegotiateMsg {
    pub fourcc: u32,
    pub modifier: u64,
    pub plane_count: u32,
    pub sync_mode: u32,
    pub color: u32,
    pub mem_hint: u32,
    pub count: u32,
    pub path: u32,
    pub mem_source: u32,
}

pub open spec fn message_of(s: NegotiatedScheme) -> NegotiateMsg {
    NegotiateMsg {
        fourcc: s.fourcc,
        modifier: s.modifier,
        plane_count: s.plane_count,
        sync_mode: s.sync_mode,
        color: s.color,
        mem_hint: s.mem_hint,
        count: s.count,
        path: s.path.code(),
        mem_source: s.mem_source.code(),
    }
}

/// The message to send for `scheme`, or `None` when the renderer was already
/// told to use exactly this scheme.
pub fn negotiate_message(handle: &RendererHandle, scheme: NegotiatedScheme) -> (r: Option<
    NegotiateMsg,
>)
    ensures
        handle@.scheme == Some(scheme) ==> r is None,
        handle@.scheme != Some(scheme) ==> r == Some(message_of(scheme)),
{
    if let Some(last) = handle.last_dispatched_scheme {
        if last == scheme {
            return None;
        }
    }
    Some(
        NegotiateMsg {
            fourcc: scheme.fourcc,
            modifier: scheme.modifier,
            plane_count: scheme.plane_count,
            sync_mode: scheme.sync_mode,
            color: scheme.color,
            mem_hint: scheme.mem_hint,
            count: scheme.count,
            path: scheme.path.as_u32(),
            mem_source: scheme.mem_source.as_u32(),
        },
    )
}

/// Records that the negotiation message of `scheme` went out.
pub fn negotiate_sent(handle: &mut RendererHandle, scheme: NegotiatedScheme)
    ensures
        final(handle)@ == (RendererView { scheme: Some(scheme), ..old(handle)@ }),
{
    handle.last_dispatched_scheme = Some(scheme);
}

/// Pairs of the first `n` entries of `kv` whose key is not `key`.
pub open spec fn without_key(kv: Seq<(Seq<char>, Seq<char>)>, key: Seq<char>, n: int) -> Seq<
    (Seq<char>, Seq<char>),
>
    decreases n,
{
    if n <= 0 {
        Seq::empty()
    } else if kv[n - 1].0 == key {
        without_key(kv, key, n - 1)
    } else {
        without_key(kv, key, n - 1).push(kv[n - 1])
    }
}

/// Settings delta as it is sent: a frame rate other than zero replaces every
/// `fps` entry and goes last.
pub open spec fn with_fps(kv: Seq<(Seq<char>, Seq<char>)>, fps: Option<u32>) -> Seq<
    (Seq<char>, Seq<char>),
> {
    if fps is Some && fps->0 != 0 {
        without_key(kv, "fps"@, kv.len() as int).push(("fps"@, text::dec_text(fps->0 as nat)))
    } else {
        kv
    }
}

pub fn setting_changed(settings: Vec<(String, String)>, fps: Option<u32>) -> (out: Vec<
    (String, String),
>)
    ensures
        strmap::pairs_text(out@) == with_fps(strmap::pairs_text(settings@), fps),
{
    let rate: u32 = match fps {
        Some(f) => f,
        None => 0,
    };
    if rate == 0 {
        return settings;
    }
    let ghost kv = strmap::pairs_text(settings@);
    let mut out: Vec<(String, String)> = Vec::new();
    let mut n: usize = 0;
    assert(strmap::pairs_text(out@) =~= without_key(kv, "fps"@, 0));
    while n < settings.len()
        invariant
            n <= settings@.len(),
            kv == strmap::pairs_text(settings@),
            strmap::pairs_text(out@) == without_key(kv, "fps"@, n as int),
        decreases settings.len() - n,
    {
        assert(kv[n as int] == (settings@[n as int].0@, settings@[n as int].1@));
        let ghost before = out@;
        if !str_eq(settings[n].0.as_str(), "fps") {
            out.push((settings[n].0.clone(), settings[n].1.clone()));
            assert(strmap::pairs_text(out@) =~= strmap::pairs_text(before).push(kv[n as int]));
        }
        n = n + 1;
    }
    let mut value = String::new();
    push_dec(&mut value, rate as u64);
    assert(value@ =~= text::dec_text(rate as nat));
    let ghost before = out@;
    out.push(("fps".to_owned(), value));
    assert(strmap::pairs_text(out@) =~= strmap::pairs_text(before).push(
        ("fps"@, text::dec_text(rate as nat)),
    ));
    out
}

/// Why a message could not be exchanged with a renderer.
#[derive(Debug, Clone, Copy, PartialEq, Eq, Structural)]
pub enum CodecFault {
    PeerClosed,
    BrokenPipe,
    ConnectionReset,
    NotConnected,
    Other,
}

/// Whether the fault means that the renderer is gone.
pub fn is_peer_gone(fault: CodecFault) -> (r: bool)
    ensures
        r == (fault != CodecFault::Other),
{
    match fault {
        CodecFault::PeerClosed => true,
        CodecFault::BrokenPipe => true,
        CodecFault::ConnectionReset => true,
        CodecFault::NotConnected => true,
        CodecFault::Other => false,
    }
}

// ---------------------------------------------------------------------------
// Live renderers
// ---------------------------------------------------------------------------

/// Identity of a running renderer.
#[derive(Debug)]
pub struct LiveRenderer {
    pub id: String,
    pub wp_type: String,
    pub width: u32,
    pub height: u32,
    pub extent_mode: u32,
    pub extras: StrMap<String>,
    pub name: String,
    pub pid: Option<u32>,
    pub events: Vec<String>,
}

impl LiveRenderer {
    /// The renderer already shows what `req` asks for, with plugin `def_name`.
    pub open spec fn serves(self, req: SpawnView, def_name: Seq<char>) -> bool {
        &&& self.wp_type@ == req.wp_type
        &&& self.width == req.width
        &&& self.height == req.height
        &&& self.extent_mode == req.extent_mode
        &&& self.name@ == def_name
        &&& strmap::kv_text(self.extras@) == req.extras
    }

    pub open spec fn shows(self, resource: Seq<char>) -> bool {
        self.extras@.contains_key("path"@) && self.extras@["path"@]@ == resource
    }
}

/// The renderers that are running, in the order in which they came up.
#[derive(Debug)]
pub struct RendererManager {
    renderers: Vec<LiveRenderer>,
}

pub open spec fn distinct_ids(v: Seq<LiveRenderer>) -> bool {
    forall|i: int, j: int|
        0 <= i < j < v.len() ==> (#[trigger] v[i]).id@ != (#[trigger] v[j]).id@
}

pub open spec fn has_id(v: Seq<LiveRenderer>, id: Seq<char>) -> bool {
    exists|i: int| 0 <= i < v.len() && (#[trigger] v[i]).id@ == id
}

/// A running renderer of that id has asked for events of the kind.
pub open spec fn wants(v: Seq<LiveRenderer>, id: Seq<char>, kind: Seq<char>) -> bool {
    exists|i: int|
        0 <= i < v.len() && (#[trigger] v[i]).id@ == id && text::lines(v[i].events@).contains(kind)
}

/// What a renderer is told of the pointer. Places and distances are the bit
/// patterns of floating-point numbers.
#[derive(Debug, Clone, Copy, PartialEq, Eq, Structural)]
pub enum PointerMsg {
    Motion { x: u32, y: u32, timestamp_us: u64, modifiers: u32 },
    Button { x: u32, y: u32, button: u32, state: u32, timestamp_us: u64, modifiers: u32 },
    Axis {
        x: u32,
        y: u32,
        delta_x: u32,
        delta_y: u32,
        source: u32,
        timestamp_us: u64,
        modifiers: u32,
    },
}

/// The message goes out where the renderer has asked for the pointer, and is
/// dropped otherwise.
pub open spec fn gated(v: Seq<LiveRenderer>, id: Seq<char>, m: PointerMsg) -> Option<PointerMsg> {
    if wants(v, id, "pointer"@) {
        Some(m)
    } else {
        None
    }
}

impl View for RendererManager {
    type V = Seq<LiveRenderer>;

    closed spec fn view(&self) -> Seq<LiveRenderer> {
        self.renderers@
    }
}

impl RendererManager {
    #[verifier::type_invariant]
    spec fn distinct(self) -> bool {
        distinct_ids(self.renderers@)
    }

    pub fn new() -> (r: Self)
        ensures
            r@ == Seq::<LiveRenderer>::empty(),
    {
        RendererManager { renderers: Vec::new() }
    }

    fn position(&self, id: &str) -> (r: Option<usize>)
        ensures
            match r {
                Some(i) => i < self@.len() && self@[i as int].id@ == id@,
                None => !has_id(self@, id@),
            },
    {
        let mut i: usize = 0;
        while i < self.renderers.len()
            invariant
                i <= self.renderers@.len(),
                forall|j: int| 0 <= j < i ==> (#[trigger] self.renderers@[j]).id@ != id@,
            decreases self.renderers.len() - i,
        {
            if str_eq(self.renderers[i].id.as_str(), id) {
                return Some(i);
            }
            i = i + 1;
        }
        None
    }

    pub fn get(&self, id: &str) -> (r: Option<&LiveRenderer>)
        ensures
            match r {
                Some(h) => h.id@ == id@ && self@.contains(*h),
                None => !has_id(self@, id@),
            },
    {
        match self.position(id) {
            Some(i) => {
                assert(self@[i as int] == self.renderers@[i as int]);
                Some(&self.renderers[i])
            },
            None => None,
        }
    }

    /// Adds a renderer, in place of one with the same id.
    pub fn insert(&mut self, h: LiveRenderer)
        ensures
            !has_id(old(self)@, h.id@) ==> final(self)@ == old(self)@.push(h),
            forall|i: int|
                0 <= i < old(self)@.len() && (#[trigger] old(self)@[i]).id@ == h.id@ ==> final(self)@ == old(self)@.update(i, h),
    {
        proof {
            use_type_invariant(&*self);
        }
        let at = self.position(h.id.as_str());
        let ghost before = self.renderers@;
        let mut renderers: Vec<LiveRenderer> = Vec::new();
        std::mem::swap(&mut renderers, &mut self.renderers);
        match at {
            Some(i) => {
                renderers[i] = h;
                assert(distinct_ids(renderers@));
            },
            None => {
                renderers.push(h);
                assert forall|i: int, j: int| 0 <= i < j < renderers@.len() implies (
                #[trigger] renderers@[i]).id@ != (#[trigger] renderers@[j]).id@ by {
                    assert(before[i] == renderers@[i]);
                }
            },
        }
        self.renderers = renderers;
    }

    /// Takes a renderer off the list. A second call for the same id finds
    /// nothing.
    pub fn remove(&mut self, id: &str) -> (r: bool)
        ensures
            r == has_id(old(self)@, id@),
            !has_id(final(self)@, id@),
            !r ==> final(self)@ == old(self)@,
            forall|i: int|
                0 <= i < old(self)@.len() && (#[trigger] old(self)@[i]).id@ == id@ ==> final(self)@ == old(self)@.remove(i),
    {
        proof {
            use_type_invariant(&*self);
        }
        match self.position(id) {
            Some(i) => {
                let ghost before = self.renderers@;
                let mut renderers: Vec<LiveRenderer> = Vec::new();
                std::mem::swap(&mut renderers, &mut self.renderers);
                let _gone = renderers.remove(i);
                proof {
                    let after = renderers@;
                    assert forall|a: int, b: int| 0 <= a < b < after.len() implies (
                    #[trigger] after[a]).id@ != (#[trigger] after[b]).id@ by {
                        let x = if a < i {
                            a
                        } else {
                            a + 1
                        };
                        let y = if b < i {
                            b
                        } else {
                            b + 1
                        };
                        assert(after[a] == before[x] && after[b] == before[y]);
                    }
                    if has_id(after, id@) {
                        let a = choose|a: int| 0 <= a < after.len() && (#[trigger] after[a]).id@
                            == id@;
                        let x = if a < i {
                            a
                        } else {
                            a + 1
                        };
                        assert(after[a] == before[x]);
                        assert(before[i as int].id@ == id@);
                    }
                }
                self.renderers = renderers;
                true
            },
            None => false,
        }
    }

    /// Takes a renderer off the list to stop it; an unknown one is an error.
    pub fn kill(&mut self, id: &str) -> (r: Result<(), Error>)
        ensures
            has_id(old(self)@, id@) ==> r is Ok,
            !has_id(old(self)@, id@) ==> (r matches Err(Error::RendererNotFound(m)) && m@ == id@)
                && final(self)@ == old(self)@,
            !has_id(final(self)@, id@),
            forall|i: int|
                0 <= i < old(self)@.len() && (#[trigger] old(self)@[i]).id@ == id@ ==> final(self)@ == old(self)@.remove(i),
    {
        if self.remove(id) {
            Ok(())
        } else {
            Err(Error::RendererNotFound(id.to_owned()))
        }
    }

    /// Ids of the running renderers, each once.
    pub fn list(&self) -> (out: Vec<String>)
        ensures
            text::lines(out@) == Seq::new(self@.len(), |i: int| self@[i].id@),
            distinct_ids(self@),
    {
        proof {
            use_type_invariant(self);
        }
        let mut out: Vec<String> = Vec::new();
        let mut i: usize = 0;
        while i < self.renderers.len()
            invariant
                i <= self.renderers@.len(),
                out@.len() == i,
                forall|j: int| 0 <= j < i ==> (#[trigger] out@[j])@ == self.renderers@[j].id@,
            decreases self.renderers.len() - i,
        {
            out.push(self.renderers[i].id.clone());
            i = i + 1;
        }
        assert(text::lines(out@) =~= Seq::new(self@.len(), |i: int| self@[i].id@));
        out
    }

    /// A running renderer that already shows what is asked for. `def` is the
    /// manifest the request resolves to; without one nothing can be reused.
    pub fn find_reusable(&self, req: &SpawnRequest, def: Option<&RendererDef>) -> (r: Option<
        String,
    >)
        ensures
            match r {
                Some(id) => def is Some && exists|i: int|
                    0 <= i < self@.len() && (#[trigger] self@[i]).serves(req@, def->0.name@)
                        && self@[i].id == id,
                None => def is None || forall|i: int|
                    0 <= i < self@.len() ==> !(#[trigger] self@[i]).serves(req@, def->0.name@),
            },
    {
        let d: &RendererDef = match def {
            Some(d) => d,
            None => {
                return None;
            },
        };
        let mut i: usize = 0;
        while i < self.renderers.len()
            invariant
                i <= self.renderers@.len(),
                def == Some(d),
                forall|j: int|
                    0 <= j < i ==> !(#[trigger] self.renderers@[j]).serves(req@, d.name@),
            decreases self.renderers.len() - i,
        {
            let h = &self.renderers[i];
            if h.wp_type == req.wp_type && h.width == req.width && h.height == req.height
                && h.extent_mode == req.extent_mode && h.name == d.name && h.extras.same_as(
                &req.extras,
            ) {
                assert(self@[i as int].serves(req@, d.name@));
                return Some(h.id.clone());
            }
            i = i + 1;
        }
        None
    }

    /// The first running renderer that shows `resource`.
    pub fn find_by_resource(&self, resource: &str) -> (r: Option<&LiveRenderer>)
        ensures
            match r {
                Some(h) => exists|i: int|
                    {
                        &&& 0 <= i < self@.len()
                        &&& #[trigger] self@[i] == *h
                        &&& h.shows(resource@)
                        &&& forall|j: int| 0 <= j < i ==> !(#[trigger] self@[j]).shows(resource@)
                    },
                None => forall|i: int|
                    0 <= i < self@.len() ==> !(#[trigger] self@[i]).shows(resource@),
            },
    {
        let mut i: usize = 0;
        while i < self.renderers.len()
            invariant
                i <= self.renderers@.len(),
                forall|j: int|
                    0 <= j < i ==> !(#[trigger] self.renderers@[j]).shows(resource@),
            decreases self.renderers.len() - i,
        {
            if let Some(p) = self.renderers[i].extras.get("path") {
                if str_eq(p.as_str(), resource) {
                    assert(self@[i as int] == self.renderers@[i as int]);
                    return Some(&self.renderers[i]);
                }
            }
            i = i + 1;
        }
        None
    }

    /// Whether a running renderer wants input events of a kind. Input for any
    /// other renderer is dropped.
    pub fn subscribed_to(&self, id: &str, kind: &str) -> (r: bool)
        ensures
            r == wants(self@, id@, kind@),
    {
        proof {
            use_type_invariant(self);
        }
        match self.position(id) {
            Some(i) => {
                let r = list_contains(&self.renderers[i].events, kind);
                proof {
                    assert(self@[i as int].id@ == id@);
                }
                r
            },
            None => false,
        }
    }

    /// The message that tells a renderer where the pointer is.
    pub fn send_pointer_motion(
        &self,
        id: &str,
        x: u32,
        y: u32,
        timestamp_us: u64,
        modifiers: u32,
    ) -> (r: Option<PointerMsg>)
        ensures
            r == gated(self@, id@, PointerMsg::Motion { x, y, timestamp_us, modifiers }),
    {
        if self.subscribed_to(id, "pointer") {
            Some(PointerMsg::Motion { x, y, timestamp_us, modifiers })
        } else {
            None
        }
    }

    /// The message that tells a renderer of a pressed or released button.
    pub fn send_pointer_button(
        &self,
        id: &str,
        x: u32,
        y: u32,
        button: u32,
        state: u32,
        timestamp_us: u64,
        modifiers: u32,
    ) -> (r: Option<PointerMsg>)
        ensures
            r == gated(
                self@,
                id@,
                PointerMsg::Button { x, y, button, state, timestamp_us, modifiers },
            ),
    {
        if self.subscribed_to(id, "pointer") {
            Some(PointerMsg::Button { x, y, button, state, timestamp_us, modifiers })
        } else {
            None
        }
    }

    /// The message that tells a renderer of scrolling.
    pub fn send_pointer_axis(
        &self,
        id: &str,
        x: u32,
        y: u32,
        delta_x: u32,
        delta_y: u32,
        source: u32,
        timestamp_us: u64,
        modifiers: u32,
    ) -> (r: Option<PointerMsg>)
        ensures
            r == gated(
                self@,
                id@,
                PointerMsg::Axis { x, y, delta_x, delta_y, source, timestamp_us, modifiers },
            ),
    {
        if self.subscribed_to(id, "pointer") {
            Some(PointerMsg::Axis { x, y, delta_x, delta_y, source, timestamp_us, modifiers })
        } else {
            None
        }
    }
}

// ---------------------------------------------------------------------------
// Laws
// ---------------------------------------------------------------------------

proof fn lemma_extra_args(pairs: Seq<(Seq<char>, Seq<char>)>, n: int)
    requires
        0 <= n <= pairs.len(),
    ensures
        extra_args(pairs, n).len() == 2 * n,
        forall|i: int|
            0 <= i < n ==> extra_args(pairs, n)[2 * i] == "--"@ + (#[trigger] pairs[i]).0
                && extra_args(pairs, n)[2 * i + 1] == pairs[i].1,
    decreases n,
{
    if n > 0 {
        lemma_extra_args(pairs, n - 1);
        let rest = extra_args(pairs, n - 1);
        let all = extra_args(pairs, n);
        assert forall|i: int| 0 <= i < n implies all[2 * i] == "--"@ + (#[trigger] pairs[i]).0
            && all[2 * i + 1] == pairs[i].1 by {
            if i < n - 1 {
                assert(all[2 * i] == rest[2 * i]);
                assert(all[2 * i + 1] == rest[2 * i + 1]);
            }
        }
    }
}

/// A renderer is started with the program of its plugin, and told first where
/// to connect, at a socket of its own below the directory. Then comes every
/// argument of the wallpaper, its name with two dashes before its value, and
/// nothing else.
pub proof fn renderer_gets_its_arguments(
    id: String,
    req: SpawnRequest,
    def: &RendererDef,
    gpus: &Vec<GpuInfo>,
    dir: &str,
    plan: SpawnPlan,
    k: Seq<char>,
    i: int,
)
    requires
        call_ensures(plan_with_id, (id, req, def, gpus, dir), plan),
    ensures
        plan.id@ == id@,
        plan.bin@ == def.bin@,
        plan.socket@ == dir@ + "/renderer-"@ + id@ + ".sock"@,
        plan.argv@.len() >= 2,
        plan.argv@[0]@ == "--ipc"@,
        plan.argv@[1]@ == plan.socket@,
        req@.extras.contains_key(k) ==> exists|j: int|
            2 <= j < plan.argv@.len() - 1 && (#[trigger] plan.argv@[j])@ == "--"@ + k
                && plan.argv@[j + 1]@ == req@.extras[k],
        0 <= i && 2 * i + 3 < plan.argv@.len() ==> exists|x: Seq<char>| #[trigger]
            req@.extras.contains_key(x) && plan.argv@[2 * i + 2]@ == "--"@ + x && plan.argv@[2 * i
                + 3]@ == req@.extras[x],
        plan.argv@.len() % 2 == 0,
{
    let pairs = strmap::sorted_list(req@.extras);
    let n = pairs.len() as int;
    lemma_extra_args(pairs, n);
    let args = extra_args(pairs, n);
    let all = text::lines(plan.argv@);
    assert(all.len() == plan.argv@.len());
    assert forall|i: int| 0 <= i < all.len() implies #[trigger] plan.argv@[i]@ == all[i] by {}
    assert forall|i: int| 0 <= i < args.len() implies all[i + 2] == #[trigger] args[i] by {}
    if req@.extras.contains_key(k) {
        let n = choose|n: int| 0 <= n < pairs.len() && (#[trigger] pairs[n]).0 == k;
        assert(req@.extras.contains_key(pairs[n].0));
        assert(args[2 * n] == "--"@ + pairs[n].0);
        assert(all[2 * n + 2] == args[2 * n]);
        assert(all[2 * n + 3] == args[2 * n + 1]);
        let j = 2 * n + 2;
        assert(plan.argv@[j]@ == "--"@ + k);
        assert(plan.argv@[j + 1]@ == req@.extras[k]);
    }
    if 0 <= i && 2 * i + 3 < plan.argv@.len() {
        let x = pairs[i].0;
        assert(req@.extras.contains_key(x));
        assert(args[2 * i] == "--"@ + pairs[i].0);
        assert(all[2 * i + 2] == args[2 * i]);
        assert(all[2 * i + 3] == args[2 * i + 1]);
    }
}

/// The start-up message carries the size that was asked for, the version that
/// the plugin names, and every setting: those that were asked for, and the test
/// pattern where it is wanted and the plugin has it.
pub proof fn start_up_message_carries_the_settings(
    req: &SpawnRequest,
    def: &RendererDef,
    msg: InitMsg,
    k: Seq<char>,
)
    requires
        call_ensures(build_init_msg, (req, def), msg),
    ensures
        (msg.extent_w, msg.extent_h, msg.extent_mode) == (req.width, req.height, req.extent_mode),
        def.spawn_version matches Some(v) ==> msg.spawn_version == v,
        def.spawn_version is None ==> msg.spawn_version == 4,
        req.user_properties_json matches Some(p) ==> msg.user_properties@ == p@,
        req.user_properties_json is None ==> msg.user_properties@.len() == 0,
        ({
            let pattern = req.test_pattern && def.settings@.contains_key("test_pattern"@);
            let list = strmap::pairs_text(msg.settings@);
            let has = exists|i: int| 0 <= i < list.len() && (#[trigger] list[i]).0 == k;
            &&& has <==> req@.settings.contains_key(k) || (pattern && k == "test_pattern"@)
            &&& forall|i: int|
                0 <= i < list.len() && (#[trigger] list[i]).0 == k ==> list[i].1 == (if pattern && k
                    == "test_pattern"@ {
                    "1"@
                } else {
                    req@.settings[k]
                })
        }),
{
    let m = start_settings(req@, *def);
    let list = strmap::pairs_text(msg.settings@);
    assert(msg@.settings == list);
    if exists|i: int| 0 <= i < list.len() && (#[trigger] list[i]).0 == k {
        let i = choose|i: int| 0 <= i < list.len() && (#[trigger] list[i]).0 == k;
        assert(m.contains_key(list[i].0));
    }
    if m.contains_key(k) {
        let i = choose|i: int| 0 <= i < list.len() && (#[trigger] list[i]).0 == k;
        assert(list[i].0 == k);
    }
}

/// The choice of a GPU is replaced by the path of its render node, where the
/// machine has the GPU, and is dropped otherwise. No other setting changes.
pub proof fn gpu_choice_becomes_a_node(
    settings: &mut StrMap<String>,
    gpus: &Vec<GpuInfo>,
    k: Seq<char>,
    i: int,
    major: u32,
    minor: u32,
)
    requires
        call_ensures(place_on_gpu, (settings, gpus), ()),
        ({
            let kv = strmap::kv_text(old(settings)@);
            &&& kv.contains_key("gpu_drm_dev"@)
            &&& drm_dev_value(kv["gpu_drm_dev"@]) == Some((major, minor))
        }),
        0 <= i < gpus@.len(),
        gpus@[i].major == major && gpus@[i].minor == minor,
        forall|j: int|
            0 <= j < i ==> !((#[trigger] gpus@[j]).major == major && gpus@[j].minor == minor),
        "gpu_drm_dev"@ != "render_node"@,
    ensures
        ({
            let a = strmap::kv_text(old(settings)@);
            let b = strmap::kv_text(final(settings)@);
            &&& !b.contains_key("gpu_drm_dev"@)
            &&& gpus@[i].render_node matches Some(p) ==> b.contains_key("render_node"@)
                && b["render_node"@] == p@
            &&& k != "gpu_drm_dev"@ && k != "render_node"@ ==> b.contains_key(k) == a.contains_key(k)
                && (a.contains_key(k) ==> b[k] == a[k])
        }),
{
    assert(first_gpu(gpus@, (major, minor), i));
    let m = choose|m: int| first_gpu(gpus@, (major, minor), m);
    assert(first_gpu(gpus@, (major, minor), m));
    assert(m == i);
}

/// Without a choice of GPU the settings stay as they are; a choice that names
/// no GPU of the machine is dropped and nothing takes its place.
pub proof fn unknown_gpu_is_dropped(settings: &mut StrMap<String>, gpus: &Vec<GpuInfo>, k: Seq<char>)
    requires
        call_ensures(place_on_gpu, (settings, gpus), ()),
        ({
            let kv = strmap::kv_text(old(settings)@);
            kv.contains_key("gpu_drm_dev"@) ==> match drm_dev_value(kv["gpu_drm_dev"@]) {
                Some(dev) => forall|j: int|
                    0 <= j < gpus@.len() ==> !((#[trigger] gpus@[j]).major == dev.0
                        && gpus@[j].minor == dev.1),
                None => true,
            }
        }),
    ensures
        ({
            let a = strmap::kv_text(old(settings)@);
            let b = strmap::kv_text(final(settings)@);
            &&& b.contains_key(k) <==> a.contains_key(k) && k != "gpu_drm_dev"@
            &&& b.contains_key(k) ==> b[k] == a[k]
        }),
{
    let kv = strmap::kv_text(old(settings)@);
    if kv.contains_key("gpu_drm_dev"@) {
        if let Some(dev) = drm_dev_value(kv["gpu_drm_dev"@]) {
            if exists|i: int| first_gpu(gpus@, dev, i) {
                let i = choose|i: int| first_gpu(gpus@, dev, i);
                assert(first_gpu(gpus@, dev, i));
                assert(gpus@[i].major == dev.0);
            }
        }
    }
}

/// The numbers of a node stand before and behind its first colon, in that order.
pub proof fn node_numbers_stand_around_the_colon(s: &str, r: Option<(u32, u32)>, i: int)
    requires
        call_ensures(parse_drm_dev, (s,), r),
        0 <= i < s@.len(),
        s@[i] == ':',
        forall|j: int| 0 <= j < i ==> s@[j] != ':',
    ensures
        r is Some <==> text::u32_value(s@.take(i)) is Some && text::u32_value(s@.skip(i + 1))
            is Some,
        r matches Some(d) ==> Some(d.0) == text::u32_value(s@.take(i)) && Some(d.1)
            == text::u32_value(s@.skip(i + 1)),
{
    assert(s@.contains(':'));
    assert(text::first_at(s@, ':', i));
    let k = choose|k: int| text::first_at(s@, ':', k);
    assert(text::first_at(s@, ':', k));
    assert(k == i);
}

/// A renderer that has just come up is what it was started as, has no pool yet,
/// and has announced nothing.
pub proof fn started_renderer_is_fresh(
    id: String,
    req: &SpawnRequest,
    def: &RendererDef,
    pid: Option<u32>,
    gpu: DrmNode,
    h: RendererHandle,
)
    requires
        call_ensures(started, (id, req, def, pid, gpu), h),
    ensures
        h@.id == id@,
        h@.wp_type == req.wp_type@,
        h@.name == def.name@,
        (h@.width, h@.height, h@.extent_mode) == (req.width, req.height, req.extent_mode),
        h@.extras == req@.extras,
        h@.pid == pid,
        h@.gpu == gpu,
        h@.events == text::lines(def.events@),
        h@.bind is None,
        h@.caps is None,
        h@.scheme is None,
        h@.sync_fds.len() == 0,
        h@.release_syncobj is None,
        h@.clear == renderer::opaque_black(),
{
}

/// A renderer is up exactly when it says that it is ready, on the GPU it names.
/// Anything else ends the start.
pub proof fn only_ready_ends_the_start_well(
    reply: &RendererEvent,
    shown: &str,
    r: Result<DrmNode, Error>,
)
    requires
        call_ensures(check_init_reply, (reply, shown), r),
    ensures
        r is Ok <==> *reply is Ready,
        *reply matches RendererEvent::Ready { drm_render_major, drm_render_minor } ==> r->Ok_0.major
            == drm_render_major && r->Ok_0.minor == drm_render_minor,
        r is Err ==> r->Err_0 is RendererSpawnFailed,
{
}

/// The message that asks a renderer for a scheme carries the whole scheme, and
/// is sent only where it is not what the renderer was asked for last.
pub proof fn scheme_is_sent_whole_and_once(
    handle: &RendererHandle,
    s: NegotiatedScheme,
    r: Option<NegotiateMsg>,
)
    requires
        call_ensures(negotiate_message, (handle, s), r),
    ensures
        r is None <==> handle@.scheme == Some(s),
        r matches Some(m) ==> {
            &&& m.fourcc == s.fourcc
            &&& m.modifier == s.modifier
            &&& m.plane_count == s.plane_count
            &&& m.sync_mode == s.sync_mode
            &&& m.color == s.color
            &&& m.mem_hint == s.mem_hint
            &&& m.count == s.count
            &&& m.path == s.path.code()
            &&& m.mem_source == s.mem_source.code()
        },
{
}

/// Once it was sent, the scheme is what the renderer was asked for last, and
/// nothing else of the renderer changes.
pub proof fn sent_scheme_is_remembered(
    handle: &mut RendererHandle,
    s: NegotiatedScheme,
    again: Option<NegotiateMsg>,
    after: RendererHandle,
)
    requires
        call_ensures(negotiate_sent, (handle, s), ()),
        after == *final(handle),
        call_ensures(negotiate_message, (&after, s), again),
    ensures
        again is None,
        after@ == (RendererView { scheme: Some(s), ..old(handle)@ }),
{
}

proof fn lemma_without_key(kv: Seq<(Seq<char>, Seq<char>)>, key: Seq<char>, n: int)
    requires
        0 <= n <= kv.len(),
    ensures
        forall|p: (Seq<char>, Seq<char>)| #[trigger]
            without_key(kv, key, n).contains(p) <==> p.0 != key && kv.take(n).contains(p),
    decreases n,
{
    if n > 0 {
        lemma_without_key(kv, key, n - 1);
        let rest = without_key(kv, key, n - 1);
        let all = without_key(kv, key, n);
        assert forall|p: (Seq<char>, Seq<char>)| #[trigger] all.contains(p) <==> p.0 != key
            && kv.take(n).contains(p) by {
            assert(kv.take(n)[n - 1] == kv[n - 1]);
            if kv.take(n - 1).contains(p) {
                let i = kv.take(n - 1).index_of(p);
                assert(kv.take(n)[i] == p);
            }
            if kv.take(n).contains(p) {
                let i = kv.take(n).index_of(p);
                if i < n - 1 {
                    assert(kv.take(n - 1)[i] == p);
                }
            }
            if all.contains(p) {
                let i = all.index_of(p);
                if i < rest.len() {
                    assert(rest[i] == p);
                    assert(rest.contains(p));
                }
            }
            if rest.contains(p) {
                let i = rest.index_of(p);
                assert(all[i] == p);
            }
            if kv[n - 1] == p && p.0 != key {
                assert(all.last() == p);
            }
        }
    } else {
        assert(kv.take(0) =~= Seq::empty());
    }
}

/// Settings are sent as they changed. A frame rate other than zero is sent in
/// place of any that stands among them.
pub proof fn frame_rate_is_sent_once(
    settings: Vec<(String, String)>,
    fps: Option<u32>,
    out: Vec<(String, String)>,
    p: (Seq<char>, Seq<char>),
)
    requires
        call_ensures(setting_changed, (settings, fps), out),
    ensures
        ({
            let a = strmap::pairs_text(settings@);
            let b = strmap::pairs_text(out@);
            let rate = fps matches Some(n) && n != 0;
            &&& !rate ==> b == a
            &&& rate && p.0 != "fps"@ ==> (b.contains(p) <==> a.contains(p))
            &&& rate && p.0 == "fps"@ ==> (b.contains(p) <==> p.1 == text::dec_text(
                fps->0 as nat,
            ))
        }),
{
    let a = strmap::pairs_text(settings@);
    let b = strmap::pairs_text(out@);
    if fps is Some && fps->0 != 0 {
        lemma_without_key(a, "fps"@, a.len() as int);
        assert(a.take(a.len() as int) =~= a);
        let rest = without_key(a, "fps"@, a.len() as int);
        let last = ("fps"@, text::dec_text(fps->0 as nat));
        assert(b == rest.push(last));
        if b.contains(p) {
            let i = b.index_of(p);
            if i < rest.len() {
                assert(rest[i] == p);
                assert(rest.contains(p));
            }
        }
        if rest.contains(p) {
            assert(b[rest.index_of(p)] == p);
        }
        assert(b.last() == last);
    }
}

/// A running renderer is used again only for the same kind of wallpaper, from
/// the same arguments, at the same size and with the same plugin; and it is
/// found wherever there is one.
pub proof fn reused_renderer_fits(
    m: RendererManager,
    req: &SpawnRequest,
    def: Option<&RendererDef>,
    r: Option<String>,
    i: int,
)
    requires
        call_ensures(RendererManager::find_reusable, (&m, req, def), r),
        0 <= i < m@.len(),
        def is Some,
    ensures
        ({
            let fits = |l: LiveRenderer|
                {
                    &&& l.wp_type@ == req.wp_type@
                    &&& l.width == req.width
                    &&& l.height == req.height
                    &&& l.extent_mode == req.extent_mode
                    &&& l.name@ == def->0.name@
                    &&& strmap::kv_text(l.extras@) == strmap::kv_text(req.extras@)
                };
            &&& r is None ==> !fits(m@[i])
            &&& r matches Some(id) ==> exists|k: int|
                0 <= k < m@.len() && (#[trigger] m@[k]).id == id && fits(m@[k])
        }),
{
    if r is None {
        assert(!m@[i].serves(req@, def->0.name@));
    } else {
        let id = r->0;
        let k = choose|k: int|
            0 <= k < m@.len() && (#[trigger] m@[k]).serves(req@, def->0.name@) && m@[k].id == id;
        assert(m@[k].id == id);
    }
}

/// A movement of the pointer reaches a renderer as it was, and only one that
/// asked for the pointer.
pub proof fn pointer_reaches_those_who_asked(
    m: RendererManager,
    id: &str,
    x: u32,
    y: u32,
    timestamp_us: u64,
    modifiers: u32,
    r: Option<PointerMsg>,
)
    requires
        call_ensures(
            RendererManager::send_pointer_motion,
            (&m, id, x, y, timestamp_us, modifiers),
            r,
        ),
    ensures
        r is Some <==> exists|i: int|
            0 <= i < m@.len() && (#[trigger] m@[i]).id@ == id@ && exists|k: int|
                0 <= k < m@[i].events@.len() && (#[trigger] m@[i].events@[k])@ == "pointer"@,
        r matches Some(PointerMsg::Motion { x: a, y: b, timestamp_us: t, modifiers: n }) ==> a == x
            && b == y && t == timestamp_us && n == modifiers,
        r is Some ==> r->0 is Motion,
{
    lemma_wants(m@, id@, "pointer"@);
}

proof fn lemma_wants(v: Seq<LiveRenderer>, id: Seq<char>, kind: Seq<char>)
    ensures
        wants(v, id, kind) <==> exists|i: int|
            0 <= i < v.len() && (#[trigger] v[i]).id@ == id && exists|k: int|
                0 <= k < v[i].events@.len() && (#[trigger] v[i].events@[k])@ == kind,
{
    if wants(v, id, kind) {
        let i = choose|i: int|
            0 <= i < v.len() && (#[trigger] v[i]).id@ == id && text::lines(v[i].events@).contains(
                kind,
            );
        let k = text::lines(v[i].events@).index_of(kind);
        assert(v[i].events@[k]@ == kind);
        assert(v[i].id@ == id);
    }
    if exists|i: int|
        0 <= i < v.len() && (#[trigger] v[i]).id@ == id && exists|k: int|
            0 <= k < v[i].events@.len() && (#[trigger] v[i].events@[k])@ == kind {
        let i = choose|i: int|
            0 <= i < v.len() && (#[trigger] v[i]).id@ == id && exists|k: int|
                0 <= k < v[i].events@.len() && (#[trigger] v[i].events@[k])@ == kind;
        let k = choose|k: int| 0 <= k < v[i].events@.len() && (#[trigger] v[i].events@[k])@ == kind;
        assert(text::lines(v[i].events@)[k] == kind);
        assert(v[i].id@ == id);
    }
}

/// So does a button, and so does a wheel.
pub proof fn buttons_and_wheels_reach_those_who_asked(
    m: RendererManager,
    id: &str,
    x: u32,
    y: u32,
    button: u32,
    state: u32,
    delta_x: u32,
    delta_y: u32,
    source: u32,
    timestamp_us: u64,
    modifiers: u32,
    r: Option<PointerMsg>,
    s: Option<PointerMsg>,
)
    requires
        call_ensures(
            RendererManager::send_pointer_button,
            (&m, id, x, y, button, state, timestamp_us, modifiers),
            r,
        ),
        call_ensures(
            RendererManager::send_pointer_axis,
            (&m, id, x, y, delta_x, delta_y, source, timestamp_us, modifiers),
            s,
        ),
    ensures
        r is Some <==> s is Some,
        r is Some <==> exists|i: int|
            0 <= i < m@.len() && (#[trigger] m@[i]).id@ == id@ && exists|k: int|
                0 <= k < m@[i].events@.len() && (#[trigger] m@[i].events@[k])@ == "pointer"@,
        r is Some ==> (r->0 matches PointerMsg::Button {
            x: a,
            y: b,
            button: c,
            state: d,
            timestamp_us: t,
            modifiers: n,
        } && a == x && b == y && c == button && d == state && t == timestamp_us && n == modifiers),
        s is Some ==> (s->0 matches PointerMsg::Axis {
            x: a,
            y: b,
            delta_x: c,
            delta_y: d,
            source: e,
            timestamp_us: t,
            modifiers: n,
        } && a == x && b == y && c == delta_x && d == delta_y && e == source && t == timestamp_us
            && n == modifiers),
{
    lemma_wants(m@, id@, "pointer"@);
}

/// A fault of the connection means that the renderer is gone exactly where the
/// other end is.
pub proof fn broken_connections_are_told_apart(fault: CodecFault, r: bool)
    requires
        call_ensures(is_peer_gone, (fault,), r),
    ensures
        r <==> fault == CodecFault::PeerClosed || fault == CodecFault::BrokenPipe || fault
            == CodecFault::ConnectionReset || fault == CodecFault::NotConnected,
{
}

/// A plugin that is named is used, or nothing is; where none is named, the one
/// for the type is.
pub proof fn named_plugin_goes_first<'a>(
    req: &SpawnRequest,
    by_name: Option<&'a RendererDef>,
    by_type: Option<&'a RendererDef>,
    r: Result<&'a RendererDef, Error>,
)
    requires
        call_ensures(choose_renderer, (req, by_name, by_type), r),
    ensures
        ({
            let used = if req.renderer_name is Some {
                by_name
            } else {
                by_type
            };
            &&& r is Ok <==> used is Some
            &&& r is Ok ==> Some(r->Ok_0) == used
            &&& r is Err ==> (req.renderer_name is Some <==> r->Err_0 is RendererNotFound)
            &&& r is Err ==> (req.renderer_name is None <==> r->Err_0 is NoRendererForType)
        }),
{
}

/// A renderer that is known is found under its id until it is removed, and no
/// other renderer is touched by either.
pub proof fn known_renderer_is_found(
    m: &mut RendererManager,
    h: LiveRenderer,
    after: RendererManager,
    id: &str,
    r: Option<&LiveRenderer>,
    i: int,
)
    requires
        call_ensures(RendererManager::insert, (m, h), ()),
        after == *final(m),
        id@ == h.id@,
        call_ensures(RendererManager::get, (&after, id), r),
        0 <= i < old(m)@.len(),
    ensures
        r is Some,
        old(m)@[i].id@ != h.id@ ==> after@[i] == old(m)@[i],
        old(m)@[i].id@ == h.id@ ==> after@[i] == h && after@.len() == old(m)@.len(),
        (forall|j: int| 0 <= j < old(m)@.len() ==> (#[trigger] old(m)@[j]).id@ != h.id@)
            ==> after@.len() == old(m)@.len() + 1 && after@.last() == h,
{
    if has_id(old(m)@, h.id@) {
        let k = choose|k: int| 0 <= k < old(m)@.len() && (#[trigger] old(m)@[k]).id@ == h.id@;
        assert(after@ == old(m)@.update(k, h));
        assert(after@[k].id@ == id@);
    } else {
        assert(after@ == old(m)@.push(h));
        assert(after@[old(m)@.len() as int].id@ == id@);
        assert(old(m)@[i].id@ != h.id@);
    }
}

/// Killing and removing leave the same renderers; only a renderer that is known
/// can be killed.
pub proof fn killed_renderer_is_removed(
    m: &mut RendererManager,
    p: &mut RendererManager,
    id: &str,
    r: Result<(), Error>,
    s: bool,
)
    requires
        old(m)@ == old(p)@,
        call_ensures(RendererManager::kill, (m, id), r),
        call_ensures(RendererManager::remove, (p, id), s),
    ensures
        r is Ok <==> s,
        s <==> exists|i: int| 0 <= i < old(m)@.len() && (#[trigger] old(m)@[i]).id@ == id@,
        final(m)@ == final(p)@,
        s ==> final(m)@.len() == old(m)@.len() - 1,
        forall|i: int| 0 <= i < final(m)@.len() ==> (#[trigger] final(m)@[i]).id@ != id@,
{
    if has_id(old(m)@, id@) {
        let k = choose|k: int| 0 <= k < old(m)@.len() && (#[trigger] old(m)@[k]).id@ == id@;
        assert(final(m)@ == old(m)@.remove(k));
        assert(old(p)@[k].id@ == id@);
        assert(final(p)@ == old(p)@.remove(k));
    }
    assert forall|i: int| 0 <= i < final(m)@.len() implies (#[trigger] final(m)@[i]).id@
        != id@ by {
        assert(!has_id(final(m)@, id@));
    }
}

} // verus!
