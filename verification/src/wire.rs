//! What clients of the control plane are told.

use crate::catalog::WallpaperEntry;
use crate::filter_state::{self, pb_rules_from_settings, FilterLogicState, RawRule, RuleStateView};
use crate::layout::ResolvedLayout;
use crate::paths;
use crate::queue::GlobalEvent;
use crate::seqs;
use crate::settings::{
    self, copy_tables, DisplayPrefs, LayoutDefaults, RenderSizePolicy, SettingsStore, SettingsView,
};
use crate::snapshot::{
    DisplayLinkSnapshot, DisplaySnapshot, LibrarySnapshot, RendererSnapshot, RendererStatus,
    RouterEvent,
};
use crate::strmap::{self, StrMap};
use crate::text::{self, parse_u32};
use vstd::prelude::*;

verus! {

broadcast use seqs::group_views;

/// A display, with the layout that the settings give its name and what they
/// override under that name.
#[derive(Debug)]
pub struct DisplayInfo {
    pub display_id: u64,
    pub name: String,
    pub width: u32,
    pub height: u32,
    pub refresh_mhz: u32,
    pub links: Vec<DisplayLinkSnapshot>,
    pub effective_layout: ResolvedLayout,
    pub layout_override: DisplayPrefs,
}

/// What clients are told of a display under the settings.
pub open spec fn tells_display(i: DisplayInfo, s: DisplaySnapshot, v: SettingsView) -> bool {
    &&& i.display_id == s.id
    &&& i.name == s.name
    &&& i.width == s.width
    &&& i.height == s.height
    &&& i.refresh_mhz == s.refresh_mhz
    &&& i.links == s.links
    &&& i.effective_layout == v.layout_for(s.name@)
    &&& i.layout_override == match v.prefs_for(s.name@) {
        Some(p) => p,
        None => DisplayPrefs { fillmode: None, align: None, clear_rgba: None },
    }
}

pub fn display_snapshot_to_pb(s: DisplaySnapshot, store: &SettingsStore) -> (r: DisplayInfo)
    ensures
        tells_display(r, s, store.inner@),
{
    let effective_layout = store.resolved_layout(s.name.as_str());
    let layout_override = match store.display_prefs(s.name.as_str()) {
        Some(p) => p,
        None => DisplayPrefs::default(),
    };
    DisplayInfo {
        display_id: s.id,
        name: s.name,
        width: s.width,
        height: s.height,
        refresh_mhz: s.refresh_mhz,
        links: s.links,
        effective_layout,
        layout_override,
    }
}

/// A running renderer.
#[derive(Debug)]
pub struct RendererInstance {
    pub renderer_id: String,
    pub fps: u32,
    pub status: RendererStatus,
    pub name: String,
    pub pid: u32,
}

/// Frame rate that the settings of a plugin ask for, zero where they say
/// nothing of use.
pub open spec fn fps_of(v: SettingsView, plugin: Seq<char>) -> u32 {
    if v.plugins.contains_key(plugin) && v.plugins[plugin].contains_key("fps"@) {
        match text::u32_value(v.plugins[plugin]["fps"@]) {
            Some(n) => n,
            None => 0,
        }
    } else {
        0
    }
}

pub fn plugin_fps(store: &SettingsStore, plugin: &str) -> (r: u32)
    ensures
        r == fps_of(store.inner@, plugin@),
{
    match store.inner.plugins.get(plugin) {
        Some(table) => match table.get("fps") {
            Some(v) => match parse_u32(v.as_str()) {
                Some(n) => n,
                None => 0,
            },
            None => 0,
        },
        None => 0,
    }
}

pub open spec fn tells_renderer(i: RendererInstance, s: RendererSnapshot, v: SettingsView) -> bool {
    &&& i.renderer_id == s.id
    &&& i.fps == fps_of(v, s.name@)
    &&& i.status == s.status
    &&& i.name == s.name
    &&& i.pid == s.pid
}

pub fn renderer_snapshot_to_pb(s: RendererSnapshot, store: &SettingsStore) -> (r: RendererInstance)
    ensures
        tells_renderer(r, s, store.inner@),
{
    let fps: u32 = plugin_fps(store, s.name.as_str());
    RendererInstance { renderer_id: s.id, fps, status: s.status, name: s.name, pid: s.pid }
}

/// The settings as clients see them.
#[derive(Debug)]
pub struct SettingsInfo {
    pub target_extent: u32,
    pub render_size_policy: RenderSizePolicy,
    pub wallpaper_filters: Vec<RawRule>,
    pub wallpaper_filter_logics: Vec<FilterLogicState>,
    pub layout_defaults: LayoutDefaults,
    pub plugins: StrMap<StrMap<String>>,
}

pub open spec fn tells_settings(i: SettingsInfo, v: SettingsView) -> bool {
    &&& i.target_extent == v.global.target_extent
    &&& i.render_size_policy == v.global.render_size_policy
    &&& seqs::views(i.wallpaper_filters@) == v.global.wallpaper_filter.filters.map_values(
        |f: RuleStateView| filter_state::rule_sent(f),
    )
    &&& i.wallpaper_filter_logics@ == v.global.wallpaper_filter.filter_logics
    &&& i.layout_defaults == v.global.layout
    &&& settings::tables_text(i.plugins@) == v.plugins
}

pub fn settings_info(store: &SettingsStore) -> (r: SettingsInfo)
    ensures
        tells_settings(r, store.inner@),
{
    let g = store.global();
    SettingsInfo {
        target_extent: g.target_extent,
        render_size_policy: g.render_size_policy,
        wallpaper_filters: pb_rules_from_settings(&g.wallpaper_filter),
        wallpaper_filter_logics: g.wallpaper_filter.filter_logics,
        layout_defaults: g.layout,
        plugins: copy_tables(&store.inner.plugins),
    }
}

/// An event of the control plane.
#[derive(Debug)]
pub enum WireEvent {
    DisplaySnapshot(Vec<DisplayInfo>),
    DisplayChanged(DisplayInfo),
    DisplayRemoved(u64),
    RendererSnapshot(Vec<RendererInstance>),
    RendererChanged(RendererInstance),
    RendererRemoved(String),
    LibrarySnapshot(Vec<LibrarySnapshot>),
    LibraryChanged(LibrarySnapshot),
    LibraryRemoved(i64),
    StatusSync { scan_in_progress: bool, active_task_count: u32 },
    WallpaperScanStarted,
    WallpaperScanCompleted { count: u32, error: String },
    LibrariesAdded { paths: Vec<String> },
    SettingsChanged(SettingsInfo),
}

pub open spec fn tells_displays(
    out: Seq<DisplayInfo>,
    list: Seq<DisplaySnapshot>,
    v: SettingsView,
) -> bool {
    out.len() == list.len() && forall|i: int|
        0 <= i < out.len() ==> tells_display(#[trigger] out[i], list[i], v)
}

pub open spec fn tells_renderers(
    out: Seq<RendererInstance>,
    list: Seq<RendererSnapshot>,
    v: SettingsView,
) -> bool {
    out.len() == list.len() && forall|i: int|
        0 <= i < out.len() ==> tells_renderer(#[trigger] out[i], list[i], v)
}

pub fn display_infos(list: Vec<DisplaySnapshot>, store: &SettingsStore) -> (out: Vec<DisplayInfo>)
    ensures
        tells_displays(out@, list@, store.inner@),
{
    let ghost all = list@;
    let mut rest = list;
    let mut back: Vec<DisplayInfo> = Vec::new();
    while rest.len() > 0
        invariant
            rest@.len() + back@.len() == all.len(),
            rest@ == all.take(rest@.len() as int),
            forall|i: int|
                0 <= i < back@.len() ==> tells_display(
                    #[trigger] back@[i],
                    all[all.len() - 1 - i],
                    store.inner@,
                ),
        decreases rest.len(),
    {
        match rest.pop() {
            Some(s) => {
                back.push(display_snapshot_to_pb(s, store));
            },
            None => {},
        }
        assert(rest@ =~= all.take(rest@.len() as int));
    }
    let ghost turned = back@;
    let mut out: Vec<DisplayInfo> = Vec::new();
    while back.len() > 0
        invariant
            back@.len() + out@.len() == turned.len(),
            turned.len() == all.len(),
            back@ == turned.take(back@.len() as int),
            forall|i: int|
                0 <= i < turned.len() ==> tells_display(
                    #[trigger] turned[i],
                    all[all.len() - 1 - i],
                    store.inner@,
                ),
            forall|i: int|
                0 <= i < out@.len() ==> tells_display(#[trigger] out@[i], all[i], store.inner@),
        decreases back.len(),
    {
        let ghost k = back@.len() - 1;
        match back.pop() {
            Some(d) => {
                assert(d == turned[k]);
                out.push(d);
            },
            None => {},
        }
        assert(back@ =~= turned.take(back@.len() as int));
    }
    out
}

pub fn renderer_infos(list: Vec<RendererSnapshot>, store: &SettingsStore) -> (out: Vec<
    RendererInstance,
>)
    ensures
        tells_renderers(out@, list@, store.inner@),
{
    let ghost all = list@;
    let mut rest = list;
    let mut back: Vec<RendererInstance> = Vec::new();
    while rest.len() > 0
        invariant
            rest@.len() + back@.len() == all.len(),
            rest@ == all.take(rest@.len() as int),
            forall|i: int|
                0 <= i < back@.len() ==> tells_renderer(
                    #[trigger] back@[i],
                    all[all.len() - 1 - i],
                    store.inner@,
                ),
        decreases rest.len(),
    {
        match rest.pop() {
            Some(s) => {
                back.push(renderer_snapshot_to_pb(s, store));
            },
            None => {},
        }
        assert(rest@ =~= all.take(rest@.len() as int));
    }
    let ghost turned = back@;
    let mut out: Vec<RendererInstance> = Vec::new();
    while back.len() > 0
        invariant
            back@.len() + out@.len() == turned.len(),
            turned.len() == all.len(),
            back@ == turned.take(back@.len() as int),
            forall|i: int|
                0 <= i < turned.len() ==> tells_renderer(
                    #[trigger] turned[i],
                    all[all.len() - 1 - i],
                    store.inner@,
                ),
            forall|i: int|
                0 <= i < out@.len() ==> tells_renderer(#[trigger] out@[i], all[i], store.inner@),
        decreases back.len(),
    {
        let ghost k = back@.len() - 1;
        match back.pop() {
            Some(d) => {
                assert(d == turned[k]);
                out.push(d);
            },
            None => {},
        }
        assert(back@ =~= turned.take(back@.len() as int));
    }
    out
}

/// The event tells of a change of the routing.
pub open spec fn tells_router(r: WireEvent, e: RouterEvent, v: SettingsView) -> bool {
    match e {
        RouterEvent::DisplayUpsert(s) => r matches WireEvent::DisplayChanged(i)
            && tells_display(i, s, v),
        RouterEvent::DisplayRemoved(id) => r == WireEvent::DisplayRemoved(id),
        RouterEvent::DisplaysReplace(l) => r matches WireEvent::DisplaySnapshot(o)
            && tells_displays(o@, l@, v),
        RouterEvent::RendererUpsert(s) => r matches WireEvent::RendererChanged(i)
            && tells_renderer(i, s, v),
        RouterEvent::RendererRemoved(id) => r == WireEvent::RendererRemoved(id),
        RouterEvent::RenderersReplace(l) => r matches WireEvent::RendererSnapshot(o)
            && tells_renderers(o@, l@, v),
        RouterEvent::LibraryUpsert(s) => r == WireEvent::LibraryChanged(s),
        RouterEvent::LibraryRemoved(id) => r == WireEvent::LibraryRemoved(id),
        RouterEvent::LibrariesReplace(l) => r == WireEvent::LibrarySnapshot(l),
    }
}

/// What clients are told of a change of the routing.
pub fn router_event_to_pb(e: RouterEvent, store: &SettingsStore) -> (r: WireEvent)
    ensures
        tells_router(r, e, store.inner@),
{
    match e {
        RouterEvent::DisplayUpsert(s) => WireEvent::DisplayChanged(
            display_snapshot_to_pb(s, store),
        ),
        RouterEvent::DisplayRemoved(id) => WireEvent::DisplayRemoved(id),
        RouterEvent::DisplaysReplace(l) => WireEvent::DisplaySnapshot(display_infos(l, store)),
        RouterEvent::RendererUpsert(s) => WireEvent::RendererChanged(
            renderer_snapshot_to_pb(s, store),
        ),
        RouterEvent::RendererRemoved(id) => WireEvent::RendererRemoved(id),
        RouterEvent::RenderersReplace(l) => WireEvent::RendererSnapshot(renderer_infos(l, store)),
        RouterEvent::LibraryUpsert(s) => WireEvent::LibraryChanged(s),
        RouterEvent::LibraryRemoved(id) => WireEvent::LibraryRemoved(id),
        RouterEvent::LibrariesReplace(l) => WireEvent::LibrarySnapshot(l),
    }
}

/// The event, if any, tells of a daemon-wide change. Changes that concern the
/// daemon alone are not told.
pub open spec fn tells_global(r: Option<WireEvent>, e: GlobalEvent, v: SettingsView) -> bool {
    match e {
        GlobalEvent::ScanStarted => r == Some(WireEvent::WallpaperScanStarted),
        GlobalEvent::ScanCompleted { count } => {
            r matches Some(WireEvent::WallpaperScanCompleted { count: n, error })
                && n == count as u32 && error@ == Seq::<char>::empty()
        },
        GlobalEvent::ScanFailed(m) => {
            r matches Some(WireEvent::WallpaperScanCompleted { count: n, error }) && n == 0
                && error == m
        },
        GlobalEvent::LibrariesAdded { paths } => {
            r matches Some(WireEvent::LibrariesAdded { paths: p }) && text::lines(p@)
                == text::lines(paths@)
        },
        GlobalEvent::SettingsChanged => r matches Some(WireEvent::SettingsChanged(i))
            && tells_settings(i, v),
        GlobalEvent::SourcesReady | GlobalEvent::DisplayReady | GlobalEvent::RestoreApplied(_)
        | GlobalEvent::RestoreFailed(_) | GlobalEvent::StatusChanged => r is None,
    }
}

/// What clients are told of a daemon-wide change.
pub fn global_event_to_pb(e: &GlobalEvent, store: &SettingsStore) -> (r: Option<WireEvent>)
    ensures
        tells_global(r, *e, store.inner@),
{
    match e {
        GlobalEvent::ScanStarted => Some(WireEvent::WallpaperScanStarted),
        GlobalEvent::ScanCompleted { count } => Some(
            WireEvent::WallpaperScanCompleted { count: *count as u32, error: String::new() },
        ),
        GlobalEvent::ScanFailed(m) => Some(
            WireEvent::WallpaperScanCompleted { count: 0, error: m.clone() },
        ),
        GlobalEvent::LibrariesAdded { paths } => Some(
            WireEvent::LibrariesAdded { paths: text::copy_lines(paths) },
        ),
        GlobalEvent::SettingsChanged => Some(WireEvent::SettingsChanged(settings_info(store))),
        GlobalEvent::SourcesReady => None,
        GlobalEvent::DisplayReady => None,
        GlobalEvent::RestoreApplied(_) => None,
        GlobalEvent::RestoreFailed(_) => None,
        GlobalEvent::StatusChanged => None,
    }
}

/// State of a background task.
#[derive(Debug, Clone, Copy, PartialEq, Eq, Structural)]
pub enum TaskState {
    Queued,
    Running,
    Completed,
    Failed,
    Cancelled,
}

/// How many of the first `n` tasks run.
pub open spec fn running(tasks: Seq<TaskState>, n: int) -> nat
    decreases n,
{
    if n <= 0 {
        0
    } else {
        running(tasks, n - 1) + if tasks[n - 1] == TaskState::Running {
            1nat
        } else {
            0nat
        }
    }
}

/// State of the daemon for display.
pub fn status_sync_event(scan_in_progress: bool, tasks: &Vec<TaskState>) -> (r: WireEvent)
    ensures
        r == (WireEvent::StatusSync {
            scan_in_progress,
            active_task_count: running(tasks@, tasks@.len() as int) as u32,
        }),
{
    let mut n: usize = 0;
    let mut i: usize = 0;
    while i < tasks.len()
        invariant
            i <= tasks@.len(),
            n == running(tasks@, i as int),
            n <= i,
        decreases tasks.len() - i,
    {
        if tasks[i] == TaskState::Running {
            n = n + 1;
        }
        i = i + 1;
    }
    WireEvent::StatusSync { scan_in_progress, active_task_count: n as u32 }
}

// ---------------------------------------------------------------------------
// Wallpapers
// ---------------------------------------------------------------------------

/// What the database knows of a wallpaper.
#[derive(Debug)]
pub struct ItemMeta {
    pub library_id: i64,
    pub path: String,
    pub size: Option<i64>,
    pub width: Option<i32>,
    pub height: Option<i32>,
    pub format: Option<String>,
    /// Path of the preview below the library.
    pub preview_path: Option<String>,
}

/// A wallpaper as clients see it.
#[derive(Debug)]
pub struct WallpaperInfo {
    pub id: String,
    pub name: String,
    pub wp_type: String,
    pub resource: String,
    pub preview: String,
    pub metadata: StrMap<String>,
    pub size: i64,
    pub width: u32,
    pub height: u32,
    pub format: String,
}

/// The first value that is there, zero where none is.
pub open spec fn either_i64(a: Option<i64>, b: Option<i64>) -> i64 {
    match (a, b) {
        (Some(x), _) => x,
        (None, Some(y)) => y,
        (None, None) => 0,
    }
}

pub open spec fn either_u32(a: Option<i32>, b: Option<u32>) -> u32 {
    match (a, b) {
        (Some(x), _) => x as u32,
        (None, Some(y)) => y,
        (None, None) => 0,
    }
}

pub open spec fn either_text(a: Option<String>, b: Option<String>) -> Seq<char> {
    match (a, b) {
        (Some(x), _) => x@,
        (None, Some(y)) => y@,
        (None, None) => Seq::empty(),
    }
}

/// What clients are told of a wallpaper: what the database knows goes before
/// what the plugin said.
pub open spec fn tells_entry(i: WallpaperInfo, e: WallpaperEntry, m: Option<ItemMeta>) -> bool {
    &&& i.id == e.id
    &&& i.name == e.name
    &&& i.wp_type == e.wp_type
    &&& i.resource == e.resource
    &&& strmap::kv_text(i.metadata@) == strmap::kv_text(e.metadata@)
    &&& match m {
        Some(m) => {
            &&& i.size == either_i64(m.size, e.size)
            &&& i.width == either_u32(m.width, e.width)
            &&& i.height == either_u32(m.height, e.height)
            &&& i.format@ == either_text(m.format, e.format)
            &&& i.preview@ == match m.preview_path {
                Some(p) => paths::continued(e.library_root@, p@),
                None => either_text(None, e.preview),
            }
        },
        None => {
            &&& i.size == either_i64(None, e.size)
            &&& i.width == either_u32(None, e.width)
            &&& i.height == either_u32(None, e.height)
            &&& i.format@ == either_text(None, e.format)
            &&& i.preview@ == either_text(None, e.preview)
        },
    }
}

fn or_u32(a: Option<i32>, b: Option<u32>) -> (r: u32)
    ensures
        r == either_u32(a, b),
{
    match (a, b) {
        (Some(x), _) => #[verifier::truncate] (x as u32),
        (None, Some(y)) => y,
        (None, None) => 0,
    }
}

pub fn entry_to_pb(e: &WallpaperEntry, meta: Option<&ItemMeta>) -> (r: WallpaperInfo)
    ensures
        tells_entry(
            r,
            *e,
            match meta {
                Some(m) => Some(*m),
                None => None,
            },
        ),
{
    let own_preview = match &e.preview {
        Some(p) => p.clone(),
        None => String::new(),
    };
    let own_format = match &e.format {
        Some(f) => f.clone(),
        None => String::new(),
    };
    let own_size: i64 = match e.size {
        Some(s) => s,
        None => 0,
    };
    let (size, width, height, format, preview): (i64, u32, u32, String, String) = match meta {
        Some(m) => (
            match m.size {
                Some(s) => s,
                None => own_size,
            },
            or_u32(m.width, e.width),
            or_u32(m.height, e.height),
            match &m.format {
                Some(f) => f.clone(),
                None => own_format,
            },
            match &m.preview_path {
                Some(p) => paths::join(e.library_root.as_str(), p.as_str()),
                None => own_preview,
            },
        ),
        None => (
            own_size,
            or_u32(None, e.width),
            or_u32(None, e.height),
            own_format,
            own_preview,
        ),
    };
    WallpaperInfo {
        id: e.id.clone(),
        name: e.name.clone(),
        wp_type: e.wp_type.clone(),
        resource: e.resource.clone(),
        preview,
        metadata: e.metadata.copy(),
        size,
        width,
        height,
        format,
    }
}

// ---------------------------------------------------------------------------
// A connection
// ---------------------------------------------------------------------------

/// A message of a client.
#[derive(Debug, Clone, Copy, PartialEq, Eq, Structural)]
pub enum MessageKind {
    Binary,
    Text,
    Ping,
    Pong,
    Frame,
    Close,
}

#[derive(Debug, Clone, Copy, PartialEq, Eq, Structural)]
pub enum MessageAction {
    /// It holds a request.
    Decode,
    Ignore,
    Close,
}

pub fn on_message(kind: MessageKind) -> (r: MessageAction)
    ensures
        r == match kind {
            MessageKind::Binary | MessageKind::Text => MessageAction::Decode,
            MessageKind::Ping | MessageKind::Pong | MessageKind::Frame => MessageAction::Ignore,
            MessageKind::Close => MessageAction::Close,
        },
{
    match kind {
        MessageKind::Binary => MessageAction::Decode,
        MessageKind::Text => MessageAction::Decode,
        MessageKind::Ping => MessageAction::Ignore,
        MessageKind::Pong => MessageAction::Ignore,
        MessageKind::Frame => MessageAction::Ignore,
        MessageKind::Close => MessageAction::Close,
    }
}

/// What came from a channel of events.
#[derive(Debug)]
pub enum Received<T> {
    Event(T),
    /// Events were lost.
    Lagged,
    Closed,
}

/// What a connection sends, or does, on its own.
#[derive(Debug)]
pub enum Push {
    Event(WireEvent),
    /// A full picture of the displays, renderers, libraries or the status.
    Displays,
    Renderers,
    Libraries,
    Status,
    /// No more events come; requests are still served.
    StopEvents,
}

/// What a new connection is sent first.
pub fn first_pushes() -> (out: Vec<Push>)
    ensures
        out@ == seq![Push::Displays, Push::Renderers, Push::Libraries, Push::Status],
{
    let mut out: Vec<Push> = Vec::new();
    out.push(Push::Displays);
    out.push(Push::Renderers);
    out.push(Push::Libraries);
    out.push(Push::Status);
    assert(out@ =~= seq![Push::Displays, Push::Renderers, Push::Libraries, Push::Status]);
    out
}

pub fn on_global(e: Received<GlobalEvent>, store: &SettingsStore) -> (out: Vec<Push>)
    ensures
        match e {
            Received::Event(GlobalEvent::StatusChanged) => out@ == seq![Push::Status],
            Received::Event(g) => {
                ||| out@.len() == 0 && tells_global(None, g, store.inner@)
                ||| out@.len() == 1 && out@[0] is Event && tells_global(
                    Some(out@[0]->Event_0),
                    g,
                    store.inner@,
                )
            },
            Received::Lagged => out@ == seq![Push::Status],
            Received::Closed => out@.len() == 0,
        },
{
    let mut out: Vec<Push> = Vec::new();
    match e {
        Received::Event(g) => {
            match global_event_to_pb(&g, store) {
                Some(w) => {
                    out.push(Push::Event(w));
                },
                None => {},
            }
            match g {
                GlobalEvent::StatusChanged => {
                    out.push(Push::Status);
                    assert(out@ =~= seq![Push::Status]);
                },
                _ => {},
            }
        },
        Received::Lagged => {
            out.push(Push::Status);
            assert(out@ =~= seq![Push::Status]);
        },
        Received::Closed => {},
    }
    out
}

pub fn on_task(e: Received<()>) -> (out: Vec<Push>)
    ensures
        out@ == match e {
            Received::Closed => Seq::empty(),
            _ => seq![Push::Status],
        },
{
    let mut out: Vec<Push> = Vec::new();
    match e {
        Received::Event(_) => {
            out.push(Push::Status);
        },
        Received::Lagged => {
            out.push(Push::Status);
        },
        Received::Closed => {},
    }
    assert(e !is Closed ==> out@ =~= seq![Push::Status]);
    out
}

pub fn on_router(e: Received<RouterEvent>, store: &SettingsStore) -> (out: Vec<Push>)
    ensures
        match e {
            Received::Event(r) => {
                &&& out@.len() == 1
                &&& out@[0] is Event
                &&& tells_router(out@[0]->Event_0, r, store.inner@)
            },
            Received::Lagged => out@ == seq![Push::Displays, Push::Renderers],
            Received::Closed => out@ == seq![Push::StopEvents],
        },
{
    let mut out: Vec<Push> = Vec::new();
    match e {
        Received::Event(r) => {
            out.push(Push::Event(router_event_to_pb(r, store)));
        },
        Received::Lagged => {
            out.push(Push::Displays);
            out.push(Push::Renderers);
            assert(out@ =~= seq![Push::Displays, Push::Renderers]);
        },
        Received::Closed => {
            out.push(Push::StopEvents);
            assert(out@ =~= seq![Push::StopEvents]);
        },
    }
    out
}

// ---------------------------------------------------------------------------
// Laws
// ---------------------------------------------------------------------------

/// Clients are told of a display what the router has of it, and the layout that
/// the settings give a display of that name.
pub proof fn display_is_told_as_it_is(s: DisplaySnapshot, store: &SettingsStore, r: DisplayInfo)
    requires
        call_ensures(display_snapshot_to_pb, (s, store), r),
    ensures
        r.display_id == s.id,
        r.name == s.name,
        (r.width, r.height, r.refresh_mhz) == (s.width, s.height, s.refresh_mhz),
        r.links == s.links,
        ({
            let v = store.inner@;
            let d = v.global.layout;
            let known = v.displays.contains_key(s.name@);
            let o = r.layout_override;
            &&& known ==> o == v.displays[s.name@]
            &&& !known ==> o.fillmode is None && o.align is None && o.clear_rgba is None
            &&& o.fillmode matches Some(x) ==> r.effective_layout.fillmode == x
            &&& o.fillmode is None ==> r.effective_layout.fillmode == d.fillmode
            &&& o.align matches Some(x) ==> r.effective_layout.align == x
            &&& o.align is None ==> r.effective_layout.align == d.align
            &&& o.clear_rgba matches Some(x) ==> r.effective_layout.clear_rgba == x
            &&& o.clear_rgba is None ==> r.effective_layout.clear_rgba == d.clear_rgba
        }),
{
}

/// Clients are told of a renderer what the router has of it, and the frame rate
/// that the settings of its plugin name.
pub proof fn renderer_is_told_as_it_is(
    s: RendererSnapshot,
    store: &SettingsStore,
    r: RendererInstance,
)
    requires
        call_ensures(renderer_snapshot_to_pb, (s, store), r),
    ensures
        r.renderer_id == s.id,
        r.name == s.name,
        r.status == s.status,
        r.pid == s.pid,
        ({
            let all = store.inner@.plugins;
            let set = all.contains_key(s.name@) && all[s.name@].contains_key("fps"@);
            &&& !set ==> r.fps == 0
            &&& set && text::u32_value(all[s.name@]["fps"@]) is None ==> r.fps == 0
            &&& set && text::u32_value(all[s.name@]["fps"@]) is Some ==> Some(r.fps)
                == text::u32_value(all[s.name@]["fps"@])
        }),
{
}

/// An event of the router is told under the name of what happened, with what it
/// carries.
pub proof fn router_event_is_told(e: RouterEvent, store: &SettingsStore, r: WireEvent)
    requires
        call_ensures(router_event_to_pb, (e, store), r),
    ensures
        e matches RouterEvent::DisplayUpsert(s) ==> (r matches WireEvent::DisplayChanged(i)
            && i.display_id == s.id),
        e matches RouterEvent::DisplayRemoved(id) ==> r == WireEvent::DisplayRemoved(id),
        e matches RouterEvent::DisplaysReplace(l) ==> (r matches WireEvent::DisplaySnapshot(o)
            && o@.len() == l@.len() && forall|i: int|
            0 <= i < l@.len() ==> (#[trigger] o@[i]).display_id == l@[i].id),
        e matches RouterEvent::RendererUpsert(s) ==> (r matches WireEvent::RendererChanged(i)
            && i.renderer_id == s.id),
        e matches RouterEvent::RendererRemoved(id) ==> r == WireEvent::RendererRemoved(id),
        e matches RouterEvent::RenderersReplace(l) ==> (r matches WireEvent::RendererSnapshot(o)
            && o@.len() == l@.len() && forall|i: int|
            0 <= i < l@.len() ==> (#[trigger] o@[i]).renderer_id == l@[i].id),
        e matches RouterEvent::LibraryUpsert(s) ==> r == WireEvent::LibraryChanged(s),
        e matches RouterEvent::LibraryRemoved(id) ==> r == WireEvent::LibraryRemoved(id),
        e matches RouterEvent::LibrariesReplace(l) ==> r == WireEvent::LibrarySnapshot(l),
{
}

/// What concerns clients is told, and nothing else.
pub proof fn daemon_event_is_told(e: &GlobalEvent, store: &SettingsStore, r: Option<WireEvent>)
    requires
        call_ensures(global_event_to_pb, (e, store), r),
    ensures
        r is Some <==> *e is ScanStarted || *e is ScanCompleted || *e is ScanFailed || *e
            is LibrariesAdded || *e is SettingsChanged,
        *e is ScanStarted ==> r == Some(WireEvent::WallpaperScanStarted),
        *e matches GlobalEvent::ScanCompleted { count } ==> (r
            matches Some(WireEvent::WallpaperScanCompleted { count: n, error }) && n == count as u32
            && error@.len() == 0),
        *e matches GlobalEvent::ScanFailed(m) ==> (r
            matches Some(WireEvent::WallpaperScanCompleted { count: n, error }) && n == 0 && error
            == m),
        *e matches GlobalEvent::LibrariesAdded { paths } ==> (r
            matches Some(WireEvent::LibrariesAdded { paths: p }) && p@.len() == paths@.len()
            && forall|i: int| 0 <= i < p@.len() ==> (#[trigger] p@[i])@ == paths@[i]@),
        *e is SettingsChanged ==> (r matches Some(WireEvent::SettingsChanged(i)) && {
            &&& i.target_extent == store.inner@.global.target_extent
            &&& i.render_size_policy == store.inner@.global.render_size_policy
            &&& i.layout_defaults == store.inner@.global.layout
        }),
{
    if let GlobalEvent::LibrariesAdded { paths } = *e {
        if let Some(WireEvent::LibrariesAdded { paths: p }) = r {
            assert(text::lines(p@).len() == p@.len());
            assert forall|i: int| 0 <= i < p@.len() implies (#[trigger] p@[i])@ == paths@[i]@ by {
                assert(text::lines(p@)[i] == p@[i]@);
                assert(text::lines(paths@)[i] == paths@[i]@);
            }
        }
    }
}

proof fn lemma_running(tasks: Seq<TaskState>, n: int)
    requires
        0 <= n <= tasks.len(),
    ensures
        running(tasks, n) == tasks.take(n).filter(|t: TaskState| t == TaskState::Running).len(),
        running(tasks, n) <= n,
    decreases n,
{
    reveal(Seq::filter);
    if n > 0 {
        lemma_running(tasks, n - 1);
        assert(tasks.take(n).drop_last() =~= tasks.take(n - 1));
    }
}

/// The tasks that are told of are those that run.
pub proof fn running_tasks_are_counted(scanning: bool, tasks: &Vec<TaskState>, r: WireEvent)
    requires
        call_ensures(status_sync_event, (scanning, tasks), r),
        tasks@.len() <= u32::MAX,
    ensures
        r matches WireEvent::StatusSync { scan_in_progress, active_task_count } && scan_in_progress
            == scanning && active_task_count == tasks@.filter(
            |t: TaskState| t == TaskState::Running,
        ).len(),
{
    lemma_running(tasks@, tasks@.len() as int);
    assert(tasks@.take(tasks@.len() as int) =~= tasks@);
}

/// Clients are told of a wallpaper what its source said of it, and, first, what
/// was found out about the file.
pub proof fn wallpaper_is_told_as_found(e: &WallpaperEntry, meta: Option<&ItemMeta>, r: WallpaperInfo)
    requires
        call_ensures(entry_to_pb, (e, meta), r),
    ensures
        r.id == e.id,
        r.name == e.name,
        r.wp_type == e.wp_type,
        r.resource == e.resource,
        strmap::kv_text(r.metadata@) == strmap::kv_text(e.metadata@),
        ({
            let size = if meta is Some && meta->0.size is Some {
                meta->0.size
            } else {
                e.size
            };
            &&& size matches Some(n) ==> r.size == n
            &&& size is None ==> r.size == 0
        }),
        meta is Some && meta->0.width is Some ==> r.width == meta->0.width->0 as u32,
        meta is Some && meta->0.height is Some ==> r.height == meta->0.height->0 as u32,
        meta is None || meta->0.width is None ==> r.width == (match e.width {
            Some(n) => n,
            None => 0,
        }),
        meta is None || meta->0.height is None ==> r.height == (match e.height {
            Some(n) => n,
            None => 0,
        }),
        ({
            let format = if meta is Some && meta->0.format is Some {
                meta->0.format
            } else {
                e.format
            };
            &&& format matches Some(f) ==> r.format@ == f@
            &&& format is None ==> r.format@.len() == 0
        }),
        meta is None || meta->0.preview_path is None ==> {
            &&& e.preview matches Some(p) ==> r.preview@ == p@
            &&& e.preview is None ==> r.preview@.len() == 0
        },
{
}

/// Everything is told at first. A client that fell behind is told again what it
/// may have missed.
pub proof fn missed_news_is_told_again(
    store: &SettingsStore,
    first: Vec<Push>,
    global: Vec<Push>,
    task: Vec<Push>,
    routing: Vec<Push>,
)
    requires
        call_ensures(first_pushes, (), first),
        call_ensures(on_global, (Received::<GlobalEvent>::Lagged, store), global),
        call_ensures(on_task, (Received::<()>::Lagged,), task),
        call_ensures(on_router, (Received::<RouterEvent>::Lagged, store), routing),
    ensures
        first@.contains(Push::Displays) && first@.contains(Push::Renderers) && first@.contains(
            Push::Libraries,
        ) && first@.contains(Push::Status),
        global@.contains(Push::Status),
        task@.contains(Push::Status),
        routing@.contains(Push::Displays) && routing@.contains(Push::Renderers),
{
    assert(first@[0] == Push::Displays && first@[1] == Push::Renderers && first@[2]
        == Push::Libraries && first@[3] == Push::Status);
    assert(global@[0] == Push::Status && task@[0] == Push::Status);
    assert(routing@[0] == Push::Displays && routing@[1] == Push::Renderers);
}

/// What carries a request is read; what ends the connection ends it; the rest
/// means nothing.
pub proof fn messages_are_told_apart(kind: MessageKind, r: MessageAction)
    requires
        call_ensures(on_message, (kind,), r),
    ensures
        r == MessageAction::Decode <==> kind == MessageKind::Binary || kind == MessageKind::Text,
        r == MessageAction::Close <==> kind == MessageKind::Close,
{
}

} // verus!
