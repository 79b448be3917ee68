//! Requests of the control plane.
//!
//! A request is served in turns. Each turn either gives the reply, or asks for
//! one piece of work outside (the database, a renderer process, a plugin) and
//! says what to wait for; the answer leads to the next turn. What has to be
//! done besides, and needs no answer, is put on a list of orders.

use crate::catalog::{SourceManager, SourcePluginInfo};
use crate::error::Error;
use crate::filter::{FilterLogic, WallpaperFilterRule};
use crate::filter_state::{FilterLogicState, RawRule};
use crate::layout::{Align, FillMode};
use crate::queue::{GlobalEvent, Mode, QueueState, QueueStatus};
use crate::registry::{self, RendererDef, SettingDef};
use crate::renderer::{ClearColor, RendererHandle};
use crate::router::{self, Effect, Router};
use crate::seqs;
use crate::settings::{
    self, DisplayPrefs, LayoutChange, RenderSizePolicy, SettingsStore, AS_GIVEN,
};
use crate::snapshot::{LibrarySnapshot, RendererStatus};
use crate::spawn::{self, LiveRenderer, RendererManager, SpawnRequest, SpawnView};
use crate::strmap::{self, StrMap};
use crate::text::{self, copy_lines, dec_string, str_eq};
use crate::wire::{self, plugin_fps, DisplayInfo, RendererInstance, SettingsInfo, WallpaperInfo};
use list::Media;
use vstd::prelude::*;

pub mod apply;
pub mod change;
pub mod control;
pub mod list;
pub mod outcomes;
pub mod serve;

verus! {

broadcast use seqs::group_views;

/// A message to a renderer.
#[derive(Debug, Clone, Copy, PartialEq, Eq, Structural)]
pub enum ControlMsg {
    Play,
    Pause,
    /// Coordinates as bit patterns of floating-point numbers.
    Mouse { x: u64, y: u64 },
    SetFps { fps: u32 },
}

/// New daemon-wide settings. What is not given, or not understood, stays.
#[derive(Debug)]
pub struct GlobalChange {
    pub target_extent: u32,
    pub render_size_policy: RenderSizePolicy,
    pub wallpaper_filters: Vec<RawRule>,
    pub wallpaper_filter_logics: Vec<FilterLogicState>,
    pub fillmode: Option<FillMode>,
    pub align: Option<Align>,
    pub clear_rgba: Option<ClearColor>,
}

/// What a client says of a display's layout: a field counts where its flag is
/// set and its value is understood.
#[derive(Debug, Clone, Copy, PartialEq, Eq, Structural)]
pub struct LayoutOverride {
    pub fillmode_set: bool,
    pub fillmode: Option<FillMode>,
    pub align_set: bool,
    pub align: Option<Align>,
    pub clear_rgba_set: bool,
    pub clear_rgba: Option<ClearColor>,
}

#[derive(Debug)]
pub enum Request {
    Health,
    RendererSpawn {
        wp_type: String,
        metadata: StrMap<String>,
        fps: u32,
        width: u32,
        height: u32,
    },
    RendererList,
    RendererPlay(String),
    RendererPause(String),
    RendererMouse { renderer_id: String, x: u64, y: u64 },
    RendererFps { renderer_id: String, fps: u32 },
    RendererKill(String),
    RendererPluginList,
    WallpaperList {
        wp_type: String,
        filters: Vec<WallpaperFilterRule>,
        logics: Vec<FilterLogic>,
        page: u32,
        page_size: u32,
    },
    WallpaperScan,
    WallpaperApply { wallpaper_id: String, renderer_name: String, display_ids: Vec<u64> },
    SourceList,
    DisplayList,
    DisplayLayoutSet {
        name: String,
        layout: Option<LayoutOverride>,
        clear_fillmode: bool,
        clear_align: bool,
        clear_clear_rgba: bool,
    },
    SettingsGet,
    SettingsSet { plugins: StrMap<StrMap<String>>, global: Option<GlobalChange> },
    LibraryList,
    LibraryAdd { plugin_name: String, path: String },
    LibraryAutoDetect,
    LibraryRemove(i64),
    PlaylistList,
    PlaylistCreate { name: String, mode: Mode, interval_secs: u32, item_ids: Vec<i64> },
    PlaylistDelete(i64),
    PlaylistRename { id: i64, name: String },
    PlaylistSetItems { id: i64, item_ids: Vec<i64> },
    PlaylistSetMode { id: i64, mode: Mode },
    PlaylistSetInterval { id: i64, interval_secs: u32 },
    PlaylistActivate(i64),
    PlaylistDeactivate,
    PlaylistStatus,
}

/// A renderer plugin, with its settings in display order.
#[derive(Debug)]
pub struct RendererPluginInfo {
    pub name: String,
    pub bin: String,
    pub types: Vec<String>,
    pub priority: i32,
    pub version: String,
    pub settings: Vec<String>,
}

/// A playlist of the database.
#[derive(Debug)]
pub struct PlaylistRow {
    pub id: i64,
    pub name: String,
    pub source_kind: String,
    pub mode: String,
    pub interval_secs: i32,
    pub item_count: u32,
}

#[derive(Debug)]
pub struct PlaylistSummary {
    pub id: i64,
    pub name: String,
    pub source_kind: String,
    pub mode: Option<Mode>,
    pub interval_secs: u32,
    pub item_count: u32,
}

#[derive(Debug)]
pub struct PlaylistStatusReply {
    pub active_id: i64,
    pub mode: Option<Mode>,
    pub interval_secs: u32,
    pub current_id: String,
    pub position: u32,
    pub count: u32,
    pub is_smart: bool,
}

#[allow(inconsistent_fields)]
#[derive(Debug)]
pub enum Reply {
    Health { service: &'static str, state: &'static str },
    RendererSpawn { renderer_id: String },
    RendererList { renderers: Vec<String>, instances: Vec<RendererInstance> },
    RendererPlay,
    RendererPause,
    RendererMouse,
    RendererFps,
    RendererKill,
    RendererPluginList { renderers: Vec<RendererPluginInfo>, supported_types: Vec<String> },
    WallpaperList { wallpapers: Vec<WallpaperInfo>, count: u32 },
    WallpaperScan { count: u32 },
    WallpaperApply { renderer_id: String, wallpaper_id: String, wp_type: String, name: String },
    SourceList(Vec<SourcePluginInfo>),
    DisplayList(Vec<DisplayInfo>),
    DisplayLayoutSet { display: Option<DisplayInfo> },
    SettingsGet(SettingsInfo),
    SettingsSet,
    LibraryList(Vec<LibrarySnapshot>),
    LibraryAdd,
    LibraryAutoDetect { added: Vec<LibrarySnapshot> },
    LibraryRemove,
    PlaylistList(Vec<PlaylistSummary>),
    PlaylistCreate { id: i64 },
    PlaylistDelete,
    PlaylistRename,
    PlaylistSetItems,
    PlaylistSetMode,
    PlaylistSetInterval,
    PlaylistActivate,
    PlaylistDeactivate,
    PlaylistStatus(PlaylistStatusReply),
}

/// A setting whose value is to be brought into the form its manifest asks for.
#[derive(Debug)]
pub struct SettingCheck {
    pub plugin: String,
    pub key: String,
    pub value: String,
}

/// Changed settings for a running renderer.
#[derive(Debug)]
pub struct SettingsSend {
    pub renderer_id: String,
    pub plugin: String,
    pub kv: Vec<(String, String)>,
}

/// Work outside that is waited for.
#[derive(Debug)]
pub enum Ask {
    Spawn(SpawnRequest),
    SendControl { renderer_id: String, msg: ControlMsg },
    /// What the database knows of all wallpapers.
    LoadMedia,
    /// Keys of the wallpapers that pass a filter.
    MatchFilters { filters: Vec<WallpaperFilterRule>, logics: Vec<FilterLogic> },
    /// Start arguments for a wallpaper, from its plugin.
    Extras { plugin_name: String, wallpaper_id: String },
    /// Wait until the displays have let go of the pools that were taken from
    /// them, though no longer than the time given.
    AwaitUnbind { displays: Vec<u64>, timeout_ms: u64 },
    /// Number of a wallpaper in the database.
    FindItem { library_root: String, relative: String },
    CheckSettings(Vec<SettingCheck>),
    SendSettings(Vec<SettingsSend>),
    ListLibraries,
    FindPlugin(String),
    AddLibrary { plugin_id: i64, path: String },
    AutoDetect,
    RemoveLibrary(i64),
    ListPlaylists,
    CreatePlaylist { name: String, mode: Mode, interval_secs: i32 },
    SetPlaylistItems { id: i64, item_ids: Vec<i64> },
    DeletePlaylist(i64),
    RenamePlaylist { id: i64, name: String },
    SetPlaylistMode { id: i64, mode: Mode },
    SetPlaylistInterval { id: i64, interval_secs: i32 },
    /// Resolve the playlist; its order is the answer.
    ActivatePlaylist(i64),
    DeactivatePlaylist,
    /// Seconds between changes that a playlist asks for.
    FindPlaylist(i64),
    QueueStatus,
}

/// What came of the work.
#[derive(Debug)]
pub enum Answer {
    Ack(Result<(), Error>),
    /// Id of the new renderer, and its handle while it lives.
    Spawned(Result<(String, Option<RendererHandle>), Error>),
    Media(Result<Media, Error>),
    Keys(Result<Vec<(String, String)>, Error>),
    Extras(Result<StrMap<String>, Error>),
    Item(Option<i64>),
    /// For each setting its new form, or what is wrong with it.
    Checked(Vec<Result<String, String>>),
    /// For each renderer how the sending went.
    Sent(Vec<Result<(), String>>),
    Libraries(Vec<LibrarySnapshot>),
    Plugin(Result<Option<i64>, Error>),
    Library(Result<(i64, String), Error>),
    Detected(Result<Vec<LibrarySnapshot>, Error>),
    Playlists(Result<Vec<PlaylistRow>, Error>),
    Created(Result<i64, Error>),
    /// Order of the playlist that is played now, as a word.
    Activated(Result<String, Error>),
    Interval(Result<Option<i32>, Error>),
    Status(QueueStatus),
}

/// Work outside that needs no answer.
#[derive(Debug)]
pub enum Order {
    Route(Effect),
    /// Stop the process of a renderer.
    Terminate(String),
    /// Scan the sources; the text names what for.
    StartScan(&'static str),
    Publish(GlobalEvent),
    FlushSettings,
    /// Tell the session bus that another wallpaper is shown.
    NotifyWallpaper,
    /// Give the new wallpaper its full time before the next change.
    KickRotation,
    SetMode(Mode),
    SetInterval(u32),
}

/// A wallpaper on its way to the screen.
#[derive(Debug)]
pub struct ApplyJob {
    pub wallpaper_id: String,
    pub wp_type: String,
    pub name: String,
    /// Renderer plugin to use.
    pub plugin_name: String,
    /// The request named the plugin.
    pub pinned: bool,
    /// Displays to show it on; all of them where none is named.
    pub display_ids: Vec<u64>,
    pub settings: StrMap<String>,
    pub width: u32,
    pub height: u32,
    pub extent_mode: u32,
    pub library_root: String,
    pub relative: Option<String>,
}

/// What a request waits for.
#[derive(Debug)]
pub enum Wait {
    /// The reply to give once the work is done.
    Ack(Reply),
    Spawned,
    ListMedia {
        wp_type: String,
        filters: Vec<WallpaperFilterRule>,
        logics: Vec<FilterLogic>,
        page: u32,
        page_size: u32,
    },
    ListKeys { wp_type: String, page: u32, page_size: u32, media: Media },
    ApplyExtras(ApplyJob),
    ApplySpawned(ApplyJob),
    /// The renderer shows the chosen wallpaper; its number in the database is
    /// looked up.
    ApplyFound { job: ApplyJob, renderer_id: String },
    /// The renderers are out of use; they are stopped once no display holds on
    /// to them.
    ShowUnbound { job: ApplyJob, plugin_name: String, doomed: Vec<String> },
    ShowExtras(ApplyJob),
    ShowSpawned(ApplyJob),
    /// The renderer shows the wallpaper; its number in the database is looked
    /// up.
    ShowFound { job: ApplyJob, renderer_id: String },
    SettingsChecked {
        plugins: StrMap<StrMap<String>>,
        global: Option<GlobalChange>,
        checks: Vec<SettingCheck>,
    },
    /// Renderers and plugins that settings are sent to.
    SettingsSent(Vec<(String, String)>),
    LibraryList,
    LibraryPlugin { plugin_name: String, path: String },
    LibraryAdded { plugin_name: String },
    AutoDetected,
    LibraryRemoved(i64),
    PlaylistList,
    PlaylistCreated { item_ids: Vec<i64> },
    PlaylistFilled(i64),
    /// The playlist is deleted again; the error is told after that.
    PlaylistDropped(Error),
    PlaylistDeleted(i64),
    PlaylistItemsSet(i64),
    PlaylistModeSet { id: i64, mode: Mode },
    PlaylistIntervalSet { id: i64, interval_secs: u32 },
    PlaylistActivated(i64),
    /// The playlist is played; the reply to give after that.
    PlaylistLoaded { id: i64, reply: Reply },
    PlaylistInterval,
    /// No playlist is played any more; the reply to give after that.
    Deactivated(Reply),
    PlaylistStatus,
}

#[derive(Debug)]
pub enum Turn {
    Done(Result<Reply, Error>),
    Ask(Ask, Wait),
}

/// The answer is of the kind that is waited for.
pub open spec fn fits(w: Wait, a: Answer) -> bool {
    match w {
        Wait::Ack(_) | Wait::LibraryRemoved(_) | Wait::PlaylistFilled(_) | Wait::PlaylistDropped(_)
        | Wait::PlaylistDeleted(_) | Wait::PlaylistItemsSet(_) | Wait::PlaylistModeSet { .. }
        | Wait::PlaylistIntervalSet { .. } | Wait::ShowUnbound { .. } | Wait::Deactivated(_) => a is Ack,
        Wait::PlaylistActivated(_) | Wait::PlaylistLoaded { .. } => a is Activated,
        Wait::Spawned | Wait::ApplySpawned(_) | Wait::ShowSpawned(_) => a is Spawned,
        Wait::ListMedia { .. } => a is Media,
        Wait::ListKeys { .. } => a is Keys,
        Wait::ApplyExtras(_) | Wait::ShowExtras(_) => a is Extras,
        Wait::ApplyFound { .. } | Wait::ShowFound { .. } => a is Item,
        Wait::SettingsChecked { checks, .. } => a is Checked && a->Checked_0@.len() == checks@.len(),
        Wait::SettingsSent(names) => a is Sent && a->Sent_0@.len() == names@.len(),
        Wait::LibraryList => a is Libraries,
        Wait::LibraryPlugin { .. } => a is Plugin,
        Wait::LibraryAdded { .. } => a is Library,
        Wait::AutoDetected => a is Detected,
        Wait::PlaylistList => a is Playlists,
        Wait::PlaylistCreated { .. } => a is Created,
        Wait::PlaylistInterval => a is Interval,
        Wait::PlaylistStatus => a is Status,
    }
}

// ---------------------------------------------------------------------------
// Registry
// ---------------------------------------------------------------------------

/// The renderer plugins, and the best one for each type of wallpaper.
#[derive(Debug)]
pub struct Registry {
    pub defs: Vec<RendererDef>,
    pub best: StrMap<String>,
}

/// First manifest of that name.
pub open spec fn def_named(defs: Seq<RendererDef>, name: Seq<char>) -> Option<RendererDef>
    decreases defs.len(),
{
    if defs.len() == 0 {
        None
    } else {
        match def_named(defs.drop_last(), name) {
            Some(d) => Some(d),
            None => if defs.last().name@ == name {
                Some(defs.last())
            } else {
                None
            },
        }
    }
}

proof fn lemma_def_named(defs: Seq<RendererDef>, name: Seq<char>, i: int)
    requires
        0 <= i <= defs.len(),
        forall|j: int| 0 <= j < i ==> (#[trigger] defs[j]).name@ != name,
        i < defs.len() ==> defs[i].name@ == name,
    ensures
        i < defs.len() ==> def_named(defs, name) == Some(defs[i]),
        i == defs.len() ==> def_named(defs, name) is None,
    decreases defs.len(),
{
    if defs.len() > 0 {
        let t = defs.drop_last();
        assert forall|j: int| 0 <= j < i && j < t.len() implies (#[trigger] t[j]).name@ != name by {
            assert(t[j] == defs[j]);
        }
        if i < defs.len() {
            lemma_def_named(t, name, i);
        } else {
            lemma_def_named(t, name, i - 1);
            assert(defs.last() == defs[i - 1]);
        }
    }
}

impl Registry {
    /// The plugins of these manifests.
    pub fn new(defs: Vec<RendererDef>) -> (r: Registry)
        ensures
            r.defs == defs,
            registry::picks_best(defs@, r.best@),
    {
        let best = registry::best_renderers(&defs);
        Registry { defs, best }
    }

    /// The best manifest for a type.
    pub open spec fn resolved(self, wp_type: Seq<char>) -> Option<RendererDef> {
        if self.best@.contains_key(wp_type) {
            def_named(self.defs@, self.best@[wp_type]@)
        } else {
            None
        }
    }

    pub fn resolve_by_name(&self, name: &str) -> (r: Option<&RendererDef>)
        ensures
            match r {
                Some(d) => def_named(self.defs@, name@) == Some(*d) && d.name@ == name@,
                None => def_named(self.defs@, name@) is None,
            },
    {
        let mut i: usize = 0;
        while i < self.defs.len()
            invariant
                i <= self.defs@.len(),
                forall|j: int| 0 <= j < i ==> (#[trigger] self.defs@[j]).name@ != name@,
            decreases self.defs.len() - i,
        {
            if str_eq(self.defs[i].name.as_str(), name) {
                proof {
                    lemma_def_named(self.defs@, name@, i as int);
                }
                return Some(&self.defs[i]);
            }
            i = i + 1;
        }
        proof {
            lemma_def_named(self.defs@, name@, i as int);
        }
        None
    }

    pub fn resolve(&self, wp_type: &str) -> (r: Option<&RendererDef>)
        ensures
            match r {
                Some(d) => self.resolved(wp_type@) == Some(*d),
                None => self.resolved(wp_type@) is None,
            },
    {
        match self.best.get(wp_type) {
            Some(name) => self.resolve_by_name(name.as_str()),
            None => None,
        }
    }
}

/// A type is shown by the renderer of highest priority that serves it, the first
/// of them where several have it. A type that no renderer serves is not shown.
/// The manifests have names of their own.
pub proof fn best_renderer_is_resolved(r: Registry, wp_type: Seq<char>)
    requires
        registry::picks_best(r.defs@, r.best@),
        forall|i: int, j: int|
            0 <= i < j < r.defs@.len() ==> (#[trigger] r.defs@[i]).name@ != (#[trigger] r.defs@[j]).name@,
    ensures
        match r.resolved(wp_type) {
            Some(d) => exists|i: int| #[trigger] registry::is_best(r.defs@, wp_type, i) && r.defs@[i] == d,
            None => forall|i: int|
                0 <= i < r.defs@.len() ==> !registry::serves(#[trigger] r.defs@[i], wp_type),
        },
{
    if r.best@.contains_key(wp_type) {
        let i = choose|i: int| #[trigger]
            registry::is_best(r.defs@, wp_type, i) && r.best@[wp_type]@ == r.defs@[i].name@;
        lemma_def_named(r.defs@, r.best@[wp_type]@, i);
    }
}

// ---------------------------------------------------------------------------
// Settings of plugins in display order
// ---------------------------------------------------------------------------

/// One setting stands before another: by its place, then by its key.
pub open spec fn stands_before(a: (i32, Seq<char>), b: (i32, Seq<char>)) -> bool {
    a.0 < b.0 || a.0 == b.0 && text::text_less(a.1, b.1)
}

pub open spec fn place_of(
    settings: Map<Seq<char>, SettingDef>,
    key: Seq<char>,
) -> (i32, Seq<char>) {
    (settings[key].order, key)
}

/// All keys of the settings, each before those it stands before.
pub open spec fn in_display_order(
    keys: Seq<Seq<char>>,
    settings: Map<Seq<char>, SettingDef>,
) -> bool {
    &&& ordered(keys, settings)
    &&& forall|k: Seq<char>| #[trigger] settings.contains_key(k) <==> keys.contains(k)
}

/// The keys stand in display order.
pub open spec fn ordered(keys: Seq<Seq<char>>, settings: Map<Seq<char>, SettingDef>) -> bool {
    forall|i: int, j: int|
        0 <= i < j < keys.len() ==> stands_before(
            place_of(settings, #[trigger] keys[i]),
            place_of(settings, #[trigger] keys[j]),
        )
}

fn insert_setting(out: &mut Vec<String>, key: String, settings: &StrMap<SettingDef>)
    requires
        ordered(text::lines(old(out)@), settings@),
        settings@.contains_key(key@),
        forall|i: int|
            0 <= i < text::lines(old(out)@).len() ==> {
                &&& settings@.contains_key(#[trigger] text::lines(old(out)@)[i])
                &&& text::text_less(text::lines(old(out)@)[i], key@)
            },
    ensures
        ordered(text::lines(final(out)@), settings@),
        exists|at: int|
            0 <= at <= old(out)@.len() && text::lines(final(out)@) == #[trigger] text::lines(
                old(out)@,
            ).insert(at, key@),
{
    let ghost m = settings@;
    let ghost x = key@;
    let ghost before = text::lines(out@);
    let order: i32 = setting_order(settings, key.as_str());
    let mut at: usize = out.len();
    let mut done = false;
    while at > 0 && !done
        invariant
            at <= out@.len(),
            before == text::lines(out@),
            m == settings@,
            order == m[x].order,
            ordered(before, m),
            forall|i: int| 0 <= i < before.len() ==> m.contains_key(#[trigger] before[i]),
            forall|i: int| at <= i < before.len() ==> m[#[trigger] before[i]].order > order,
            done ==> at > 0 && m[before[at - 1]].order <= order,
        decreases at + (if done {
            0int
        } else {
            1int
        }),
    {
        assert(m.contains_key(before[at - 1]));
        if setting_order(settings, out[at - 1].as_str()) > order {
            at = at - 1;
        } else {
            done = true;
        }
    }
    let ghost old_out = out@;
    out.insert(at, key);
    proof {
        let after = text::lines(out@);
        assert(after =~= before.insert(at as int, x));
        assert forall|i: int, j: int| 0 <= i < j < after.len() implies stands_before(
            place_of(m, #[trigger] after[i]),
            place_of(m, #[trigger] after[j]),
        ) by {
            if j == at {
                assert(after[i] == before[i]);
                assert(text::text_less(before[i], x));
                if i < at - 1 {
                    assert(stands_before(place_of(m, before[i]), place_of(m, before[at - 1])));
                }
            } else if i == at {
                assert(after[j] == before[j - 1]);
            } else {
                let y = if j < at {
                    j
                } else {
                    j - 1
                };
                let z = if i < at {
                    i
                } else {
                    i - 1
                };
                assert(after[i] == before[z] && after[j] == before[y]);
            }
        }
    }
}

/// Keys of the settings in display order.
pub fn ordered_settings(settings: &StrMap<SettingDef>) -> (out: Vec<String>)
    ensures
        in_display_order(text::lines(out@), settings@),
{
    let keys = settings.keys();
    let ghost m = settings@;
    let ghost names = text::lines(keys@);
    let mut out: Vec<String> = Vec::new();
    let mut n: usize = 0;
    assert forall|k: Seq<char>| #[trigger] m.contains_key(k) <==> names.contains(k) by {
        if m.contains_key(k) {
            let a = choose|a: int| 0 <= a < keys@.len() && #[trigger] keys@[a]@ == k;
            assert(names[a] == k);
        }
        if names.contains(k) {
            let a = choose|a: int| 0 <= a < names.len() && names[a] == k;
            assert(m.contains_key(keys@[a]@));
        }
    }
    assert forall|i: int, j: int| 0 <= i < j < names.len() implies text::text_less(
        #[trigger] names[i],
        #[trigger] names[j],
    ) by {
        assert(names[i] == keys@[i]@ && names[j] == keys@[j]@);
    }
    while n < keys.len()
        invariant
            n <= keys@.len(),
            m == settings@,
            names == text::lines(keys@),
            forall|i: int, j: int|
                0 <= i < j < names.len() ==> text::text_less(
                    #[trigger] names[i],
                    #[trigger] names[j],
                ),
            forall|k: Seq<char>| #[trigger] m.contains_key(k) <==> names.contains(k),
            ordered(text::lines(out@), m),
            forall|k: Seq<char>| #[trigger]
                text::lines(out@).contains(k) <==> names.take(n as int).contains(k),
        decreases keys.len() - n,
    {
        let ghost before = text::lines(out@);
        let ghost x = names[n as int];
        assert(names.contains(x));
        assert forall|i: int| 0 <= i < before.len() implies {
            &&& m.contains_key(#[trigger] before[i])
            &&& text::text_less(before[i], x)
        } by {
            assert(before.contains(before[i]));
            let a = choose|a: int|
                0 <= a < n && (#[trigger] names.take(n as int)[a]) == before[i];
            assert(names[a] == before[i]);
            assert(names.contains(names[a]));
        }
        insert_setting(&mut out, keys[n].clone(), settings);
        proof {
            let after = text::lines(out@);
            let at = choose|at: int|
                0 <= at <= before.len() && after == #[trigger] before.insert(at, x);
            assert(names.take(n + 1) =~= names.take(n as int).push(x));
            assert forall|k: Seq<char>| #[trigger] after.contains(k) <==> names.take(
                n + 1,
            ).contains(k) by {
                lemma_insert_contains(before, at, x, k);
                lemma_push_contains(names.take(n as int), x, k);
            }
        }
        n = n + 1;
    }
    assert(names.take(n as int) =~= names);
    out
}

proof fn lemma_insert_contains(s: Seq<Seq<char>>, at: int, x: Seq<char>, k: Seq<char>)
    requires
        0 <= at <= s.len(),
    ensures
        s.insert(at, x).contains(k) <==> s.contains(k) || k == x,
{
    let t = s.insert(at, x);
    if s.contains(k) {
        let i = choose|i: int| 0 <= i < s.len() && s[i] == k;
        assert(t[if i < at {
            i
        } else {
            i + 1
        }] == k);
    }
    assert(t[at] == x);
    if t.contains(k) && k != x {
        let i = choose|i: int| 0 <= i < t.len() && t[i] == k;
        assert(s[if i < at {
            i
        } else {
            i - 1
        }] == k);
    }
}

proof fn lemma_push_contains(s: Seq<Seq<char>>, x: Seq<char>, k: Seq<char>)
    ensures
        s.push(x).contains(k) <==> s.contains(k) || k == x,
{
    let t = s.push(x);
    if s.contains(k) {
        let i = choose|i: int| 0 <= i < s.len() && s[i] == k;
        assert(t[i] == k);
    }
    assert(t[s.len() as int] == x);
    if t.contains(k) && k != x {
        let i = choose|i: int| 0 <= i < t.len() && t[i] == k;
        assert(s[i] == k);
    }
}

fn setting_order(settings: &StrMap<SettingDef>, key: &str) -> (r: i32)
    requires
        settings@.contains_key(key@),
    ensures
        r == settings@[key@].order,
{
    match settings.get(key) {
        Some(d) => d.order,
        None => 0,
    }
}

// ---------------------------------------------------------------------------
// Requests that need nothing of the daemon's state
// ---------------------------------------------------------------------------

/// First turn of a request that depends on nothing but itself.
pub open spec fn plain_turn(req: Request) -> Option<Turn> {
    match req {
        Request::RendererPlay(id) => Some(
            Turn::Ask(
                Ask::SendControl { renderer_id: id, msg: ControlMsg::Play },
                Wait::Ack(Reply::RendererPlay),
            ),
        ),
        Request::RendererPause(id) => Some(
            Turn::Ask(
                Ask::SendControl { renderer_id: id, msg: ControlMsg::Pause },
                Wait::Ack(Reply::RendererPause),
            ),
        ),
        Request::RendererMouse { renderer_id, x, y } => Some(
            Turn::Ask(
                Ask::SendControl { renderer_id, msg: ControlMsg::Mouse { x, y } },
                Wait::Ack(Reply::RendererMouse),
            ),
        ),
        Request::RendererFps { renderer_id, fps } => Some(
            Turn::Ask(
                Ask::SendControl { renderer_id, msg: ControlMsg::SetFps { fps } },
                Wait::Ack(Reply::RendererFps),
            ),
        ),
        Request::WallpaperList { wp_type, filters, logics, page, page_size } => Some(
            Turn::Ask(
                Ask::LoadMedia,
                Wait::ListMedia { wp_type, filters, logics, page, page_size },
            ),
        ),
        Request::LibraryList => Some(Turn::Ask(Ask::ListLibraries, Wait::LibraryList)),
        Request::LibraryAdd { plugin_name, path } => Some(
            Turn::Ask(Ask::FindPlugin(plugin_name), Wait::LibraryPlugin { plugin_name, path }),
        ),
        Request::LibraryAutoDetect => Some(Turn::Ask(Ask::AutoDetect, Wait::AutoDetected)),
        Request::LibraryRemove(id) => Some(
            Turn::Ask(Ask::RemoveLibrary(id), Wait::LibraryRemoved(id)),
        ),
        Request::PlaylistList => Some(Turn::Ask(Ask::ListPlaylists, Wait::PlaylistList)),
        Request::PlaylistCreate { name, mode, interval_secs, item_ids } => Some(
            Turn::Ask(
                Ask::CreatePlaylist { name, mode, interval_secs: interval_secs as i32 },
                Wait::PlaylistCreated { item_ids },
            ),
        ),
        Request::PlaylistDelete(id) => Some(
            Turn::Ask(Ask::DeletePlaylist(id), Wait::PlaylistDeleted(id)),
        ),
        Request::PlaylistRename { id, name } => Some(
            Turn::Ask(Ask::RenamePlaylist { id, name }, Wait::Ack(Reply::PlaylistRename)),
        ),
        Request::PlaylistSetItems { id, item_ids } => Some(
            Turn::Ask(Ask::SetPlaylistItems { id, item_ids }, Wait::PlaylistItemsSet(id)),
        ),
        Request::PlaylistSetMode { id, mode } => Some(
            Turn::Ask(Ask::SetPlaylistMode { id, mode }, Wait::PlaylistModeSet { id, mode }),
        ),
        Request::PlaylistSetInterval { id, interval_secs } => Some(
            Turn::Ask(
                Ask::SetPlaylistInterval { id, interval_secs: interval_secs as i32 },
                Wait::PlaylistIntervalSet { id, interval_secs },
            ),
        ),
        Request::PlaylistActivate(id) => Some(
            Turn::Ask(Ask::ActivatePlaylist(id), Wait::PlaylistActivated(id)),
        ),
        Request::PlaylistDeactivate => Some(
            Turn::Ask(Ask::DeactivatePlaylist, Wait::Deactivated(Reply::PlaylistDeactivate)),
        ),
        Request::PlaylistStatus => Some(Turn::Ask(Ask::QueueStatus, Wait::PlaylistStatus)),
        _ => None,
    }
}

/// First turn of a request that depends on nothing but itself; any other
/// request comes back.
pub fn plain(req: Request) -> (r: Result<Turn, Request>)
    ensures
        match plain_turn(req) {
            Some(t) => r == Ok::<Turn, Request>(t),
            None => r == Err::<Turn, Request>(req),
        },
{
    match req {
        Request::RendererPlay(id) => Ok(
            Turn::Ask(
                Ask::SendControl { renderer_id: id, msg: ControlMsg::Play },
                Wait::Ack(Reply::RendererPlay),
            ),
        ),
        Request::RendererPause(id) => Ok(
            Turn::Ask(
                Ask::SendControl { renderer_id: id, msg: ControlMsg::Pause },
                Wait::Ack(Reply::RendererPause),
            ),
        ),
        Request::RendererMouse { renderer_id, x, y } => Ok(
            Turn::Ask(
                Ask::SendControl { renderer_id, msg: ControlMsg::Mouse { x, y } },
                Wait::Ack(Reply::RendererMouse),
            ),
        ),
        Request::RendererFps { renderer_id, fps } => Ok(
            Turn::Ask(
                Ask::SendControl { renderer_id, msg: ControlMsg::SetFps { fps } },
                Wait::Ack(Reply::RendererFps),
            ),
        ),
        Request::WallpaperList { wp_type, filters, logics, page, page_size } => Ok(
            Turn::Ask(
                Ask::LoadMedia,
                Wait::ListMedia { wp_type, filters, logics, page, page_size },
            ),
        ),
        Request::LibraryList => Ok(Turn::Ask(Ask::ListLibraries, Wait::LibraryList)),
        Request::LibraryAdd { plugin_name, path } => Ok(
            Turn::Ask(
                Ask::FindPlugin(plugin_name.clone()),
                Wait::LibraryPlugin { plugin_name, path },
            ),
        ),
        Request::LibraryAutoDetect => Ok(Turn::Ask(Ask::AutoDetect, Wait::AutoDetected)),
        Request::LibraryRemove(id) => Ok(
            Turn::Ask(Ask::RemoveLibrary(id), Wait::LibraryRemoved(id)),
        ),
        Request::PlaylistList => Ok(Turn::Ask(Ask::ListPlaylists, Wait::PlaylistList)),
        Request::PlaylistCreate { name, mode, interval_secs, item_ids } => Ok(
            Turn::Ask(
                Ask::CreatePlaylist {
                    name,
                    mode,
                    interval_secs: #[verifier::truncate] (interval_secs as i32),
                },
                Wait::PlaylistCreated { item_ids },
            ),
        ),
        Request::PlaylistDelete(id) => Ok(
            Turn::Ask(Ask::DeletePlaylist(id), Wait::PlaylistDeleted(id)),
        ),
        Request::PlaylistRename { id, name } => Ok(
            Turn::Ask(Ask::RenamePlaylist { id, name }, Wait::Ack(Reply::PlaylistRename)),
        ),
        Request::PlaylistSetItems { id, item_ids } => Ok(
            Turn::Ask(Ask::SetPlaylistItems { id, item_ids }, Wait::PlaylistItemsSet(id)),
        ),
        Request::PlaylistSetMode { id, mode } => Ok(
            Turn::Ask(Ask::SetPlaylistMode { id, mode }, Wait::PlaylistModeSet { id, mode }),
        ),
        Request::PlaylistSetInterval { id, interval_secs } => Ok(
            Turn::Ask(
                Ask::SetPlaylistInterval {
                    id,
                    interval_secs: #[verifier::truncate] (interval_secs as i32),
                },
                Wait::PlaylistIntervalSet { id, interval_secs },
            ),
        ),
        Request::PlaylistActivate(id) => Ok(
            Turn::Ask(Ask::ActivatePlaylist(id), Wait::PlaylistActivated(id)),
        ),
        Request::PlaylistDeactivate => Ok(
            Turn::Ask(Ask::DeactivatePlaylist, Wait::Deactivated(Reply::PlaylistDeactivate)),
        ),
        Request::PlaylistStatus => Ok(Turn::Ask(Ask::QueueStatus, Wait::PlaylistStatus)),
        other => Err(other),
    }
}

// ---------------------------------------------------------------------------
// The daemon's state
// ---------------------------------------------------------------------------

/// What requests read and change.
#[derive(Debug)]
pub struct Daemon {
    pub router: Router,
    pub store: SettingsStore,
    pub manager: RendererManager,
    pub registry: Registry,
    pub catalog: SourceManager,
    pub queue: QueueState,
}

/// Effects of the router among orders.
pub open spec fn routed(fx: Seq<Effect>) -> Seq<Order> {
    Seq::new(fx.len(), |i: int| Order::Route(fx[i]))
}

/// Puts the effects of the router on the list.
pub fn route(fx: Vec<Effect>, out: &mut Vec<Order>)
    ensures
        final(out)@ == old(out)@ + routed(fx@),
{
    let ghost all = fx@;
    let ghost start = out@;
    let mut rest = fx;
    let mut back: Vec<Effect> = Vec::new();
    while rest.len() > 0
        invariant
            rest@ + back@.reverse() == all,
        decreases rest.len(),
    {
        let ghost r0 = rest@;
        let ghost b0 = back@;
        match rest.pop() {
            Some(e) => {
                back.push(e);
            },
            None => {},
        }
        assert(rest@ + back@.reverse() =~= r0 + b0.reverse());
    }
    assert(back@.reverse() =~= all);
    let ghost turned = back@;
    while back.len() > 0
        invariant
            back@.len() <= turned.len(),
            back@ == turned.take(back@.len() as int),
            turned.reverse() == all,
            out@ == start + routed(all.take(all.len() - back@.len())),
        decreases back.len(),
    {
        let ghost k = back@.len() as int;
        match back.pop() {
            Some(e) => {
                assert(e == turned[k - 1]);
                assert(turned.reverse()[all.len() - k] == turned[k - 1]);
                out.push(Order::Route(e));
                assert(routed(all.take(all.len() - k + 1)) =~= routed(all.take(all.len() - k)).push(
                    Order::Route(e),
                ));
                assert(out@ =~= start + routed(all.take(all.len() - k + 1)));
            },
            None => {},
        }
        assert(back@ =~= turned.take(back@.len() as int));
    }
    assert(all.take(all.len() as int) =~= all);
}

// ---------------------------------------------------------------------------
// Renderers
// ---------------------------------------------------------------------------

/// The renderer that a request for one asks for: the metadata serves both as
/// arguments and as settings, and a frame rate is one of the settings.
pub open spec fn spawn_wanted(
    wp_type: Seq<char>,
    metadata: Map<Seq<char>, Seq<char>>,
    fps: u32,
    width: u32,
    height: u32,
) -> SpawnView {
    SpawnView {
        wp_type: if wp_type.len() == 0 {
            "scene"@
        } else {
            wp_type
        },
        extras: metadata,
        settings: if fps != 0 {
            metadata.insert("fps"@, text::dec_text(fps as nat))
        } else {
            metadata
        },
        width,
        height,
        extent_mode: AS_GIVEN,
        test_pattern: false,
        renderer_name: None,
        user_properties: None,
    }
}

pub fn spawn_request(
    wp_type: String,
    metadata: StrMap<String>,
    fps: u32,
    width: u32,
    height: u32,
) -> (r: SpawnRequest)
    ensures
        r@ == spawn_wanted(wp_type@, strmap::kv_text(metadata@), fps, width, height),
{
    let mut settings = metadata.copy();
    if fps != 0 {
        let ghost before = settings@;
        settings.insert("fps".to_owned(), dec_string(fps as u64));
        assert(strmap::kv_text(settings@) =~= strmap::kv_text(before).insert(
            "fps"@,
            text::dec_text(fps as nat),
        ));
    }
    let empty: bool = wp_type.as_str().unicode_len() == 0;
    SpawnRequest {
        wp_type: if empty {
            "scene".to_owned()
        } else {
            wp_type
        },
        extras: metadata,
        settings,
        width,
        height,
        extent_mode: AS_GIVEN,
        test_pattern: false,
        renderer_name: None,
        user_properties_json: None,
    }
}

/// What clients are told of a running renderer.
pub open spec fn tells_live(i: RendererInstance, h: LiveRenderer, d: Daemon) -> bool {
    &&& i.renderer_id@ == h.id@
    &&& i.fps == wire::fps_of(d.store.inner@, h.name@)
    &&& i.status == if router::find_entry(d.router@.renderers, h.id@) is Some
        && router::find_entry(d.router@.renderers, h.id@)->0.paused is Some {
        RendererStatus::Paused
    } else {
        RendererStatus::Playing
    }
    &&& i.name == h.name
    &&& i.pid == match h.pid {
        Some(p) => p,
        None => 0,
    }
}

/// What clients are told of a renderer plugin.
pub open spec fn tells_plugin(i: RendererPluginInfo, d: RendererDef) -> bool {
    &&& i.name == d.name
    &&& i.bin == d.bin
    &&& text::lines(i.types@) == text::lines(d.types@)
    &&& i.priority == d.priority
    &&& i.version == d.version
    &&& in_display_order(text::lines(i.settings@), d.settings@)
}

/// What clients are told of a source plugin.
pub open spec fn tells_source(i: SourcePluginInfo, p: SourcePluginInfo) -> bool {
    i.name == p.name && text::lines(i.types@) == text::lines(p.types@) && i.version == p.version
}

/// The layout change that a request comes down to.
pub open spec fn wanted_layout(
    layout: Option<LayoutOverride>,
    clear_fillmode: bool,
    clear_align: bool,
    clear_clear_rgba: bool,
) -> LayoutChange {
    LayoutChange {
        fillmode: match layout {
            Some(l) => if !clear_fillmode && l.fillmode_set {
                l.fillmode
            } else {
                None
            },
            None => None,
        },
        align: match layout {
            Some(l) => if !clear_align && l.align_set {
                l.align
            } else {
                None
            },
            None => None,
        },
        clear_rgba: match layout {
            Some(l) => if !clear_clear_rgba && l.clear_rgba_set {
                l.clear_rgba
            } else {
                None
            },
            None => None,
        },
        clear_fillmode,
        clear_align,
        clear_clear_rgba,
    }
}

pub fn layout_change(
    layout: Option<LayoutOverride>,
    clear_fillmode: bool,
    clear_align: bool,
    clear_clear_rgba: bool,
) -> (r: LayoutChange)
    ensures
        r == wanted_layout(layout, clear_fillmode, clear_align, clear_clear_rgba),
{
    let (fillmode, align, clear_rgba): (Option<FillMode>, Option<Align>, Option<ClearColor>) =
        match layout {
        Some(l) => (
            if !clear_fillmode && l.fillmode_set {
                l.fillmode
            } else {
                None
            },
            if !clear_align && l.align_set {
                l.align
            } else {
                None
            },
            if !clear_clear_rgba && l.clear_rgba_set {
                l.clear_rgba
            } else {
                None
            },
        ),
        None => (None, None, None),
    };
    LayoutChange { fillmode, align, clear_rgba, clear_fillmode, clear_align, clear_clear_rgba }
}

/// What a client is told of the preferences of a display.
pub open spec fn told_override(p: DisplayPrefs) -> LayoutOverride {
    LayoutOverride {
        fillmode_set: p.fillmode is Some,
        fillmode: p.fillmode,
        align_set: p.align is Some,
        align: p.align,
        clear_rgba_set: p.clear_rgba is Some,
        clear_rgba: p.clear_rgba,
    }
}

pub fn layout_override_to_pb(p: &DisplayPrefs) -> (r: LayoutOverride)
    ensures
        r == told_override(*p),
{
    LayoutOverride {
        fillmode_set: p.fillmode.is_some(),
        fillmode: p.fillmode,
        align_set: p.align.is_some(),
        align: p.align,
        clear_rgba_set: p.clear_rgba.is_some(),
        clear_rgba: p.clear_rgba,
    }
}

/// A colour from its components, where there are four.
pub fn clear_rgba_from_pb(v: &Vec<u32>) -> (r: Option<ClearColor>)
    ensures
        r == if v@.len() == 4 {
            Some(ClearColor { r: v@[0], g: v@[1], b: v@[2], a: v@[3] })
        } else {
            None
        },
{
    if v.len() == 4 {
        Some(ClearColor { r: v[0], g: v[1], b: v[2], a: v[3] })
    } else {
        None
    }
}

/// A client that sends back what it was told of the preferences of a display
/// leaves them as they are.
pub proof fn told_preferences_change_nothing(p: DisplayPrefs)
    ensures
        settings::prefs_after(p, wanted_layout(Some(told_override(p)), false, false, false)) == p,
{
}

impl Daemon {
    /// All running renderers.
    pub fn renderer_list(&self) -> (r: (Vec<String>, Vec<RendererInstance>))
        ensures
            text::lines(r.0@) == Seq::new(self.manager@.len(), |i: int| self.manager@[i].id@),
            r.1@.len() == self.manager@.len(),
            forall|i: int|
                0 <= i < r.1@.len() ==> tells_live(#[trigger] r.1@[i], self.manager@[i], *self),
    {
        let ids = self.manager.list();
        assert(text::lines(ids@).len() == ids@.len());
        let mut out: Vec<RendererInstance> = Vec::new();
        let mut i: usize = 0;
        while i < ids.len()
            invariant
                i <= ids@.len(),
                ids@.len() == self.manager@.len(),
                spawn::distinct_ids(self.manager@),
                text::lines(ids@) == Seq::new(self.manager@.len(), |i: int| self.manager@[i].id@),
                out@.len() == i,
                forall|k: int|
                    0 <= k < i ==> tells_live(#[trigger] out@[k], self.manager@[k], *self),
            decreases ids.len() - i,
        {
            assert(text::lines(ids@)[i as int] == ids@[i as int]@);
            assert(self.manager@[i as int].id@ == ids@[i as int]@);
            match self.manager.get(ids[i].as_str()) {
                Some(h) => {
                    proof {
                        let k = choose|k: int| 0 <= k < self.manager@.len() && self.manager@[k] == *h;
                        assert(self.manager@[k].id@ == self.manager@[i as int].id@);
                        assert(k == i);
                    }
                    let status = if self.router.is_paused(ids[i].as_str()) {
                        RendererStatus::Paused
                    } else {
                        RendererStatus::Playing
                    };
                    out.push(
                        RendererInstance {
                            renderer_id: ids[i].clone(),
                            fps: plugin_fps(&self.store, h.name.as_str()),
                            status,
                            name: h.name.clone(),
                            pid: match h.pid {
                                Some(p) => p,
                                None => 0,
                            },
                        },
                    );
                },
                None => {
                    assert(spawn::has_id(self.manager@, ids@[i as int]@)) by {
                        assert(self.manager@[i as int].id@ == ids@[i as int]@);
                    }
                },
            }
            i = i + 1;
        }
        (ids, out)
    }

    /// All renderer plugins.
    pub fn plugin_list(&self) -> (out: Vec<RendererPluginInfo>)
        ensures
            out@.len() == self.registry.defs@.len(),
            forall|i: int|
                0 <= i < out@.len() ==> tells_plugin(#[trigger] out@[i], self.registry.defs@[i]),
    {
        let mut out: Vec<RendererPluginInfo> = Vec::new();
        let mut i: usize = 0;
        while i < self.registry.defs.len()
            invariant
                i <= self.registry.defs@.len(),
                out@.len() == i,
                forall|k: int|
                    0 <= k < i ==> tells_plugin(#[trigger] out@[k], self.registry.defs@[k]),
            decreases self.registry.defs.len() - i,
        {
            let d = &self.registry.defs[i];
            out.push(
                RendererPluginInfo {
                    name: d.name.clone(),
                    bin: d.bin.clone(),
                    types: copy_lines(&d.types),
                    priority: d.priority,
                    version: d.version.clone(),
                    settings: ordered_settings(&d.settings),
                },
            );
            i = i + 1;
        }
        out
    }

    /// All source plugins.
    pub fn source_list(&self) -> (out: Vec<SourcePluginInfo>)
        ensures
            out@.len() == self.catalog.loaded().len(),
            forall|i: int|
                0 <= i < out@.len() ==> tells_source(#[trigger] out@[i], self.catalog.loaded()[i]),
    {
        let all = self.catalog.plugins();
        let mut out: Vec<SourcePluginInfo> = Vec::new();
        let mut i: usize = 0;
        while i < all.len()
            invariant
                i <= all@.len(),
                out@.len() == i,
                forall|k: int| 0 <= k < i ==> tells_source(#[trigger] out@[k], all@[k]),
            decreases all.len() - i,
        {
            out.push(
                SourcePluginInfo {
                    name: all[i].name.clone(),
                    types: copy_lines(&all[i].types),
                    version: all[i].version.clone(),
                },
            );
            i = i + 1;
        }
        out
    }
}

/// A request that only hands something on hands on what it names, to whom it
/// names, and is answered under its own name.
pub proof fn requests_ask_for_what_they_name(req: Request, r: Result<Turn, Request>)
    requires
        call_ensures(plain, (req,), r),
    ensures
        r matches Err(q) ==> q == req,
        req matches Request::RendererPlay(id) ==> (r
            matches Ok(Turn::Ask(Ask::SendControl { renderer_id, msg }, Wait::Ack(reply)))
            && renderer_id == id && msg == ControlMsg::Play && reply == Reply::RendererPlay),
        req matches Request::RendererPause(id) ==> (r
            matches Ok(Turn::Ask(Ask::SendControl { renderer_id, msg }, Wait::Ack(reply)))
            && renderer_id == id && msg == ControlMsg::Pause && reply == Reply::RendererPause),
        req matches Request::RendererMouse { renderer_id, x, y } ==> (r
            matches Ok(Turn::Ask(Ask::SendControl { renderer_id: id, msg }, Wait::Ack(reply))) && id
            == renderer_id && msg == (ControlMsg::Mouse { x, y }) && reply
            == Reply::RendererMouse),
        req matches Request::RendererFps { renderer_id, fps } ==> (r
            matches Ok(Turn::Ask(Ask::SendControl { renderer_id: id, msg }, Wait::Ack(reply))) && id
            == renderer_id && msg == (ControlMsg::SetFps { fps }) && reply == Reply::RendererFps),
        req matches Request::LibraryRemove(id) ==> (r
            matches Ok(Turn::Ask(Ask::RemoveLibrary(x), Wait::LibraryRemoved(y))) && x == id && y
            == id),
        req matches Request::LibraryAdd { plugin_name, path } ==> (r
            matches Ok(Turn::Ask(Ask::FindPlugin(x), Wait::LibraryPlugin { plugin_name: y, path: z }))
            && x == plugin_name && y == plugin_name && z == path),
        req matches Request::WallpaperList { wp_type, filters, logics, page, page_size } ==> (r
            matches Ok(Turn::Ask(Ask::LoadMedia, Wait::ListMedia { wp_type: t, filters: f, logics: l, page: p, page_size: n }))
            && t == wp_type && f == filters && l == logics && p == page && n == page_size),
        req matches Request::PlaylistCreate { name, mode, interval_secs, item_ids } ==> (r
            matches Ok(Turn::Ask(Ask::CreatePlaylist { name: n, mode: m, interval_secs: s }, Wait::PlaylistCreated { item_ids: i }))
            && n == name && m == mode && s == interval_secs as i32 && i == item_ids),
        req matches Request::PlaylistDelete(id) ==> (r
            matches Ok(Turn::Ask(Ask::DeletePlaylist(x), Wait::PlaylistDeleted(y))) && x == id && y
            == id),
        req matches Request::PlaylistRename { id, name } ==> (r
            matches Ok(Turn::Ask(Ask::RenamePlaylist { id: x, name: n }, Wait::Ack(reply))) && x
            == id && n == name && reply == Reply::PlaylistRename),
        req matches Request::PlaylistSetItems { id, item_ids } ==> (r
            matches Ok(Turn::Ask(Ask::SetPlaylistItems { id: x, item_ids: i }, Wait::PlaylistItemsSet(y)))
            && x == id && y == id && i == item_ids),
        req matches Request::PlaylistSetMode { id, mode } ==> (r
            matches Ok(Turn::Ask(Ask::SetPlaylistMode { id: x, mode: m }, Wait::PlaylistModeSet { id: y, mode: k }))
            && x == id && y == id && m == mode && k == mode),
        req matches Request::PlaylistSetInterval { id, interval_secs } ==> (r
            matches Ok(Turn::Ask(Ask::SetPlaylistInterval { id: x, interval_secs: s }, Wait::PlaylistIntervalSet { id: y, interval_secs: n }))
            && x == id && y == id && s == interval_secs as i32 && n == interval_secs),
        req matches Request::PlaylistActivate(id) ==> (r
            matches Ok(Turn::Ask(Ask::ActivatePlaylist(x), Wait::PlaylistActivated(y))) && x == id
            && y == id),
        req is PlaylistDeactivate ==> (r
            matches Ok(Turn::Ask(Ask::DeactivatePlaylist, Wait::Deactivated(reply))) && reply
            == Reply::PlaylistDeactivate),
        req is LibraryList ==> r == Ok::<Turn, Request>(
            Turn::Ask(Ask::ListLibraries, Wait::LibraryList),
        ),
        req is LibraryAutoDetect ==> r == Ok::<Turn, Request>(
            Turn::Ask(Ask::AutoDetect, Wait::AutoDetected),
        ),
        req is PlaylistList ==> r == Ok::<Turn, Request>(
            Turn::Ask(Ask::ListPlaylists, Wait::PlaylistList),
        ),
        req is PlaylistStatus ==> r == Ok::<Turn, Request>(
            Turn::Ask(Ask::QueueStatus, Wait::PlaylistStatus),
        ),
{
}

/// A renderer that a client asks for is of the type and the size that the
/// client names, a scene where it names none; the metadata is what it starts
/// with, and a frame rate other than zero is one of its settings.
pub proof fn renderer_is_asked_for_as_named(
    wp_type: String,
    metadata: StrMap<String>,
    fps: u32,
    width: u32,
    height: u32,
    r: SpawnRequest,
    k: Seq<char>,
)
    requires
        call_ensures(spawn_request, (wp_type, metadata, fps, width, height), r),
    ensures
        wp_type@.len() == 0 ==> r.wp_type@ == "scene"@,
        wp_type@.len() > 0 ==> r.wp_type@ == wp_type@,
        (r.width, r.height) == (width, height),
        !r.test_pattern,
        r@.renderer_name is None,
        r@.extras == strmap::kv_text(metadata@),
        ({
            let m = strmap::kv_text(metadata@);
            let s = r@.settings;
            &&& fps == 0 ==> s == m
            &&& fps != 0 ==> s.contains_key("fps"@) && s["fps"@] == text::dec_text(fps as nat)
            &&& k != "fps"@ ==> s.contains_key(k) == m.contains_key(k) && (m.contains_key(k)
                ==> s[k] == m[k])
        }),
{
}

/// A layout change sets what is given and not cleared, and clears what is to be
/// cleared.
pub proof fn layout_request_sets_and_clears(
    layout: Option<LayoutOverride>,
    a: bool,
    b: bool,
    c: bool,
    r: LayoutChange,
)
    requires
        call_ensures(layout_change, (layout, a, b, c), r),
    ensures
        (r.clear_fillmode, r.clear_align, r.clear_clear_rgba) == (a, b, c),
        layout is None ==> r.fillmode is None && r.align is None && r.clear_rgba is None,
        layout matches Some(l) ==> {
            &&& l.fillmode_set && !a ==> r.fillmode == l.fillmode
            &&& !l.fillmode_set || a ==> r.fillmode is None
            &&& l.align_set && !b ==> r.align == l.align
            &&& !l.align_set || b ==> r.align is None
            &&& l.clear_rgba_set && !c ==> r.clear_rgba == l.clear_rgba
            &&& !l.clear_rgba_set || c ==> r.clear_rgba is None
        },
{
}

/// Preferences that a client is told and sends back come to the same.
pub proof fn told_preferences_read_back(p: &DisplayPrefs, l: LayoutOverride, r: LayoutChange)
    requires
        call_ensures(layout_override_to_pb, (p,), l),
        call_ensures(layout_change, (Some(l), false, false, false), r),
    ensures
        r.fillmode == p.fillmode,
        r.align == p.align,
        r.clear_rgba == p.clear_rgba,
{
}

/// A colour is four numbers: red, green, blue, and how opaque it is.
pub proof fn colour_is_four_numbers(v: &Vec<u32>, r: Option<ClearColor>)
    requires
        call_ensures(clear_rgba_from_pb, (v,), r),
    ensures
        r is Some <==> v@.len() == 4,
        r matches Some(c) ==> c.r == v@[0] && c.g == v@[1] && c.b == v@[2] && c.a == v@[3],
{
}

/// Every running renderer is listed, in order, under its own id.
pub proof fn running_renderers_are_listed(
    d: Daemon,
    r: (Vec<String>, Vec<RendererInstance>),
    plugins: Vec<RendererPluginInfo>,
    i: int,
)
    requires
        call_ensures(Daemon::renderer_list, (&d,), r),
        call_ensures(Daemon::plugin_list, (&d,), plugins),
    ensures
        r.0@.len() == d.manager@.len(),
        r.1@.len() == d.manager@.len(),
        plugins@.len() == d.registry.defs@.len(),
        0 <= i < r.1@.len() ==> {
            let l = d.manager@[i];
            &&& r.0@[i]@ == l.id@
            &&& r.1@[i].renderer_id@ == l.id@
            &&& r.1@[i].name@ == l.name@
            &&& l.pid matches Some(p) ==> r.1@[i].pid == p
            &&& l.pid is None ==> r.1@[i].pid == 0
        },
        0 <= i < plugins@.len() ==> {
            let p = d.registry.defs@[i];
            &&& plugins@[i].name@ == p.name@
            &&& plugins@[i].bin@ == p.bin@
            &&& plugins@[i].priority == p.priority
            &&& plugins@[i].version == p.version
        },
{
    assert(text::lines(r.0@).len() == r.0@.len());
    if 0 <= i < r.1@.len() {
        assert(text::lines(r.0@)[i] == r.0@[i]@);
        assert(tells_live(r.1@[i], d.manager@[i], d));
    }
    if 0 <= i < plugins@.len() {
        assert(tells_plugin(plugins@[i], d.registry.defs@[i]));
    }
}

} // verus!
