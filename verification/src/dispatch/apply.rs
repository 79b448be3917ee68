//! Putting a wallpaper on screen.

use super::{route, ApplyJob, Ask, Daemon, Order, Registry, Reply, Turn, Wait};
use crate::catalog::{self, WallpaperEntry};
use crate::dispatch;
use crate::error::Error;
use crate::queue::{self, QueueState};
use crate::registry::RendererDef;
use crate::renderer::{RendererHandle, RendererView};
use crate::router::ops::unbound_displays;
use crate::router::{self, events, ops, Effect, RouterView, Step};
use crate::seqs;
use crate::settings::{self, resolve_extent, GlobalView, SettingsView};
use crate::spawn::{self, LiveRenderer, SpawnRequest, SpawnView};
use crate::strmap::{self, StrMap};
use crate::text::{self, copy_opt, list_contains};
use vstd::prelude::*;

verus! {

broadcast use seqs::group_views;

/// Milliseconds that displays have to let go of a pool before its renderer is
/// stopped.
pub const UNBIND_TIMEOUT_MS: u64 = 1_000;

/// First wallpaper of that id.
pub open spec fn entry_named(entries: Seq<WallpaperEntry>, id: Seq<char>) -> Option<WallpaperEntry>
    decreases entries.len(),
{
    if entries.len() == 0 {
        None
    } else {
        match entry_named(entries.drop_last(), id) {
            Some(e) => Some(e),
            None => if entries.last().id@ == id {
                Some(entries.last())
            } else {
                None
            },
        }
    }
}

proof fn lemma_entry_named(entries: Seq<WallpaperEntry>, id: Seq<char>, i: int)
    requires
        0 <= i <= entries.len(),
        forall|j: int| 0 <= j < i ==> (#[trigger] entries[j]).id@ != id,
        i < entries.len() ==> entries[i].id@ == id,
    ensures
        i < entries.len() ==> entry_named(entries, id) == Some(entries[i]),
        i == entries.len() ==> entry_named(entries, id) is None,
    decreases entries.len(),
{
    if entries.len() > 0 {
        let t = entries.drop_last();
        assert forall|j: int| 0 <= j < i && j < t.len() implies (#[trigger] t[j]).id@ != id by {
            assert(t[j] == entries[j]);
        }
        if i < entries.len() {
            lemma_entry_named(t, id, i);
        } else {
            lemma_entry_named(t, id, i - 1);
            assert(entries.last() == entries[i - 1]);
        }
    }
}

/// The renderer plugin for a wallpaper: the one that is named, if it takes the
/// type, else the best one for the type.
pub open spec fn picked(reg: Registry, wp_type: String, renderer_name: String) -> Result<
    RendererDef,
    Error,
> {
    if renderer_name@.len() == 0 {
        match reg.resolved(wp_type@) {
            Some(d) => Ok(d),
            None => Err(Error::NoRendererForType(wp_type)),
        }
    } else {
        match dispatch::def_named(reg.defs@, renderer_name@) {
            None => Err(Error::RendererNotFound(renderer_name)),
            Some(d) => if text::lines(d.types@).contains(wp_type@) {
                Ok(d)
            } else {
                Err(Error::RendererTypeMismatch { renderer: renderer_name, ty: wp_type })
            },
        }
    }
}

/// The job for a wallpaper under the settings.
pub open spec fn is_job(
    job: ApplyJob,
    e: WallpaperEntry,
    d: RendererDef,
    v: SettingsView,
    pinned: bool,
    display_ids: Seq<u64>,
) -> bool {
    &&& job.wallpaper_id == e.id
    &&& job.wp_type == e.wp_type
    &&& job.name == e.name
    &&& job.plugin_name == d.name
    &&& job.pinned == pinned
    &&& job.display_ids@ == display_ids
    &&& strmap::kv_text(job.settings@) == settings::table_of(v.plugins, d.name@)
    &&& (job.width, job.height, job.extent_mode) == settings::extent_of(
        v.global.render_size_policy,
        v.global.target_extent,
    )
    &&& job.library_root == e.library_root
    &&& text::opt_text(job.relative) == text::opt_text(e.relative)
}

/// The renderer to start for a job.
pub open spec fn renderer_wanted(job: ApplyJob, extras: Map<Seq<char>, Seq<char>>) -> SpawnView {
    SpawnView {
        wp_type: job.wp_type@,
        extras,
        settings: strmap::kv_text(job.settings@),
        width: job.width,
        height: job.height,
        extent_mode: job.extent_mode,
        test_pattern: false,
        renderer_name: if job.pinned {
            Some(job.plugin_name@)
        } else {
            None
        },
        user_properties: None,
    }
}

/// The manifest that a job's renderer is started with.
pub open spec fn job_def(reg: Registry, job: ApplyJob) -> Option<RendererDef> {
    if job.pinned {
        dispatch::def_named(reg.defs@, job.plugin_name@)
    } else {
        reg.resolved(job.wp_type@)
    }
}

/// Some running renderer already shows what the job asks for.
pub open spec fn reusable(
    live: Seq<LiveRenderer>,
    want: SpawnView,
    def: Option<RendererDef>,
    id: Seq<char>,
) -> bool {
    def is Some && exists|i: int|
        0 <= i < live.len() && (#[trigger] live[i]).serves(want, def->0.name@) && live[i].id@ == id
}

/// The settings once a wallpaper is shown.
pub open spec fn remembered(v: SettingsView, id: Seq<char>) -> SettingsView {
    SettingsView { global: GlobalView { last_wallpaper: Some(id), ..v.global }, ..v }
}

/// The displays that a job is for.
pub open spec fn job_displays(job: ApplyJob, v: RouterView) -> Seq<u64> {
    if job.display_ids@.len() == 0 {
        ops::display_ids(v)
    } else {
        job.display_ids@
    }
}

fn new_job(
    e: &WallpaperEntry,
    d: &RendererDef,
    store: &settings::SettingsStore,
    pinned: bool,
    display_ids: Vec<u64>,
) -> (job: ApplyJob)
    ensures
        is_job(job, *e, *d, store.inner@, pinned, display_ids@),
{
    let g = store.global();
    let (width, height, extent_mode): (u32, u32, u32) = resolve_extent(
        g.render_size_policy,
        g.target_extent,
    );
    let settings = match store.plugin(d.name.as_str()) {
        Some(t) => t,
        None => StrMap::new(),
    };
    assert(strmap::kv_text(settings@) =~= settings::table_of(store.inner@.plugins, d.name@));
    ApplyJob {
        wallpaper_id: e.id.clone(),
        wp_type: e.wp_type.clone(),
        name: e.name.clone(),
        plugin_name: d.name.clone(),
        pinned,
        display_ids,
        settings,
        width,
        height,
        extent_mode,
        library_root: e.library_root.clone(),
        relative: copy_opt(&e.relative),
    }
}

fn job_request(job: &ApplyJob, extras: StrMap<String>) -> (r: SpawnRequest)
    ensures
        r@ == renderer_wanted(*job, strmap::kv_text(extras@)),
{
    SpawnRequest {
        wp_type: job.wp_type.clone(),
        extras,
        settings: job.settings.copy(),
        width: job.width,
        height: job.height,
        extent_mode: job.extent_mode,
        test_pattern: false,
        renderer_name: if job.pinned {
            Some(job.plugin_name.clone())
        } else {
            None
        },
        user_properties_json: None,
    }
}

/// What the daemon keeps of a renderer for reuse.
pub open spec fn is_live(l: LiveRenderer, h: RendererView) -> bool {
    &&& l.id@ == h.id
    &&& l.wp_type@ == h.wp_type
    &&& l.width == h.width
    &&& l.height == h.height
    &&& l.extent_mode == h.extent_mode
    &&& strmap::kv_text(l.extras@) == h.extras
    &&& l.name@ == h.name
    &&& l.pid == h.pid
    &&& text::lines(l.events@) == h.events
}

pub fn live_of(h: &RendererHandle) -> (l: LiveRenderer)
    ensures
        is_live(l, h@),
{
    LiveRenderer {
        id: h.id.clone(),
        wp_type: h.wp_type.clone(),
        width: h.width,
        height: h.height,
        extent_mode: h.extent_mode,
        extras: h.extras.copy(),
        name: h.name.clone(),
        pid: h.pid,
        events: text::copy_lines(&h.events_subscribed),
    }
}

/// Nothing but the router, the renderers at hand, the queue and the settings
/// differs.
pub open spec fn same_ground(a: Daemon, b: Daemon) -> bool {
    a.registry == b.registry && a.catalog == b.catalog
}

/// The list of running renderers once a new one is known, if it still lives:
/// it stands in the place of one with the same id, or else at the end.
pub open spec fn adopted(
    before: Seq<LiveRenderer>,
    after: Seq<LiveRenderer>,
    handle: Option<RendererHandle>,
) -> bool {
    match handle {
        None => after == before,
        Some(h) => exists|l: LiveRenderer| #[trigger]
            is_live(l, h@) && {
                &&& !spawn::has_id(before, h.id@) ==> after == before.push(l)
                &&& forall|i: int|
                    0 <= i < before.len() && (#[trigger] before[i]).id@ == h.id@ ==> after
                        == before.update(i, l)
            },
    }
}

/// The routing once a new renderer is known, if it still lives.
pub open spec fn with_renderer(v: RouterView, handle: Option<RendererHandle>) -> Step {
    match handle {
        Some(h) => events::add_renderer(ops::start(v), h@),
        None => ops::start(v),
    }
}

/// First turn of putting a wallpaper on chosen displays.
pub open spec fn apply_begun(
    a: Daemon,
    wallpaper_id: String,
    renderer_name: String,
    display_ids: Vec<u64>,
    t: Turn,
) -> bool {
    match entry_named(a.catalog@, wallpaper_id@) {
        None => t == Turn::Done(Err(Error::WallpaperNotFound(wallpaper_id))),
        Some(e) => if a.router@.displays.len() == 0 {
            t == Turn::Done(Err(Error::NoDisplayRegistered))
        } else {
            match picked(a.registry, e.wp_type, renderer_name) {
                Err(x) => t == Turn::Done(Err(x)),
                Ok(d) => {
                    t matches Turn::Ask(
                        Ask::Extras { plugin_name, wallpaper_id: w },
                        Wait::ApplyExtras(job),
                    ) && plugin_name == e.plugin_name && w == e.id && is_job(
                        job,
                        e,
                        d,
                        a.store.inner@,
                        renderer_name@.len() > 0,
                        display_ids@,
                    )
                },
            }
        },
    }
}

/// The wallpaper lies in a library, and the database may know it.
pub open spec fn in_library(job: ApplyJob) -> bool {
    job.library_root@.len() > 0 && job.relative is Some
}

/// The wallpaper is looked up in the database.
pub open spec fn looked_up(job: ApplyJob, w: Wait) -> Turn {
    Turn::Ask(Ask::FindItem { library_root: job.library_root, relative: job.relative->0 }, w)
}

pub open spec fn reply_of(job: ApplyJob, renderer_id: String) -> Turn {
    Turn::Done(
        Ok(
            Reply::WallpaperApply {
                renderer_id,
                wallpaper_id: job.wallpaper_id,
                wp_type: job.wp_type,
                name: job.name,
            },
        ),
    )
}

/// The wallpaper is the current one and is remembered; steps go on from where
/// it stands.
pub open spec fn chosen(a: Daemon, b: Daemon, job: ApplyJob, item: Option<i64>) -> bool {
    &&& settings::saved(a.store, b.store, remembered(a.store.inner@, job.wallpaper_id@))
    &&& b.queue == (QueueState {
        current: Some(job.wallpaper_id),
        last_db_id: if item is Some {
            item
        } else {
            a.queue.last_db_id
        },
        shuffle_pos: queue::cursor_on(a.queue.shuffle_round@, a.queue.shuffle_pos, item),
        ..a.queue
    })
}

/// What is done in the end: the settings are written, and the time to the next
/// wallpaper starts anew.
pub open spec fn closing(job: ApplyJob) -> Seq<Order> {
    if in_library(job) {
        Seq::empty()
    } else {
        seq![Order::FlushSettings, Order::KickRotation]
    }
}

/// A chosen wallpaper is on screen: one of a library is looked up next, any
/// other is done with.
pub open spec fn on_screen(a: Daemon, b: Daemon, job: ApplyJob, renderer_id: String, t: Turn) -> bool {
    if in_library(job) {
        &&& t == looked_up(job, Wait::ApplyFound { job, renderer_id })
        &&& b.store == a.store
        &&& b.queue == a.queue
    } else {
        &&& t == reply_of(job, renderer_id)
        &&& chosen(a, b, job, None)
    }
}

/// The renderer shows the wallpaper on the displays of the job.
pub open spec fn applied(
    a: Daemon,
    b: Daemon,
    job: ApplyJob,
    renderer_id: String,
    now: u64,
    out_before: Seq<Order>,
    out_after: Seq<Order>,
    t: Turn,
) -> bool {
    let s = ops::relink(
        ops::start(a.router@),
        job_displays(job, a.router@),
        renderer_id@,
        now,
    );
    &&& same_ground(b, a)
    &&& b.manager == a.manager
    &&& b.router@ == s.v
    &&& on_screen(a, b, job, renderer_id, t)
    &&& exists|fx: Seq<Effect>|
        seqs::views(fx) == s.fx && out_after == #[trigger] (out_before + dispatch::routed(fx))
            + closing(job)
}

/// The turn after a chosen wallpaper was looked up in the database.
pub open spec fn apply_found(
    a: Daemon,
    b: Daemon,
    job: ApplyJob,
    renderer_id: String,
    item: Option<i64>,
    out_before: Seq<Order>,
    out_after: Seq<Order>,
    t: Turn,
) -> bool {
    &&& same_ground(b, a)
    &&& b.manager == a.manager
    &&& b.router == a.router
    &&& chosen(a, b, job, item)
    &&& out_after == out_before + seq![Order::FlushSettings, Order::KickRotation]
    &&& t == reply_of(job, renderer_id)
}

/// The turn after the start arguments are known.
pub open spec fn apply_extended(
    a: Daemon,
    b: Daemon,
    job: ApplyJob,
    extras: Result<StrMap<String>, Error>,
    now: u64,
    out_before: Seq<Order>,
    out_after: Seq<Order>,
    t: Turn,
) -> bool {
    &&& same_ground(b, a)
    &&& b.manager == a.manager
    &&& match extras {
        Err(e) => {
            &&& t == Turn::Done(Err(e))
            &&& b == a
            &&& out_after == out_before
        },
        Ok(x) => {
            let want = renderer_wanted(job, strmap::kv_text(x@));
            let def = job_def(a.registry, job);
            ||| {
                // A running renderer is used.
                exists|renderer_id: String|
                    reusable(a.manager@, want, def, renderer_id@) && #[trigger] applied(
                        a,
                        b,
                        job,
                        renderer_id,
                        now,
                        out_before,
                        out_after,
                        t,
                    )
            }
            ||| {
                // A new one is needed.
                let ids = ops::replaced_ids(
                    a.router@,
                    if job.display_ids@.len() == 0 {
                        None
                    } else {
                        Some(job.display_ids@)
                    },
                    a.router@.renderers.len() as int,
                );
                let s = router::stop_all(
                    ops::start(a.router@),
                    ids,
                    now,
                    ids.len() as int,
                );
                &&& forall|id: Seq<char>| !reusable(a.manager@, want, def, id)
                &&& t matches Turn::Ask(Ask::Spawn(r), Wait::ApplySpawned(j)) && r@ == want
                    && j == job
                &&& b.router@ == s.v
                &&& exists|fx: Seq<Effect>|
                    seqs::views(fx) == s.fx && out_after == #[trigger] (out_before
                        + dispatch::routed(fx))
                &&& b.store == a.store
                &&& b.queue == a.queue
            }
        },
    }
}

/// The turn after a new renderer was asked for.
pub open spec fn apply_done(
    a: Daemon,
    b: Daemon,
    job: ApplyJob,
    spawned: Result<(String, Option<RendererHandle>), Error>,
    now: u64,
    out_before: Seq<Order>,
    out_after: Seq<Order>,
    t: Turn,
) -> bool {
    &&& same_ground(b, a)
    &&& match spawned {
        Err(e) => {
            &&& t == Turn::Done(Err(e))
            &&& b == a
            &&& out_after == out_before
        },
        Ok((id, handle)) => {
            let s1 = with_renderer(a.router@, handle);
            let s2 = ops::relink(
                ops::start(s1.v),
                job_displays(job, s1.v),
                id@,
                now,
            );
            &&& b.router@ == s2.v
            &&& adopted(a.manager@, b.manager@, handle)
            &&& on_screen(a, b, job, id, t)
            &&& exists|fx1: Seq<Effect>, fx2: Seq<Effect>|
                {
                    &&& seqs::views(fx1) == s1.fx
                    &&& seqs::views(fx2) == s2.fx
                    &&& out_after == (#[trigger] (out_before + dispatch::routed(fx1))
                        + #[trigger] dispatch::routed(fx2)) + closing(job)
                }
        },
    }
}

/// First turn of showing a wallpaper everywhere.
pub open spec fn show_begun(
    a: Daemon,
    b: Daemon,
    id: String,
    now: u64,
    out_before: Seq<Order>,
    out_after: Seq<Order>,
    t: Turn,
) -> bool {
    &&& same_ground(b, a)
    &&& b.manager == a.manager
    &&& b.store == a.store
    &&& b.queue == a.queue
    &&& match entry_named(a.catalog@, id@) {
        None => t == Turn::Done(Err(Error::WallpaperNotFound(id))) && b == a && out_after
            == out_before,
        Some(e) => match a.registry.resolved(e.wp_type@) {
            None => t == Turn::Done(Err(Error::NoRendererForType(e.wp_type)))
                && b == a && out_after == out_before,
            Some(d) => {
                let ids = ops::replaced_ids(
                    a.router@,
                    None,
                    a.router@.renderers.len() as int,
                );
                let s = router::unregister_all(
                    ops::start(a.router@),
                    ids,
                    now,
                    ids.len() as int,
                );
                &&& b.router@ == s.v
                &&& exists|fx: Seq<Effect>|
                    seqs::views(fx) == s.fx && out_after == #[trigger] (out_before
                        + dispatch::routed(fx))
                &&& if ids.len() == 0 {
                    t matches Turn::Ask(
                        Ask::Extras { plugin_name, wallpaper_id },
                        Wait::ShowExtras(job),
                    ) && plugin_name == e.plugin_name && wallpaper_id == e.id && is_job(
                        job,
                        e,
                        d,
                        a.store.inner@,
                        false,
                        Seq::empty(),
                    )
                } else {
                    t matches Turn::Ask(
                        Ask::AwaitUnbind { displays, timeout_ms },
                        Wait::ShowUnbound { job, plugin_name, doomed },
                    ) && displays@ == router::unbound(s.fx, s.fx.len() as int) && timeout_ms
                        == UNBIND_TIMEOUT_MS && text::lines(doomed@) == ids && plugin_name
                        == e.plugin_name && is_job(
                        job,
                        e,
                        d,
                        a.store.inner@,
                        false,
                        Seq::empty(),
                    )
                }
            },
        },
    }
}

/// The processes of the renderers are to be ended.
pub open spec fn kills(ids: Seq<String>) -> Seq<Order> {
    Seq::new(ids.len(), |i: int| Order::Route(Effect::Kill(ids[i])))
}

/// The turn after the displays let go of the pools, or had the time to: the
/// renderers that were taken out are stopped.
pub open spec fn show_let_go(
    job: ApplyJob,
    plugin_name: String,
    doomed: Vec<String>,
    out_before: Seq<Order>,
    out_after: Seq<Order>,
    t: Turn,
) -> bool {
    &&& out_after == out_before + kills(doomed@)
    &&& t == Turn::Ask(
        Ask::Extras { plugin_name, wallpaper_id: job.wallpaper_id },
        Wait::ShowExtras(job),
    )
}

/// The turn after its start arguments are known.
pub open spec fn show_extended(
    a: Daemon,
    job: ApplyJob,
    extras: Result<StrMap<String>, Error>,
    t: Turn,
) -> bool {
    match extras {
        Err(e) => t == Turn::Done(Err(e)),
        Ok(x) => t matches Turn::Ask(Ask::Spawn(r), Wait::ShowSpawned(j)) && r@
            == renderer_wanted(job, strmap::kv_text(x@)) && j == job,
    }
}

/// The turn after its renderer was asked for.
pub open spec fn show_linked(
    a: Daemon,
    b: Daemon,
    job: ApplyJob,
    spawned: Result<(String, Option<RendererHandle>), Error>,
    now: u64,
    out_before: Seq<Order>,
    out_after: Seq<Order>,
    t: Turn,
) -> bool {
    &&& same_ground(b, a)
    &&& match spawned {
        Err(e) => {
            &&& t matches Turn::Done(Err(Error::RendererSpawnFailed(m))) && m@ == e.says()
            &&& b == a
            &&& out_after == out_before
        },
        Ok((id, handle)) => {
            let s1 = with_renderer(a.router@, handle);
            let s2 = ops::relink(ops::start(s1.v), ops::display_ids(s1.v), id@, now);
            let tail = if in_library(job) {
                Seq::empty()
            } else {
                seq![Order::FlushSettings, Order::NotifyWallpaper]
            };
            &&& b.router@ == s2.v
            &&& adopted(a.manager@, b.manager@, handle)
            &&& b.queue == (QueueState {
                current: Some(job.wallpaper_id),
                ..a.queue
            })
            &&& exists|fx1: Seq<Effect>, fx2: Seq<Effect>|
                {
                    &&& seqs::views(fx1) == s1.fx
                    &&& seqs::views(fx2) == s2.fx
                    &&& out_after == (#[trigger] (out_before + dispatch::routed(fx1))
                        + #[trigger] dispatch::routed(fx2)) + tail
                }
            &&& if in_library(job) {
                &&& t == looked_up(job, Wait::ShowFound { job, renderer_id: id })
                &&& b.store == a.store
            } else {
                &&& t == reply_of(job, id)
                &&& settings::saved(
                    a.store,
                    b.store,
                    remembered(a.store.inner@, job.wallpaper_id@),
                )
            }
        },
    }
}

/// The turn after it was looked up in the database.
pub open spec fn show_done(
    a: Daemon,
    b: Daemon,
    job: ApplyJob,
    renderer_id: String,
    item: Option<i64>,
    out_before: Seq<Order>,
    out_after: Seq<Order>,
    t: Turn,
) -> bool {
    &&& same_ground(b, a)
    &&& b.manager == a.manager
    &&& b.router == a.router
    &&& b.queue == (QueueState {
        current: Some(job.wallpaper_id),
        last_db_id: if item is Some {
            item
        } else {
            a.queue.last_db_id
        },
        ..a.queue
    })
    &&& settings::saved(a.store, b.store, remembered(a.store.inner@, job.wallpaper_id@))
    &&& out_after == out_before + seq![Order::FlushSettings, Order::NotifyWallpaper]
    &&& t == reply_of(job, renderer_id)
}

fn place_in_library(job: &ApplyJob) -> (r: Option<String>)
    ensures
        r == if in_library(*job) {
            job.relative
        } else {
            None
        },
{
    match &job.relative {
        Some(rel) => if job.library_root.as_str().unicode_len() > 0 {
            Some(rel.clone())
        } else {
            None
        },
        None => None,
    }
}

impl Daemon {
    fn pick_plugin(&self, wp_type: &String, renderer_name: &String) -> (r: Result<
        &RendererDef,
        Error,
    >)
        ensures
            match picked(self.registry, *wp_type, *renderer_name) {
                Ok(d) => r matches Ok(x) && *x == d,
                Err(e) => r matches Err(x) && x == e,
            },
    {
        if renderer_name.as_str().unicode_len() == 0 {
            match self.registry.resolve(wp_type.as_str()) {
                Some(d) => Ok(d),
                None => Err(Error::NoRendererForType(wp_type.clone())),
            }
        } else {
            match self.registry.resolve_by_name(renderer_name.as_str()) {
                None => Err(Error::RendererNotFound(renderer_name.clone())),
                Some(d) => if list_contains(&d.types, wp_type.as_str()) {
                    Ok(d)
                } else {
                    Err(
                        Error::RendererTypeMismatch {
                            renderer: renderer_name.clone(),
                            ty: wp_type.clone(),
                        },
                    )
                },
            }
        }
    }

    fn find_entry(&self, id: &str) -> (r: Option<&WallpaperEntry>)
        ensures
            match r {
                Some(e) => entry_named(self.catalog@, id@) == Some(*e),
                None => entry_named(self.catalog@, id@) is None,
            },
    {
        let r = self.catalog.get(id);
        proof {
            match r {
                Some(e) => {
                    let i = choose|i: int| #[trigger]
                        catalog::first_with_id(self.catalog@, id@, i) && self.catalog@[i] == *e;
                    lemma_entry_named(self.catalog@, id@, i);
                },
                None => lemma_entry_named(self.catalog@, id@, self.catalog@.len() as int),
            }
        }
        r
    }

    /// First turn of a request to show a wallpaper: it must be known, there
    /// must be a display, and a renderer plugin must take it.
    pub fn apply_begin(
        &self,
        wallpaper_id: String,
        renderer_name: String,
        display_ids: Vec<u64>,
    ) -> (t: Turn)
        ensures
            apply_begun(*self, wallpaper_id, renderer_name, display_ids, t),
    {
        let e = match self.find_entry(wallpaper_id.as_str()) {
            Some(e) => e,
            None => {
                return Turn::Done(Err(Error::WallpaperNotFound(wallpaper_id)));
            },
        };
        if self.router.display_count() == 0 {
            return Turn::Done(Err(Error::NoDisplayRegistered));
        }
        let d = match self.pick_plugin(&e.wp_type, &renderer_name) {
            Ok(d) => d,
            Err(x) => {
                return Turn::Done(Err(x));
            },
        };
        let pinned: bool = renderer_name.as_str().unicode_len() > 0;
        let job = new_job(e, d, &self.store, pinned, display_ids);
        Turn::Ask(
            Ask::Extras { plugin_name: e.plugin_name.clone(), wallpaper_id: e.id.clone() },
            Wait::ApplyExtras(job),
        )
    }

    /// The renderer shows the wallpaper from now on.
    fn apply_finish(&mut self, job: ApplyJob, renderer_id: String, now: u64, out: &mut Vec<Order>)
        -> (t: Turn)
        ensures
            applied(*old(self), *final(self), job, renderer_id, now, old(out)@, final(out)@, t),
    {
        let ghost before = out@;
        let fx = if job.display_ids.len() == 0 {
            self.router.relink_all_displays_to(renderer_id.as_str(), now)
        } else {
            self.router.relink_displays_to(&job.display_ids, renderer_id.as_str(), now)
        };
        let ghost sent = fx@;
        route(fx, out);
        assert(out@ =~= (before + dispatch::routed(sent)) + Seq::<Order>::empty());
        match place_in_library(&job) {
            Some(relative) => Turn::Ask(
                Ask::FindItem { library_root: job.library_root.clone(), relative },
                Wait::ApplyFound { job, renderer_id },
            ),
            None => self.apply_located(job, renderer_id, None, out),
        }
    }

    /// The number of the chosen wallpaper in the database is known, where it
    /// has one.
    pub fn apply_located(
        &mut self,
        job: ApplyJob,
        renderer_id: String,
        item: Option<i64>,
        out: &mut Vec<Order>,
    ) -> (t: Turn)
        ensures
            apply_found(*old(self), *final(self), job, renderer_id, item, old(out)@, final(out)@, t),
    {
        let ghost before = out@;
        self.queue.located(job.wallpaper_id.clone(), item);
        let mut after = self.store.snapshot();
        after.global.last_wallpaper = Some(job.wallpaper_id.clone());
        let _changed = self.store.update(after);
        out.push(Order::FlushSettings);
        out.push(Order::KickRotation);
        assert(out@ =~= before + seq![Order::FlushSettings, Order::KickRotation]);
        Turn::Done(
            Ok(
                Reply::WallpaperApply {
                    renderer_id,
                    wallpaper_id: job.wallpaper_id,
                    wp_type: job.wp_type,
                    name: job.name,
                },
            ),
        )
    }

    /// The plugin gave the start arguments. Where a running renderer already
    /// shows just this, it is used; else the renderers that lose all their
    /// displays are stopped before a new one is started.
    pub fn apply_extras(
        &mut self,
        job: ApplyJob,
        extras: Result<StrMap<String>, Error>,
        now: u64,
        out: &mut Vec<Order>,
    ) -> (t: Turn)
        ensures
            apply_extended(*old(self), *final(self), job, extras, now, old(out)@, final(out)@, t),
    {
        let x = match extras {
            Err(e) => {
                return Turn::Done(Err(e));
            },
            Ok(x) => x,
        };
        let req = job_request(&job, x);
        let ghost want = req@;
        let ghost defs = job_def(self.registry, job);
        let found: Option<String> = {
            let def = if job.pinned {
                self.registry.resolve_by_name(job.plugin_name.as_str())
            } else {
                self.registry.resolve(job.wp_type.as_str())
            };
            self.manager.find_reusable(&req, def)
        };
        match found {
            Some(id) => {
                assert(reusable(self.manager@, want, defs, id@));
                self.apply_finish(job, id, now, out)
            },
            None => {
                let ids = if job.display_ids.len() == 0 {
                    self.router.renderers_fully_replaced_by(None)
                } else {
                    self.router.renderers_fully_replaced_by(Some(&job.display_ids))
                };
                assert(text::lines(ids@).len() == ids@.len());
                let fx = self.router.stop_renderers(&ids, now);
                route(fx, out);
                Turn::Ask(Ask::Spawn(req), Wait::ApplySpawned(job))
            },
        }
    }

    /// A new renderer is known to the daemon, if it still lives.
    pub(super) fn adopt(&mut self, handle: Option<RendererHandle>, out: &mut Vec<Order>)
        ensures
            same_ground(*final(self), *old(self)),
            final(self).store == old(self).store,
            final(self).queue == old(self).queue,
            ({
                let s = with_renderer(old(self).router@, handle);
                &&& final(self).router@ == s.v
                &&& exists|fx: Seq<Effect>|
                    seqs::views(fx) == s.fx && final(out)@ == #[trigger] (old(out)@
                        + dispatch::routed(fx))
            }),
            adopted(old(self).manager@, final(self).manager@, handle),
    {
        let ghost before = out@;
        match handle {
            Some(h) => {
                let live = live_of(&h);
                let ghost l = live;
                self.manager.insert(live);
                assert(is_live(l, h@));
                let fx = self.router.register_renderer(h);
                route(fx, out);
            },
            None => {
                let ghost none = Seq::<Effect>::empty();
                assert(seqs::views(none) =~= Seq::<router::EffectView>::empty());
                assert(out@ =~= before + dispatch::routed(none));
            },
        }
    }

    /// A new renderer was started for the job.
    pub fn apply_spawned(
        &mut self,
        job: ApplyJob,
        spawned: Result<(String, Option<RendererHandle>), Error>,
        now: u64,
        out: &mut Vec<Order>,
    ) -> (t: Turn)
        ensures
            apply_done(*old(self), *final(self), job, spawned, now, old(out)@, final(out)@, t),
    {
        match spawned {
            Err(e) => Turn::Done(Err(e)),
            Ok((id, handle)) => {
                self.adopt(handle, out);
                self.apply_finish(job, id, now, out)
            },
        }
    }

    /// First turn of showing a wallpaper on all displays, with the best
    /// renderer plugin for it. The renderers that run are taken out before
    /// anything else, and the displays get time to let go of their pools.
    pub fn show_begin(&mut self, id: String, now: u64, out: &mut Vec<Order>) -> (t: Turn)
        ensures
            show_begun(*old(self), *final(self), id, now, old(out)@, final(out)@, t),
    {
        let (job, plugin_name, wallpaper_id): (ApplyJob, String, String) = {
            let e = match self.find_entry(id.as_str()) {
                Some(e) => e,
                None => {
                    return Turn::Done(Err(Error::WallpaperNotFound(id)));
                },
            };
            let d = match self.registry.resolve(e.wp_type.as_str()) {
                Some(d) => d,
                None => {
                    return Turn::Done(Err(Error::NoRendererForType(e.wp_type.clone())));
                },
            };
            let none: Vec<u64> = Vec::new();
            assert(none@ =~= Seq::<u64>::empty());
            (new_job(e, d, &self.store, false, none), e.plugin_name.clone(), e.id.clone())
        };
        let doomed = self.router.renderers_fully_replaced_by(None);
        assert(text::lines(doomed@).len() == doomed@.len());
        let fx = self.router.retire_renderers(&doomed, now);
        let displays = unbound_displays(&fx);
        route(fx, out);
        if doomed.len() == 0 {
            return Turn::Ask(Ask::Extras { plugin_name, wallpaper_id }, Wait::ShowExtras(job));
        }
        Turn::Ask(
            Ask::AwaitUnbind { displays, timeout_ms: UNBIND_TIMEOUT_MS },
            Wait::ShowUnbound { job, plugin_name, doomed },
        )
    }

    /// The displays let go of the pools, or the time for it is over: the
    /// renderers that were taken out are stopped.
    pub fn show_unbound(
        &self,
        job: ApplyJob,
        plugin_name: String,
        doomed: Vec<String>,
        out: &mut Vec<Order>,
    ) -> (t: Turn)
        ensures
            show_let_go(job, plugin_name, doomed, old(out)@, final(out)@, t),
    {
        let ghost before = out@;
        let mut i: usize = 0;
        assert(out@ =~= before + kills(doomed@).take(0));
        while i < doomed.len()
            invariant
                i <= doomed@.len(),
                out@ == before + kills(doomed@).take(i as int),
            decreases doomed.len() - i,
        {
            out.push(Order::Route(Effect::Kill(doomed[i].clone())));
            i = i + 1;
            assert(out@ =~= before + kills(doomed@).take(i as int));
        }
        assert(kills(doomed@).take(i as int) =~= kills(doomed@));
        Turn::Ask(
            Ask::Extras { plugin_name, wallpaper_id: job.wallpaper_id.clone() },
            Wait::ShowExtras(job),
        )
    }

    /// The plugin gave the start arguments: a renderer is started.
    pub fn show_extras(&self, job: ApplyJob, extras: Result<StrMap<String>, Error>) -> (t: Turn)
        ensures
            show_extended(*self, job, extras, t),
    {
        match extras {
            Err(e) => Turn::Done(Err(e)),
            Ok(x) => {
                let req = job_request(&job, x);
                Turn::Ask(Ask::Spawn(req), Wait::ShowSpawned(job))
            },
        }
    }

    /// A renderer was started: every display is given to it. Where its
    /// wallpaper lies in a library it is looked up in the database.
    pub fn show_spawned(
        &mut self,
        job: ApplyJob,
        spawned: Result<(String, Option<RendererHandle>), Error>,
        now: u64,
        out: &mut Vec<Order>,
    ) -> (t: Turn)
        ensures
            show_linked(*old(self), *final(self), job, spawned, now, old(out)@, final(out)@, t),
    {
        match spawned {
            Err(e) => Turn::Done(Err(Error::RendererSpawnFailed(e.message()))),
            Ok((id, handle)) => {
                let ghost before = out@;
                self.adopt(handle, out);
                let ghost mid = out@;
                let fx = self.router.relink_all_displays_to(id.as_str(), now);
                let ghost sent = fx@;
                route(fx, out);
                assert(out@ + Seq::<Order>::empty() =~= out@);
                self.queue.shown(job.wallpaper_id.clone(), None);
                match place_in_library(&job) {
                    Some(relative) => Turn::Ask(
                        Ask::FindItem { library_root: job.library_root.clone(), relative },
                        Wait::ShowFound { job, renderer_id: id },
                    ),
                    None => self.show_found(job, id, None, out),
                }
            },
        }
    }

    /// The number of the wallpaper in the database is known, where it has one.
    pub fn show_found(
        &mut self,
        job: ApplyJob,
        renderer_id: String,
        item: Option<i64>,
        out: &mut Vec<Order>,
    ) -> (t: Turn)
        ensures
            show_done(*old(self), *final(self), job, renderer_id, item, old(out)@, final(out)@, t),
    {
        let ghost before = out@;
        self.queue.shown(job.wallpaper_id.clone(), item);
        let mut after = self.store.snapshot();
        after.global.last_wallpaper = Some(job.wallpaper_id.clone());
        let _changed = self.store.update(after);
        out.push(Order::FlushSettings);
        out.push(Order::NotifyWallpaper);
        assert(out@ =~= before + seq![Order::FlushSettings, Order::NotifyWallpaper]);
        Turn::Done(
            Ok(
                Reply::WallpaperApply {
                    renderer_id,
                    wallpaper_id: job.wallpaper_id,
                    wp_type: job.wp_type,
                    name: job.name,
                },
            ),
        )
    }
}

/// A wallpaper that was put on screen is the one that restoring shows again,
/// and it is written to disk at once.
pub proof fn shown_wallpaper_is_restored(
    a: Daemon,
    b: Daemon,
    job: ApplyJob,
    renderer_id: String,
    item: Option<i64>,
    now: u64,
    before: Seq<Order>,
    after: Seq<Order>,
    t: Turn,
)
    requires
        ({
            ||| applied(a, b, job, renderer_id, now, before, after, t) && !in_library(job)
            ||| apply_found(a, b, job, renderer_id, item, before, after, t)
            ||| show_done(a, b, job, renderer_id, item, before, after, t)
        }),
    ensures
        b.store.inner@.global.last_wallpaper == Some(job.wallpaper_id@),
        a.store.inner@.global.last_wallpaper != Some(job.wallpaper_id@) ==> b.store.dirty,
        after.contains(Order::FlushSettings),
{
    if applied(a, b, job, renderer_id, now, before, after, t) && !in_library(job) {
        let fx = choose|fx: Seq<Effect>|
            after == #[trigger] (before + dispatch::routed(fx)) + closing(job);
        assert(after[(before + dispatch::routed(fx)).len() as int] == Order::FlushSettings);
    } else {
        assert(after[before.len() as int] == Order::FlushSettings);
    }
}

/// Steps go on from a wallpaper that was chosen: it is the last one shown, and
/// where the shuffle round holds it the round goes on behind it.
pub proof fn steps_go_on_from_the_choice(a: Daemon, b: Daemon, job: ApplyJob, x: i64)
    requires
        chosen(a, b, job, Some(x)),
    ensures
        b.queue.last_db_id == Some(x),
        b.queue.shuffle_round == a.queue.shuffle_round,
        a.queue.shuffle_round@.contains(x) ==> b.queue.shuffle_pos < b.queue.shuffle_round@.len()
            && b.queue.shuffle_round@[b.queue.shuffle_pos as int] == x,
        a.queue.well_formed() ==> b.queue.well_formed(),
{
    queue::lemma_first_place_is_it(a.queue.shuffle_round@, x);
    assert(a.queue.shuffle_round.len() == a.queue.shuffle_round@.len());
}

} // verus!
