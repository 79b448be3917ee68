//! Serving requests: the first turn of each, and the turns after it.

use super::{
    layout_change, plain, route, spawn_request, Answer, ApplyJob, Ask, Daemon, LayoutOverride, Order,
    PlaylistRow, PlaylistStatusReply, PlaylistSummary, Reply, Request, Turn, Wait,
};
use super::list::{self, list_page, Media};
use super::apply;
use super::change::{self, settings_sent};
use super::control;
use crate::dispatch;
use crate::error::Error;
use crate::filter::{FilterLogic, WallpaperFilterRule};
use crate::queue::{GlobalEvent, Mode, QueueState, QueueStatus};
use crate::router::{self, events, ops, Effect, RouterView};
use crate::renderer::RendererHandle;
use crate::seqs;
use crate::settings::{self, SettingsView};
use crate::snapshot::{DisplaySnapshot, LibrarySnapshot, RouterEvent};
use crate::spawn;
use crate::strmap::{self, StrMap};
use crate::text::{self, str_eq};
use crate::wire::{self, display_infos, display_snapshot_to_pb, settings_info, DisplayInfo};
use vstd::prelude::*;

verus! {

broadcast use seqs::group_views;

/// Nothing has changed, and nothing is to be done.
pub open spec fn untouched(a: Daemon, b: Daemon, before: Seq<Order>, after: Seq<Order>) -> bool {
    b == a && after == before
}

/// The orders grew by the effects of a step of the router.
pub open spec fn grown(
    before: Seq<Order>,
    after: Seq<Order>,
    fx: Seq<router::EffectView>,
    tail: Seq<Order>,
) -> bool {
    exists|list: Seq<Effect>|
        seqs::views(list) == fx && after == #[trigger] (before + dispatch::routed(list)) + tail
}

/// What clients are told of all displays.
pub open spec fn tells_all(infos: Seq<DisplayInfo>, v: RouterView, s: SettingsView) -> bool {
    exists|list: Seq<DisplaySnapshot>|
        seqs::views(list) == router::display_snaps(v) && #[trigger] wire::tells_displays(
            infos,
            list,
            s,
        )
}

/// What clients are told of the display of that name.
pub open spec fn tells_named(
    info: Option<DisplayInfo>,
    v: RouterView,
    name: Seq<char>,
    s: SettingsView,
) -> bool {
    match events::display_named(v.displays, name) {
        None => info is None,
        Some(d) => info is Some && exists|p: DisplaySnapshot|
            p@ == router::display_snap(v.links, d) && #[trigger] wire::tells_display(info->0, p, s),
    }
}

/// First turn of a request.
pub open spec fn begun(
    a: Daemon,
    b: Daemon,
    req: Option<Request>,
    now: u64,
    before: Seq<Order>,
    after: Seq<Order>,
    t: Turn,
) -> bool {
    match req {
        None => untouched(a, b, before, after) && (t matches Turn::Done(
            Err(Error::UnexpectedPayload(m)),
        ) && m@ == "empty request payload"@),
        Some(Request::Health) => untouched(a, b, before, after) && (t matches Turn::Done(
            Ok(Reply::Health { service, state }),
        ) && service@ == "waywallen"@ && state@ == "healthy"@),
        Some(Request::RendererSpawn { wp_type, metadata, fps, width, height }) => untouched(
            a,
            b,
            before,
            after,
        ) && (t matches Turn::Ask(Ask::Spawn(r), Wait::Spawned) && r@ == dispatch::spawn_wanted(
            wp_type@,
            strmap::kv_text(metadata@),
            fps,
            width,
            height,
        )),
        Some(Request::RendererList) => untouched(a, b, before, after) && (t matches Turn::Done(
            Ok(Reply::RendererList { renderers, instances }),
        ) && text::lines(renderers@) == Seq::new(a.manager@.len(), |i: int| a.manager@[i].id@)
            && instances@.len() == a.manager@.len() && forall|i: int|
            0 <= i < instances@.len() ==> dispatch::tells_live(
                #[trigger] instances@[i],
                a.manager@[i],
                a,
            )),
        Some(Request::RendererKill(id)) => {
            let s = router::unregister(ops::start(a.router@), id@, now);
            &&& apply::same_ground(b, a)
            &&& b.store == a.store
            &&& b.queue == a.queue
            &&& b.router@ == s.v
            &&& if spawn::has_id(a.manager@, id@) {
                &&& t == Turn::Done(Ok(Reply::RendererKill))
                &&& grown(before, after, s.fx, seq![Order::Terminate(id)])
                &&& forall|i: int|
                    0 <= i < a.manager@.len() && (#[trigger] a.manager@[i]).id@ == id@
                        ==> b.manager@ == a.manager@.remove(i)
            } else {
                &&& t matches Turn::Done(Err(Error::RendererNotFound(m))) && m@ == id@
                &&& grown(before, after, s.fx, Seq::empty())
                &&& b.manager@ == a.manager@
            }
        },
        Some(Request::RendererPluginList) => untouched(a, b, before, after) && (t matches Turn::Done(
            Ok(Reply::RendererPluginList { renderers, supported_types }),
        ) && renderers@.len() == a.registry.defs@.len() && (forall|i: int|
            0 <= i < renderers@.len() ==> dispatch::tells_plugin(
                #[trigger] renderers@[i],
                a.registry.defs@[i],
            )) && forall|k: Seq<char>| #[trigger]
            a.registry.best@.contains_key(k) <==> text::lines(supported_types@).contains(k)),
        Some(Request::WallpaperScan) => b == a && t == Turn::Done(
            Ok(Reply::WallpaperScan { count: 0 }),
        ) && after.len() == before.len() + 1 && after.drop_last() == before && is_scan(
            after.last(),
            "scan/refresh"@,
        ),
        Some(Request::WallpaperApply { wallpaper_id, renderer_name, display_ids }) => untouched(
            a,
            b,
            before,
            after,
        ) && apply::apply_begun(a, wallpaper_id, renderer_name, display_ids, t),
        Some(Request::SourceList) => untouched(a, b, before, after) && (t matches Turn::Done(
            Ok(Reply::SourceList(list)),
        ) && list@.len() == a.catalog.loaded().len() && forall|i: int|
            0 <= i < list@.len() ==> dispatch::tells_source(
                #[trigger] list@[i],
                a.catalog.loaded()[i],
            )),
        Some(Request::DisplayList) => untouched(a, b, before, after) && (t matches Turn::Done(
            Ok(Reply::DisplayList(list)),
        ) && tells_all(list@, a.router@, a.store.inner@)),
        Some(
            Request::DisplayLayoutSet {
                name,
                layout,
                clear_fillmode,
                clear_align,
                clear_clear_rgba,
            },
        ) => {
            let s = events::layout_changed(ops::start(a.router@), name@);
            let c = dispatch::wanted_layout(layout, clear_fillmode, clear_align, clear_clear_rgba);
            &&& apply::same_ground(b, a)
            &&& b.manager == a.manager
            &&& b.queue == a.queue
            &&& b.router@ == s.v
            &&& settings::saved(
                a.store,
                b.store,
                a.store.inner@.with_layout(events::layout_key(a.router@, name@), c),
            )
            &&& grown(before, after, s.fx, Seq::empty())
            &&& t matches Turn::Done(Ok(Reply::DisplayLayoutSet { display })) && tells_named(
                display,
                s.v,
                name@,
                b.store.inner@,
            )
        },
        Some(Request::SettingsGet) => untouched(a, b, before, after) && (t matches Turn::Done(
            Ok(Reply::SettingsGet(i)),
        ) && wire::tells_settings(i, a.store.inner@)),
        Some(Request::SettingsSet { plugins, global }) => change::settings_begun(
            a,
            b,
            plugins,
            global,
            before,
            after,
            t,
        ),
        Some(other) => untouched(a, b, before, after) && dispatch::plain_turn(other) == Some(t),
    }
}

/// One answer of the kinds that a later turn may get.
pub open spec fn listed(rows: Seq<PlaylistRow>, out: Seq<PlaylistSummary>) -> bool {
    out.len() == rows.len() && forall|i: int|
        0 <= i < out.len() ==> summed_up(rows[i], #[trigger] out[i])
}

/// What clients are told of a playlist.
pub open spec fn summed_up(r: PlaylistRow, s: PlaylistSummary) -> bool {
    &&& s.id == r.id
    &&& s.name == r.name
    &&& s.source_kind == r.source_kind
    &&& s.mode == Mode::of_word(r.mode@)
    &&& s.interval_secs == not_negative(r.interval_secs)
    &&& s.item_count == r.item_count
}

pub open spec fn not_negative(n: i32) -> int {
    if n < 0 {
        0
    } else {
        n as int
    }
}

/// What clients are told of the queue.
pub open spec fn tells_status(q: QueueStatus, s: PlaylistStatusReply) -> bool {
    &&& s.active_id == match q.active_id {
        Some(id) => id,
        None => 0,
    }
    &&& s.mode == Mode::of_word(q.mode@)
    &&& s.interval_secs == q.interval_secs
    &&& s.current_id@ == match q.current {
        Some(id) => id@,
        None => Seq::empty(),
    }
    &&& s.position == match q.position {
        Some(p) => p,
        None => 0,
    }
    &&& s.count == q.count
    &&& s.is_smart == q.is_smart
}

/// The order to scan, for a reason.
pub open spec fn is_scan(o: Order, why: Seq<char>) -> bool {
    o matches Order::StartScan(s) && s@ == why
}

/// The playlist is the one that is played.
pub open spec fn plays(d: Daemon, id: i64) -> bool {
    d.queue.active_id == Some(id)
}

/// The turn after the work on a playlist was acknowledged.
pub open spec fn playlist_moved(
    a: Daemon,
    b: Daemon,
    w: Wait,
    r: Result<(), Error>,
    before: Seq<Order>,
    after: Seq<Order>,
    t: Turn,
) -> bool {
    match w {
        Wait::PlaylistFilled(id) => untouched(a, b, before, after) && match r {
            Ok(_) => t == Turn::Done(Ok(Reply::PlaylistCreate { id })),
            Err(e) => t == Turn::Ask(Ask::DeletePlaylist(id), Wait::PlaylistDropped(e)),
        },
        Wait::PlaylistDropped(e) => untouched(a, b, before, after) && t == Turn::Done(Err(e)),
        Wait::PlaylistDeleted(id) => untouched(a, b, before, after) && match r {
            Err(e) => t == Turn::Done(Err(e)),
            Ok(_) => t == if plays(a, id) {
                Turn::Ask(Ask::DeactivatePlaylist, Wait::Deactivated(Reply::PlaylistDelete))
            } else {
                Turn::Done(Ok(Reply::PlaylistDelete))
            },
        },
        Wait::PlaylistItemsSet(id) => untouched(a, b, before, after) && match r {
            Err(e) => t == Turn::Done(Err(e)),
            Ok(_) => t == if plays(a, id) {
                Turn::Ask(
                    Ask::ActivatePlaylist(id),
                    Wait::PlaylistLoaded { id, reply: Reply::PlaylistSetItems },
                )
            } else {
                Turn::Done(Ok(Reply::PlaylistSetItems))
            },
        },
        Wait::PlaylistModeSet { id, mode } => match r {
            Err(e) => untouched(a, b, before, after) && t == Turn::Done(Err(e)),
            Ok(_) => t == Turn::Done(Ok(Reply::PlaylistSetMode)) && if plays(a, id) {
                control::mode_set(a, b, mode, before, after)
            } else {
                untouched(a, b, before, after)
            },
        },
        Wait::PlaylistIntervalSet { id, interval_secs } => match r {
            Err(e) => untouched(a, b, before, after) && t == Turn::Done(Err(e)),
            Ok(_) => t == Turn::Done(Ok(Reply::PlaylistSetInterval)) && if plays(a, id) {
                control::interval_set(a, b, interval_secs, before, after)
            } else {
                untouched(a, b, before, after)
            },
        },
        Wait::Deactivated(reply) => after == before && match r {
            Err(e) => b == a && t == Turn::Done(Err(e)),
            Ok(_) => control::deactivated(a, b) && t == Turn::Done(Ok(reply)),
        },
        _ => true,
    }
}

/// The turn after a library was added.
pub open spec fn library_added(
    a: Daemon,
    b: Daemon,
    plugin_name: String,
    r: Result<(i64, String), Error>,
    before: Seq<Order>,
    after: Seq<Order>,
    t: Turn,
) -> bool {
    b == a && match r {
        Err(e) => after == before && t == Turn::Done(Err(e)),
        Ok((id, path)) => {
            let n = before.len() as int;
            &&& t == Turn::Done(Ok(Reply::LibraryAdd))
            &&& after.len() == n + 3
            &&& after.take(n) == before
            &&& after[n] == Order::Route(
                Effect::Emit(RouterEvent::LibraryUpsert(LibrarySnapshot { id, path, plugin_name })),
            )
            &&& after[n + 1] matches Order::Publish(GlobalEvent::LibrariesAdded { paths })
                && paths@ == seq![path]
            &&& is_scan(after[n + 2], "scan/refresh-after-library-add"@)
        },
    }
}

/// The turn after a library was removed.
pub open spec fn library_removed(
    a: Daemon,
    b: Daemon,
    id: i64,
    r: Result<(), Error>,
    before: Seq<Order>,
    after: Seq<Order>,
    t: Turn,
) -> bool {
    b == a && match r {
        Err(e) => after == before && t == Turn::Done(Err(e)),
        Ok(_) => {
            let n = before.len() as int;
            &&& t == Turn::Done(Ok(Reply::LibraryRemove))
            &&& after.len() == n + 2
            &&& after.take(n) == before
            &&& after[n] == Order::Route(Effect::Emit(RouterEvent::LibraryRemoved(id)))
            &&& is_scan(after[n + 1], "scan/refresh-after-library-remove"@)
        },
    }
}

/// The page that is told.
pub open spec fn tells_list(
    d: Daemon,
    wp_type: Seq<char>,
    keys: Option<Seq<(String, String)>>,
    page: u32,
    page_size: u32,
    media: Media,
    t: Turn,
) -> bool {
    let all = list::selection(d.catalog@, wp_type, keys, d.catalog@.len() as int);
    t matches Turn::Done(Ok(Reply::WallpaperList { wallpapers, count })) && count
        == all.len() as u32 && list::tells_page(
        wallpapers@,
        d.catalog@,
        list::page_of(all, page, page_size),
        media,
    )
}

/// The turn after what the database knows of all wallpapers is there.
pub open spec fn media_loaded(
    d: Daemon,
    wp_type: String,
    filters: Vec<WallpaperFilterRule>,
    logics: Vec<FilterLogic>,
    page: u32,
    page_size: u32,
    media: Result<Media, Error>,
    t: Turn,
) -> bool {
    match media {
        Err(e) => t == Turn::Done(Err(e)),
        Ok(m) => if filters@.len() == 0 {
            tells_list(d, wp_type@, None, page, page_size, m, t)
        } else {
            t == Turn::Ask(
                Ask::MatchFilters { filters, logics },
                Wait::ListKeys { wp_type, page, page_size, media: m },
            )
        },
    }
}

/// A turn after the first.
pub open spec fn resumed(
    a: Daemon,
    b: Daemon,
    w: Wait,
    x: Answer,
    now: u64,
    before: Seq<Order>,
    after: Seq<Order>,
    t: Turn,
) -> bool {
    match (w, x) {
        (Wait::Ack(reply), Answer::Ack(r)) => untouched(a, b, before, after) && t == Turn::Done(
            match r {
                Ok(_) => Ok(reply),
                Err(e) => Err(e),
            },
        ),
        (Wait::Spawned, Answer::Spawned(r)) => match r {
            Err(e) => untouched(a, b, before, after) && t == Turn::Done(Err(e)),
            Ok((id, handle)) => {
                let s = apply::with_renderer(a.router@, handle);
                &&& apply::same_ground(b, a)
                &&& b.store == a.store
                &&& b.queue == a.queue
                &&& b.router@ == s.v
                &&& apply::adopted(a.manager@, b.manager@, handle)
                &&& grown(before, after, s.fx, Seq::empty())
                &&& t == Turn::Done(Ok(Reply::RendererSpawn { renderer_id: id }))
            },
        },
        (Wait::ListMedia { wp_type, filters, logics, page, page_size }, Answer::Media(m)) =>
            untouched(a, b, before, after) && media_loaded(
            a,
            wp_type,
            filters,
            logics,
            page,
            page_size,
            m,
            t,
        ),
        (Wait::ListKeys { wp_type, page, page_size, media }, Answer::Keys(k)) => untouched(
            a,
            b,
            before,
            after,
        ) && match k {
            Err(e) => t == Turn::Done(Err(e)),
            Ok(keys) => tells_list(a, wp_type@, Some(keys@), page, page_size, media, t),
        },
        (Wait::ApplyExtras(job), Answer::Extras(r)) => apply::apply_extended(
            a,
            b,
            job,
            r,
            now,
            before,
            after,
            t,
        ),
        (Wait::ApplySpawned(job), Answer::Spawned(r)) => apply::apply_done(
            a,
            b,
            job,
            r,
            now,
            before,
            after,
            t,
        ),
        (Wait::ApplyFound { job, renderer_id }, Answer::Item(item)) => apply::apply_found(
            a,
            b,
            job,
            renderer_id,
            item,
            before,
            after,
            t,
        ),
        (Wait::ShowUnbound { job, plugin_name, doomed }, Answer::Ack(_)) => b == a
            && apply::show_let_go(job, plugin_name, doomed, before, after, t),
        (Wait::ShowExtras(job), Answer::Extras(r)) => untouched(a, b, before, after)
            && apply::show_extended(a, job, r, t),
        (Wait::ShowSpawned(job), Answer::Spawned(r)) => apply::show_linked(
            a,
            b,
            job,
            r,
            now,
            before,
            after,
            t,
        ),
        (Wait::ShowFound { job, renderer_id }, Answer::Item(item)) => apply::show_done(
            a,
            b,
            job,
            renderer_id,
            item,
            before,
            after,
            t,
        ),
        (Wait::SettingsChecked { plugins, global, checks }, Answer::Checked(results)) =>
            change::settings_accepted(a, b, plugins, global, checks, results, before, after, t),
        (Wait::SettingsSent(names), Answer::Sent(results)) => b == a && change::settings_finished(
            names,
            results,
            before,
            after,
            t,
        ),
        (Wait::LibraryList, Answer::Libraries(list)) => untouched(a, b, before, after) && t
            == Turn::Done(Ok(Reply::LibraryList(list))),
        (Wait::LibraryPlugin { plugin_name, path }, Answer::Plugin(r)) => untouched(
            a,
            b,
            before,
            after,
        ) && match r {
            Err(e) => t == Turn::Done(Err(e)),
            Ok(None) => t == Turn::Done(Err(Error::SourcePluginNotFound(plugin_name))),
            Ok(Some(id)) => t == Turn::Ask(
                Ask::AddLibrary { plugin_id: id, path },
                Wait::LibraryAdded { plugin_name },
            ),
        },
        (Wait::LibraryAdded { plugin_name }, Answer::Library(r)) => library_added(
            a,
            b,
            plugin_name,
            r,
            before,
            after,
            t,
        ),
        (Wait::AutoDetected, Answer::Detected(r)) => untouched(a, b, before, after) && t
            == Turn::Done(
            match r {
                Ok(added) => Ok(Reply::LibraryAutoDetect { added }),
                Err(e) => Err(e),
            },
        ),
        (Wait::LibraryRemoved(id), Answer::Ack(r)) => library_removed(a, b, id, r, before, after, t),
        (Wait::PlaylistList, Answer::Playlists(r)) => untouched(a, b, before, after) && match r {
            Err(e) => t == Turn::Done(Err(e)),
            Ok(rows) => t matches Turn::Done(Ok(Reply::PlaylistList(out))) && listed(rows@, out@),
        },
        (Wait::PlaylistCreated { item_ids }, Answer::Created(r)) => untouched(a, b, before, after)
            && match r {
            Err(e) => t == Turn::Done(Err(e)),
            Ok(id) => t == if item_ids@.len() == 0 {
                Turn::Done(Ok(Reply::PlaylistCreate { id }))
            } else {
                Turn::Ask(Ask::SetPlaylistItems { id, item_ids }, Wait::PlaylistFilled(id))
            },
        },
        (Wait::PlaylistActivated(id), Answer::Activated(r)) => after == before && match r {
            Err(e) => b == a && t == Turn::Done(Err(e)),
            Ok(mode) => control::activated(a, b, id, mode@) && t == Turn::Ask(
                Ask::FindPlaylist(id),
                Wait::PlaylistInterval,
            ),
        },
        (Wait::PlaylistLoaded { id, reply }, Answer::Activated(r)) => after == before && match r {
            Err(e) => b == a && t == Turn::Done(Err(e)),
            Ok(mode) => control::activated(a, b, id, mode@) && t == Turn::Done(Ok(reply)),
        },
        (Wait::PlaylistInterval, Answer::Interval(r)) => match r {
            Err(e) => untouched(a, b, before, after) && t == Turn::Done(Err(e)),
            Ok(None) => untouched(a, b, before, after) && t == Turn::Done(
                Ok(Reply::PlaylistActivate),
            ),
            Ok(Some(n)) => control::interval_set(a, b, not_negative(n) as u32, before, after) && t
                == Turn::Done(Ok(Reply::PlaylistActivate)),
        },
        (Wait::PlaylistStatus, Answer::Status(q)) => untouched(a, b, before, after)
            && (t matches Turn::Done(Ok(Reply::PlaylistStatus(s))) && tells_status(q, s)),
        (_, Answer::Ack(r)) => playlist_moved(a, b, w, r, before, after, t),
        _ => true,
    }
}

fn lines_of_keys(m: &StrMap<String>) -> (out: Vec<String>)
    ensures
        forall|k: Seq<char>| #[trigger]
            m@.contains_key(k) <==> text::lines(out@).contains(k),
{
    let out = m.keys();
    proof {
        let names = text::lines(out@);
        assert forall|k: Seq<char>| #[trigger] m@.contains_key(k) <==> names.contains(k) by {
            if m@.contains_key(k) {
                let i = choose|i: int| 0 <= i < out@.len() && #[trigger] out@[i]@ == k;
                assert(names[i] == k);
            }
            if names.contains(k) {
                let i = choose|i: int| 0 <= i < names.len() && names[i] == k;
                assert(m@.contains_key(out@[i]@));
            }
        }
    }
    out
}

fn summaries(rows: &Vec<PlaylistRow>) -> (out: Vec<PlaylistSummary>)
    ensures
        listed(rows@, out@),
{
    let mut out: Vec<PlaylistSummary> = Vec::new();
    let mut i: usize = 0;
    while i < rows.len()
        invariant
            i <= rows@.len(),
            out@.len() == i,
            forall|k: int| 0 <= k < i ==> summed_up(rows@[k], #[trigger] out@[k]),
        decreases rows.len() - i,
    {
        let r = &rows[i];
        out.push(
            PlaylistSummary {
                id: r.id,
                name: r.name.clone(),
                source_kind: r.source_kind.clone(),
                mode: Mode::from_str(r.mode.as_str()),
                interval_secs: interval_of(r.interval_secs),
                item_count: r.item_count,
            },
        );
        i = i + 1;
    }
    out
}

fn interval_of(n: i32) -> (r: u32)
    ensures
        r == not_negative(n),
{
    if n < 0 {
        0
    } else {
        n as u32
    }
}

/// What clients are told of the queue.
pub fn status_reply(q: QueueStatus) -> (s: PlaylistStatusReply)
    ensures
        tells_status(q, s),
{
    PlaylistStatusReply {
        active_id: match q.active_id {
            Some(id) => id,
            None => 0,
        },
        mode: Mode::from_str(q.mode.as_str()),
        interval_secs: q.interval_secs,
        current_id: match q.current {
            Some(id) => id,
            None => String::new(),
        },
        position: match q.position {
            Some(p) => p,
            None => 0,
        },
        count: q.count,
        is_smart: q.is_smart,
    }
}

impl Daemon {
    fn display_info_named(&self, name: &str) -> (r: Option<DisplayInfo>)
        ensures
            tells_named(r, self.router@, name@, self.store.inner@),
    {
        let mut list = self.router.snapshot_displays();
        let ghost shown = self.router@.displays;
        let ghost all = list@;
        assert(seqs::views(all).len() == all.len());
        let mut i: usize = 0;
        while i < list.len()
            invariant
                i <= list@.len(),
                list@ == all,
                seqs::views(all) == router::display_snaps(self.router@),
                shown == self.router@.displays,
                all.len() == shown.len(),
                forall|j: int| 0 <= j < i ==> (#[trigger] shown[j]).name != name@,
            decreases list.len() - i,
        {
            assert(seqs::views(all)[i as int] == all[i as int]@);
            assert(all[i as int]@ == router::display_snap(
                self.router@.links,
                shown[i as int],
            ));
            if str_eq(list[i].name.as_str(), name) {
                proof {
                    events::lemma_display_named(shown, name@, i as int);
                }
                let p = list.remove(i);
                let ghost pv = p;
                let info = display_snapshot_to_pb(p, &self.store);
                let r = Some(info);
                assert(pv == all[i as int]);
                assert(wire::tells_display(r->0, pv, self.store.inner@));
                return r;
            }
            i = i + 1;
        }
        proof {
            events::lemma_display_named(shown, name@, i as int);
        }
        None
    }

    fn kill_renderer(&mut self, id: String, now: u64, out: &mut Vec<Order>) -> (t: Turn)
        ensures
            begun(
                *old(self),
                *final(self),
                Some(Request::RendererKill(id)),
                now,
                old(out)@,
                final(out)@,
                t,
            ),
    {
        let ghost before = out@;
        let fx = self.router.unregister_renderer(id.as_str(), now);
        let ghost sent = fx@;
        route(fx, out);
        assert(out@ =~= (before + dispatch::routed(sent)) + Seq::<Order>::empty());
        match self.manager.kill(id.as_str()) {
            Ok(_) => {
                out.push(Order::Terminate(id));
                assert(out@ =~= (before + dispatch::routed(sent)) + seq![Order::Terminate(id)]);
                Turn::Done(Ok(Reply::RendererKill))
            },
            Err(e) => Turn::Done(Err(e)),
        }
    }

    fn set_layout(
        &mut self,
        name: String,
        layout: Option<LayoutOverride>,
        clear_fillmode: bool,
        clear_align: bool,
        clear_clear_rgba: bool,
        now: u64,
        out: &mut Vec<Order>,
    ) -> (t: Turn)
        ensures
            begun(
                *old(self),
                *final(self),
                Some(
                    Request::DisplayLayoutSet {
                        name,
                        layout,
                        clear_fillmode,
                        clear_align,
                        clear_clear_rgba,
                    },
                ),
                now,
                old(out)@,
                final(out)@,
                t,
            ),
    {
        let ghost before = out@;
        let change = layout_change(layout, clear_fillmode, clear_align, clear_clear_rgba);
        let fx = self.router.set_display_layout(&mut self.store, name.as_str(), &change);
        let ghost sent = fx@;
        route(fx, out);
        assert(out@ =~= (before + dispatch::routed(sent)) + Seq::<Order>::empty());
        Turn::Done(Ok(Reply::DisplayLayoutSet { display: self.display_info_named(name.as_str()) }))
    }

    /// First turn of a request; one that carries nothing is an error.
    pub fn begin(&mut self, req: Option<Request>, now: u64, out: &mut Vec<Order>) -> (t: Turn)
        ensures
            begun(*old(self), *final(self), req, now, old(out)@, final(out)@, t),
    {
        let req = match req {
            Some(r) => r,
            None => {
                return Turn::Done(Err(Error::UnexpectedPayload("empty request payload".to_owned())));
            },
        };
        let req = match plain(req) {
            Ok(t) => {
                return t;
            },
            Err(r) => r,
        };
        match req {
            Request::Health => Turn::Done(
                Ok(Reply::Health { service: "waywallen", state: "healthy" }),
            ),
            Request::RendererSpawn { wp_type, metadata, fps, width, height } => Turn::Ask(
                Ask::Spawn(spawn_request(wp_type, metadata, fps, width, height)),
                Wait::Spawned,
            ),
            Request::RendererList => {
                let (renderers, instances) = self.renderer_list();
                Turn::Done(Ok(Reply::RendererList { renderers, instances }))
            },
            Request::RendererKill(id) => self.kill_renderer(id, now, out),
            Request::RendererPluginList => Turn::Done(
                Ok(
                    Reply::RendererPluginList {
                        renderers: self.plugin_list(),
                        supported_types: lines_of_keys(&self.registry.best),
                    },
                ),
            ),
            Request::WallpaperScan => {
                out.push(Order::StartScan("scan/refresh"));
                assert(out@.drop_last() =~= old(out)@);
                Turn::Done(Ok(Reply::WallpaperScan { count: 0 }))
            },
            Request::WallpaperApply { wallpaper_id, renderer_name, display_ids } => self.apply_begin(
                wallpaper_id,
                renderer_name,
                display_ids,
            ),
            Request::SourceList => Turn::Done(Ok(Reply::SourceList(self.source_list()))),
            Request::DisplayList => {
                let list = self.router.snapshot_displays();
                let ghost shown = list@;
                let infos = display_infos(list, &self.store);
                assert(wire::tells_displays(infos@, shown, self.store.inner@));
                Turn::Done(Ok(Reply::DisplayList(infos)))
            },
            Request::DisplayLayoutSet {
                name,
                layout,
                clear_fillmode,
                clear_align,
                clear_clear_rgba,
            } => self.set_layout(
                name,
                layout,
                clear_fillmode,
                clear_align,
                clear_clear_rgba,
                now,
                out,
            ),
            Request::SettingsGet => Turn::Done(Ok(Reply::SettingsGet(settings_info(&self.store)))),
            Request::SettingsSet { plugins, global } => self.settings_begin(plugins, global, out),
            _ => Turn::Done(Err(Error::UnexpectedPayload("empty request payload".to_owned()))),
        }
    }

    fn list_media(
        &self,
        wp_type: String,
        filters: Vec<WallpaperFilterRule>,
        logics: Vec<FilterLogic>,
        page: u32,
        page_size: u32,
        media: Result<Media, Error>,
    ) -> (t: Turn)
        ensures
            media_loaded(*self, wp_type, filters, logics, page, page_size, media, t),
    {
        match media {
            Err(e) => Turn::Done(Err(e)),
            Ok(m) => {
                if filters.len() == 0 {
                    let (wallpapers, count) = list_page(
                        &self.catalog,
                        wp_type.as_str(),
                        &None,
                        page,
                        page_size,
                        &m,
                    );
                    return Turn::Done(Ok(Reply::WallpaperList { wallpapers, count }));
                }
                Turn::Ask(
                    Ask::MatchFilters { filters, logics },
                    Wait::ListKeys { wp_type, page, page_size, media: m },
                )
            },
        }
    }

    fn list_keys(
        &self,
        wp_type: String,
        page: u32,
        page_size: u32,
        media: Media,
        keys: Result<Vec<(String, String)>, Error>,
    ) -> (t: Turn)
        ensures
            match keys {
                Err(e) => t == Turn::Done(Err(e)),
                Ok(k) => tells_list(*self, wp_type@, Some(k@), page, page_size, media, t),
            },
    {
        match keys {
            Err(e) => Turn::Done(Err(e)),
            Ok(k) => {
                let (wallpapers, count) = list_page(
                    &self.catalog,
                    wp_type.as_str(),
                    &Some(k),
                    page,
                    page_size,
                    &media,
                );
                Turn::Done(Ok(Reply::WallpaperList { wallpapers, count }))
            },
        }
    }

    fn renderer_spawned(
        &mut self,
        r: Result<(String, Option<RendererHandle>), Error>,
        now: u64,
        out: &mut Vec<Order>,
    ) -> (t: Turn)
        ensures
            resumed(
                *old(self),
                *final(self),
                Wait::Spawned,
                Answer::Spawned(r),
                now,
                old(out)@,
                final(out)@,
                t,
            ),
    {
        match r {
            Err(e) => Turn::Done(Err(e)),
            Ok((id, handle)) => {
                let ghost before = out@;
                let ghost s = apply::with_renderer(self.router@, handle);
                self.adopt(handle, out);
                proof {
                    let list = choose|list: Seq<Effect>|
                        seqs::views(list) == s.fx && out@ == #[trigger] (before + dispatch::routed(
                            list,
                        ));
                    assert(out@ =~= (before + dispatch::routed(list)) + Seq::<Order>::empty());
                }
                Turn::Done(Ok(Reply::RendererSpawn { renderer_id: id }))
            },
        }
    }

    fn library_was_added(
        &mut self,
        plugin_name: String,
        r: Result<(i64, String), Error>,
        out: &mut Vec<Order>,
    ) -> (t: Turn)
        ensures
            library_added(*old(self), *final(self), plugin_name, r, old(out)@, final(out)@, t),
    {
        match r {
            Err(e) => Turn::Done(Err(e)),
            Ok((id, path)) => {
                let ghost before = out@;
                let mut paths: Vec<String> = Vec::new();
                paths.push(path.clone());
                assert(paths@ =~= seq![path]);
                out.push(
                    Order::Route(
                        Effect::Emit(
                            RouterEvent::LibraryUpsert(LibrarySnapshot { id, path, plugin_name }),
                        ),
                    ),
                );
                out.push(Order::Publish(GlobalEvent::LibrariesAdded { paths }));
                out.push(Order::StartScan("scan/refresh-after-library-add"));
                assert(out@.take(before.len() as int) =~= before);
                Turn::Done(Ok(Reply::LibraryAdd))
            },
        }
    }

    fn library_was_removed(&mut self, id: i64, r: Result<(), Error>, out: &mut Vec<Order>) -> (t:
        Turn)
        ensures
            library_removed(*old(self), *final(self), id, r, old(out)@, final(out)@, t),
    {
        match r {
            Err(e) => Turn::Done(Err(e)),
            Ok(_) => {
                let ghost before = out@;
                out.push(Order::Route(Effect::Emit(RouterEvent::LibraryRemoved(id))));
                out.push(Order::StartScan("scan/refresh-after-library-remove"));
                assert(out@.take(before.len() as int) =~= before);
                Turn::Done(Ok(Reply::LibraryRemove))
            },
        }
    }

    fn playlist_acknowledged(&mut self, w: Wait, r: Result<(), Error>, out: &mut Vec<Order>) -> (t:
        Turn)
        ensures
            playlist_moved(*old(self), *final(self), w, r, old(out)@, final(out)@, t),
    {
        let active: Option<i64> = self.queue.active_id;
        match w {
            Wait::PlaylistFilled(id) => match r {
                Ok(_) => Turn::Done(Ok(Reply::PlaylistCreate { id })),
                Err(e) => Turn::Ask(Ask::DeletePlaylist(id), Wait::PlaylistDropped(e)),
            },
            Wait::PlaylistDropped(e) => Turn::Done(Err(e)),
            Wait::PlaylistDeleted(id) => match r {
                Err(e) => Turn::Done(Err(e)),
                Ok(_) => if active == Some(id) {
                    Turn::Ask(Ask::DeactivatePlaylist, Wait::Deactivated(Reply::PlaylistDelete))
                } else {
                    Turn::Done(Ok(Reply::PlaylistDelete))
                },
            },
            Wait::PlaylistItemsSet(id) => match r {
                Err(e) => Turn::Done(Err(e)),
                Ok(_) => if active == Some(id) {
                    Turn::Ask(
                        Ask::ActivatePlaylist(id),
                        Wait::PlaylistLoaded { id, reply: Reply::PlaylistSetItems },
                    )
                } else {
                    Turn::Done(Ok(Reply::PlaylistSetItems))
                },
            },
            Wait::PlaylistModeSet { id, mode } => match r {
                Err(e) => Turn::Done(Err(e)),
                Ok(_) => {
                    if active == Some(id) {
                        self.set_mode(mode, out);
                    }
                    Turn::Done(Ok(Reply::PlaylistSetMode))
                },
            },
            Wait::PlaylistIntervalSet { id, interval_secs } => match r {
                Err(e) => Turn::Done(Err(e)),
                Ok(_) => {
                    if active == Some(id) {
                        self.set_rotation_interval(interval_secs, out);
                    }
                    Turn::Done(Ok(Reply::PlaylistSetInterval))
                },
            },
            Wait::Deactivated(reply) => match r {
                Err(e) => Turn::Done(Err(e)),
                Ok(_) => {
                    self.playlist_inactive();
                    Turn::Done(Ok(reply))
                },
            },
            Wait::Ack(reply) => match r {
                Ok(_) => Turn::Done(Ok(reply)),
                Err(e) => Turn::Done(Err(e)),
            },
            _ => Turn::Done(Err(Error::UnexpectedPayload("answer to another request".to_owned()))),
        }
    }

    /// The next turn, once the answer is there.
    #[verifier::rlimit(40)]
    pub fn resume(
        &mut self,
        wait: Wait,
        answer: Answer,
        now: u64,
        out: &mut Vec<Order>,
    ) -> (t: Turn)
        requires
            dispatch::fits(wait, answer),
        ensures
            resumed(*old(self), *final(self), wait, answer, now, old(out)@, final(out)@, t),
    {
        match (wait, answer) {
            (Wait::Ack(reply), Answer::Ack(r)) => match r {
                Ok(_) => Turn::Done(Ok(reply)),
                Err(e) => Turn::Done(Err(e)),
            },
            (Wait::Spawned, Answer::Spawned(r)) => self.renderer_spawned(r, now, out),
            (Wait::ListMedia { wp_type, filters, logics, page, page_size }, Answer::Media(m)) =>
                self.list_media(wp_type, filters, logics, page, page_size, m),
            (Wait::ListKeys { wp_type, page, page_size, media }, Answer::Keys(k)) => self.list_keys(
                wp_type,
                page,
                page_size,
                media,
                k,
            ),
            (Wait::ApplyExtras(job), Answer::Extras(r)) => self.apply_extras(job, r, now, out),
            (Wait::ApplySpawned(job), Answer::Spawned(r)) => self.apply_spawned(job, r, now, out),
            (Wait::ApplyFound { job, renderer_id }, Answer::Item(item)) => self.apply_located(
                job,
                renderer_id,
                item,
                out,
            ),
            (Wait::ShowUnbound { job, plugin_name, doomed }, Answer::Ack(_)) => {
                self.show_unbound(job, plugin_name, doomed, out)
            },
            (Wait::ShowExtras(job), Answer::Extras(r)) => self.show_extras(job, r),
            (Wait::ShowSpawned(job), Answer::Spawned(r)) => self.show_spawned(job, r, now, out),
            (Wait::ShowFound { job, renderer_id }, Answer::Item(item)) => self.show_found(
                job,
                renderer_id,
                item,
                out,
            ),
            (Wait::SettingsChecked { plugins, global, checks }, Answer::Checked(results)) =>
                self.settings_checked(plugins, global, checks, results, out),
            (Wait::SettingsSent(names), Answer::Sent(results)) => settings_sent(names, results, out),
            (Wait::LibraryList, Answer::Libraries(list)) => Turn::Done(Ok(Reply::LibraryList(list))),
            (Wait::LibraryPlugin { plugin_name, path }, Answer::Plugin(r)) => match r {
                Err(e) => Turn::Done(Err(e)),
                Ok(None) => Turn::Done(Err(Error::SourcePluginNotFound(plugin_name))),
                Ok(Some(id)) => Turn::Ask(
                    Ask::AddLibrary { plugin_id: id, path },
                    Wait::LibraryAdded { plugin_name },
                ),
            },
            (Wait::LibraryAdded { plugin_name }, Answer::Library(r)) => self.library_was_added(
                plugin_name,
                r,
                out,
            ),
            (Wait::AutoDetected, Answer::Detected(r)) => match r {
                Ok(added) => Turn::Done(Ok(Reply::LibraryAutoDetect { added })),
                Err(e) => Turn::Done(Err(e)),
            },
            (Wait::LibraryRemoved(id), Answer::Ack(r)) => self.library_was_removed(id, r, out),
            (Wait::PlaylistList, Answer::Playlists(r)) => match r {
                Ok(rows) => Turn::Done(Ok(Reply::PlaylistList(summaries(&rows)))),
                Err(e) => Turn::Done(Err(e)),
            },
            (Wait::PlaylistCreated { item_ids }, Answer::Created(r)) => match r {
                Err(e) => Turn::Done(Err(e)),
                Ok(id) => if item_ids.len() == 0 {
                    Turn::Done(Ok(Reply::PlaylistCreate { id }))
                } else {
                    Turn::Ask(Ask::SetPlaylistItems { id, item_ids }, Wait::PlaylistFilled(id))
                },
            },
            (Wait::PlaylistActivated(id), Answer::Activated(r)) => match r {
                Err(e) => Turn::Done(Err(e)),
                Ok(mode) => {
                    self.playlist_active(id, mode.as_str());
                    Turn::Ask(Ask::FindPlaylist(id), Wait::PlaylistInterval)
                },
            },
            (Wait::PlaylistLoaded { id, reply }, Answer::Activated(r)) => match r {
                Err(e) => Turn::Done(Err(e)),
                Ok(mode) => {
                    self.playlist_active(id, mode.as_str());
                    Turn::Done(Ok(reply))
                },
            },
            (Wait::PlaylistInterval, Answer::Interval(r)) => match r {
                Err(e) => Turn::Done(Err(e)),
                Ok(None) => Turn::Done(Ok(Reply::PlaylistActivate)),
                Ok(Some(n)) => {
                    self.set_rotation_interval(interval_of(n), out);
                    Turn::Done(Ok(Reply::PlaylistActivate))
                },
            },
            (Wait::PlaylistStatus, Answer::Status(q)) => Turn::Done(
                Ok(Reply::PlaylistStatus(status_reply(q))),
            ),
            (w, Answer::Ack(r)) => self.playlist_acknowledged(w, r, out),
            _ => Turn::Done(Err(Error::UnexpectedPayload("answer to another request".to_owned()))),
        }
    }
}

/// A change of the settings stays whatever the renderers that run make of it,
/// and everyone is told of it.
pub proof fn settings_outlive_failed_sending(
    a: Daemon,
    b: Daemon,
    names: Vec<(String, String)>,
    results: Vec<Result<(), String>>,
    now: u64,
    before: Seq<Order>,
    after: Seq<Order>,
    t: Turn,
)
    requires
        names@.len() == results@.len(),
        resumed(a, b, Wait::SettingsSent(names), Answer::Sent(results), now, before, after, t),
    ensures
        b.store == a.store,
        after.last() == Order::Publish(GlobalEvent::SettingsChanged),
        (t matches Turn::Done(Ok(_))) <==> forall|i: int|
            0 <= i < results@.len() ==> (#[trigger] results@[i]) is Ok,
{
    change::lemma_no_failures(names@, results@, results@.len() as int);
}

/// One wrong value turns a whole change of the settings down: nothing is
/// changed and no one is told.
pub proof fn wrong_setting_changes_nothing(
    a: Daemon,
    b: Daemon,
    w: Wait,
    results: Vec<Result<String, String>>,
    i: int,
    now: u64,
    before: Seq<Order>,
    after: Seq<Order>,
    t: Turn,
)
    requires
        w is SettingsChecked,
        0 <= i < results@.len(),
        results@[i] is Err,
        resumed(a, b, w, Answer::Checked(results), now, before, after, t),
    ensures
        b == a,
        after == before,
        t matches Turn::Done(Err(Error::SettingsValidationFailed(_))),
{
    assert(!(results@[i] is Ok));
}

/// A renderer that is killed is gone from the routing and from the renderers at
/// hand, and its process is ended; one that is not known is answered as such.
pub proof fn killed_renderer_is_gone(
    d: &mut Daemon,
    id: String,
    now: u64,
    out: &mut Vec<Order>,
    t: Turn,
    i: int,
)
    requires
        call_ensures(Daemon::begin, (d, Some(Request::RendererKill(id)), now, out), t),
        0 <= i < old(d).manager@.len(),
    ensures
        old(d).manager@[i].id@ == id@ ==> {
            &&& t == Turn::Done(Ok(Reply::RendererKill))
            &&& final(d).manager@ == old(d).manager@.remove(i)
            &&& final(out)@.last() == Order::Terminate(id)
        },
        (forall|j: int| 0 <= j < old(d).manager@.len() ==> (#[trigger] old(d).manager@[j]).id@ != id@)
            ==> final(d).manager@ == old(d).manager@ && (t
            matches Turn::Done(Err(Error::RendererNotFound(m))) && m@ == id@),
        final(d).router@ == router::unregister(ops::start(old(d).router@), id@, now).v,
        final(d).queue == old(d).queue,
        final(d).store == old(d).store,
{
    if old(d).manager@[i].id@ == id@ {
        assert(spawn::has_id(old(d).manager@, id@));
    }
}

/// Questions are answered without changing anything, and so is a request
/// without content.
pub proof fn questions_change_nothing(
    d: &mut Daemon,
    req: Option<Request>,
    now: u64,
    out: &mut Vec<Order>,
    t: Turn,
)
    requires
        call_ensures(Daemon::begin, (d, req, now, out), t),
        req is None || req->0 is Health || req->0 is RendererList || req->0 is RendererPluginList
            || req->0 is SourceList || req->0 is DisplayList || req->0 is SettingsGet,
    ensures
        *final(d) == *old(d),
        final(out)@ == old(out)@,
        t is Done,
        t->Done_0 is Err <==> req is None,
        req is None ==> t->Done_0->Err_0 is UnexpectedPayload,
        req matches Some(q) ==> {
            &&& q is Health ==> t->Done_0->Ok_0 is Health
            &&& q is RendererList ==> t->Done_0->Ok_0 is RendererList
            &&& q is RendererPluginList ==> t->Done_0->Ok_0 is RendererPluginList
            &&& q is SourceList ==> t->Done_0->Ok_0 is SourceList
            &&& q is DisplayList ==> t->Done_0->Ok_0 is DisplayList
            &&& q is SettingsGet ==> t->Done_0->Ok_0 is SettingsGet
        },
{
}

/// A library that was added is told of, under its own number, path and plugin,
/// and is searched; one that was removed is told of too, and its wallpapers go
/// with the next search.
pub proof fn libraries_are_told_of_and_searched(
    d: &mut Daemon,
    wait: Wait,
    answer: Answer,
    now: u64,
    out: &mut Vec<Order>,
    t: Turn,
)
    requires
        call_ensures(Daemon::resume, (d, wait, answer, now, out), t),
        wait is LibraryAdded && answer is Library || wait is LibraryRemoved && answer is Ack,
    ensures
        *final(d) == *old(d),
        wait matches Wait::LibraryAdded { plugin_name } ==> (answer matches Answer::Library(r) ==> {
            &&& r matches Err(e) ==> t == Turn::Done(Err(e)) && final(out)@ == old(out)@
            &&& r matches Ok((id, path)) ==> {
                let n = old(out)@.len() as int;
                &&& t == Turn::Done(Ok(Reply::LibraryAdd))
                &&& final(out)@.len() == n + 3
                &&& final(out)@[n] matches Order::Route(Effect::Emit(RouterEvent::LibraryUpsert(s)))
                    && s.id == id && s.path == path && s.plugin_name == plugin_name
                &&& final(out)@[n + 1] matches Order::Publish(GlobalEvent::LibrariesAdded { paths })
                    && paths@.len() == 1 && paths@[0] == path
                &&& final(out)@[n + 2] is StartScan
            }
        }),
        wait matches Wait::LibraryRemoved(id) ==> (answer matches Answer::Ack(r) ==> {
            &&& r matches Err(e) ==> t == Turn::Done(Err(e)) && final(out)@ == old(out)@
            &&& r is Ok ==> {
                let n = old(out)@.len() as int;
                &&& t == Turn::Done(Ok(Reply::LibraryRemove))
                &&& final(out)@.len() == n + 2
                &&& final(out)@[n] == Order::Route(Effect::Emit(RouterEvent::LibraryRemoved(id)))
                &&& final(out)@[n + 1] is StartScan
            }
        }),
{
}

/// A playlist that is activated is the one that is played, in its own order,
/// now and after a restart; its pace follows.
pub proof fn activated_playlist_is_played(
    d: &mut Daemon,
    id: i64,
    r: Result<String, Error>,
    now: u64,
    out: &mut Vec<Order>,
    t: Turn,
)
    requires
        call_ensures(
            Daemon::resume,
            (d, Wait::PlaylistActivated(id), Answer::Activated(r), now, out),
            t,
        ),
    ensures
        r matches Err(e) ==> *final(d) == *old(d) && t == Turn::Done(Err(e)),
        r is Ok ==> {
            &&& final(d).queue.active_id == Some(id)
            &&& Mode::of_word(r->Ok_0@) matches Some(m) ==> final(d).queue.mode == m
            &&& Mode::of_word(r->Ok_0@) is None ==> final(d).queue.mode == old(d).queue.mode
            &&& final(d).queue.current == old(d).queue.current
            &&& final(d).store.inner@.global.active_playlist_id == Some(id)
            &&& final(d).store.inner@.plugins == old(d).store.inner@.plugins
            &&& final(d).router == old(d).router
            &&& t == Turn::Ask(Ask::FindPlaylist(id), Wait::PlaylistInterval)
        },
        final(out)@ == old(out)@,
{
}

/// A pace that a playlist has is the pace from then on, none where it is below
/// zero; a playlist without one leaves the pace.
pub proof fn playlist_has_its_pace(
    d: &mut Daemon,
    r: Result<Option<i32>, Error>,
    now: u64,
    out: &mut Vec<Order>,
    t: Turn,
)
    requires
        call_ensures(
            Daemon::resume,
            (d, Wait::PlaylistInterval, Answer::Interval(r), now, out),
            t,
        ),
    ensures
        r matches Err(e) ==> *final(d) == *old(d) && t == Turn::Done(Err(e)),
        r is Ok ==> t == Turn::Done(Ok(Reply::PlaylistActivate)),
        r is Ok && r->Ok_0 is None ==> *final(d) == *old(d) && final(out)@ == old(out)@,
        r is Ok && r->Ok_0 is Some ==> {
            let n = r->Ok_0->0;
            let secs = final(d).store.inner@.global.rotation_secs;
            &&& n >= 0 ==> secs == n
            &&& n < 0 ==> secs == 0
            &&& final(out)@ == old(out)@.push(Order::SetInterval(secs))
        },
{
}

/// What is done to a playlist reaches the queue where the playlist is the one
/// that is played, and only there. A failure changes nothing.
pub proof fn changes_reach_the_played_playlist(
    d: &mut Daemon,
    wait: Wait,
    r: Result<(), Error>,
    now: u64,
    out: &mut Vec<Order>,
    t: Turn,
)
    requires
        call_ensures(Daemon::resume, (d, wait, Answer::Ack(r), now, out), t),
        wait is PlaylistModeSet || wait is PlaylistIntervalSet || wait is PlaylistItemsSet || wait
            is PlaylistDeleted,
    ensures
        r matches Err(e) ==> *final(d) == *old(d) && final(out)@ == old(out)@ && t == Turn::Done(
            Err(e),
        ),
        wait matches Wait::PlaylistModeSet { id, mode } ==> (r is Ok ==> {
            let played = old(d).queue.active_id == Some(id);
            &&& t == Turn::Done(Ok(Reply::PlaylistSetMode))
            &&& played ==> final(d).queue.mode == mode && final(out)@ == old(out)@.push(
                Order::SetMode(mode),
            )
            &&& !played ==> *final(d) == *old(d) && final(out)@ == old(out)@
        }),
        wait matches Wait::PlaylistIntervalSet { id, interval_secs } ==> (r is Ok ==> {
            let played = old(d).queue.active_id == Some(id);
            &&& t == Turn::Done(Ok(Reply::PlaylistSetInterval))
            &&& played ==> final(d).store.inner@.global.rotation_secs == interval_secs
                && final(out)@ == old(out)@.push(Order::SetInterval(interval_secs))
            &&& !played ==> *final(d) == *old(d) && final(out)@ == old(out)@
        }),
        wait matches Wait::PlaylistItemsSet(id) ==> (r is Ok ==> {
            let played = old(d).queue.active_id == Some(id);
            &&& *final(d) == *old(d)
            &&& played ==> t == Turn::Ask(
                Ask::ActivatePlaylist(id),
                Wait::PlaylistLoaded { id, reply: Reply::PlaylistSetItems },
            )
            &&& !played ==> t == Turn::Done(Ok(Reply::PlaylistSetItems))
        }),
        wait matches Wait::PlaylistDeleted(id) ==> (r is Ok ==> {
            let played = old(d).queue.active_id == Some(id);
            &&& *final(d) == *old(d)
            &&& played ==> t == Turn::Ask(
                Ask::DeactivatePlaylist,
                Wait::Deactivated(Reply::PlaylistDelete),
            )
            &&& !played ==> t == Turn::Done(Ok(Reply::PlaylistDelete))
        }),
{
}

/// A playlist that cannot be filled is taken back, and the fault is what is
/// answered in the end.
pub proof fn unfilled_playlist_is_taken_back(
    d: &mut Daemon,
    p: &mut Daemon,
    id: i64,
    fault: Error,
    r: Result<(), Error>,
    now: u64,
    x: &mut Vec<Order>,
    y: &mut Vec<Order>,
    t: Turn,
    u: Turn,
)
    requires
        call_ensures(
            Daemon::resume,
            (d, Wait::PlaylistFilled(id), Answer::Ack(Err(fault)), now, x),
            t,
        ),
        call_ensures(
            Daemon::resume,
            (p, Wait::PlaylistDropped(fault), Answer::Ack(r), now, y),
            u,
        ),
    ensures
        t == Turn::Ask(Ask::DeletePlaylist(id), Wait::PlaylistDropped(fault)),
        u == Turn::Done(Err(fault)),
        *final(d) == *old(d),
        *final(p) == *old(p),
{
}

/// A playlist that is no longer played is not played after a restart either.
pub proof fn deactivated_playlist_is_forgotten(
    d: &mut Daemon,
    reply: Reply,
    now: u64,
    out: &mut Vec<Order>,
    t: Turn,
)
    requires
        call_ensures(Daemon::resume, (d, Wait::Deactivated(reply), Answer::Ack(Ok(())), now, out), t),
    ensures
        final(d).queue == (QueueState { active_id: None, ..old(d).queue }),
        final(d).store.inner@.global.active_playlist_id is None,
        final(d).router == old(d).router,
        final(out)@ == old(out)@,
        t == Turn::Done(Ok(reply)),
{
}

/// The turns of showing a wallpaper are taken as they are waited for.
pub proof fn turns_are_taken_as_waited_for(
    d: &mut Daemon,
    job: ApplyJob,
    renderer_id: String,
    extras: Result<StrMap<String>, Error>,
    spawned: Result<(String, Option<RendererHandle>), Error>,
    item: Option<i64>,
    now: u64,
    out: &mut Vec<Order>,
    t: Turn,
)
    ensures
        call_ensures(
            Daemon::resume,
            (d, Wait::ApplyExtras(job), Answer::Extras(extras), now, out),
            t,
        ) ==> apply::apply_extended(
            *old(d),
            *final(d),
            job,
            extras,
            now,
            old(out)@,
            final(out)@,
            t,
        ),
        call_ensures(
            Daemon::resume,
            (d, Wait::ApplySpawned(job), Answer::Spawned(spawned), now, out),
            t,
        ) ==> apply::apply_done(*old(d), *final(d), job, spawned, now, old(out)@, final(out)@, t),
        call_ensures(
            Daemon::resume,
            (d, Wait::ApplyFound { job, renderer_id }, Answer::Item(item), now, out),
            t,
        ) ==> apply::apply_found(
            *old(d),
            *final(d),
            job,
            renderer_id,
            item,
            old(out)@,
            final(out)@,
            t,
        ),
        call_ensures(
            Daemon::resume,
            (d, Wait::ShowSpawned(job), Answer::Spawned(spawned), now, out),
            t,
        ) ==> apply::show_linked(*old(d), *final(d), job, spawned, now, old(out)@, final(out)@, t),
        call_ensures(
            Daemon::resume,
            (d, Wait::ShowFound { job, renderer_id }, Answer::Item(item), now, out),
            t,
        ) ==> apply::show_done(
            *old(d),
            *final(d),
            job,
            renderer_id,
            item,
            old(out)@,
            final(out)@,
            t,
        ),
{
}

/// The state of the queue is told as it is.
pub proof fn status_is_told_as_it_is(q: QueueStatus, s: PlaylistStatusReply)
    requires
        call_ensures(status_reply, (q,), s),
    ensures
        q.active_id matches Some(id) ==> s.active_id == id,
        q.active_id is None ==> s.active_id == 0,
        s.interval_secs == q.interval_secs,
        q.current matches Some(c) ==> s.current_id@ == c@,
        q.current is None ==> s.current_id@.len() == 0,
        q.position matches Some(p) ==> s.position == p,
        q.position is None ==> s.position == 0,
        s.count == q.count,
        s.is_smart == q.is_smart,
        s.mode == Mode::of_word(q.mode@),
{
}

} // verus!
