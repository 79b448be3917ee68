//! Controls that several surfaces share: order and pace of the wallpapers,
//! renderers that are gone, and a new set of wallpapers.

use super::{apply, route, Ask, Daemon, Order, Reply, Turn, Wait};
use crate::catalog::{SourcePluginInfo, WallpaperEntry};
use crate::dispatch;
use crate::error::Error;
use crate::queue::{self, entries_of_plugin, shuffle_mode, Mode, QueueState};
use crate::router::{self, ops, Effect};
use crate::seqs;
use crate::settings::{self, GlobalView, SettingsView};
use crate::spawn::{self, is_peer_gone, CodecFault};
use crate::strmap::StrMap;
use crate::text::{self, copy_lines};
use vstd::prelude::*;

verus! {

broadcast use seqs::group_views;

/// The order of the wallpapers is another one, and stays so.
pub open spec fn mode_set(
    a: Daemon,
    b: Daemon,
    mode: Mode,
    before: Seq<Order>,
    after: Seq<Order>,
) -> bool {
    &&& apply::same_ground(b, a)
    &&& b.router == a.router
    &&& b.manager == a.manager
    &&& b.queue == (QueueState { mode, ..a.queue })
    &&& settings::saved(
        a.store,
        b.store,
        SettingsView {
            global: GlobalView { playlist_mode: mode.word(), ..a.store.inner@.global },
            ..a.store.inner@
        },
    )
    &&& after == before.push(Order::SetMode(mode))
}

/// The pace of the wallpapers is another one, and stays so.
pub open spec fn interval_set(
    a: Daemon,
    b: Daemon,
    secs: u32,
    before: Seq<Order>,
    after: Seq<Order>,
) -> bool {
    &&& apply::same_ground(b, a)
    &&& b.router == a.router
    &&& b.manager == a.manager
    &&& b.queue == a.queue
    &&& settings::saved(
        a.store,
        b.store,
        SettingsView {
            global: GlobalView { rotation_secs: secs, ..a.store.inner@.global },
            ..a.store.inner@
        },
    )
    &&& after == before.push(Order::SetInterval(secs))
}

/// The playlist is played from now on, in its own order, and it is played again
/// after a restart.
pub open spec fn activated(a: Daemon, b: Daemon, id: i64, mode: Seq<char>) -> bool {
    &&& apply::same_ground(b, a)
    &&& b.router == a.router
    &&& b.manager == a.manager
    &&& b.queue == (QueueState {
        active_id: Some(id),
        mode: match Mode::of_word(mode) {
            Some(m) => m,
            None => a.queue.mode,
        },
        ..a.queue
    })
    &&& settings::saved(a.store, b.store, with_playlist(a.store.inner@, Some(id)))
}

/// No playlist is played any more, nor after a restart.
pub open spec fn deactivated(a: Daemon, b: Daemon) -> bool {
    &&& apply::same_ground(b, a)
    &&& b.router == a.router
    &&& b.manager == a.manager
    &&& b.queue == (QueueState { active_id: None, ..a.queue })
    &&& settings::saved(a.store, b.store, with_playlist(a.store.inner@, None))
}

/// The settings with another playlist to play after a restart.
pub open spec fn with_playlist(v: SettingsView, id: Option<i64>) -> SettingsView {
    SettingsView { global: GlobalView { active_playlist_id: id, ..v.global }, ..v }
}

/// What is to be written to the database for one plugin.
#[derive(Debug)]
pub struct SyncPlan {
    pub name: String,
    pub version: String,
    /// Places of its wallpapers in the catalog.
    pub entries: Vec<usize>,
    /// Libraries that stay even when they are empty.
    pub protected: Vec<String>,
}

/// The plan for a plugin.
pub open spec fn is_sync_plan(
    p: SyncPlan,
    info: SourcePluginInfo,
    entries: Seq<WallpaperEntry>,
    libs: Map<Seq<char>, Vec<String>>,
) -> bool {
    &&& p.name == info.name
    &&& p.version == info.version
    &&& p.entries@ == queue::plugin_places(entries, info.name@, entries.len() as int)
    &&& text::lines(p.protected@) == if libs.contains_key(info.name@) {
        text::lines(libs[info.name@]@)
    } else {
        Seq::empty()
    }
}

impl Daemon {
    /// First turn of playing a playlist in its own order, at the pace that is
    /// set.
    pub fn activate_begin(&self, id: i64) -> (t: Turn)
        ensures
            t == Turn::Ask(
                Ask::ActivatePlaylist(id),
                Wait::PlaylistLoaded { id, reply: Reply::PlaylistActivate },
            ),
    {
        Turn::Ask(
            Ask::ActivatePlaylist(id),
            Wait::PlaylistLoaded { id, reply: Reply::PlaylistActivate },
        )
    }

    fn remember_playlist(&mut self, id: Option<i64>)
        ensures
            settings::saved(
                old(self).store,
                final(self).store,
                with_playlist(old(self).store.inner@, id),
            ),
            *final(self) == (Daemon { store: final(self).store, ..*old(self) }),
    {
        let mut after = self.store.snapshot();
        after.global.active_playlist_id = id;
        let _changed = self.store.update(after);
    }

    /// The playlist is the one that is played.
    pub(super) fn playlist_active(&mut self, id: i64, mode: &str)
        ensures
            activated(*old(self), *final(self), id, mode@),
    {
        self.queue.active_id = Some(id);
        if let Some(m) = Mode::from_str(mode) {
            self.queue.set_mode(m);
        }
        self.remember_playlist(Some(id));
    }

    /// All wallpapers are played.
    pub(super) fn playlist_inactive(&mut self)
        ensures
            deactivated(*old(self), *final(self)),
    {
        self.queue.active_id = None;
        self.remember_playlist(None);
    }

    /// Sets the order of the wallpapers.
    pub fn set_mode(&mut self, mode: Mode, out: &mut Vec<Order>)
        ensures
            mode_set(*old(self), *final(self), mode, old(out)@, final(out)@),
    {
        self.queue.set_mode(mode);
        let mut after = self.store.snapshot();
        after.global.playlist_mode = mode.as_str().to_owned();
        let _changed = self.store.update(after);
        out.push(Order::SetMode(mode));
    }

    /// Turns shuffling on or off.
    pub fn set_shuffle(&mut self, on: bool, out: &mut Vec<Order>)
        ensures
            mode_set(
                *old(self),
                *final(self),
                if on {
                    Mode::Shuffle
                } else {
                    Mode::Sequential
                },
                old(out)@,
                final(out)@,
            ),
    {
        self.set_mode(shuffle_mode(on), out);
    }

    /// Sets the seconds between wallpapers; zero leaves the one shown.
    pub fn set_rotation_interval(&mut self, secs: u32, out: &mut Vec<Order>)
        ensures
            interval_set(*old(self), *final(self), secs, old(out)@, final(out)@),
    {
        let mut after = self.store.snapshot();
        after.global.rotation_secs = secs;
        let _changed = self.store.update(after);
        out.push(Order::SetInterval(secs));
    }

    /// A renderer is gone: it is taken off the lists, and its process is ended.
    /// A second call for the same renderer does nothing.
    pub fn evict(&mut self, id: String, now: u64, out: &mut Vec<Order>)
        ensures
            apply::same_ground(*final(self), *old(self)),
            final(self).store == old(self).store,
            final(self).queue == old(self).queue,
            !spawn::has_id(final(self).manager@, id@),
            if spawn::has_id(old(self).manager@, id@) {
                let s = router::unregister(ops::start(old(self).router@), id@, now);
                &&& final(self).router@ == s.v
                &&& exists|fx: Seq<Effect>|
                    seqs::views(fx) == s.fx && final(out)@ == #[trigger] (old(out)@
                        + dispatch::routed(fx)).push(Order::Terminate(id))
                &&& forall|i: int|
                    0 <= i < old(self).manager@.len() && (#[trigger] old(self).manager@[i]).id@ == id@
                        ==> final(self).manager@ == old(self).manager@.remove(i)
            } else {
                &&& final(self).router == old(self).router
                &&& final(self).manager@ == old(self).manager@
                &&& final(out)@ == old(out)@
            },
    {
        let ghost before = out@;
        if self.manager.remove(id.as_str()) {
            let fx = self.router.unregister_renderer(id.as_str(), now);
            let ghost sent = fx@;
            route(fx, out);
            assert(out@ == before + dispatch::routed(sent));
            out.push(Order::Terminate(id));
        }
    }

    /// Whether a message can be sent to a renderer: an unknown one is an error.
    pub fn send_target(&self, id: &str) -> (r: Result<(), Error>)
        ensures
            match r {
                Ok(_) => spawn::has_id(self.manager@, id@),
                Err(e) => !spawn::has_id(self.manager@, id@) && (e matches Error::RendererNotFound(m)
                    && m@ == id@),
            },
    {
        match self.manager.get(id) {
            Some(_) => Ok(()),
            None => Err(Error::RendererNotFound(id.to_owned())),
        }
    }

    /// A scan found these wallpapers. They take the place of those known, and
    /// the shuffle round starts anew, so that it holds what is new.
    pub fn sources_scanned(&mut self, entries: Vec<WallpaperEntry>, plugins: Vec<SourcePluginInfo>)
        -> (count: usize)
        ensures
            count == entries@.len(),
            final(self).catalog@ == entries@,
            final(self).catalog.loaded() == plugins@,
            final(self).queue.shuffle_round@.len() == 0,
            final(self).queue.well_formed(),
            *final(self) == (Daemon {
                catalog: final(self).catalog,
                queue: QueueState {
                    shuffle_round: final(self).queue.shuffle_round,
                    shuffle_pos: 0,
                    ..old(self).queue
                },
                ..*old(self)
            }),
    {
        let count: usize = entries.len();
        self.catalog.install(entries, plugins);
        self.queue.reset_shuffle_round();
        count
    }

    /// What is to be written to the database after a scan, plugin by plugin.
    pub fn sync_plans(&self, libs: &StrMap<Vec<String>>) -> (out: Vec<SyncPlan>)
        ensures
            out@.len() == self.catalog.loaded().len(),
            forall|i: int|
                0 <= i < out@.len() ==> is_sync_plan(
                    #[trigger] out@[i],
                    self.catalog.loaded()[i],
                    self.catalog@,
                    libs@,
                ),
    {
        let plugins = self.catalog.plugins();
        let mut out: Vec<SyncPlan> = Vec::new();
        let mut i: usize = 0;
        while i < plugins.len()
            invariant
                i <= plugins@.len(),
                plugins@ == self.catalog.loaded(),
                out@.len() == i,
                forall|k: int|
                    0 <= k < i ==> is_sync_plan(
                        #[trigger] out@[k],
                        self.catalog.loaded()[k],
                        self.catalog@,
                        libs@,
                    ),
            decreases plugins.len() - i,
        {
            let name = plugins[i].name.as_str();
            let protected: Vec<String> = match libs.get(name) {
                Some(l) => copy_lines(l),
                None => Vec::new(),
            };
            assert(!libs@.contains_key(name@) ==> text::lines(protected@) =~= Seq::<Seq<char>>::empty());
            out.push(
                SyncPlan {
                    name: plugins[i].name.clone(),
                    version: plugins[i].version.clone(),
                    entries: entries_of_plugin(&self.catalog, name),
                    protected,
                },
            );
            i = i + 1;
        }
        out
    }
}

/// A message was sent to a renderer, or could not be, for a reason in words.
/// The first part of the result tells whether the renderer is gone and has to
/// be evicted.
pub fn control_sent(fault: Option<(CodecFault, String)>) -> (r: (bool, Result<(), Error>))
    ensures
        match fault {
            None => !r.0 && r.1 is Ok,
            Some((f, words)) => {
                &&& r.0 == (f != CodecFault::Other)
                &&& r.1 matches Err(Error::RendererControlFailed(m)) && m@ == "send_control: "@
                    + words@
            },
        },
{
    match fault {
        None => (false, Ok(())),
        Some((f, words)) => {
            let mut m = "send_control: ".to_owned();
            m.append(words.as_str());
            (is_peer_gone(f), Err(Error::RendererControlFailed(m)))
        },
    }
}

/// Restoring takes up the playlist that was activated last, and none once it
/// was deactivated.
pub proof fn playlist_is_restored(a: Daemon, b: Daemon, c: Daemon, id: i64, mode: Seq<char>)
    requires
        activated(a, b, id, mode),
        deactivated(b, c),
    ensures
        b.store.inner@.global.active_playlist_id == Some(id),
        a.store.inner@.global.active_playlist_id != Some(id) ==> b.store.dirty,
        c.store.inner@.global.active_playlist_id is None,
        c.store.dirty,
{
}

/// An order of the wallpapers that was set is the one that restoring takes up
/// again.
pub proof fn order_is_restored(
    a: Daemon,
    b: Daemon,
    mode: Mode,
    before: Seq<Order>,
    after: Seq<Order>,
)
    requires
        mode_set(a, b, mode, before, after),
    ensures
        Mode::of_word(b.store.inner@.global.playlist_mode) == Some(mode),
        a.store.inner@.global.playlist_mode != mode.word() ==> b.store.dirty,
{
    queue::mode_reads_back(mode);
}

/// An order that is set counts for the queue and in the settings, is handed on,
/// and changes nothing else. Shuffling on and off sets one of two orders.
pub proof fn order_is_set_everywhere(
    a: &mut Daemon,
    b: &mut Daemon,
    mode: Mode,
    on: bool,
    x: &mut Vec<Order>,
    y: &mut Vec<Order>,
)
    requires
        call_ensures(Daemon::set_mode, (a, mode, x), ()),
        call_ensures(Daemon::set_shuffle, (b, on, y), ()),
    ensures
        final(a).queue == (QueueState { mode, ..old(a).queue }),
        final(a).store.inner@.global == (GlobalView {
            playlist_mode: mode.word(),
            ..old(a).store.inner@.global
        }),
        final(a).store.inner@.plugins == old(a).store.inner@.plugins,
        final(a).store.inner@.displays == old(a).store.inner@.displays,
        final(a).router == old(a).router,
        final(a).manager == old(a).manager,
        final(x)@ == old(x)@.push(Order::SetMode(mode)),
        final(b).queue == (QueueState {
            mode: if on {
                Mode::Shuffle
            } else {
                Mode::Sequential
            },
            ..old(b).queue
        }),
        final(y)@.len() == old(y)@.len() + 1,
        final(y)@.last() == Order::SetMode(final(b).queue.mode),
{
}

/// A pace that is set counts in the settings, is handed on, and changes nothing
/// else.
pub proof fn pace_is_set_everywhere(a: &mut Daemon, secs: u32, x: &mut Vec<Order>)
    requires
        call_ensures(Daemon::set_rotation_interval, (a, secs, x), ()),
    ensures
        final(a).store.inner@.global == (GlobalView {
            rotation_secs: secs,
            ..old(a).store.inner@.global
        }),
        final(a).store.inner@.plugins == old(a).store.inner@.plugins,
        final(a).store.inner@.displays == old(a).store.inner@.displays,
        final(a).queue == old(a).queue,
        final(a).router == old(a).router,
        final(x)@ == old(x)@.push(Order::SetInterval(secs)),
{
}

/// A renderer that is gone is forgotten, its process is ended, and every other
/// renderer stays. One that is not known is left alone.
pub proof fn gone_renderer_is_forgotten(
    d: &mut Daemon,
    id: String,
    now: u64,
    out: &mut Vec<Order>,
    i: int,
)
    requires
        call_ensures(Daemon::evict, (d, id, now, out), ()),
        0 <= i < old(d).manager@.len(),
        old(d).manager@[i].id@ == id@,
    ensures
        final(d).manager@.len() == old(d).manager@.len() - 1,
        forall|j: int| 0 <= j < i ==> #[trigger] final(d).manager@[j] == old(d).manager@[j],
        forall|j: int|
            i <= j < final(d).manager@.len() ==> #[trigger] final(d).manager@[j] == old(
                d).manager@[j + 1],
        final(out)@.len() > old(out)@.len(),
        final(out)@.last() == Order::Terminate(id),
        final(d).queue == old(d).queue,
        final(d).store == old(d).store,
{
    assert(spawn::has_id(old(d).manager@, id@));
    assert(final(d).manager@ == old(d).manager@.remove(i));
}

/// A message is sent only to a renderer that runs. A fault that ends the
/// connection is told apart from one that does not.
pub proof fn messages_need_their_renderer(
    d: Daemon,
    id: &str,
    r: Result<(), Error>,
    fault: Option<(CodecFault, String)>,
    sent: (bool, Result<(), Error>),
    gone: bool,
)
    requires
        call_ensures(Daemon::send_target, (&d, id), r),
        call_ensures(control_sent, (fault,), sent),
        fault matches Some((f, m)) ==> call_ensures(is_peer_gone, (f,), gone),
    ensures
        r is Ok <==> exists|i: int| 0 <= i < d.manager@.len() && (#[trigger] d.manager@[i]).id@ == id@,
        r is Err ==> (r->Err_0 matches Error::RendererNotFound(m) && m@ == id@),
        sent.1 is Ok <==> fault is None,
        fault is None ==> !sent.0,
        fault is Some ==> sent.0 == gone && sent.1->Err_0 is RendererControlFailed,
{
}

/// A new set of wallpapers is the catalog from then on. A round that was drawn
/// from the old one is over; what is shown stays.
pub proof fn new_wallpapers_start_a_round(
    d: &mut Daemon,
    entries: Vec<WallpaperEntry>,
    plugins: Vec<SourcePluginInfo>,
    count: usize,
)
    requires
        call_ensures(Daemon::sources_scanned, (d, entries, plugins), count),
    ensures
        count == entries@.len(),
        final(d).catalog@ == entries@,
        final(d).queue.shuffle_round@.len() == 0,
        final(d).queue.shuffle_pos == 0,
        final(d).queue.current == old(d).queue.current,
        final(d).queue.last_db_id == old(d).queue.last_db_id,
        final(d).queue.mode == old(d).queue.mode,
        final(d).queue.active_id == old(d).queue.active_id,
        final(d).router == old(d).router,
        final(d).store == old(d).store,
{
}

} // verus!
