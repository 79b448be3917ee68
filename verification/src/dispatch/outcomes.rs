//! What requests come to, over all their turns: which displays change, which
//! renderers run, and what is kept.

use super::apply::{self, UNBIND_TIMEOUT_MS};
use super::{ApplyJob, Ask, Daemon, Order, Reply, Turn, Wait};
use crate::dispatch;
use crate::error::Error;
use crate::registry::RendererDef;
use crate::renderer::RendererHandle;
use crate::router::laws::{self, renderer_ids, well_formed};
use crate::router::outcomes;
use crate::router::{self, events, ops, Effect, EffectView, LinkView, RouterView};
use crate::seqs;
use crate::settings::RenderSizePolicy;
use crate::strmap::{self, StrMap};
use crate::text;
use vstd::prelude::*;

verus! {

broadcast use seqs::group_views;

/// What the display shows is what it showed: the same enabled links lead to it.
pub open spec fn shows_the_same(a: RouterView, b: RouterView, id: u64) -> bool {
    forall|l: LinkView|
        l.display == id && l.enabled ==> (#[trigger] b.links.contains(l) <==> a.links.contains(l))
}

/// The display shows the renderer, and nothing else.
pub open spec fn shows_only(v: RouterView, id: u64, renderer: Seq<char>) -> bool {
    &&& exists|k: int|
        0 <= k < v.links.len() && (#[trigger] v.links[k]).display == id && v.links[k].enabled
            && v.links[k].renderer == renderer
    &&& forall|k: int|
        0 <= k < v.links.len() && (#[trigger] v.links[k]).display == id && v.links[k].enabled
            ==> v.links[k].renderer == renderer
}

proof fn lemma_with_renderer(v: RouterView, handle: Option<RendererHandle>)
    requires
        well_formed(v),
    ensures
        ({
            let w = apply::with_renderer(v, handle).v;
            &&& well_formed(w)
            &&& w.links == v.links
            &&& w.displays == v.displays
            &&& w.timers == v.timers
            &&& ops::display_ids(w) == ops::display_ids(v)
        }),
{
    if handle is Some {
        let h = handle->0@;
        laws::messages_keep_the_invariant(
            v,
            Seq::empty(),
            crate::renderer::RendererEvent::ReleaseSyncobj,
            seq![0u64],
            h,
        );
        let w = apply::with_renderer(v, handle).v;
        assert(ops::display_ids(w) =~= ops::display_ids(v));
    }
}

/// Putting a wallpaper on screen changes the displays it is for and no others:
/// where the request names displays, each of them that is connected shows the
/// renderer of the wallpaper and nothing else, and every other one shows what it
/// showed. Where it names none, every connected display shows it. This holds
/// for a renderer that was running as for one that was started.
pub proof fn wallpaper_goes_to_its_displays(
    a: Daemon,
    b: Daemon,
    job: ApplyJob,
    renderer_id: String,
    handle: Option<RendererHandle>,
    now: u64,
    before: Seq<Order>,
    after: Seq<Order>,
    t: Turn,
    id: u64,
)
    requires
        well_formed(a.router@),
        ({
            ||| apply::applied(a, b, job, renderer_id, now, before, after, t)
            ||| apply::apply_done(a, b, job, Ok((renderer_id, handle)), now, before, after, t)
        }),
    ensures
        job.display_ids@.len() > 0 && !job.display_ids@.contains(id) ==> shows_the_same(
            a.router@,
            b.router@,
            id,
        ),
        ops::display_ids(a.router@).contains(id) && (job.display_ids@.len() == 0
            || job.display_ids@.contains(id)) ==> shows_only(b.router@, id, renderer_id@),
{
    let s = if apply::applied(a, b, job, renderer_id, now, before, after, t) {
        a.router@
    } else {
        lemma_with_renderer(a.router@, handle);
        apply::with_renderer(a.router@, handle).v
    };
    let ids = apply::job_displays(job, s);
    outcomes::only_the_named_displays_change(ops::start(s), ids, renderer_id@, now, id);
}

proof fn lemma_replaced(v: RouterView, targets: Option<Seq<u64>>, n: int, r: Seq<char>)
    requires
        0 <= n <= v.renderers.len(),
    ensures
        ops::replaced_ids(v, targets, n).contains(r) <==> (exists|k: int|
            0 <= k < n && (#[trigger] v.renderers[k]).h.id == r) && (targets is Some ==> forall|
            i: int,
        |
            0 <= i < v.links.len() && (#[trigger] v.links[i]).renderer == r && v.links[i].enabled
                ==> targets->0.contains(v.links[i].display)),
    decreases n,
{
    let all = ops::replaced_ids(v, targets, n);
    if n > 0 {
        lemma_replaced(v, targets, n - 1, r);
        let rest = ops::replaced_ids(v, targets, n - 1);
        let id = v.renderers[n - 1].h.id;
        if all.contains(r) {
            let i = all.index_of(r);
            if i < rest.len() {
                assert(rest[i] == r);
                assert(rest.contains(r));
            } else {
                assert(v.renderers[n - 1].h.id == r);
            }
        }
        if rest.contains(r) {
            let i = rest.index_of(r);
            assert(all[i] == r);
        }
        if id == r && (targets is None || ops::covered(v.links, r, targets->0)) {
            assert(all.last() == r);
        }
    }
}

/// Before a new renderer is started for displays that are named, only renderers
/// are stopped that show something on none but these; so every other display
/// shows what it showed. The renderer is asked for as the job says.
pub proof fn starting_a_renderer_spares_other_displays(
    a: Daemon,
    b: Daemon,
    job: ApplyJob,
    extras: StrMap<String>,
    now: u64,
    before: Seq<Order>,
    after: Seq<Order>,
    t: Turn,
    id: u64,
    r: Seq<char>,
)
    requires
        apply::apply_extended(a, b, job, Ok(extras), now, before, after, t),
        t is Ask,
        t->Ask_0 is Spawn,
    ensures
        job.display_ids@.len() > 0 && !job.display_ids@.contains(id) ==> shows_the_same(
            a.router@,
            b.router@,
            id,
        ),
        renderer_ids(b.router@).contains(r) <==> renderer_ids(a.router@).contains(r)
            && job.display_ids@.len() > 0 && exists|i: int|
            0 <= i < a.router@.links.len() && (#[trigger] a.router@.links[i]).renderer == r
                && a.router@.links[i].enabled && !job.display_ids@.contains(
                a.router@.links[i].display,
            ),
        t->Ask_0 matches Ask::Spawn(q) && {
            &&& q@.wp_type == job.wp_type@
            &&& q@.extras == strmap::kv_text(extras@)
            &&& q@.settings == strmap::kv_text(job.settings@)
            &&& (q@.width, q@.height, q@.extent_mode) == (job.width, job.height, job.extent_mode)
            &&& !q@.test_pattern
            &&& q@.renderer_name == (if job.pinned {
                Some(job.plugin_name@)
            } else {
                None
            })
            &&& q@.user_properties is None
        },
        t->Ask_1 == Wait::ApplySpawned(job),
        b.store == a.store && b.queue == a.queue && b.manager == a.manager,
{
    let targets = if job.display_ids@.len() == 0 {
        None
    } else {
        Some(job.display_ids@)
    };
    let v = a.router@;
    let n = v.renderers.len() as int;
    let ids = ops::replaced_ids(v, targets, n);
    let s = ops::start(v);
    let m = ids.len() as int;
    assert(!(exists|rid: String| #[trigger]
        apply::applied(a, b, job, rid, now, before, after, t))) by {
        if exists|rid: String| #[trigger] apply::applied(a, b, job, rid, now, before, after, t) {
            let rid = choose|rid: String| #[trigger]
                apply::applied(a, b, job, rid, now, before, after, t);
            assert(apply::on_screen(a, b, job, rid, t));
        }
    }
    outcomes::exactly_the_stopped_are_gone(s, ids, now, m, r);
    assert(ids.take(m) =~= ids);
    lemma_replaced(v, targets, n, r);
    assert(b.router@ == router::stop_all(s, ids, now, m).v);
    if renderer_ids(v).contains(r) {
        let k = renderer_ids(v).index_of(r);
        assert(v.renderers[k].h.id == r);
    }
    if job.display_ids@.len() > 0 && !job.display_ids@.contains(id) {
        assert forall|k: int|
            0 <= k < v.links.len() && (#[trigger] v.links[k]).display == id
                && v.links[k].enabled implies !ids.contains(v.links[k].renderer) by {
            lemma_replaced(v, targets, n, v.links[k].renderer);
        }
        outcomes::stopping_others_keeps_a_display(s, ids, now, m, id);
    }
}

/// A renderer that runs already is used again only where it shows the same kind
/// of wallpaper from the same arguments, at the same size, with the plugin that
/// the job is for; and wherever one does, no other is started.
pub proof fn running_renderer_is_used_again(
    a: Daemon,
    b: Daemon,
    job: ApplyJob,
    extras: StrMap<String>,
    now: u64,
    before: Seq<Order>,
    after: Seq<Order>,
    t: Turn,
    def: RendererDef,
    i: int,
)
    requires
        apply::apply_extended(a, b, job, Ok(extras), now, before, after, t),
        apply::job_def(a.registry, job) == Some(def),
        0 <= i < a.manager@.len(),
        ({
            let l = a.manager@[i];
            &&& l.wp_type@ == job.wp_type@
            &&& l.name@ == def.name@
            &&& (l.width, l.height, l.extent_mode) == (job.width, job.height, job.extent_mode)
            &&& strmap::kv_text(l.extras@) == strmap::kv_text(extras@)
        }),
    ensures
        !(t matches Turn::Ask(Ask::Spawn(_), _)),
        b.manager == a.manager,
{
    let want = apply::renderer_wanted(job, strmap::kv_text(extras@));
    assert(a.manager@[i].serves(want, def.name@));
    assert(apply::reusable(a.manager@, want, Some(def), a.manager@[i].id@));
    if exists|rid: String|
        apply::reusable(a.manager@, want, Some(def), rid@) && #[trigger] apply::applied(
            a,
            b,
            job,
            rid,
            now,
            before,
            after,
            t,
        ) {
        let rid = choose|rid: String|
            apply::reusable(a.manager@, want, Some(def), rid@) && #[trigger] apply::applied(
                a,
                b,
                job,
                rid,
                now,
                before,
                after,
                t,
            );
        assert(apply::on_screen(a, b, job, rid, t));
    }
}

/// The answer to a request names the wallpaper and the renderer that shows it.
pub proof fn answer_names_the_wallpaper(
    a: Daemon,
    b: Daemon,
    job: ApplyJob,
    renderer_id: String,
    item: Option<i64>,
    before: Seq<Order>,
    after: Seq<Order>,
    t: Turn,
)
    requires
        ({
            ||| apply::apply_found(a, b, job, renderer_id, item, before, after, t)
            ||| apply::show_done(a, b, job, renderer_id, item, before, after, t)
            ||| !apply::in_library(job) && apply::on_screen(a, b, job, renderer_id, t)
        }),
    ensures
        t matches Turn::Done(
            Ok(Reply::WallpaperApply { renderer_id: r, wallpaper_id, wp_type, name }),
        ) && r == renderer_id && wallpaper_id == job.wallpaper_id && wp_type == job.wp_type && name
            == job.name,
        b.queue.current == Some(job.wallpaper_id),
        b.store.inner@.global.last_wallpaper == Some(job.wallpaper_id@),
        item is Some && !(!apply::in_library(job) && apply::on_screen(a, b, job, renderer_id, t))
            ==> b.queue.last_db_id == item,
        b.queue.shuffle_round == a.queue.shuffle_round,
        b.queue.mode == a.queue.mode,
        b.queue.active_id == a.queue.active_id,
{
}

/// A request for a wallpaper is turned down where there is no such wallpaper, no
/// display, or no renderer for it; otherwise its plugin is asked for start
/// arguments. The job takes the settings that are kept for the renderer plugin,
/// the size that the settings ask for, and the displays of the request.
pub proof fn request_becomes_a_job(
    d: Daemon,
    wallpaper_id: String,
    renderer_name: String,
    display_ids: Vec<u64>,
    t: Turn,
)
    requires
        call_ensures(Daemon::apply_begin, (&d, wallpaper_id, renderer_name, display_ids), t),
    ensures
        apply::entry_named(d.catalog@, wallpaper_id@) is None ==> t == Turn::Done(
            Err(Error::WallpaperNotFound(wallpaper_id)),
        ),
        apply::entry_named(d.catalog@, wallpaper_id@) is Some && d.router@.displays.len() == 0
            ==> t == Turn::Done(Err(Error::NoDisplayRegistered)),
        apply::entry_named(d.catalog@, wallpaper_id@) matches Some(e) ==> e.id@ == wallpaper_id@
            && d.catalog@.contains(e),
        t matches Turn::Ask(ask, wait) ==> {
            let e = apply::entry_named(d.catalog@, wallpaper_id@)->0;
            let g = d.store.inner@.global;
            &&& ask matches Ask::Extras { plugin_name, wallpaper_id: w } && plugin_name
                == e.plugin_name && w == e.id
            &&& wait matches Wait::ApplyExtras(job) && {
                &&& job.wallpaper_id == e.id
                &&& job.wp_type == e.wp_type
                &&& job.name == e.name
                &&& job.display_ids@ == display_ids@
                &&& job.pinned == (renderer_name@.len() > 0)
                &&& renderer_name@.len() > 0 ==> job.plugin_name@ == renderer_name@
                &&& d.store.inner@.plugins.contains_key(job.plugin_name@) ==> strmap::kv_text(
                    job.settings@,
                ) == d.store.inner@.plugins[job.plugin_name@]
                &&& g.render_size_policy == RenderSizePolicy::Native ==> job.width == 0
                    && job.height == 0
                &&& g.render_size_policy == RenderSizePolicy::OneAxisAuto ==> job.width
                    == g.target_extent && job.height == g.target_extent
                &&& g.render_size_policy == RenderSizePolicy::OneAxisWidth ==> job.width
                    == g.target_extent && job.height == 0
                &&& g.render_size_policy == RenderSizePolicy::OneAxisHeight ==> job.width == 0
                    && job.height == g.target_extent
                &&& job.library_root == e.library_root
                &&& text::opt_text(job.relative) == text::opt_text(e.relative)
            }
        },
{
    lemma_entry(d.catalog@, wallpaper_id@);
    if renderer_name@.len() > 0 {
        lemma_def(d.registry.defs@, renderer_name@);
    }
}

proof fn lemma_entry(entries: Seq<crate::catalog::WallpaperEntry>, id: Seq<char>)
    ensures
        apply::entry_named(entries, id) matches Some(e) ==> e.id@ == id && entries.contains(e),
        apply::entry_named(entries, id) is None ==> forall|i: int|
            0 <= i < entries.len() ==> (#[trigger] entries[i]).id@ != id,
    decreases entries.len(),
{
    if entries.len() > 0 {
        let rest = entries.drop_last();
        lemma_entry(rest, id);
        if let Some(e) = apply::entry_named(rest, id) {
            let k = rest.index_of(e);
            assert(entries[k] == e);
        }
        assert(entries[entries.len() - 1] == entries.last());
        if apply::entry_named(entries, id) is None {
            assert forall|i: int| 0 <= i < entries.len() implies (#[trigger] entries[i]).id@
                != id by {
                if i < rest.len() {
                    assert(rest[i].id@ != id);
                }
            }
        }
    }
}

proof fn lemma_def(defs: Seq<RendererDef>, name: Seq<char>)
    ensures
        dispatch::def_named(defs, name) matches Some(d) ==> d.name@ == name && defs.contains(d),
        dispatch::def_named(defs, name) is None ==> forall|i: int|
            0 <= i < defs.len() ==> (#[trigger] defs[i]).name@ != name,
    decreases defs.len(),
{
    if defs.len() > 0 {
        let rest = defs.drop_last();
        lemma_def(rest, name);
        if let Some(d) = dispatch::def_named(rest, name) {
            let k = rest.index_of(d);
            assert(defs[k] == d);
        }
        assert(defs[defs.len() - 1] == defs.last());
        if dispatch::def_named(defs, name) is None {
            assert forall|i: int| 0 <= i < defs.len() implies (#[trigger] defs[i]).name@ != name by {
                if i < rest.len() {
                    assert(rest[i].name@ != name);
                }
            }
        }
    }
}

/// A renderer that a request names is used only where there is one of the name
/// and it takes wallpapers of the type; a wallpaper is refused otherwise, and
/// the fault says which of the two is missing.
pub proof fn named_renderer_has_to_fit(
    d: Daemon,
    wallpaper_id: String,
    renderer_name: String,
    display_ids: Vec<u64>,
    t: Turn,
)
    requires
        call_ensures(Daemon::apply_begin, (&d, wallpaper_id, renderer_name, display_ids), t),
        apply::entry_named(d.catalog@, wallpaper_id@) is Some,
        d.router@.displays.len() > 0,
        renderer_name@.len() > 0,
    ensures
        (forall|i: int|
            0 <= i < d.registry.defs@.len() ==> (#[trigger] d.registry.defs@[i]).name@
                != renderer_name@) ==> t == Turn::Done(Err(Error::RendererNotFound(renderer_name))),
        dispatch::def_named(d.registry.defs@, renderer_name@) matches Some(x) ==> {
            let e = apply::entry_named(d.catalog@, wallpaper_id@)->0;
            if exists|k: int| 0 <= k < x.types@.len() && (#[trigger] x.types@[k])@ == e.wp_type@ {
                t is Ask
            } else {
                t == Turn::Done(
                    Err(Error::RendererTypeMismatch { renderer: renderer_name, ty: e.wp_type }),
                )
            }
        },
{
    lemma_def(d.registry.defs@, renderer_name@);
    if let Some(x) = dispatch::def_named(d.registry.defs@, renderer_name@) {
        let k = d.registry.defs@.index_of(x);
        assert(d.registry.defs@[k].name@ == renderer_name@);
        let e = apply::entry_named(d.catalog@, wallpaper_id@)->0;
        let all = text::lines(x.types@);
        if all.contains(e.wp_type@) {
            let m = all.index_of(e.wp_type@);
            assert(x.types@[m]@ == e.wp_type@);
        }
        if exists|k: int| 0 <= k < x.types@.len() && (#[trigger] x.types@[k])@ == e.wp_type@ {
            let m = choose|k: int| 0 <= k < x.types@.len() && (#[trigger] x.types@[k])@ == e.wp_type@;
            assert(all[m] == e.wp_type@);
        }
    }
}

/// Showing a wallpaper everywhere first takes out every renderer that runs, ends
/// none of their processes yet, and waits for the displays that were told to
/// let go; then exactly these processes are ended.
pub proof fn showing_everywhere_retires_all(
    a: Daemon,
    b: Daemon,
    id: String,
    now: u64,
    before: Seq<Order>,
    after: Seq<Order>,
    t: Turn,
    r: Seq<char>,
)
    requires
        apply::show_begun(a, b, id, now, before, after, t),
        t is Ask,
    ensures
        !renderer_ids(b.router@).contains(r),
        b.store == a.store && b.queue == a.queue && b.manager == a.manager,
        t->Ask_1 matches Wait::ShowUnbound { job, plugin_name, doomed } ==> {
            &&& forall|x: Seq<char>|
                text::lines(doomed@).contains(x) <==> #[trigger] renderer_ids(a.router@).contains(x)
            &&& job.display_ids@.len() == 0
            &&& job.wallpaper_id@ == id@
        },
        t->Ask_1 is ShowExtras ==> a.router@.renderers.len() == 0,
        t->Ask_0 matches Ask::AwaitUnbind { displays, timeout_ms } ==> timeout_ms
            == UNBIND_TIMEOUT_MS && timeout_ms == 1_000,
{
    let v = a.router@;
    let n = v.renderers.len() as int;
    let ids = ops::replaced_ids(v, None, n);
    lemma_all_replaced(v, n);
    lemma_retired(ops::start(v), ids, now, ids.len() as int, r);
    assert(ids.take(ids.len() as int) =~= ids);
    lemma_entry(a.catalog@, id@);
    assert forall|x: Seq<char>| ids.contains(x) <==> #[trigger] renderer_ids(v).contains(x) by {
        lemma_replaced(v, None, n, x);
        if renderer_ids(v).contains(x) {
            let k = renderer_ids(v).index_of(x);
            assert(v.renderers[k].h.id == x);
        }
        if exists|k: int| 0 <= k < n && (#[trigger] v.renderers[k]).h.id == x {
            let k = choose|k: int| 0 <= k < n && (#[trigger] v.renderers[k]).h.id == x;
            assert(renderer_ids(v)[k] == x);
        }
    }
    assert(ids.contains(r) <==> renderer_ids(v).contains(r));
}

proof fn lemma_all_replaced(v: RouterView, n: int)
    requires
        0 <= n <= v.renderers.len(),
    ensures
        ops::replaced_ids(v, None, n).len() == n,
    decreases n,
{
    if n > 0 {
        lemma_all_replaced(v, n - 1);
    }
}

proof fn lemma_retired(s: router::Step, ids: Seq<Seq<char>>, now: u64, n: int, r: Seq<char>)
    requires
        0 <= n <= ids.len(),
    ensures
        renderer_ids(router::unregister_all(s, ids, now, n).v).contains(r) <==> renderer_ids(
            s.v,
        ).contains(r) && !ids.take(n).contains(r),
    decreases n,
{
    if n > 0 {
        lemma_retired(s, ids, now, n - 1, r);
        let a = router::unregister_all(s, ids, now, n - 1);
        outcomes::stopped_renderer_is_gone(a, ids[n - 1], now, r);
        assert(ids.take(n).drop_last() =~= ids.take(n - 1));
        if ids.take(n).contains(r) {
            let i = ids.take(n).index_of(r);
            if i < n - 1 {
                assert(ids.take(n - 1)[i] == r);
            }
        }
        if ids.take(n - 1).contains(r) {
            let i = ids.take(n - 1).index_of(r);
            assert(ids.take(n)[i] == r);
        }
        assert(ids.take(n)[n - 1] == ids[n - 1]);
    } else {
        assert(ids.take(0) =~= Seq::empty());
    }
}

/// Once the displays let go, exactly the processes of the renderers that were
/// taken out are ended, and the plugin is asked for start arguments.
pub proof fn retired_processes_are_ended(
    d: Daemon,
    job: ApplyJob,
    plugin_name: String,
    doomed: Vec<String>,
    before: Seq<Order>,
    after: Seq<Order>,
    t: Turn,
    i: int,
)
    requires
        apply::show_let_go(job, plugin_name, doomed, before, after, t),
        0 <= i < doomed@.len(),
    ensures
        after.len() == before.len() + doomed@.len(),
        after[before.len() + i] matches Order::Route(Effect::Kill(x)) && x == doomed@[i],
        t matches Turn::Ask(Ask::Extras { plugin_name: p, wallpaper_id }, Wait::ShowExtras(j)) && p
            == plugin_name && wallpaper_id == job.wallpaper_id && j == job,
{
}

/// A wallpaper that is shown everywhere is on every connected display, and on
/// its own.
pub proof fn shown_everywhere_is_everywhere(
    a: Daemon,
    b: Daemon,
    job: ApplyJob,
    renderer_id: String,
    handle: Option<RendererHandle>,
    now: u64,
    before: Seq<Order>,
    after: Seq<Order>,
    t: Turn,
    id: u64,
)
    requires
        well_formed(a.router@),
        apply::show_linked(a, b, job, Ok((renderer_id, handle)), now, before, after, t),
        ops::display_ids(a.router@).contains(id),
    ensures
        shows_only(b.router@, id, renderer_id@),
        b.queue.current == Some(job.wallpaper_id),
{
    lemma_with_renderer(a.router@, handle);
    let s = apply::with_renderer(a.router@, handle).v;
    outcomes::only_the_named_displays_change(
        ops::start(s),
        ops::display_ids(s),
        renderer_id@,
        now,
        id,
    );
}

/// A renderer that was started and lives is known from then on, in the router
/// and among the renderers at hand, with the arguments it was started with.
pub proof fn started_renderer_is_known(
    a: Daemon,
    b: Daemon,
    job: ApplyJob,
    h: RendererHandle,
    now: u64,
    before: Seq<Order>,
    after: Seq<Order>,
    t: Turn,
)
    requires
        well_formed(a.router@),
        ({
            ||| apply::apply_done(a, b, job, Ok((h.id, Some(h))), now, before, after, t)
            ||| apply::show_linked(a, b, job, Ok((h.id, Some(h))), now, before, after, t)
        }),
        !crate::spawn::has_id(a.manager@, h.id@),
    ensures
        renderer_ids(b.router@).contains(h.id@),
        b.manager@.len() == a.manager@.len() + 1,
        ({
            let l = b.manager@.last();
            &&& l.id@ == h.id@
            &&& l.wp_type@ == h.wp_type@
            &&& l.name@ == h.name@
            &&& (l.width, l.height, l.extent_mode) == (h.width, h.height, h.extent_mode)
            &&& strmap::kv_text(l.extras@) == strmap::kv_text(h.extras@)
            &&& l.pid == h.pid
        }),
{
    let v = a.router@;
    lemma_with_renderer(v, Some(h));
    let s = apply::with_renderer(v, Some(h)).v;
    assert(renderer_ids(s).contains(h.id@)) by {
        let all = events::registered(v.renderers, h@);
        outcomes::registered_renderer_is_listed(v.renderers, h@);
        let k = choose|k: int| 0 <= k < all.len() && (#[trigger] all[k]).h == h@;
        assert(renderer_ids(s)[k] == h.id@);
    }
    let ids = if apply::apply_done(a, b, job, Ok((h.id, Some(h))), now, before, after, t) {
        apply::job_displays(job, s)
    } else {
        ops::display_ids(s)
    };
    laws::relinked_displays_show_the_renderer(ops::start(s), ids, h.id@, now, 0);
}

/// What is said above of the turns of showing a wallpaper holds of the calls
/// that take them.
pub proof fn calls_take_their_turns(
    q: &mut Daemon,
    job: ApplyJob,
    id: String,
    renderer: String,
    displays: Vec<u64>,
    extras: Result<StrMap<String>, Error>,
    spawned: Result<(String, Option<RendererHandle>), Error>,
    item: Option<i64>,
    now: u64,
    out: &mut Vec<Order>,
    t: Turn,
)
    ensures
        call_ensures(Daemon::apply_begin, (&*old(q), id, renderer, displays), t)
            ==> apply::apply_begun(*old(q), id, renderer, displays, t),
        call_ensures(Daemon::apply_extras, (q, job, extras, now, out), t) ==> apply::apply_extended(
            *old(q),
            *final(q),
            job,
            extras,
            now,
            old(out)@,
            final(out)@,
            t,
        ),
        call_ensures(Daemon::apply_spawned, (q, job, spawned, now, out), t) ==> apply::apply_done(
            *old(q),
            *final(q),
            job,
            spawned,
            now,
            old(out)@,
            final(out)@,
            t,
        ),
        call_ensures(Daemon::apply_located, (q, job, renderer, item, out), t)
            ==> apply::apply_found(
            *old(q),
            *final(q),
            job,
            renderer,
            item,
            old(out)@,
            final(out)@,
            t,
        ),
        call_ensures(Daemon::show_begin, (q, id, now, out), t) ==> apply::show_begun(
            *old(q),
            *final(q),
            id,
            now,
            old(out)@,
            final(out)@,
            t,
        ),
        call_ensures(Daemon::show_extras, (&*old(q), job, extras), t) ==> apply::show_extended(
            *old(q),
            job,
            extras,
            t,
        ),
        call_ensures(Daemon::show_spawned, (q, job, spawned, now, out), t) ==> apply::show_linked(
            *old(q),
            *final(q),
            job,
            spawned,
            now,
            old(out)@,
            final(out)@,
            t,
        ),
        call_ensures(Daemon::show_found, (q, job, renderer, item, out), t) ==> apply::show_done(
            *old(q),
            *final(q),
            job,
            renderer,
            item,
            old(out)@,
            final(out)@,
            t,
        ),
{
}

/// A wallpaper that was shown everywhere and then found in the database is the
/// current one, is remembered, and is what the next step goes on from; the
/// answer names it and its renderer.
pub proof fn wallpaper_shown_everywhere_is_current(
    a: Daemon,
    b: Daemon,
    job: ApplyJob,
    renderer_id: String,
    item: Option<i64>,
    before: Seq<Order>,
    after: Seq<Order>,
    t: Turn,
)
    requires
        apply::show_done(a, b, job, renderer_id, item, before, after, t),
    ensures
        b.queue.current == Some(job.wallpaper_id),
        item is Some ==> b.queue.last_db_id == item,
        item is None ==> b.queue.last_db_id == a.queue.last_db_id,
        b.queue.shuffle_pos == a.queue.shuffle_pos,
        b.queue.shuffle_round == a.queue.shuffle_round,
        b.store.inner@.global.last_wallpaper == Some(job.wallpaper_id@),
        b.store.inner@.displays == a.store.inner@.displays,
        b.store.inner@.plugins == a.store.inner@.plugins,
        b.router == a.router,
        b.manager == a.manager,
        after.len() == before.len() + 2,
        after[before.len() as int] == Order::FlushSettings,
        after[before.len() as int + 1] == Order::NotifyWallpaper,
        t matches Turn::Done(Ok(Reply::WallpaperApply { renderer_id: r, wallpaper_id, wp_type, name }))
            && r == renderer_id && wallpaper_id == job.wallpaper_id && wp_type == job.wp_type
            && name == job.name,
{
}

/// The renderer of a job that is shown everywhere is asked for with what the
/// job carries, and with the arguments that the source gave.
pub proof fn renderer_is_asked_for_as_the_job_says(
    a: Daemon,
    job: ApplyJob,
    extras: Result<StrMap<String>, Error>,
    t: Turn,
)
    requires
        call_ensures(Daemon::show_extras, (&a, job, extras), t),
    ensures
        extras matches Err(e) ==> t == Turn::Done(Err(e)),
        extras matches Ok(x) ==> (t matches Turn::Ask(Ask::Spawn(r), Wait::ShowSpawned(j)) && {
            &&& j == job
            &&& r.wp_type@ == job.wp_type@
            &&& (r.width, r.height, r.extent_mode) == (job.width, job.height, job.extent_mode)
            &&& r@.extras == strmap::kv_text(x@)
            &&& r@.settings == strmap::kv_text(job.settings@)
            &&& !r.test_pattern
            &&& !job.pinned ==> r@.renderer_name is None
            &&& job.pinned ==> r@.renderer_name == Some(job.plugin_name@)
        }),
{
}

} // verus!
