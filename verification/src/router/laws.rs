//! What holds of the router whatever is asked of it.

use super::events::{self, FrameInfo, GeometryChange};
use super::ops;
use super::{DisplayRegistration, DisplayView, EffectView, EntryView, LinkView, RouterView, Step};
use crate::negotiate::PeerCapsView;
use crate::renderer::{self, RendererEvent, RendererView};
use crate::router;
use vstd::prelude::*;

verus! {

// ---------------------------------------------------------------------------
// The invariant
// ---------------------------------------------------------------------------

/// No display has two enabled links.
pub open spec fn one_link(links: Seq<LinkView>) -> bool {
    forall|i: int, j: int|
        0 <= i < j < links.len() && (#[trigger] links[i]).display == (#[trigger] links[j]).display
            ==> !(links[i].enabled && links[j].enabled)
}

/// Displays stand in ascending order of ids, none above the last one given out.
pub open spec fn ids_in_order(ids: Seq<u64>, last: u64) -> bool {
    &&& forall|i: int, j: int| 0 <= i < j < ids.len() ==> #[trigger] ids[i] < #[trigger] ids[j]
    &&& forall|i: int| 0 <= i < ids.len() ==> #[trigger] ids[i] <= last
}

pub open spec fn links_known(links: Seq<LinkView>, last: u64) -> bool {
    forall|i: int| 0 <= i < links.len() ==> (#[trigger] links[i]).display <= last
}

pub open spec fn distinct(ids: Seq<Seq<char>>) -> bool {
    forall|i: int, j: int| 0 <= i < j < ids.len() ==> #[trigger] ids[i] != #[trigger] ids[j]
}

pub open spec fn renderer_ids(v: RouterView) -> Seq<Seq<char>> {
    Seq::new(v.renderers.len(), |i: int| v.renderers[i].h.id)
}

/// What holds between any two operations.
pub open spec fn well_formed(v: RouterView) -> bool {
    &&& one_link(v.links)
    &&& links_known(v.links, v.next_display_id)
    &&& ids_in_order(ops::display_ids(v), v.next_display_id)
    &&& distinct(renderer_ids(v))
}

/// The two states have the same links between the same ends.
pub(crate) open spec fn alike(a: RouterView, b: RouterView) -> bool {
    &&& a.links == b.links
    &&& ops::display_ids(a) == ops::display_ids(b)
    &&& renderer_ids(a) == renderer_ids(b)
    &&& a.next_display_id == b.next_display_id
}

pub(crate) proof fn lemma_sync_alike(s: Step, id: u64)
    ensures
        alike(s.v, router::sync(s, id).v),
        router::sync(s, id).v.renderers == s.v.renderers,
        router::sync(s, id).v.timers == s.v.timers,
{
    let t = router::sync(s, id).v;
    assert(ops::display_ids(s.v) =~= ops::display_ids(t));
}

pub(crate) proof fn lemma_sync_all_alike(s: Step, ids: Seq<u64>, n: int)
    ensures
        alike(s.v, router::sync_all(s, ids, n).v),
        router::sync_all(s, ids, n).v.renderers == s.v.renderers,
        router::sync_all(s, ids, n).v.timers == s.v.timers,
    decreases n,
{
    if n > 0 {
        lemma_sync_all_alike(s, ids, n - 1);
        lemma_sync_alike(router::sync_all(s, ids, n - 1), ids[n - 1]);
    }
}

pub(crate) proof fn lemma_lifecycle_alike(s: Step, now: u64)
    ensures
        alike(s.v, router::lifecycle(s, now).v),
        router::lifecycle(s, now).v.displays == s.v.displays,
        router::lifecycle(s, now).v.timers == s.v.timers,
{
    assert(renderer_ids(s.v) =~= renderer_ids(router::lifecycle(s, now).v));
}

proof fn lemma_without_renderer(links: Seq<LinkView>, rid: Seq<char>)
    ensures
        one_link(links) ==> one_link(router::links_without_renderer(links, rid)),
        forall|i: int|
            0 <= i < router::links_without_renderer(links, rid).len() ==> links.contains(
                #[trigger] router::links_without_renderer(links, rid)[i],
            ),
    decreases links.len(),
{
    if links.len() > 0 {
        let head = links.drop_last();
        let rest = router::links_without_renderer(head, rid);
        lemma_without_renderer(head, rid);
        let all = router::links_without_renderer(links, rid);
        assert forall|i: int| 0 <= i < all.len() implies links.contains(#[trigger] all[i]) by {
            if i < rest.len() {
                assert(head.contains(rest[i]));
                let k = choose|k: int| 0 <= k < head.len() && head[k] == rest[i];
                assert(links[k] == rest[i]);
            } else {
                assert(links[links.len() - 1] == all[i]);
            }
        }
        if one_link(links) {
            assert forall|i: int, j: int|
                0 <= i < j < all.len() && (#[trigger] all[i]).display == (
                #[trigger] all[j]).display implies !(all[i].enabled && all[j].enabled) by {
                if j == rest.len() {
                    assert(head.contains(rest[i]));
                    let k = choose|k: int| 0 <= k < head.len() && head[k] == rest[i];
                    assert(links[k] == all[i]);
                    assert(links[links.len() - 1] == all[j]);
                } else {
                    assert(one_link(head)) by {
                        assert forall|a: int, b: int|
                            0 <= a < b < head.len() && (#[trigger] head[a]).display == (
                            #[trigger] head[b]).display implies !(head[a].enabled
                            && head[b].enabled) by {
                            assert(head[a] == links[a] && head[b] == links[b]);
                        }
                    }
                    assert(all[i] == rest[i] && all[j] == rest[j]);
                }
            }
        }
    }
}

proof fn lemma_without_display(links: Seq<LinkView>, id: u64)
    ensures
        one_link(links) ==> one_link(router::links_without_display(links, id)),
        forall|i: int|
            0 <= i < router::links_without_display(links, id).len() ==> {
                &&& links.contains(#[trigger] router::links_without_display(links, id)[i])
                &&& router::links_without_display(links, id)[i].display != id
            },
    decreases links.len(),
{
    if links.len() > 0 {
        let head = links.drop_last();
        let rest = router::links_without_display(head, id);
        lemma_without_display(head, id);
        let all = router::links_without_display(links, id);
        assert forall|i: int| 0 <= i < all.len() implies {
            &&& links.contains(#[trigger] all[i])
            &&& all[i].display != id
        } by {
            if i < rest.len() {
                assert(head.contains(rest[i]));
                let k = choose|k: int| 0 <= k < head.len() && head[k] == rest[i];
                assert(links[k] == rest[i]);
            } else {
                assert(links[links.len() - 1] == all[i]);
            }
        }
        if one_link(links) {
            assert(one_link(head)) by {
                assert forall|a: int, b: int|
                    0 <= a < b < head.len() && (#[trigger] head[a]).display == (
                    #[trigger] head[b]).display implies !(head[a].enabled && head[b].enabled) by {
                    assert(head[a] == links[a] && head[b] == links[b]);
                }
            }
            assert forall|i: int, j: int|
                0 <= i < j < all.len() && (#[trigger] all[i]).display == (
                #[trigger] all[j]).display implies !(all[i].enabled && all[j].enabled) by {
                if j == rest.len() {
                    assert(head.contains(rest[i]));
                    let k = choose|k: int| 0 <= k < head.len() && head[k] == rest[i];
                    assert(links[k] == all[i]);
                    assert(links[links.len() - 1] == all[j]);
                } else {
                    assert(all[i] == rest[i] && all[j] == rest[j]);
                }
            }
        }
    }
}

proof fn lemma_entries_without(s: Seq<EntryView>, rid: Seq<char>)
    ensures
        ({
            let all = router::entries_without(s, rid);
            &&& all.len() <= s.len()
            &&& forall|i: int|
                0 <= i < all.len() ==> s.contains(#[trigger] all[i]) && all[i].h.id != rid
            &&& forall|e: EntryView| #[trigger]
                s.contains(e) && e.h.id != rid ==> all.contains(e)
            &&& (forall|i: int, j: int|
                0 <= i < j < s.len() ==> (#[trigger] s[i]).h.id != (#[trigger] s[j]).h.id) ==> (
            forall|i: int, j: int|
                0 <= i < j < all.len() ==> (#[trigger] all[i]).h.id != (#[trigger] all[j]).h.id)
        }),
    decreases s.len(),
{
    if s.len() > 0 {
        let head = s.drop_last();
        let rest = router::entries_without(head, rid);
        lemma_entries_without(head, rid);
        let all = router::entries_without(s, rid);
        assert forall|i: int| 0 <= i < all.len() implies s.contains(#[trigger] all[i])
            && all[i].h.id != rid by {
            if i < rest.len() {
                assert(head.contains(rest[i]));
                let k = choose|k: int| 0 <= k < head.len() && head[k] == rest[i];
                assert(s[k] == rest[i]);
            } else {
                assert(s[s.len() - 1] == all[i]);
            }
        }
        assert forall|e: EntryView| #[trigger] s.contains(e) && e.h.id != rid implies all.contains(
            e,
        ) by {
            let k = choose|k: int| 0 <= k < s.len() && s[k] == e;
            if k < head.len() {
                assert(head[k] == e);
                assert(head.contains(e));
                let m = choose|m: int| 0 <= m < rest.len() && rest[m] == e;
                assert(all[m] == e);
            } else {
                assert(all[rest.len() as int] == e);
            }
        }
        if forall|i: int, j: int|
            0 <= i < j < s.len() ==> (#[trigger] s[i]).h.id != (#[trigger] s[j]).h.id {
            assert forall|i: int, j: int| 0 <= i < j < head.len() implies (
            #[trigger] head[i]).h.id != (#[trigger] head[j]).h.id by {
                assert(head[i] == s[i] && head[j] == s[j]);
            }
            assert forall|i: int, j: int| 0 <= i < j < all.len() implies (#[trigger] all[i]).h.id
                != (#[trigger] all[j]).h.id by {
                if j == rest.len() {
                    assert(head.contains(rest[i]));
                    let k = choose|k: int| 0 <= k < head.len() && head[k] == rest[i];
                    assert(s[k] == all[i] && s[s.len() - 1] == all[j]);
                } else {
                    assert(all[i] == rest[i] && all[j] == rest[j]);
                }
            }
        }
    }
}

proof fn lemma_displays_without(s: Seq<DisplayView>, id: u64)
    ensures
        ({
            let all = router::displays_without(s, id);
            &&& all.len() <= s.len()
            &&& forall|i: int|
                0 <= i < all.len() ==> s.contains(#[trigger] all[i]) && all[i].id != id
            &&& (forall|i: int, j: int|
                0 <= i < j < s.len() ==> (#[trigger] s[i]).id < (#[trigger] s[j]).id) ==> (
            forall|i: int, j: int|
                0 <= i < j < all.len() ==> (#[trigger] all[i]).id < (#[trigger] all[j]).id)
        }),
    decreases s.len(),
{
    if s.len() > 0 {
        let head = s.drop_last();
        let rest = router::displays_without(head, id);
        lemma_displays_without(head, id);
        let all = router::displays_without(s, id);
        assert forall|i: int| 0 <= i < all.len() implies s.contains(#[trigger] all[i])
            && all[i].id != id by {
            if i < rest.len() {
                assert(head.contains(rest[i]));
                let k = choose|k: int| 0 <= k < head.len() && head[k] == rest[i];
                assert(s[k] == rest[i]);
            } else {
                assert(s[s.len() - 1] == all[i]);
            }
        }
        if forall|i: int, j: int|
            0 <= i < j < s.len() ==> (#[trigger] s[i]).id < (#[trigger] s[j]).id {
            assert forall|i: int, j: int| 0 <= i < j < head.len() implies (#[trigger] head[i]).id < (
            #[trigger] head[j]).id by {
                assert(head[i] == s[i] && head[j] == s[j]);
            }
            assert forall|i: int, j: int| 0 <= i < j < all.len() implies (#[trigger] all[i]).id < (
            #[trigger] all[j]).id by {
                if j == rest.len() {
                    assert(head.contains(rest[i]));
                    let k = choose|k: int| 0 <= k < head.len() && head[k] == rest[i];
                    assert(s[k] == all[i] && s[s.len() - 1] == all[j]);
                } else {
                    assert(all[i] == rest[i] && all[j] == rest[j]);
                }
            }
        }
    }
}

proof fn lemma_renderer_gone(v: RouterView, rid: Seq<char>)
    requires
        well_formed(v),
    ensures
        well_formed(
            RouterView {
                renderers: router::entries_without(v.renderers, rid),
                links: router::links_without_renderer(v.links, rid),
                ..v
            },
        ),
{
    let w = RouterView {
        renderers: router::entries_without(v.renderers, rid),
        links: router::links_without_renderer(v.links, rid),
        ..v
    };
    lemma_without_renderer(v.links, rid);
    lemma_entries_without(v.renderers, rid);
    assert(ops::display_ids(w) =~= ops::display_ids(v));
    assert forall|i: int, j: int| 0 <= i < j < v.renderers.len() implies (
    #[trigger] v.renderers[i]).h.id != (#[trigger] v.renderers[j]).h.id by {
        assert(renderer_ids(v)[i] == v.renderers[i].h.id && renderer_ids(v)[j]
            == v.renderers[j].h.id);
    }
    assert forall|i: int| 0 <= i < w.links.len() implies (#[trigger] w.links[i]).display
        <= w.next_display_id by {
        assert(v.links.contains(w.links[i]));
    }
}

/// Taking out or stopping a renderer keeps the invariant.
pub proof fn stopping_keeps_the_invariant(s: Step, rid: Seq<char>, now: u64)
    requires
        well_formed(s.v),
    ensures
        well_formed(router::unregister(s, rid, now).v),
        well_formed(router::stop(s, rid, now).v),
{
    let affected = router::linked_displays(s.v.links, rid);
    let removed = router::cancel_timer(
        Step {
            v: RouterView {
                renderers: router::entries_without(s.v.renderers, rid),
                links: router::links_without_renderer(s.v.links, rid),
                ..s.v
            },
            fx: s.fx,
        },
        rid,
    );
    lemma_renderer_gone(s.v, rid);
    let told = Step {
        v: removed.v,
        fx: removed.fx.push(
            EffectView::Emit(crate::snapshot::EventView::RendererRemoved(rid)),
        ),
    };
    assert(ops::display_ids(told.v) =~= ops::display_ids(s.v));
    assert(well_formed(told.v));
    let synced = router::sync_all(told, affected, affected.len() as int);
    lemma_sync_all_alike(told, affected, affected.len() as int);
    lemma_lifecycle_alike(synced, now);
}

/// So does stopping any number of them.
pub proof fn stopping_several_keeps_the_invariant(
    s: Step,
    ids: Seq<Seq<char>>,
    now: u64,
    n: int,
)
    requires
        well_formed(s.v),
    ensures
        well_formed(router::stop_all(s, ids, now, n).v),
    decreases n,
{
    if n > 0 {
        stopping_several_keeps_the_invariant(s, ids, now, n - 1);
        stopping_keeps_the_invariant(router::stop_all(s, ids, now, n - 1), ids[n - 1], now);
    }
}

/// So does taking any number of them out.
pub proof fn retiring_keeps_the_invariant(s: Step, ids: Seq<Seq<char>>, now: u64, n: int)
    requires
        well_formed(s.v),
    ensures
        well_formed(router::unregister_all(s, ids, now, n).v),
    decreases n,
{
    if n > 0 {
        retiring_keeps_the_invariant(s, ids, now, n - 1);
        stopping_keeps_the_invariant(router::unregister_all(s, ids, now, n - 1), ids[n - 1], now);
    }
}

/// No effect behind the first `n` ends a process.
pub open spec fn ends_no_process(fx: Seq<EffectView>, n: int) -> bool {
    forall|i: int| n <= i < fx.len() ==> !((#[trigger] fx[i]) is Kill)
}

proof fn lemma_sync_ends_nothing(s: Step, ids: Seq<u64>, n: int)
    ensures
        s.fx.len() <= router::sync_all(s, ids, n).fx.len(),
        forall|i: int|
            0 <= i < s.fx.len() ==> #[trigger] router::sync_all(s, ids, n).fx[i] == s.fx[i],
        ends_no_process(router::sync_all(s, ids, n).fx, s.fx.len() as int),
    decreases n,
{
    if n > 0 {
        lemma_sync_ends_nothing(s, ids, n - 1);
    }
}

proof fn lemma_controls_end_nothing(v: RouterView, now: u64, n: int)
    ensures
        ends_no_process(router::controls(v, n), 0),
        ends_no_process(router::status_events(v, now, n), 0),
    decreases n,
{
    if n > 0 {
        lemma_controls_end_nothing(v, now, n - 1);
    }
}

/// Taking renderers out ends none of their processes: that is left until the
/// displays have let go of the pools.
pub proof fn retiring_ends_no_process(s: Step, ids: Seq<Seq<char>>, now: u64, n: int)
    ensures
        s.fx.len() <= router::unregister_all(s, ids, now, n).fx.len(),
        ends_no_process(router::unregister_all(s, ids, now, n).fx, s.fx.len() as int),
    decreases n,
{
    if n > 0 {
        let t = router::unregister_all(s, ids, now, n - 1);
        let rid = ids[n - 1];
        retiring_ends_no_process(s, ids, now, n - 1);
        let affected = router::linked_displays(t.v.links, rid);
        let removed = router::cancel_timer(
            Step {
                v: RouterView {
                    renderers: router::entries_without(t.v.renderers, rid),
                    links: router::links_without_renderer(t.v.links, rid),
                    ..t.v
                },
                fx: t.fx,
            },
            rid,
        );
        let told = Step {
            v: removed.v,
            fx: removed.fx.push(
                EffectView::Emit(crate::snapshot::EventView::RendererRemoved(rid)),
            ),
        };
        let k = affected.len() as int;
        lemma_sync_ends_nothing(told, affected, k);
        let synced = router::sync_all(told, affected, k);
        lemma_controls_end_nothing(synced.v, now, synced.v.renderers.len() as int);
        let all = router::unregister(t, rid, now).fx;
        assert forall|i: int| s.fx.len() <= i < all.len() implies !((#[trigger] all[i]) is Kill) by {
            if i < told.fx.len() {
                assert(synced.fx[i] == told.fx[i]);
            }
        }
    }
}

proof fn lemma_timers_alike(s: Step, ids: Seq<Seq<char>>, n: int)
    ensures
        ops::start_timers(s, ids, n).v == (RouterView {
            timers: ops::start_timers(s, ids, n).v.timers,
            ..s.v
        }),
    decreases n,
{
    if n > 0 {
        lemma_timers_alike(s, ids, n - 1);
    }
}

proof fn lemma_only_timers_differ(a: RouterView, b: RouterView)
    requires
        well_formed(a),
        b == (RouterView { timers: b.timers, ..a }),
    ensures
        well_formed(b),
{
    assert(ops::display_ids(a) =~= ops::display_ids(b));
    assert(renderer_ids(a) =~= renderer_ids(b));
}

/// Dealing with orphans keeps the invariant.
pub proof fn reaping_keeps_the_invariant(s: Step, keep: Option<Seq<char>>, rid: Seq<char>, now: u64)
    requires
        well_formed(s.v),
    ensures
        well_formed(ops::reap_orphans(s, keep, now).v),
        well_formed(ops::reap_orphan(s, rid, now).v),
        well_formed(ops::grace_over(s, rid, now).v),
        well_formed(router::cancel_timer(s, rid).v),
{
    let ids = ops::orphans(s.v, keep, s.v.renderers.len() as int);
    let n = ids.len() as int;
    stopping_several_keeps_the_invariant(s, ids, now, n);
    lemma_timers_alike(s, ids, n);
    lemma_only_timers_differ(s.v, ops::start_timers(s, ids, n).v);
    let reaped = if ops::lone(s.v) {
        ops::start_timers(s, ids, n)
    } else {
        router::stop_all(s, ids, now, n)
    };
    if keep is Some {
        lemma_only_timers_differ(reaped.v, router::cancel_timer(reaped, keep->0).v);
    }
    stopping_keeps_the_invariant(s, rid, now);
    lemma_only_timers_differ(s.v, ops::start_timer(s, rid).v);
    let cleared = Step {
        v: RouterView { timers: s.v.timers.remove(rid), ..s.v },
        fx: s.fx,
    };
    lemma_only_timers_differ(s.v, cleared.v);
    stopping_keeps_the_invariant(cleared, rid, now);
    lemma_only_timers_differ(s.v, router::cancel_timer(s, rid).v);
}

proof fn lemma_find_display_ids(s: Seq<DisplayView>, id: u64)
    ensures
        match router::find_display(s, id) {
            Some(d) => d.id == id && s.contains(d),
            None => forall|i: int| 0 <= i < s.len() ==> (#[trigger] s[i]).id != id,
        },
    decreases s.len(),
{
    if s.len() > 0 {
        let head = s.drop_last();
        lemma_find_display_ids(head, id);
        if router::find_display(head, id) is Some {
            let d = router::find_display(head, id)->0;
            let k = choose|k: int| 0 <= k < head.len() && head[k] == d;
            assert(s[k] == d);
        } else if s.last().id == id {
            assert(s[s.len() - 1] == s.last());
        } else {
            assert forall|i: int| 0 <= i < s.len() implies (#[trigger] s[i]).id != id by {
                if i < head.len() {
                    assert(head[i] == s[i]);
                }
            }
        }
    }
}

proof fn lemma_linked(v: RouterView, rid: Seq<char>, display: u64)
    requires
        well_formed(v),
        display <= v.next_display_id,
        forall|i: int| 0 <= i < v.links.len() ==> (#[trigger] v.links[i]).display != display,
    ensures
        well_formed(ops::linked(v, rid, display)),
{
    let w = ops::linked(v, rid, display);
    assert(ops::display_ids(w) =~= ops::display_ids(v));
    assert(renderer_ids(w) =~= renderer_ids(v));
    assert forall|i: int, j: int|
        0 <= i < j < w.links.len() && (#[trigger] w.links[i]).display == (
        #[trigger] w.links[j]).display implies !(w.links[i].enabled && w.links[j].enabled) by {
        if j == v.links.len() {
            assert(w.links[i] == v.links[i]);
        } else {
            assert(w.links[i] == v.links[i] && w.links[j] == v.links[j]);
        }
    }
}

proof fn lemma_pointed(v: RouterView, rid: Seq<char>, display: u64)
    requires
        well_formed(v),
    ensures
        well_formed(ops::pointed(v, rid, display)),
        ops::pointed(v, rid, display).displays == v.displays,
        ops::pointed(v, rid, display).renderers == v.renderers,
{
    if router::find_display(v.displays, display) is Some {
        lemma_find_display_ids(v.displays, display);
        let d = router::find_display(v.displays, display)->0;
        let k = choose|k: int| 0 <= k < v.displays.len() && v.displays[k] == d;
        assert(ops::display_ids(v)[k] == display);
        lemma_without_display(v.links, display);
        let w = RouterView { links: router::links_without_display(v.links, display), ..v };
        assert(ops::display_ids(w) =~= ops::display_ids(v));
        assert(renderer_ids(w) =~= renderer_ids(v));
        assert forall|i: int| 0 <= i < w.links.len() implies (#[trigger] w.links[i]).display
            <= w.next_display_id by {
            assert(v.links.contains(w.links[i]));
        }
        lemma_linked(w, rid, display);
    }
}

pub(crate) proof fn lemma_all_pointed(v: RouterView, rid: Seq<char>, ids: Seq<u64>, n: int)
    requires
        well_formed(v),
    ensures
        well_formed(ops::all_pointed(v, rid, ids, n)),
        ops::all_pointed(v, rid, ids, n).displays == v.displays,
        ops::all_pointed(v, rid, ids, n).renderers == v.renderers,
    decreases n,
{
    if n > 0 {
        lemma_all_pointed(v, rid, ids, n - 1);
        lemma_pointed(ops::all_pointed(v, rid, ids, n - 1), rid, ids[n - 1]);
    }
}

/// Giving displays to a renderer keeps the invariant.
pub proof fn relinking_keeps_the_invariant(s: Step, ids: Seq<u64>, rid: Seq<char>, now: u64)
    requires
        well_formed(s.v),
    ensures
        well_formed(ops::relink(s, ids, rid, now).v),
{
    let applied = ops::connected(s.v, ids, ids.len() as int);
    let s1 = Step { v: ops::all_pointed(s.v, rid, ids, ids.len() as int), fx: s.fx };
    lemma_all_pointed(s.v, rid, ids, ids.len() as int);
    lemma_sync_all_alike(s1, applied, applied.len() as int);
    let synced = router::sync_all(s1, applied, applied.len() as int);
    lemma_lifecycle_alike(synced, now);
    reaping_keeps_the_invariant(router::lifecycle(synced, now), Some(rid), rid, now);
}

/// Displays coming and going keep the invariant.
pub proof fn hotplug_keeps_the_invariant(s: Step, reg: DisplayRegistration, id: u64, now: u64)
    requires
        well_formed(s.v),
        s.v.next_display_id < u64::MAX,
    ensures
        well_formed(events::add_display(s, reg, now).v),
        well_formed(events::drop_display(s, id, now).v),
{
    let new_id = (s.v.next_display_id + 1) as u64;
    let v1 = RouterView {
        displays: s.v.displays.push(events::new_display(new_id, reg)),
        next_display_id: new_id,
        ..s.v
    };
    assert(well_formed(v1)) by {
        let ids = ops::display_ids(v1);
        let was = ops::display_ids(s.v);
        assert(ids =~= was.push(new_id));
        assert(renderer_ids(v1) =~= renderer_ids(s.v));
    }
    let s2 = if v1.renderers.len() > 0 {
        let first = v1.renderers[0].h.id;
        router::cancel_timer(Step { v: ops::linked(v1, first, new_id), fx: s.fx }, first)
    } else {
        Step { v: v1, fx: s.fx }
    };
    if v1.renderers.len() > 0 {
        let first = v1.renderers[0].h.id;
        lemma_linked(v1, first, new_id);
        lemma_only_timers_differ(ops::linked(v1, first, new_id), s2.v);
    }
    lemma_sync_alike(s2, new_id);
    lemma_lifecycle_alike(router::sync(s2, new_id), now);
    let gone = Step {
        v: RouterView {
            displays: router::displays_without(s.v.displays, id),
            links: router::links_without_display(s.v.links, id),
            ..s.v
        },
        fx: s.fx,
    };
    assert(well_formed(gone.v)) by {
        lemma_displays_without(s.v.displays, id);
        lemma_without_display(s.v.links, id);
        assert(renderer_ids(gone.v) =~= renderer_ids(s.v));
        assert forall|i: int, j: int| 0 <= i < j < s.v.displays.len() implies (
        #[trigger] s.v.displays[i]).id < (#[trigger] s.v.displays[j]).id by {
            assert(ops::display_ids(s.v)[i] < ops::display_ids(s.v)[j]);
        }
        let ids = ops::display_ids(gone.v);
        assert forall|i: int| 0 <= i < ids.len() implies #[trigger] ids[i]
            <= gone.v.next_display_id by {
            assert(s.v.displays.contains(gone.v.displays[i]));
            let k = choose|k: int|
                0 <= k < s.v.displays.len() && s.v.displays[k] == gone.v.displays[i];
            assert(ops::display_ids(s.v)[k] == ids[i]);
        }
        assert forall|i: int| 0 <= i < gone.v.links.len() implies (
        #[trigger] gone.v.links[i]).display <= gone.v.next_display_id by {
            assert(s.v.links.contains(gone.v.links[i]));
        }
    }
    reaping_keeps_the_invariant(gone, None, Seq::empty(), now);
    lemma_lifecycle_alike(ops::reap_orphans(gone, None, now), now);
}

proof fn lemma_with_handle_ids(s: Seq<EntryView>, id: Seq<char>, h: RendererView)
    requires
        h.id == id,
    ensures
        router::with_handle(s, id, h).len() == s.len(),
        forall|i: int|
            0 <= i < s.len() ==> (#[trigger] router::with_handle(s, id, h)[i]).h.id == s[i].h.id,
    decreases s.len(),
{
    if s.len() > 0 {
        let head = s.drop_last();
        lemma_with_handle_ids(head, id, h);
        let all = router::with_handle(s, id, h);
        assert forall|i: int| 0 <= i < s.len() implies (#[trigger] all[i]).h.id == s[i].h.id by {
            if i < head.len() {
                assert(head[i] == s[i]);
            }
        }
    }
}

proof fn lemma_with_display_ids(s: Seq<DisplayView>, id: u64, d: DisplayView)
    requires
        d.id == id,
    ensures
        router::with_display(s, id, d).len() == s.len(),
        forall|i: int|
            0 <= i < s.len() ==> (#[trigger] router::with_display(s, id, d)[i]).id == s[i].id,
    decreases s.len(),
{
    if s.len() > 0 {
        let head = s.drop_last();
        lemma_with_display_ids(head, id, d);
        let all = router::with_display(s, id, d);
        assert forall|i: int| 0 <= i < s.len() implies (#[trigger] all[i]).id == s[i].id by {
            if i < head.len() {
                assert(head[i] == s[i]);
            }
        }
    }
}

proof fn lemma_with_link_ends(s: Seq<LinkView>, id: u64, l: LinkView)
    requires
        router::find_link(s, id) is Some,
        l.display == router::find_link(s, id)->0.display,
        l.enabled == router::find_link(s, id)->0.enabled,
    ensures
        router::with_link(s, id, l).len() == s.len(),
        forall|i: int|
            0 <= i < s.len() ==> {
                &&& (#[trigger] router::with_link(s, id, l)[i]).display == s[i].display
                &&& router::with_link(s, id, l)[i].enabled == s[i].enabled
            },
    decreases s.len(),
{
    if s.len() > 0 {
        let head = s.drop_last();
        let all = router::with_link(s, id, l);
        if router::find_link(head, id) is Some {
            lemma_with_link_ends(head, id, l);
        }
        assert forall|i: int| 0 <= i < s.len() implies {
            &&& (#[trigger] all[i]).display == s[i].display
            &&& all[i].enabled == s[i].enabled
        } by {
            if i < head.len() {
                assert(head[i] == s[i]);
            }
        }
    }
}

proof fn lemma_find_entry_ids(s: Seq<EntryView>, rid: Seq<char>)
    ensures
        match router::find_entry(s, rid) {
            Some(e) => e.h.id == rid && s.contains(e),
            None => forall|i: int| 0 <= i < s.len() ==> (#[trigger] s[i]).h.id != rid,
        },
    decreases s.len(),
{
    if s.len() > 0 {
        let head = s.drop_last();
        lemma_find_entry_ids(head, rid);
        if router::find_entry(head, rid) is Some {
            let e = router::find_entry(head, rid)->0;
            let k = choose|k: int| 0 <= k < head.len() && head[k] == e;
            assert(s[k] == e);
        } else if s.last().h.id == rid {
            assert(s[s.len() - 1] == s.last());
        } else {
            assert forall|i: int| 0 <= i < s.len() implies (#[trigger] s[i]).h.id != rid by {
                if i < head.len() {
                    assert(head[i] == s[i]);
                }
            }
        }
    }
}

proof fn lemma_replace_handle(v: RouterView, rid: Seq<char>, h: RendererView)
    requires
        h.id == rid,
    ensures
        alike(v, events::replace_handle(v, rid, h)),
{
    lemma_with_handle_ids(v.renderers, rid, h);
    let w = events::replace_handle(v, rid, h);
    assert(renderer_ids(w) =~= renderer_ids(v));
    assert(ops::display_ids(w) =~= ops::display_ids(v));
}

proof fn lemma_replace_display(v: RouterView, id: u64, d: DisplayView)
    requires
        d.id == id,
    ensures
        alike(v, events::replace_display(v, id, d)),
{
    lemma_with_display_ids(v.displays, id, d);
    let w = events::replace_display(v, id, d);
    assert(renderer_ids(w) =~= renderer_ids(v));
    assert(ops::display_ids(w) =~= ops::display_ids(v));
}

/// Negotiation keeps the invariant.
pub proof fn negotiation_keeps_the_invariant(
    s: Step,
    id: u64,
    rid: Seq<char>,
    caps: PeerCapsView,
    pair: (u32, u64),
)
    requires
        well_formed(s.v),
    ensures
        well_formed(events::take_caps(s, id, caps).v),
        well_formed(events::display_rejects(s, id, pair).v),
        well_formed(events::renderer_rejects(s, rid, pair).v),
{
    lemma_find_display_ids(s.v.displays, id);
    lemma_find_entry_ids(s.v.renderers, rid);
    if router::find_display(s.v.displays, id) is Some {
        let d = router::find_display(s.v.displays, id)->0;
        lemma_replace_display(s.v, id, DisplayView { caps: Some(caps), ..d });
        if d.caps is Some {
            lemma_replace_display(
                s.v,
                id,
                DisplayView { caps: Some(events::rejecting(d.caps->0, pair)), ..d },
            );
        }
    }
    if router::find_entry(s.v.renderers, rid) is Some {
        let e = router::find_entry(s.v.renderers, rid)->0;
        lemma_replace_handle(
            s.v,
            rid,
            RendererView {
                caps: match e.h.caps {
                    Some(c) => Some(events::rejecting(c, pair)),
                    None => None,
                },
                ..e.h
            },
        );
    }
}

pub(crate) proof fn lemma_resync_alike(s: Step, id: u64)
    ensures
        alike(s.v, events::resync(s, id).v),
{
    let t = events::resync(s, id).v;
    assert(ops::display_ids(s.v) =~= ops::display_ids(t));
    assert(renderer_ids(s.v) =~= renderer_ids(t));
}

pub(crate) proof fn lemma_resync_all_alike(s: Step, ids: Seq<u64>, n: int)
    ensures
        alike(s.v, events::resync_all(s, ids, n).v),
    decreases n,
{
    if n > 0 {
        lemma_resync_all_alike(s, ids, n - 1);
        lemma_resync_alike(events::resync_all(s, ids, n - 1), ids[n - 1]);
    }
}

proof fn lemma_state_changed(s: Step, rid: Seq<char>)
    requires
        well_formed(s.v),
    ensures
        well_formed(events::state_changed(s, rid).v),
{
    if router::find_entry(s.v.renderers, rid) is Some {
        let e = router::find_entry(s.v.renderers, rid)->0;
        let ids = events::recolored_displays(
            s.v.links,
            rid,
            e.h.clear,
            s.v.links.len() as int,
        );
        let t = Step {
            v: RouterView { links: events::recolored(s.v.links, rid, e.h.clear), ..s.v },
            fx: s.fx,
        };
        assert(ops::display_ids(t.v) =~= ops::display_ids(s.v));
        assert(renderer_ids(t.v) =~= renderer_ids(s.v));
        assert forall|i: int| 0 <= i < t.v.links.len() implies {
            &&& (#[trigger] t.v.links[i]).display == s.v.links[i].display
            &&& t.v.links[i].enabled == s.v.links[i].enabled
        } by {}
        assert(one_link(t.v.links)) by {
            assert forall|i: int, j: int|
                0 <= i < j < t.v.links.len() && (#[trigger] t.v.links[i]).display == (
                #[trigger] t.v.links[j]).display implies !(t.v.links[i].enabled
                && t.v.links[j].enabled) by {
                assert(s.v.links[i].display == s.v.links[j].display);
            }
        }
        lemma_resync_all_alike(t, ids, ids.len() as int);
    }
}

/// Changing what a display composes keeps the invariant.
pub proof fn composition_keeps_the_invariant(
    s: Step,
    id: u64,
    width: u32,
    height: u32,
    c: GeometryChange,
    name: Seq<char>,
)
    requires
        well_formed(s.v),
    ensures
        well_formed(events::resized(s, id, width, height).v),
        well_formed(events::link_changed(s, id, c).0.v),
        well_formed(events::layout_changed(s, name).v),
{
    lemma_find_display_ids(s.v.displays, id);
    if router::find_display(s.v.displays, id) is Some {
        let d = router::find_display(s.v.displays, id)->0;
        lemma_replace_display(s.v, id, DisplayView { width, height, ..d });
        let t = Step {
            v: events::replace_display(s.v, id, DisplayView { width, height, ..d }),
            fx: s.fx,
        };
        lemma_resync_alike(t, id);
    }
    if router::find_link(s.v.links, id) is Some {
        let l = events::changed_link(router::find_link(s.v.links, id)->0, c);
        lemma_with_link_ends(s.v.links, id, l);
        let v = RouterView { links: router::with_link(s.v.links, id, l), ..s.v };
        assert(one_link(v.links)) by {
            assert forall|i: int, j: int|
                0 <= i < j < v.links.len() && (#[trigger] v.links[i]).display == (
                #[trigger] v.links[j]).display implies !(v.links[i].enabled
                && v.links[j].enabled) by {
                assert(s.v.links[i].display == s.v.links[j].display);
            }
        }
        assert(ops::display_ids(v) =~= ops::display_ids(s.v));
        assert(renderer_ids(v) =~= renderer_ids(s.v));
        let w = events::link_changed(s, id, c).0.v;
        assert(ops::display_ids(w) =~= ops::display_ids(s.v));
        assert(renderer_ids(w) =~= renderer_ids(s.v));
    }
    match events::display_named(s.v.displays, name) {
        Some(d) => lemma_resync_alike(s, d.id),
        None => {},
    }
}

/// Renderers coming and speaking keep the invariant.
pub proof fn messages_keep_the_invariant(
    v: RouterView,
    rid: Seq<char>,
    ev: RendererEvent,
    fds: Seq<u64>,
    h: RendererView,
)
    requires
        well_formed(v),
    ensures
        well_formed(events::message_taken(v, rid, ev, fds).0.v),
        well_formed(events::add_renderer(ops::start(v), h).v),
{
    lemma_find_entry_ids(v.renderers, rid);
    if router::find_entry(v.renderers, rid) is Some {
        let e = router::find_entry(v.renderers, rid)->0;
        let after = renderer::after_event(e.h, ev, fds).0;
        assert(after.id == rid);
        lemma_replace_handle(v, rid, after);
        let s = ops::start(events::replace_handle(v, rid, after));
        let ids = events::shown_on(s.v.links, rid, s.v.links.len() as int);
        lemma_sync_all_alike(s, ids, ids.len() as int);
        lemma_state_changed(s, rid);
        match ev {
            RendererEvent::BindFailed { fourcc, modifier } => {
                lemma_find_entry_ids(s.v.renderers, rid);
                if router::find_entry(s.v.renderers, rid) is Some {
                    let e2 = router::find_entry(s.v.renderers, rid)->0;
                    lemma_replace_handle(
                        s.v,
                        rid,
                        RendererView {
                            caps: match e2.h.caps {
                                Some(c) => Some(events::rejecting(c, (fourcc, modifier))),
                                None => None,
                            },
                            ..e2.h
                        },
                    );
                }
            },
            _ => {},
        }
    }
    lemma_find_entry_ids(v.renderers, h.id);
    if router::find_entry(v.renderers, h.id) is Some {
        lemma_replace_handle(v, h.id, h);
    } else {
        let w = events::add_renderer(ops::start(v), h).v;
        assert(ops::display_ids(w) =~= ops::display_ids(v));
        assert(renderer_ids(w) =~= renderer_ids(v).push(h.id));
    }
}

/// Displays are listed in ascending order of ids.
pub proof fn displays_are_listed_in_order(v: RouterView, i: int, j: int)
    requires
        well_formed(v),
        0 <= i < j < router::display_snaps(v).len(),
    ensures
        router::display_snaps(v)[i].id < router::display_snaps(v)[j].id,
{
    assert(ops::display_ids(v)[i] < ops::display_ids(v)[j]);
}

// ---------------------------------------------------------------------------
// Pausing
// ---------------------------------------------------------------------------

/// A renderer is paused exactly when nothing shows it.
pub open spec fn hidden_are_paused(v: RouterView) -> bool {
    forall|i: int|
        0 <= i < v.renderers.len() ==> ((#[trigger] v.renderers[i]).paused is Some
            <==> !router::active(v.links, v.renderers[i].h.id))
}

proof fn lemma_stop_settles(s: Step, ids: Seq<Seq<char>>, now: u64, n: int)
    requires
        hidden_are_paused(s.v),
    ensures
        hidden_are_paused(router::stop_all(s, ids, now, n).v),
    decreases n,
{
    if n > 0 {
        lemma_stop_settles(s, ids, now, n - 1);
    }
}

/// After every change of links, exactly the renderers that nothing shows are
/// paused.
pub proof fn exactly_the_hidden_are_paused(
    s: Step,
    rid: Seq<char>,
    ids: Seq<u64>,
    reg: DisplayRegistration,
    id: u64,
    now: u64,
)
    ensures
        hidden_are_paused(router::unregister(s, rid, now).v),
        hidden_are_paused(ops::relink(s, ids, rid, now).v),
        hidden_are_paused(events::add_display(s, reg, now).v),
        hidden_are_paused(events::drop_display(s, id, now).v),
{
    let applied = ops::connected(s.v, ids, ids.len() as int);
    let s1 = Step { v: ops::all_pointed(s.v, rid, ids, ids.len() as int), fx: s.fx };
    let s2 = router::lifecycle(router::sync_all(s1, applied, applied.len() as int), now);
    assert(hidden_are_paused(s2.v));
    let orphans = ops::orphans(s2.v, Some(rid), s2.v.renderers.len() as int);
    lemma_stop_settles(s2, orphans, now, orphans.len() as int);
    lemma_timers_alike(s2, orphans, orphans.len() as int);
}

// ---------------------------------------------------------------------------
// Bringing displays in line
// ---------------------------------------------------------------------------

proof fn lemma_find_with_last(
    s: Seq<DisplayView>,
    id: u64,
    r: Option<Seq<char>>,
    g: Option<u64>,
    k: u64,
)
    ensures
        router::find_display(router::with_last(s, id, r, g), k) == (match router::find_display(
            s,
            k,
        ) {
            Some(d) => if k == id {
                Some(DisplayView { last_renderer: r, last_generation: g, ..d })
            } else {
                Some(d)
            },
            None => None,
        }),
    decreases s.len(),
{
    lemma_find_display_ids(s, k);
    if s.len() > 0 {
        let t = router::with_last(s, id, r, g);
        assert(t.drop_last() =~= router::with_last(s.drop_last(), id, r, g));
        lemma_find_with_last(s.drop_last(), id, r, g, k);
    }
}

/// Once a display was brought in line it is up to date.
pub proof fn synced_display_is_up_to_date(s: Step, id: u64)
    ensures
        router::up_to_date(router::sync(s, id).v, id),
{
    let t = router::sync(s, id);
    match router::find_display(s.v.displays, id) {
        Some(d) => {
            let want = router::target(s.v, id);
            assert(router::target(t.v, id) == want);
            if !(router::gated(want, d) || !router::outdated(want, d)) {
                let (r, g) = match want {
                    Some((l, _, g)) => (Some(l.renderer), Some(g)),
                    None => (None, None),
                };
                lemma_find_with_last(s.v.displays, id, r, g, id);
            }
        },
        None => {},
    }
}

/// Telling a display twice what it should show says nothing new.
pub proof fn sync_is_idempotent(s: Step, id: u64)
    ensures
        router::sync(router::sync(s, id), id) == router::sync(s, id),
{
    synced_display_is_up_to_date(s, id);
}

/// For the display nothing changed from one state to the other: it is linked to
/// the same renderer, whose pool, capabilities and scheme are the same, it was
/// told the same, and it did not lose its capabilities.
pub open spec fn nothing_new_for(a: RouterView, b: RouterView, id: u64) -> bool {
    &&& match (router::first_link(a.links, id), router::first_link(b.links, id)) {
        (Some(l), Some(m)) => {
            &&& l.renderer == m.renderer
            &&& match (
                router::find_entry(a.renderers, l.renderer),
                router::find_entry(b.renderers, l.renderer),
            ) {
                (Some(e), Some(f)) => e.h.bind == f.h.bind && e.h.caps == f.h.caps && e.h.scheme
                    == f.h.scheme,
                (None, None) => true,
                _ => false,
            }
        },
        (None, None) => true,
        _ => false,
    }
    &&& match (router::find_display(a.displays, id), router::find_display(b.displays, id)) {
        (Some(d), Some(e)) => {
            &&& d.last_renderer == e.last_renderer
            &&& d.last_generation == e.last_generation
            &&& d.caps is Some ==> e.caps is Some
        },
        (None, None) => true,
        _ => false,
    }
}

/// A second call for a display sends it nothing and uses up no number while
/// nothing changed for it, whatever else happened in between.
pub proof fn second_sync_tells_nothing(s: Step, later: Step, id: u64)
    requires
        nothing_new_for(router::sync(s, id).v, later.v, id),
    ensures
        router::sync(later, id) == later,
{
    synced_display_is_up_to_date(s, id);
}

proof fn lemma_first_link_of_fresh(links: Seq<LinkView>, l: LinkView)
    requires
        l.enabled,
        forall|i: int| 0 <= i < links.len() ==> (#[trigger] links[i]).display != l.display,
    ensures
        router::first_link(links.push(l), l.display) == Some(l),
{
    assert(links.push(l).drop_last() =~= links);
    lemma_no_first_link(links, l.display);
}

proof fn lemma_no_first_link(links: Seq<LinkView>, id: u64)
    requires
        forall|i: int| 0 <= i < links.len() ==> (#[trigger] links[i]).display != id,
    ensures
        router::first_link(links, id) is None,
    decreases links.len(),
{
    if links.len() > 0 {
        assert forall|i: int| 0 <= i < links.drop_last().len() implies (
        #[trigger] links.drop_last()[i]).display != id by {
            assert(links.drop_last()[i] == links[i]);
        }
        lemma_no_first_link(links.drop_last(), id);
    }
}

proof fn lemma_pointed_target(v: RouterView, rid: Seq<char>, id: u64)
    requires
        router::find_display(v.displays, id) is Some,
    ensures
        router::first_link(ops::pointed(v, rid, id).links, id) is Some,
        router::first_link(ops::pointed(v, rid, id).links, id)->0.renderer == rid,
{
    lemma_without_display(v.links, id);
    let rest = router::links_without_display(v.links, id);
    lemma_first_link_of_fresh(rest, ops::fresh_link(router::succ(v.next_link_id), rid, id));
}

/// Giving a display again to the renderer it was just given to tells it
/// nothing.
pub proof fn relinking_again_tells_nothing(s: Step, rid: Seq<char>, id: u64)
    requires
        router::find_display(s.v.displays, id) is Some,
    ensures
        ({
            let once = router::sync(Step { v: ops::pointed(s.v, rid, id), fx: s.fx }, id);
            let again = router::sync(Step { v: ops::pointed(once.v, rid, id), fx: once.fx }, id);
            again.fx == once.fx && again.v.displays == once.v.displays
        }),
{
    let p1 = Step { v: ops::pointed(s.v, rid, id), fx: s.fx };
    let once = router::sync(p1, id);
    let d = router::find_display(s.v.displays, id)->0;
    let t1 = router::target(p1.v, id);
    lemma_pointed_target(s.v, rid, id);
    let (r, g) = match t1 {
        Some((l, _, g)) => (Some(l.renderer), Some(g)),
        None => (None, None),
    };
    lemma_find_with_last(s.v.displays, id, r, g, id);
    assert(router::find_display(once.v.displays, id) is Some);
    lemma_pointed_target(once.v, rid, id);
    let p2 = Step { v: ops::pointed(once.v, rid, id), fx: once.fx };
    let t2 = router::target(p2.v, id);
    assert(once.v.renderers == s.v.renderers);
    assert(t1 is Some <==> t2 is Some);
}

// ---------------------------------------------------------------------------
// Giving displays to a renderer
// ---------------------------------------------------------------------------

pub(crate) proof fn lemma_first_link_without_display(links: Seq<LinkView>, gone: u64, id: u64)
    requires
        gone != id,
    ensures
        router::first_link(router::links_without_display(links, gone), id) == router::first_link(
            links,
            id,
        ),
    decreases links.len(),
{
    if links.len() > 0 {
        let head = links.drop_last();
        let rest = router::links_without_display(head, gone);
        lemma_first_link_without_display(head, gone, id);
        if links.last().display != gone {
            assert(rest.push(links.last()).drop_last() =~= rest);
        }
    }
}

pub(crate) proof fn lemma_first_link_without_renderer(links: Seq<LinkView>, rid: Seq<char>, id: u64)
    requires
        !router::active(links, rid),
    ensures
        router::first_link(router::links_without_renderer(links, rid), id) == router::first_link(
            links,
            id,
        ),
    decreases links.len(),
{
    if links.len() > 0 {
        let head = links.drop_last();
        let rest = router::links_without_renderer(head, rid);
        assert(!router::active(head, rid)) by {
            if router::active(head, rid) {
                let k = choose|k: int|
                    0 <= k < head.len() && (#[trigger] head[k]).renderer == rid && head[k].enabled;
                assert(links[k].renderer == rid && links[k].enabled);
            }
        }
        lemma_first_link_without_renderer(head, rid, id);
        if links.last().renderer == rid {
            assert(links[links.len() - 1] == links.last());
            assert(!links.last().enabled);
        } else {
            assert(rest.push(links.last()).drop_last() =~= rest);
        }
    }
}

proof fn lemma_pointed_first(v: RouterView, rid: Seq<char>, at: u64, id: u64)
    ensures
        router::first_link(ops::pointed(v, rid, at).links, id) == (if at == id
            && router::find_display(v.displays, id) is Some {
            Some(ops::fresh_link(router::succ(v.next_link_id), rid, id))
        } else {
            router::first_link(v.links, id)
        }),
{
    if router::find_display(v.displays, at) is Some {
        lemma_without_display(v.links, at);
        let rest = router::links_without_display(v.links, at);
        let l = ops::fresh_link(router::succ(v.next_link_id), rid, at);
        if at == id {
            lemma_first_link_of_fresh(rest, l);
        } else {
            lemma_first_link_without_display(v.links, at, id);
            assert(rest.push(l).drop_last() =~= rest);
        }
    }
}

proof fn lemma_all_pointed_first(v: RouterView, rid: Seq<char>, ids: Seq<u64>, n: int, id: u64)
    requires
        0 <= n <= ids.len(),
    ensures
        ops::all_pointed(v, rid, ids, n).displays == v.displays,
        ({
            let w = ops::all_pointed(v, rid, ids, n);
            if router::find_display(v.displays, id) is Some && ids.take(n).contains(id) {
                &&& router::first_link(w.links, id) is Some
                &&& router::first_link(w.links, id)->0.renderer == rid
            } else {
                router::first_link(w.links, id) == router::first_link(v.links, id)
            }
        }),
    decreases n,
{
    if n > 0 {
        lemma_all_pointed_first(v, rid, ids, n - 1, id);
        lemma_pointed_first(ops::all_pointed(v, rid, ids, n - 1), rid, ids[n - 1], id);
        assert(ids.take(n) =~= ids.take(n - 1).push(ids[n - 1]));
        assert(ids.take(n).contains(id) <==> ids.take(n - 1).contains(id) || ids[n - 1] == id) by {
            if ids.take(n - 1).contains(id) {
                let k = choose|k: int| 0 <= k < n - 1 && (#[trigger] ids.take(n - 1)[k]) == id;
                assert(ids.take(n)[k] == id);
            }
            if ids[n - 1] == id {
                assert(ids.take(n)[n - 1] == id);
            }
        }
    }
}

/// Links after a renderer is taken out.
pub(crate) proof fn lemma_stop_links(s: Step, rid: Seq<char>, now: u64)
    ensures
        router::stop(s, rid, now).v.links == router::links_without_renderer(s.v.links, rid),
        renderer_ids(router::stop(s, rid, now).v) == renderer_ids(
            RouterView { renderers: router::entries_without(s.v.renderers, rid), ..s.v },
        ),
        router::stop(s, rid, now).v.timers == s.v.timers.remove(rid),
{
    let affected = router::linked_displays(s.v.links, rid);
    let w = RouterView {
        renderers: router::entries_without(s.v.renderers, rid),
        links: router::links_without_renderer(s.v.links, rid),
        ..s.v
    };
    let removed = router::cancel_timer(Step { v: w, fx: s.fx }, rid);
    if !s.v.timers.contains(rid) {
        assert(s.v.timers.remove(rid) =~= s.v.timers);
    }
    let told = Step {
        v: removed.v,
        fx: removed.fx.push(EffectView::Emit(crate::snapshot::EventView::RendererRemoved(rid))),
    };
    lemma_sync_all_alike(told, affected, affected.len() as int);
    let synced = router::sync_all(told, affected, affected.len() as int);
    lemma_lifecycle_alike(synced, now);
    assert(renderer_ids(told.v) =~= renderer_ids(
        RouterView { renderers: router::entries_without(s.v.renderers, rid), ..s.v },
    ));
}

proof fn lemma_active_without(links: Seq<LinkView>, gone: Seq<char>, id: Seq<char>)
    ensures
        router::active(router::links_without_renderer(links, gone), id) == (id != gone
            && router::active(links, id)),
    decreases links.len(),
{
    let all = router::links_without_renderer(links, gone);
    lemma_kept_links(links, gone);
    if router::active(all, id) {
        let k = choose|k: int|
            0 <= k < all.len() && (#[trigger] all[k]).renderer == id && all[k].enabled;
        assert(links.contains(all[k]));
        let m = choose|m: int| 0 <= m < links.len() && links[m] == all[k];
        assert(links[m].renderer == id && links[m].enabled);
    }
    if id != gone && router::active(links, id) {
        let m = choose|m: int|
            0 <= m < links.len() && (#[trigger] links[m]).renderer == id && links[m].enabled;
        assert(all.contains(links[m]));
        let k = choose|k: int| 0 <= k < all.len() && all[k] == links[m];
        assert(all[k].renderer == id && all[k].enabled);
    }
}

proof fn lemma_kept_links(links: Seq<LinkView>, gone: Seq<char>)
    ensures
        ({
            let all = router::links_without_renderer(links, gone);
            &&& forall|i: int|
                0 <= i < all.len() ==> links.contains(#[trigger] all[i]) && all[i].renderer != gone
            &&& forall|i: int|
                0 <= i < links.len() && (#[trigger] links[i]).renderer != gone ==> all.contains(
                    links[i],
                )
        }),
    decreases links.len(),
{
    if links.len() > 0 {
        let head = links.drop_last();
        let rest = router::links_without_renderer(head, gone);
        let all = router::links_without_renderer(links, gone);
        lemma_kept_links(head, gone);
        assert forall|i: int| 0 <= i < all.len() implies links.contains(#[trigger] all[i])
            && all[i].renderer != gone by {
            if i < rest.len() {
                assert(head.contains(rest[i]));
                let k = choose|k: int| 0 <= k < head.len() && head[k] == rest[i];
                assert(links[k] == all[i]);
            } else {
                assert(links[links.len() - 1] == all[i]);
            }
        }
        assert forall|i: int|
            0 <= i < links.len() && (#[trigger] links[i]).renderer != gone implies all.contains(
            links[i],
        ) by {
            if i < head.len() {
                assert(head[i] == links[i]);
                assert(rest.contains(head[i]));
                let k = choose|k: int| 0 <= k < rest.len() && rest[k] == head[i];
                assert(all[k] == links[i]);
            } else {
                assert(all[rest.len() as int] == links[i]);
            }
        }
    }
}

/// Stopping renderers that nothing shows changes no display's link, and leaves
/// exactly the other renderers.
pub(crate) proof fn lemma_stop_orphans(s: Step, ids: Seq<Seq<char>>, now: u64, n: int)
    requires
        0 <= n <= ids.len(),
        forall|i: int| 0 <= i < ids.len() ==> !router::active(s.v.links, #[trigger] ids[i]),
    ensures
        ({
            let t = router::stop_all(s, ids, now, n).v;
            &&& forall|d: u64| #[trigger]
                router::first_link(t.links, d) == router::first_link(s.v.links, d)
            &&& forall|r: Seq<char>| #[trigger]
                router::active(t.links, r) == router::active(s.v.links, r)
            &&& forall|r: Seq<char>|
                renderer_ids(t).contains(r) <==> (#[trigger] renderer_ids(s.v).contains(r)
                    && !ids.take(n).contains(r))
        }),
    decreases n,
{
    let t = router::stop_all(s, ids, now, n).v;
    if n > 0 {
        lemma_stop_orphans(s, ids, now, n - 1);
        let p = router::stop_all(s, ids, now, n - 1);
        let gone = ids[n - 1];
        lemma_stop_links(p, gone, now);
        assert(!router::active(p.v.links, gone));
        assert forall|d: u64| #[trigger] router::first_link(t.links, d) == router::first_link(
            s.v.links,
            d,
        ) by {
            lemma_first_link_without_renderer(p.v.links, gone, d);
            assert(router::first_link(p.v.links, d) == router::first_link(s.v.links, d));
        }
        assert forall|r: Seq<char>| #[trigger] router::active(t.links, r) == router::active(
            s.v.links,
            r,
        ) by {
            lemma_active_without(p.v.links, gone, r);
            assert(router::active(p.v.links, r) == router::active(s.v.links, r));
        }
        lemma_entries_without(p.v.renderers, gone);
        assert forall|r: Seq<char>|
            renderer_ids(t).contains(r) <==> (#[trigger] renderer_ids(s.v).contains(r)
                && !ids.take(n).contains(r)) by {
            lemma_ids_without(p.v.renderers, gone, r);
            let w = RouterView {
                renderers: router::entries_without(p.v.renderers, gone),
                ..p.v
            };
            assert(renderer_ids(t) == renderer_ids(w));
            assert(ids.take(n) =~= ids.take(n - 1).push(gone));
            assert(ids.take(n).contains(r) <==> ids.take(n - 1).contains(r) || r == gone) by {
                if ids.take(n - 1).contains(r) {
                    let k = choose|k: int| 0 <= k < n - 1 && (#[trigger] ids.take(n - 1)[k]) == r;
                    assert(ids.take(n)[k] == r);
                }
                assert(ids.take(n)[n - 1] == gone);
            }
            lemma_contains_id(p.v, r);
            lemma_contains_id(w, r);
            lemma_contains_id(s.v, r);
        }
    } else {
        assert(ids.take(0) =~= Seq::<Seq<char>>::empty());
    }
}

/// Some renderer has the id.
spec fn has_id(s: Seq<EntryView>, r: Seq<char>) -> bool {
    exists|i: int| 0 <= i < s.len() && (#[trigger] s[i]).h.id == r
}

proof fn lemma_contains_id(v: RouterView, r: Seq<char>)
    ensures
        renderer_ids(v).contains(r) <==> has_id(v.renderers, r),
{
    if renderer_ids(v).contains(r) {
        let k = choose|k: int| 0 <= k < renderer_ids(v).len() && renderer_ids(v)[k] == r;
        assert(v.renderers[k].h.id == r);
    }
    if has_id(v.renderers, r) {
        let k = choose|k: int| 0 <= k < v.renderers.len() && (#[trigger] v.renderers[k]).h.id == r;
        assert(renderer_ids(v)[k] == r);
    }
}

proof fn lemma_ids_without(s: Seq<EntryView>, gone: Seq<char>, r: Seq<char>)
    ensures
        has_id(router::entries_without(s, gone), r) <==> (has_id(s, r) && r != gone),
{
    lemma_entries_without(s, gone);
    let all = router::entries_without(s, gone);
    if has_id(all, r) {
        let k = choose|k: int| 0 <= k < all.len() && (#[trigger] all[k]).h.id == r;
        assert(s.contains(all[k]));
        let m = choose|m: int| 0 <= m < s.len() && s[m] == all[k];
        assert(s[m].h.id == r);
    }
    if has_id(s, r) && r != gone {
        let m = choose|m: int| 0 <= m < s.len() && (#[trigger] s[m]).h.id == r;
        assert(s.contains(s[m]));
        assert(all.contains(s[m]));
        let k = choose|k: int| 0 <= k < all.len() && all[k] == s[m];
        assert(all[k].h.id == r);
    }
}

pub(crate) proof fn lemma_orphans(v: RouterView, keep: Option<Seq<char>>, n: int)
    requires
        0 <= n <= v.renderers.len(),
    ensures
        ({
            let ids = ops::orphans(v, keep, n);
            &&& forall|i: int|
                0 <= i < ids.len() ==> {
                    &&& !router::active(v.links, #[trigger] ids[i])
                    &&& keep != Some(ids[i])
                }
            &&& forall|i: int|
                0 <= i < n && keep != Some((#[trigger] v.renderers[i]).h.id) && !router::active(
                    v.links,
                    v.renderers[i].h.id,
                ) ==> ids.contains(v.renderers[i].h.id)
        }),
    decreases n,
{
    if n > 0 {
        lemma_orphans(v, keep, n - 1);
        let ids = ops::orphans(v, keep, n);
        let rest = ops::orphans(v, keep, n - 1);
        assert forall|i: int|
            0 <= i < n && keep != Some((#[trigger] v.renderers[i]).h.id) && !router::active(
                v.links,
                v.renderers[i].h.id,
            ) implies ids.contains(v.renderers[i].h.id) by {
            if i < n - 1 {
                assert(rest.contains(v.renderers[i].h.id));
                let k = choose|k: int| 0 <= k < rest.len() && rest[k] == v.renderers[i].h.id;
                assert(ids[k] == v.renderers[i].h.id);
            } else {
                assert(ids[rest.len() as int] == v.renderers[i].h.id);
            }
        }
    }
}

/// Dealing with orphans leaves every link of a display as it is. Unless a lone
/// renderer waits for a display, each renderer left is shown somewhere or is
/// the one to keep; the others are gone.
pub proof fn only_orphans_are_reaped(s: Step, keep: Option<Seq<char>>, now: u64)
    ensures
        ({
            let t = ops::reap_orphans(s, keep, now).v;
            &&& forall|d: u64| #[trigger]
                router::first_link(t.links, d) == router::first_link(s.v.links, d)
            &&& forall|r: Seq<char>| #[trigger]
                router::active(t.links, r) == router::active(s.v.links, r)
            &&& !ops::lone(s.v) ==> forall|r: Seq<char>| #[trigger]
                renderer_ids(t).contains(r) <==> (renderer_ids(s.v).contains(r) && (
                router::active(s.v.links, r) || keep == Some(r)))
            &&& ops::lone(s.v) ==> t.renderers == s.v.renderers
        }),
{
    let n = s.v.renderers.len() as int;
    let ids = ops::orphans(s.v, keep, n);
    lemma_orphans(s.v, keep, n);
    lemma_stop_orphans(s, ids, now, ids.len() as int);
    lemma_timers_alike(s, ids, ids.len() as int);
    assert(ids.take(ids.len() as int) =~= ids);
    let t = ops::reap_orphans(s, keep, now).v;
    if !ops::lone(s.v) {
        assert forall|r: Seq<char>| #[trigger] renderer_ids(t).contains(r) <==> (renderer_ids(
            s.v,
        ).contains(r) && (router::active(s.v.links, r) || keep == Some(r))) by {
            let stopped = router::stop_all(s, ids, now, ids.len() as int).v;
            assert(renderer_ids(t) =~= renderer_ids(stopped));
            assert(renderer_ids(s.v).contains(r) || !renderer_ids(s.v).contains(r));
            if ids.contains(r) {
                let k = choose|k: int| 0 <= k < ids.len() && ids[k] == r;
                assert(!router::active(s.v.links, ids[k]));
            }
            lemma_contains_id(s.v, r);
            if has_id(s.v.renderers, r) && !router::active(s.v.links, r) && keep != Some(r) {
                let k = choose|k: int|
                    0 <= k < s.v.renderers.len() && (#[trigger] s.v.renderers[k]).h.id == r;
                assert(ids.contains(s.v.renderers[k].h.id));
            }
        }
    }
}

/// Giving displays to a renderer makes each connected one of them show it and
/// leaves the link of every other display as it was. Afterwards no other
/// renderer runs that nothing shows, unless a lone one waits for a display.
pub proof fn relinked_displays_show_the_renderer(
    s: Step,
    ids: Seq<u64>,
    rid: Seq<char>,
    now: u64,
    id: u64,
)
    requires
        well_formed(s.v),
    ensures
        ({
            let t = ops::relink(s, ids, rid, now).v;
            &&& router::find_display(s.v.displays, id) is Some && ids.contains(id) ==> {
                &&& router::first_link(t.links, id) is Some
                &&& router::first_link(t.links, id)->0.renderer == rid
            }
            &&& !ids.contains(id) ==> router::first_link(t.links, id) == router::first_link(
                s.v.links,
                id,
            )
            &&& !ops::lone(s.v) ==> forall|r: Seq<char>| #[trigger]
                renderer_ids(t).contains(r) ==> r == rid || router::active(t.links, r)
            &&& renderer_ids(s.v).contains(rid) ==> renderer_ids(t).contains(rid)
        }),
{
    let n = ids.len() as int;
    let applied = ops::connected(s.v, ids, n);
    let s1 = Step { v: ops::all_pointed(s.v, rid, ids, n), fx: s.fx };
    lemma_all_pointed_first(s.v, rid, ids, n, id);
    lemma_all_pointed(s.v, rid, ids, n);
    assert(ids.take(n) =~= ids);
    lemma_sync_all_alike(s1, applied, applied.len() as int);
    let synced = router::sync_all(s1, applied, applied.len() as int);
    lemma_lifecycle_alike(synced, now);
    let s2 = router::lifecycle(synced, now);
    only_orphans_are_reaped(s2, Some(rid), now);
    assert(ops::display_ids(s2.v) =~= ops::display_ids(s1.v));
    assert(ops::display_ids(s2.v).len() == s2.v.displays.len());
    assert(ops::display_ids(s1.v).len() == s1.v.displays.len());
    assert(renderer_ids(s2.v) =~= renderer_ids(s1.v));
    assert(renderer_ids(s1.v) =~= renderer_ids(s.v));
    assert(ops::lone(s2.v) == ops::lone(s.v));
    let t = ops::relink(s, ids, rid, now).v;
    let reaped = ops::reap_orphans(s2, Some(rid), now);
    assert(t == reaped.v);
    assert(router::first_link(t.links, id) == router::first_link(s2.v.links, id));
    if !ops::lone(s.v) {
        assert forall|r: Seq<char>| #[trigger] renderer_ids(t).contains(r) implies r == rid
            || router::active(t.links, r) by {
            assert(router::active(t.links, r) == router::active(s2.v.links, r));
        }
    }
}

/// The renderers that are stopped before displays are given to a new one are
/// those that would be left with nothing to show.
pub proof fn replaced_renderers_lose_their_displays(
    v: RouterView,
    targets: Seq<u64>,
    rid: Seq<char>,
    r: Seq<char>,
)
    requires
        r != rid,
        forall|i: int|
            0 <= i < targets.len() ==> router::find_display(v.displays, #[trigger] targets[i])
                is Some,
    ensures
        ops::covered(v.links, r, targets) <==> !router::active(
            ops::all_pointed(v, rid, targets, targets.len() as int).links,
            r,
        ),
{
    let n = targets.len() as int;
    lemma_others_links(v, targets, rid, r, n);
    let w = ops::all_pointed(v, rid, targets, n);
    assert(targets.take(n) =~= targets);
    if router::active(w.links, r) {
        let k = choose|k: int|
            0 <= k < w.links.len() && (#[trigger] w.links[k]).renderer == r && w.links[k].enabled;
        assert(v.links.contains(w.links[k]));
        let m = choose|m: int| 0 <= m < v.links.len() && v.links[m] == w.links[k];
        assert(v.links[m].renderer == r && v.links[m].enabled);
        assert(!targets.contains(v.links[m].display));
    }
    if !ops::covered(v.links, r, targets) {
        let m = choose|m: int|
            0 <= m < v.links.len() && (#[trigger] v.links[m]).renderer == r && v.links[m].enabled
                && !targets.contains(v.links[m].display);
        assert(w.links.contains(v.links[m]));
        let k = choose|k: int| 0 <= k < w.links.len() && w.links[k] == v.links[m];
        assert(w.links[k].renderer == r && w.links[k].enabled);
    }
}

/// Of the links of another renderer exactly those to other displays are kept.
proof fn lemma_others_links(v: RouterView, targets: Seq<u64>, rid: Seq<char>, r: Seq<char>, n: int)
    requires
        r != rid,
        0 <= n <= targets.len(),
        forall|i: int|
            0 <= i < targets.len() ==> router::find_display(v.displays, #[trigger] targets[i])
                is Some,
    ensures
        ({
            let w = ops::all_pointed(v, rid, targets, n);
            &&& w.displays == v.displays
            &&& forall|i: int|
                0 <= i < w.links.len() && (#[trigger] w.links[i]).renderer == r ==> {
                    &&& v.links.contains(w.links[i])
                    &&& !targets.take(n).contains(w.links[i].display)
                }
            &&& forall|i: int|
                0 <= i < v.links.len() && (#[trigger] v.links[i]).renderer == r
                    && !targets.take(n).contains(v.links[i].display) ==> w.links.contains(
                    v.links[i],
                )
        }),
    decreases n,
{
    let w = ops::all_pointed(v, rid, targets, n);
    if n == 0 {
        assert(targets.take(0) =~= Seq::<u64>::empty());
        assert forall|i: int| 0 <= i < v.links.len() implies w.links.contains(
            #[trigger] v.links[i],
        ) by {
            assert(w.links[i] == v.links[i]);
        }
    } else {
        lemma_others_links(v, targets, rid, r, n - 1);
        let p = ops::all_pointed(v, rid, targets, n - 1);
        let at = targets[n - 1];
        lemma_without_display(p.links, at);
        lemma_display_links_kept(p.links, at);
        let rest = router::links_without_display(p.links, at);
        assert(targets.take(n) =~= targets.take(n - 1).push(at));
        assert forall|d: u64| #[trigger] targets.take(n).contains(d) <==> (targets.take(
            n - 1,
        ).contains(d) || d == at) by {
            if targets.take(n - 1).contains(d) {
                let k = choose|k: int| 0 <= k < n - 1 && (#[trigger] targets.take(n - 1)[k]) == d;
                assert(targets.take(n)[k] == d);
            }
            assert(targets.take(n)[n - 1] == at);
        }
        assert forall|i: int|
            0 <= i < w.links.len() && (#[trigger] w.links[i]).renderer == r implies {
            &&& v.links.contains(w.links[i])
            &&& !targets.take(n).contains(w.links[i].display)
        } by {
            assert(i < rest.len());
            assert(w.links[i] == rest[i]);
            assert(p.links.contains(rest[i]));
            let k = choose|k: int| 0 <= k < p.links.len() && p.links[k] == rest[i];
            assert(p.links[k].renderer == r);
        }
        assert forall|i: int|
            0 <= i < v.links.len() && (#[trigger] v.links[i]).renderer == r && !targets.take(
                n,
            ).contains(v.links[i].display) implies w.links.contains(v.links[i]) by {
            assert(p.links.contains(v.links[i]));
            let k = choose|k: int| 0 <= k < p.links.len() && p.links[k] == v.links[i];
            assert(rest.contains(p.links[k]));
            let m = choose|m: int| 0 <= m < rest.len() && rest[m] == p.links[k];
            assert(w.links[m] == v.links[i]);
        }
    }
}

proof fn lemma_display_links_kept(links: Seq<LinkView>, gone: u64)
    ensures
        forall|i: int|
            0 <= i < links.len() && (#[trigger] links[i]).display != gone
                ==> router::links_without_display(links, gone).contains(links[i]),
    decreases links.len(),
{
    if links.len() > 0 {
        let head = links.drop_last();
        let rest = router::links_without_display(head, gone);
        let all = router::links_without_display(links, gone);
        lemma_display_links_kept(head, gone);
        assert forall|i: int|
            0 <= i < links.len() && (#[trigger] links[i]).display != gone implies all.contains(
            links[i],
        ) by {
            if i < head.len() {
                assert(head[i] == links[i]);
                assert(rest.contains(head[i]));
                let k = choose|k: int| 0 <= k < rest.len() && rest[k] == head[i];
                assert(all[k] == links[i]);
            } else {
                assert(all[rest.len() as int] == links[i]);
            }
        }
    }
}

// ---------------------------------------------------------------------------
// Grace periods
// ---------------------------------------------------------------------------

/// A renderer that is shown again outlives its grace period.
pub proof fn shown_renderer_outlives_its_grace(s: Step, rid: Seq<char>, now: u64)
    requires
        router::active(s.v.links, rid),
    ensures
        ops::grace_over(s, rid, now).fx == s.fx,
        ops::grace_over(s, rid, now).v.renderers == s.v.renderers,
{
}

/// A display that connects ends the grace period of the renderer it is given
/// to.
pub proof fn new_display_ends_the_grace(s: Step, reg: DisplayRegistration, now: u64)
    requires
        s.v.renderers.len() > 0,
    ensures
        !events::add_display(s, reg, now).v.timers.contains(s.v.renderers[0].h.id),
        router::active(events::add_display(s, reg, now).v.links, s.v.renderers[0].h.id),
{
    let id = (s.v.next_display_id + 1) as u64;
    let v1 = RouterView {
        displays: s.v.displays.push(events::new_display(id, reg)),
        next_display_id: id,
        ..s.v
    };
    let first = v1.renderers[0].h.id;
    let s2 = router::cancel_timer(Step { v: ops::linked(v1, first, id), fx: s.fx }, first);
    lemma_sync_alike(s2, id);
    lemma_lifecycle_alike(router::sync(s2, id), now);
    let l = s2.v.links[s.v.links.len() as int];
    assert(l.renderer == first && l.enabled);
}

// ---------------------------------------------------------------------------
// Frames
// ---------------------------------------------------------------------------

proof fn lemma_recipients(v: RouterView, rid: Seq<char>, generation: u64, n: int)
    requires
        0 <= n <= v.links.len(),
    ensures
        forall|i: int|
            0 <= i < events::recipients(v, rid, generation, n).len() ==> {
                let d = router::find_display(
                    v.displays,
                    #[trigger] events::recipients(v, rid, generation, n)[i],
                );
                d is Some && events::bound_to(d->0, rid, generation)
            },
        events::recipients(v, rid, generation, n).len() <= n,
    decreases n,
{
    if n > 0 {
        lemma_recipients(v, rid, generation, n - 1);
    }
}

/// A frame reaches only displays that hold the pool it belongs to, and each is
/// told how many they are, and of the buffer, number and release point that the
/// renderer reported.
pub proof fn frames_reach_only_bound_displays(v: RouterView, rid: Seq<char>, f: FrameInfo, i: int)
    requires
        v.links.len() <= u32::MAX,
        0 <= i < events::frame_effects(v, rid, f).len(),
        events::frame_effects(v, rid, f)[i] is Frame,
    ensures
        ({
            let fx = events::frame_effects(v, rid, f);
            let b = router::find_entry(v.renderers, rid)->0.h.bind->0;
            match fx[i] {
                EffectView::Frame {
                    display,
                    renderer,
                    generation,
                    buffer_index,
                    seq,
                    release_point,
                    expected_count,
                } => {
                    &&& buffer_index == f.buffer_index
                    &&& seq == f.seq
                    &&& release_point == f.release_point
                    &&& renderer == rid
                    &&& generation == b.generation
                    &&& expected_count == fx.len()
                    &&& router::find_display(v.displays, display) is Some
                    &&& events::bound_to(
                        router::find_display(v.displays, display)->0,
                        rid,
                        generation,
                    )
                },
                _ => false,
            }
        }),
{
    let b = router::find_entry(v.renderers, rid)->0.h.bind->0;
    lemma_recipients(v, rid, b.generation, v.links.len() as int);
}

/// A frame that no display shows is released to the renderer, once.
pub proof fn unseen_frame_is_released_once(v: RouterView, rid: Seq<char>, f: FrameInfo)
    requires
        v.links.len() <= u32::MAX,
        router::find_entry(v.renderers, rid) is Some,
        router::find_entry(v.renderers, rid)->0.h.bind is Some,
        !router::active(v.links, rid),
    ensures
        events::frame_effects(v, rid, f) == seq![
            EffectView::Advance { renderer: rid, release_point: f.release_point },
        ],
{
    let b = router::find_entry(v.renderers, rid)->0.h.bind->0;
    lemma_no_recipients(v, rid, b.generation, v.links.len() as int);
}

proof fn lemma_no_recipients(v: RouterView, rid: Seq<char>, generation: u64, n: int)
    requires
        0 <= n <= v.links.len(),
        !router::active(v.links, rid),
    ensures
        events::recipients(v, rid, generation, n).len() == 0,
    decreases n,
{
    if n > 0 {
        lemma_no_recipients(v, rid, generation, n - 1);
        assert(!(v.links[n - 1].renderer == rid && v.links[n - 1].enabled));
    }
}

} // verus!
