//! The operations of the router.

use super::{next_number, Effect, EffectView, EntryView, Link, LinkView, Router, RouterView, Step};
use crate::layout::{self, LinkGeometry, Rect};
use crate::renderer::{self, ClearColor};
use crate::router;
use crate::seqs;
use crate::snapshot::{EventView, RouterEvent};
use crate::text::{self, str_eq};
use vstd::prelude::*;

verus! {

broadcast use seqs::group_views;

/// A state with no effects called for yet.
pub open spec fn start(v: RouterView) -> Step {
    Step { v, fx: Seq::empty() }
}

pub open spec fn then_fx(s: Step, e: EffectView) -> Step {
    Step { v: s.v, fx: s.fx.push(e) }
}

/// Tells subscribers of a display, if it is connected.
pub open spec fn announce_display(s: Step, id: u64) -> Step {
    match router::find_display(s.v.displays, id) {
        Some(d) => then_fx(
            s,
            EffectView::Emit(EventView::DisplayUpsert(router::display_snap(s.v.links, d))),
        ),
        None => s,
    }
}

/// Tells subscribers of a renderer, if it is registered.
pub open spec fn announce_renderer(s: Step, rid: Seq<char>) -> Step {
    match router::find_entry(s.v.renderers, rid) {
        Some(e) => then_fx(s, EffectView::Emit(EventView::RendererUpsert(router::renderer_snap(e)))),
        None => s,
    }
}

/// Tells subscribers of all displays at once.
pub open spec fn announce_all(s: Step) -> Step {
    then_fx(s, EffectView::Emit(EventView::DisplaysReplace(router::display_snaps(s.v))))
}

impl Router {
    pub(super) fn emit_display(&self, id: u64, out: &mut Vec<Effect>)
        ensures
            router::at(*self, final(out)@) == announce_display(router::at(*self, old(out)@), id),
    {
        if let Some(snap) = self.snapshot_display(id) {
            out.push(Effect::Emit(RouterEvent::DisplayUpsert(snap)));
        }
    }

    pub(super) fn emit_renderer(&self, rid: &str, out: &mut Vec<Effect>)
        ensures
            router::at(*self, final(out)@) == announce_renderer(router::at(*self, old(out)@), rid@),
    {
        if let Some(snap) = self.snapshot_renderer(rid) {
            out.push(Effect::Emit(RouterEvent::RendererUpsert(snap)));
        }
    }

    pub(super) fn emit_displays(&self, out: &mut Vec<Effect>)
        ensures
            router::at(*self, final(out)@) == announce_all(router::at(*self, old(out)@)),
    {
        out.push(Effect::Emit(RouterEvent::DisplaysReplace(self.snapshot_displays())));
    }
}

// ---------------------------------------------------------------------------
// Orphans
// ---------------------------------------------------------------------------

/// Renderers that nothing shows, other than the one to keep.
pub open spec fn orphans(v: RouterView, keep: Option<Seq<char>>, n: int) -> Seq<Seq<char>>
    decreases n,
{
    if n <= 0 {
        Seq::empty()
    } else {
        let id = v.renderers[n - 1].h.id;
        let rest = orphans(v, keep, n - 1);
        if keep == Some(id) || router::active(v.links, id) {
            rest
        } else {
            rest.push(id)
        }
    }
}

/// The only renderer runs while no display is connected.
pub open spec fn lone(v: RouterView) -> bool {
    v.displays.len() == 0 && v.renderers.len() == 1
}

/// Starts the grace period of a renderer, anew if one is running.
pub open spec fn start_timer(s: Step, rid: Seq<char>) -> Step {
    Step {
        v: RouterView { timers: s.v.timers.insert(rid), ..s.v },
        fx: s.fx.push(EffectView::StartTimer(rid)),
    }
}

pub open spec fn start_timers(s: Step, ids: Seq<Seq<char>>, n: int) -> Step
    decreases n,
{
    if n <= 0 {
        s
    } else {
        start_timer(start_timers(s, ids, n - 1), ids[n - 1])
    }
}

/// Gives a lone orphan a grace period and stops any other orphan at once.
pub open spec fn reap_orphans(s: Step, keep: Option<Seq<char>>, now: u64) -> Step {
    let ids = orphans(s.v, keep, s.v.renderers.len() as int);
    let n = ids.len() as int;
    let reaped = if lone(s.v) {
        start_timers(s, ids, n)
    } else {
        router::stop_all(s, ids, now, n)
    };
    match keep {
        Some(k) => router::cancel_timer(reaped, k),
        None => reaped,
    }
}

/// Treats one renderer as an orphan.
pub open spec fn reap_orphan(s: Step, rid: Seq<char>, now: u64) -> Step {
    if lone(s.v) {
        start_timer(s, rid)
    } else {
        router::stop(s, rid, now)
    }
}

/// A grace period ran out: the renderer is stopped, unless something shows it
/// again.
pub open spec fn grace_over(s: Step, rid: Seq<char>, now: u64) -> Step {
    let cleared = Step { v: RouterView { timers: s.v.timers.remove(rid), ..s.v }, fx: s.fx };
    if router::find_entry(s.v.renderers, rid) is None || router::active(s.v.links, rid) {
        cleared
    } else {
        router::stop(cleared, rid, now)
    }
}

impl Router {
    fn is_lone(&self) -> (r: bool)
        ensures
            r == lone(self@),
    {
        self.displays.len() == 0 && self.renderers.len() == 1
    }

    fn orphan_ids(&self, keep: Option<&str>) -> (out: Vec<String>)
        ensures
            text::lines(out@) == orphans(
                self@,
                match keep {
                    Some(k) => Some(k@),
                    None => None,
                },
                self@.renderers.len() as int,
            ),
    {
        let ghost kept = match keep {
            Some(k) => Some(k@),
            None => None,
        };
        let mut out: Vec<String> = Vec::new();
        let mut i: usize = 0;
        assert(text::lines(out@) =~= Seq::<Seq<char>>::empty());
        while i < self.renderers.len()
            invariant
                i <= self.renderers@.len(),
                kept == (match keep {
                    Some(k) => Some(k@),
                    None => None,
                }),
                text::lines(out@) == orphans(self@, kept, i as int),
            decreases self.renderers.len() - i,
        {
            assert(self@.renderers[i as int] == self.renderers@[i as int]@);
            let is_kept = match keep {
                Some(k) => str_eq(k, self.renderers[i].handle.id.as_str()),
                None => false,
            };
            if !is_kept && !self.is_active(self.renderers[i].handle.id.as_str()) {
                let ghost prev = out@;
                out.push(self.renderers[i].handle.id.clone());
                assert(text::lines(out@) =~= text::lines(prev).push(
                    self.renderers@[i as int]@.h.id,
                ));
            }
            i = i + 1;
        }
        out
    }

    fn start_grace(&mut self, rid: &String, out: &mut Vec<Effect>)
        ensures
            router::at(*final(self), final(out)@) == start_timer(
                router::at(*old(self), old(out)@),
                rid@,
            ),
    {
        self.add_timer(rid);
        out.push(Effect::StartTimer(rid.clone()));
    }

    pub(super) fn reap_into(
        &mut self,
        keep: Option<&str>,
        now: u64,
        out: &mut Vec<Effect>,
    ) -> (ids: Vec<
        String,
    >)
        ensures
            router::at(*final(self), final(out)@) == reap_orphans(
                router::at(*old(self), old(out)@),
                match keep {
                    Some(k) => Some(k@),
                    None => None,
                },
                now,
            ),
            text::lines(ids@) == orphans(
                old(self)@,
                match keep {
                    Some(k) => Some(k@),
                    None => None,
                },
                old(self)@.renderers.len() as int,
            ),
    {
        let ghost s0 = router::at(*self, out@);
        let ids = self.orphan_ids(keep);
        if self.is_lone() {
            let mut i: usize = 0;
            while i < ids.len()
                invariant
                    i <= ids@.len(),
                    router::at(*self, out@) == start_timers(s0, text::lines(ids@), i as int),
                decreases ids.len() - i,
            {
                assert(text::lines(ids@)[i as int] == ids@[i as int]@);
                self.start_grace(&ids[i], out);
                i = i + 1;
            }
        } else {
            self.stop_list(&ids, now, out);
        }
        if let Some(k) = keep {
            self.drop_timer(k, out);
        }
        ids
    }

    /// Deals with every renderer that nothing shows, other than `keep`, and
    /// says which ones they were. Where the only renderer runs while no display
    /// is connected it gets a grace period; all others are stopped at once.
    pub fn mark_orphans(&mut self, keep: Option<&str>, now: u64) -> (r: (Vec<String>, Vec<Effect>))
        ensures
            router::at(*final(self), r.1@) == reap_orphans(
                start(old(self)@),
                match keep {
                    Some(k) => Some(k@),
                    None => None,
                },
                now,
            ),
            text::lines(r.0@) == orphans(
                old(self)@,
                match keep {
                    Some(k) => Some(k@),
                    None => None,
                },
                old(self)@.renderers.len() as int,
            ),
    {
        let mut out: Vec<Effect> = Vec::new();
        let ids = self.reap_into(keep, now, &mut out);
        (ids, out)
    }

    /// Deals with one renderer as with an orphan.
    pub fn mark_orphan(&mut self, renderer_id: &String, now: u64) -> (out: Vec<Effect>)
        ensures
            router::at(*final(self), out@) == reap_orphan(start(old(self)@), renderer_id@, now),
    {
        let mut out: Vec<Effect> = Vec::new();
        if self.is_lone() {
            self.start_grace(renderer_id, &mut out);
        } else {
            self.stop_into(renderer_id.as_str(), now, &mut out);
        }
        out
    }

    /// Stops the grace period of a renderer, if one is running.
    pub fn cancel_orphan_timer(&mut self, renderer_id: &str) -> (out: Vec<Effect>)
        ensures
            router::at(*final(self), out@) == router::cancel_timer(
                start(old(self)@),
                renderer_id@,
            ),
    {
        let mut out: Vec<Effect> = Vec::new();
        self.drop_timer(renderer_id, &mut out);
        out
    }

    /// The grace period of a renderer ran out.
    pub fn fire_orphan_reap(&mut self, renderer_id: &str, now: u64) -> (out: Vec<Effect>)
        ensures
            router::at(*final(self), out@) == grace_over(start(old(self)@), renderer_id@, now),
    {
        let mut unused: Vec<Effect> = Vec::new();
        let mut out: Vec<Effect> = Vec::new();
        let ghost before = self@;
        self.drop_timer(renderer_id, &mut unused);
        assert(before.timers.remove(renderer_id@) =~= self@.timers);
        if self.renderer_index(renderer_id).is_none() || self.is_active(renderer_id) {
            return out;
        }
        self.stop_into(renderer_id, now, &mut out);
        out
    }
}

// ---------------------------------------------------------------------------
// Renderers paused too long
// ---------------------------------------------------------------------------

/// The entry has been paused for the whole idle time.
pub open spec fn idle_for_long(e: EntryView, now: u64) -> bool {
    match e.paused {
        Some(t) => now - t >= router::IDLE_KILL_TIMEOUT_MS,
        None => false,
    }
}

pub open spec fn idle_ids(s: Seq<EntryView>, now: u64, n: int) -> Seq<Seq<char>>
    decreases n,
{
    if n <= 0 {
        Seq::empty()
    } else {
        let rest = idle_ids(s, now, n - 1);
        if idle_for_long(s[n - 1], now) {
            rest.push(s[n - 1].h.id)
        } else {
            rest
        }
    }
}

impl Router {
    /// Stops every renderer that has been paused for too long.
    pub fn reap_idle_renderers(&mut self, now: u64) -> (out: Vec<Effect>)
        ensures
            router::at(*final(self), out@) == ({
                let v = old(self)@;
                let ids = idle_ids(v.renderers, now, v.renderers.len() as int);
                router::stop_all(start(v), ids, now, ids.len() as int)
            }),
    {
        let mut ids: Vec<String> = Vec::new();
        let mut i: usize = 0;
        assert(text::lines(ids@) =~= Seq::<Seq<char>>::empty());
        while i < self.renderers.len()
            invariant
                i <= self.renderers@.len(),
                text::lines(ids@) == idle_ids(self@.renderers, now, i as int),
            decreases self.renderers.len() - i,
        {
            assert(self@.renderers[i as int] == self.renderers@[i as int]@);
            let idle = match self.renderers[i].paused_since {
                Some(t) => now >= t && now - t >= router::IDLE_KILL_TIMEOUT_MS,
                None => false,
            };
            if idle {
                let ghost prev = ids@;
                ids.push(self.renderers[i].handle.id.clone());
                assert(text::lines(ids@) =~= text::lines(prev).push(
                    self.renderers@[i as int]@.h.id,
                ));
            }
            i = i + 1;
        }
        let mut out: Vec<Effect> = Vec::new();
        self.stop_list(&ids, now, &mut out);
        out
    }

    /// Takes the renderers out and stops them.
    pub fn stop_renderers(&mut self, ids: &Vec<String>, now: u64) -> (out: Vec<Effect>)
        ensures
            router::at(*final(self), out@) == router::stop_all(
                start(old(self)@),
                text::lines(ids@),
                now,
                ids@.len() as int,
            ),
    {
        let mut out: Vec<Effect> = Vec::new();
        self.stop_list(ids, now, &mut out);
        out
    }

    /// Takes the renderers out and leaves their processes running, so that the
    /// displays can let go of their pools first.
    pub fn retire_renderers(&mut self, ids: &Vec<String>, now: u64) -> (out: Vec<Effect>)
        ensures
            router::at(*final(self), out@) == router::unregister_all(
                start(old(self)@),
                text::lines(ids@),
                now,
                ids@.len() as int,
            ),
    {
        let mut out: Vec<Effect> = Vec::new();
        self.unregister_list(ids, now, &mut out);
        out
    }

    /// Takes a renderer out.
    pub fn unregister_renderer(&mut self, id: &str, now: u64) -> (out: Vec<Effect>)
        ensures
            router::at(*final(self), out@) == router::unregister(start(old(self)@), id@, now),
    {
        let mut out: Vec<Effect> = Vec::new();
        self.unregister_into(id, now, &mut out);
        out
    }
}

/// Displays that the effects take a pool from, in order.
pub fn unbound_displays(fx: &Vec<Effect>) -> (out: Vec<u64>)
    ensures
        out@ == router::unbound(seqs::views(fx@), fx@.len() as int),
{
    let mut out: Vec<u64> = Vec::new();
    let mut i: usize = 0;
    while i < fx.len()
        invariant
            i <= fx@.len(),
            out@ == router::unbound(seqs::views(fx@), i as int),
        decreases fx.len() - i,
    {
        assert(seqs::views(fx@)[i as int] == fx@[i as int]@);
        if let Effect::Unbind { display, .. } = &fx[i] {
            out.push(*display);
        }
        i = i + 1;
    }
    out
}

/// Every enabled link of the renderer leads to one of the targets.
pub open spec fn covered(links: Seq<LinkView>, rid: Seq<char>, targets: Seq<u64>) -> bool {
    forall|i: int|
        0 <= i < links.len() && (#[trigger] links[i]).renderer == rid && links[i].enabled
            ==> targets.contains(links[i].display)
}

/// Renderers that lose every display when the targets are given to another one.
pub open spec fn replaced_ids(v: RouterView, targets: Option<Seq<u64>>, n: int) -> Seq<Seq<char>>
    decreases n,
{
    if n <= 0 {
        Seq::empty()
    } else {
        let id = v.renderers[n - 1].h.id;
        let rest = replaced_ids(v, targets, n - 1);
        if targets is None || covered(v.links, id, targets->0) {
            rest.push(id)
        } else {
            rest
        }
    }
}

impl Router {
    fn is_covered(&self, rid: &str, targets: &Vec<u64>) -> (r: bool)
        ensures
            r == covered(self@.links, rid@, targets@),
    {
        let mut i: usize = 0;
        while i < self.links.len()
            invariant
                i <= self.links@.len(),
                forall|j: int|
                    0 <= j < i && (#[trigger] self@.links[j]).renderer == rid@
                        && self@.links[j].enabled ==> targets@.contains(self@.links[j].display),
            decreases self.links.len() - i,
        {
            assert(self@.links[i as int] == self.links@[i as int]@);
            if self.links[i].enabled && str_eq(self.links[i].renderer_id.as_str(), rid) && !holds(
                targets,
                self.links[i].display_id,
            ) {
                assert(!targets@.contains(self@.links[i as int].display));
                return false;
            }
            i = i + 1;
        }
        true
    }

    /// Renderers that would lose every display if the targets (all displays,
    /// where there are none given) were given to another renderer.
    pub fn renderers_fully_replaced_by(&self, targets: Option<&Vec<u64>>) -> (out: Vec<String>)
        ensures
            text::lines(out@) == replaced_ids(
                self@,
                match targets {
                    Some(t) => Some(t@),
                    None => None,
                },
                self@.renderers.len() as int,
            ),
    {
        let ghost ts = match targets {
            Some(t) => Some(t@),
            None => None,
        };
        let mut out: Vec<String> = Vec::new();
        let mut i: usize = 0;
        assert(text::lines(out@) =~= Seq::<Seq<char>>::empty());
        while i < self.renderers.len()
            invariant
                i <= self.renderers@.len(),
                ts == (match targets {
                    Some(t) => Some(t@),
                    None => None,
                }),
                text::lines(out@) == replaced_ids(self@, ts, i as int),
            decreases self.renderers.len() - i,
        {
            assert(self@.renderers[i as int] == self.renderers@[i as int]@);
            let hit = match targets {
                Some(t) => self.is_covered(self.renderers[i].handle.id.as_str(), t),
                None => true,
            };
            if hit {
                let ghost prev = out@;
                out.push(self.renderers[i].handle.id.clone());
                assert(text::lines(out@) =~= text::lines(prev).push(
                    self.renderers@[i as int]@.h.id,
                ));
            }
            i = i + 1;
        }
        out
    }
}

fn holds(list: &Vec<u64>, x: u64) -> (r: bool)
    ensures
        r == list@.contains(x),
{
    let mut i: usize = 0;
    while i < list.len()
        invariant
            i <= list@.len(),
            forall|j: int| 0 <= j < i ==> list@[j] != x,
        decreases list.len() - i,
    {
        if list[i] == x {
            return true;
        }
        i = i + 1;
    }
    false
}

// ---------------------------------------------------------------------------
// Linking
// ---------------------------------------------------------------------------

pub open spec fn fresh_link(id: u64, rid: Seq<char>, display: u64) -> LinkView {
    LinkView {
        id,
        renderer: rid,
        display,
        enabled: true,
        geometry: LinkGeometry {
            src_rect: layout::full_rect(),
            dst_rect: layout::full_rect(),
            transform: 0,
            clear_rgba: renderer::opaque_black(),
        },
        z_order: 0,
    }
}

/// Adds a link from the renderer to the display.
pub open spec fn linked(v: RouterView, rid: Seq<char>, display: u64) -> RouterView {
    let id = router::succ(v.next_link_id);
    RouterView { links: v.links.push(fresh_link(id, rid, display)), next_link_id: id, ..v }
}

/// Points a display at the renderer, if it is connected.
pub open spec fn pointed(v: RouterView, rid: Seq<char>, display: u64) -> RouterView {
    if router::find_display(v.displays, display) is Some {
        linked(
            RouterView { links: router::links_without_display(v.links, display), ..v },
            rid,
            display,
        )
    } else {
        v
    }
}

/// [`pointed`] for the first `n` of the displays.
pub open spec fn all_pointed(v: RouterView, rid: Seq<char>, ids: Seq<u64>, n: int) -> RouterView
    decreases n,
{
    if n <= 0 {
        v
    } else {
        pointed(all_pointed(v, rid, ids, n - 1), rid, ids[n - 1])
    }
}

/// Those of the first `n` displays that are connected.
pub open spec fn connected(v: RouterView, ids: Seq<u64>, n: int) -> Seq<u64>
    decreases n,
{
    if n <= 0 {
        Seq::empty()
    } else {
        let rest = connected(v, ids, n - 1);
        if router::find_display(v.displays, ids[n - 1]) is Some {
            rest.push(ids[n - 1])
        } else {
            rest
        }
    }
}

/// Gives the displays to a renderer.
pub open spec fn relink(s: Step, ids: Seq<u64>, rid: Seq<char>, now: u64) -> Step {
    let applied = connected(s.v, ids, ids.len() as int);
    let s1 = Step { v: all_pointed(s.v, rid, ids, ids.len() as int), fx: s.fx };
    let s2 = router::lifecycle(router::sync_all(s1, applied, applied.len() as int), now);
    let s3 = router::negotiate_all(reap_orphans(s2, Some(rid), now));
    if applied.len() > 0 {
        announce_all(s3)
    } else {
        s3
    }
}

pub open spec fn display_ids(v: RouterView) -> Seq<u64> {
    Seq::new(v.displays.len(), |i: int| v.displays[i].id)
}

impl Router {
    pub(super) fn add_link(&mut self, rid: &str, display: u64)
        ensures
            final(self)@ == linked(old(self)@, rid@, display),
    {
        let id: u64 = next_number(self.next_link_id);
        self.next_link_id = id;
        self.links.push(
            Link {
                id,
                renderer_id: rid.to_owned(),
                display_id: display,
                enabled: true,
                geometry: LinkGeometry {
                    src_rect: Rect::full(),
                    dst_rect: Rect::full(),
                    transform: 0,
                    clear_rgba: ClearColor::default(),
                },
                z_order: 0,
            },
        );
    }

    fn relink_into(&mut self, ids: &Vec<u64>, rid: &str, now: u64, out: &mut Vec<Effect>)
        ensures
            router::at(*final(self), final(out)@) == relink(
                router::at(*old(self), old(out)@),
                ids@,
                rid@,
                now,
            ),
    {
        let ghost before = self@;
        let mut applied: Vec<u64> = Vec::new();
        let mut i: usize = 0;
        while i < ids.len()
            invariant
                i <= ids@.len(),
                self@ == all_pointed(before, rid@, ids@, i as int),
                self@.displays == before.displays,
                applied@ == connected(before, ids@, i as int),
            decreases ids.len() - i,
        {
            let id: u64 = ids[i];
            if self.display_index(id).is_some() {
                self.remove_display_links(id);
                self.add_link(rid, id);
                applied.push(id);
            }
            i = i + 1;
        }
        self.sync_displays(&applied, out);
        self.reconcile_lifecycle(now, out);
        let _ids = self.reap_into(Some(rid), now, out);
        self.reconcile_buffer_flags(out);
        if applied.len() > 0 {
            self.emit_displays(out);
        }
    }

    /// Gives the displays to a renderer. Unknown displays are passed over; all
    /// others keep what they show.
    pub fn relink_displays_to(&mut self, ids: &Vec<u64>, new_renderer_id: &str, now: u64) -> (out:
        Vec<Effect>)
        ensures
            router::at(*final(self), out@) == relink(
                start(old(self)@),
                ids@,
                new_renderer_id@,
                now,
            ),
    {
        let mut out: Vec<Effect> = Vec::new();
        self.relink_into(ids, new_renderer_id, now, &mut out);
        out
    }

    pub(super) fn all_display_ids(&self) -> (ids: Vec<u64>)
        ensures
            ids@ == display_ids(self@),
    {
        let mut ids: Vec<u64> = Vec::new();
        let mut i: usize = 0;
        while i < self.displays.len()
            invariant
                i <= self.displays@.len(),
                ids@ == display_ids(self@).take(i as int),
            decreases self.displays.len() - i,
        {
            ids.push(self.displays[i].id);
            i = i + 1;
            assert(ids@ =~= display_ids(self@).take(i as int));
        }
        assert(display_ids(self@).take(i as int) =~= display_ids(self@));
        ids
    }

    /// Gives every display to a renderer.
    pub fn relink_all_displays_to(&mut self, new_renderer_id: &str, now: u64) -> (out: Vec<Effect>)
        ensures
            router::at(*final(self), out@) == relink(
                start(old(self)@),
                display_ids(old(self)@),
                new_renderer_id@,
                now,
            ),
    {
        let mut out: Vec<Effect> = Vec::new();
        let ids = self.all_display_ids();
        self.relink_into(&ids, new_renderer_id, now, &mut out);
        out
    }
}

} // verus!
