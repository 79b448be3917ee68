//! What the router's operations come to: what displays, renderers and
//! subscribers are told, and what stays as it was.

use super::events::{self, FrameInfo, GeometryChange};
use super::laws::{self, one_link, renderer_ids, well_formed};
use super::ops;
use super::{
    DisplayRegistration, DisplayView, Effect, EffectView, EntryView, LinkView, Router, RouterView,
    Step,
};
use crate::layout;
use crate::negotiate::{self, NegotiatedScheme, PeerCaps, PeerCapsView};
use crate::renderer::{self, BindView, ClearColor, RendererEvent, RendererHandle, RendererView};
use crate::router;
use crate::seqs;
use crate::snapshot::{EventView, LinkSnapView, RendererStatus};
use crate::text;
use vstd::prelude::*;

verus! {

broadcast use seqs::group_views;

// ---------------------------------------------------------------------------
// Finding things
// ---------------------------------------------------------------------------

proof fn lemma_the_display(s: Seq<DisplayView>, d: DisplayView)
    requires
        s.contains(d),
        forall|i: int, j: int|
            0 <= i < j < s.len() ==> (#[trigger] s[i]).id < (#[trigger] s[j]).id,
    ensures
        router::find_display(s, d.id) == Some(d),
    decreases s.len(),
{
    let t = s.drop_last();
    if t.contains(d) {
        assert forall|i: int, j: int| 0 <= i < j < t.len() implies (#[trigger] t[i]).id < (
        #[trigger] t[j]).id by {
            assert(s[i].id < s[j].id);
        }
        lemma_the_display(t, d);
    } else {
        let k = s.index_of(d);
        if k < t.len() {
            assert(t[k] == d);
        }
        assert(s.last() == d);
        assert forall|i: int| 0 <= i < t.len() implies (#[trigger] t[i]).id != d.id by {
            assert(s[i].id < s[s.len() - 1].id);
        }
        lemma_no_display(t, d.id);
    }
}

proof fn lemma_no_display(s: Seq<DisplayView>, id: u64)
    ensures
        router::find_display(s, id) is None <==> forall|i: int|
            0 <= i < s.len() ==> (#[trigger] s[i]).id != id,
        router::find_display(s, id) matches Some(d) ==> s.contains(d) && d.id == id,
    decreases s.len(),
{
    if s.len() > 0 {
        let t = s.drop_last();
        lemma_no_display(t, id);
        assert forall|i: int| 0 <= i < t.len() implies #[trigger] t[i] == s[i] by {}
        if router::find_display(t, id) is Some {
            let d = router::find_display(t, id)->0;
            let k = t.index_of(d);
            assert(s[k] == d);
        }
        assert(s[s.len() - 1] == s.last());
        if router::find_display(s, id) is None {
            assert forall|i: int| 0 <= i < s.len() implies (#[trigger] s[i]).id != id by {
                if i < t.len() {
                    assert(t[i].id != id);
                }
            }
        }
    }
}

proof fn lemma_no_entry(s: Seq<EntryView>, id: Seq<char>)
    ensures
        router::find_entry(s, id) is None <==> forall|i: int|
            0 <= i < s.len() ==> (#[trigger] s[i]).h.id != id,
        router::find_entry(s, id) matches Some(e) ==> s.contains(e) && e.h.id == id,
    decreases s.len(),
{
    if s.len() > 0 {
        let t = s.drop_last();
        lemma_no_entry(t, id);
        assert forall|i: int| 0 <= i < t.len() implies #[trigger] t[i] == s[i] by {}
        if router::find_entry(t, id) is Some {
            let e = router::find_entry(t, id)->0;
            let k = t.index_of(e);
            assert(s[k] == e);
        }
        assert(s[s.len() - 1] == s.last());
        if router::find_entry(s, id) is None {
            assert forall|i: int| 0 <= i < s.len() implies (#[trigger] s[i]).h.id != id by {
                if i < t.len() {
                    assert(t[i].h.id != id);
                }
            }
        }
    }
}

proof fn lemma_the_entry(s: Seq<EntryView>, e: EntryView)
    requires
        s.contains(e),
        forall|i: int, j: int|
            0 <= i < j < s.len() ==> (#[trigger] s[i]).h.id != (#[trigger] s[j]).h.id,
    ensures
        router::find_entry(s, e.h.id) == Some(e),
    decreases s.len(),
{
    let t = s.drop_last();
    if t.contains(e) {
        assert forall|i: int, j: int| 0 <= i < j < t.len() implies (#[trigger] t[i]).h.id != (
        #[trigger] t[j]).h.id by {
            assert(s[i].h.id != s[j].h.id);
        }
        lemma_the_entry(t, e);
    } else {
        let k = s.index_of(e);
        if k < t.len() {
            assert(t[k] == e);
        }
        assert(s.last() == e);
        assert forall|i: int| 0 <= i < t.len() implies (#[trigger] t[i]).h.id != e.h.id by {
            assert(s[i].h.id != s[s.len() - 1].h.id);
        }
        lemma_no_entry(t, e.h.id);
    }
}

proof fn lemma_the_link(s: Seq<LinkView>, display: u64)
    ensures
        router::first_link(s, display) is None <==> forall|i: int|
            0 <= i < s.len() && (#[trigger] s[i]).display == display ==> !s[i].enabled,
        router::first_link(s, display) matches Some(l) ==> s.contains(l) && l.display == display
            && l.enabled,
    decreases s.len(),
{
    if s.len() > 0 {
        let t = s.drop_last();
        lemma_the_link(t, display);
        assert forall|i: int| 0 <= i < t.len() implies #[trigger] t[i] == s[i] by {}
        assert(s[s.len() - 1] == s.last());
        if router::first_link(t, display) is Some {
            let l = router::first_link(t, display)->0;
            let k = t.index_of(l);
            assert(s[k] == l);
        }
        if router::first_link(s, display) is None {
            assert forall|i: int|
                0 <= i < s.len() && (#[trigger] s[i]).display == display implies !s[i].enabled by {
                if i < t.len() {
                    assert(t[i].display == display ==> !t[i].enabled);
                }
            }
        }
    }
}

/// The only enabled link of a display is its first one.
proof fn lemma_only_link(links: Seq<LinkView>, l: LinkView)
    requires
        one_link(links),
        links.contains(l),
        l.enabled,
    ensures
        router::first_link(links, l.display) == Some(l),
{
    lemma_the_link(links, l.display);
    let k = links.index_of(l);
    assert(links[k].display == l.display && links[k].enabled);
    let m = router::first_link(links, l.display)->0;
    let j = links.index_of(m);
    assert(links[j] == m);
    if j < k {
        assert(links[j].display == links[k].display);
    } else if k < j {
        assert(links[k].display == links[j].display);
    }
}

proof fn lemma_orders(v: RouterView)
    requires
        well_formed(v),
    ensures
        forall|i: int, j: int|
            0 <= i < j < v.displays.len() ==> (#[trigger] v.displays[i]).id < (
            #[trigger] v.displays[j]).id,
        forall|i: int, j: int|
            0 <= i < j < v.renderers.len() ==> (#[trigger] v.renderers[i]).h.id != (
            #[trigger] v.renderers[j]).h.id,
{
    assert forall|i: int, j: int| 0 <= i < j < v.displays.len() implies (
    #[trigger] v.displays[i]).id < (#[trigger] v.displays[j]).id by {
        assert(ops::display_ids(v)[i] < ops::display_ids(v)[j]);
    }
    assert forall|i: int, j: int| 0 <= i < j < v.renderers.len() implies (
    #[trigger] v.renderers[i]).h.id != (#[trigger] v.renderers[j]).h.id by {
        assert(renderer_ids(v)[i] != renderer_ids(v)[j]);
    }
}

// ---------------------------------------------------------------------------
// Frames
// ---------------------------------------------------------------------------

proof fn lemma_recipient(v: RouterView, rid: Seq<char>, generation: u64, n: int, k: int)
    requires
        0 <= k < n <= v.links.len(),
        v.links[k].renderer == rid,
        v.links[k].enabled,
        router::find_display(v.displays, v.links[k].display) is Some,
        router::find_display(v.displays, v.links[k].display)->0.last_renderer == Some(rid),
        router::find_display(v.displays, v.links[k].display)->0.last_generation == Some(generation),
    ensures
        events::recipients(v, rid, generation, n).contains(v.links[k].display),
    decreases n,
{
    let all = events::recipients(v, rid, generation, n);
    if k == n - 1 {
        assert(all.last() == v.links[k].display);
    } else {
        lemma_recipient(v, rid, generation, n - 1, k);
        let rest = events::recipients(v, rid, generation, n - 1);
        let i = rest.index_of(v.links[k].display);
        assert(all[i] == v.links[k].display);
    }
}

proof fn lemma_from_link(v: RouterView, rid: Seq<char>, generation: u64, n: int, i: int)
    requires
        0 <= n <= v.links.len(),
        0 <= i < events::recipients(v, rid, generation, n).len(),
    ensures
        events::recipients(v, rid, generation, n).len() <= n,
        exists|k: int|
            {
                &&& 0 <= k < n
                &&& (#[trigger] v.links[k]).renderer == rid
                &&& v.links[k].enabled
                &&& v.links[k].display == events::recipients(v, rid, generation, n)[i]
                &&& router::find_display(v.displays, v.links[k].display) matches Some(d)
                    && d.last_renderer == Some(rid) && d.last_generation == Some(generation)
            },
    decreases n,
{
    if n > 0 {
        let rest = events::recipients(v, rid, generation, n - 1);
        let all = events::recipients(v, rid, generation, n);
        if i < rest.len() {
            lemma_from_link(v, rid, generation, n - 1, i);
            assert(all[i] == rest[i]);
        } else {
            assert(v.links[n - 1].display == all[i]);
            if rest.len() > 0 {
                lemma_from_link(v, rid, generation, n - 1, 0);
            }
        }
    }
}

/// A finished frame goes out as the renderer reported it: each display is told
/// of the same buffer, number and release point, of the renderer and of its
/// pool, and of how many displays they are. A display is told only while a link
/// leads to it from the renderer and it holds the pool.
pub proof fn frame_goes_out_as_reported(
    r: Router,
    rid: &str,
    buffer_index: u32,
    seq: u64,
    release_point: u64,
    out: Vec<Effect>,
    i: int,
)
    requires
        r@.links.len() <= u32::MAX,
        call_ensures(Router::on_renderer_frame, (&r, rid, buffer_index, seq, release_point), out),
        0 <= i < out@.len(),
    ensures
        router::find_entry(r@.renderers, rid@) matches Some(e) && e.h.bind is Some,
        match out@[i]@ {
            EffectView::Frame {
                display,
                renderer,
                generation,
                buffer_index: b,
                seq: q,
                release_point: p,
                expected_count,
            } => {
                &&& b == buffer_index
                &&& q == seq
                &&& p == release_point
                &&& renderer == rid@
                &&& generation == router::find_entry(r@.renderers, rid@)->0.h.bind->0.generation
                &&& expected_count == out@.len()
                &&& exists|k: int|
                    {
                        &&& 0 <= k < r@.links.len()
                        &&& (#[trigger] r@.links[k]).renderer == rid@
                        &&& r@.links[k].enabled
                        &&& r@.links[k].display == display
                    }
                &&& router::find_display(r@.displays, display) matches Some(d)
                    && d.last_renderer == Some(rid@) && d.last_generation == Some(generation)
            },
            EffectView::Advance { renderer, release_point: p } => {
                &&& renderer == rid@
                &&& p == release_point
                &&& out@.len() == 1
            },
            _ => false,
        },
{
    let v = r@;
    let f = FrameInfo { buffer_index, seq, release_point };
    assert(seqs::views(out@)[i] == out@[i]@);
    let fx = events::frame_effects(v, rid@, f);
    assert(seqs::views(out@) == fx);
    assert(fx.len() == out@.len());
    let g = router::find_entry(v.renderers, rid@)->0.h.bind->0.generation;
    let to = events::recipients(v, rid@, g, v.links.len() as int);
    if to.len() > 0 {
        lemma_from_link(v, rid@, g, v.links.len() as int, 0);
        lemma_from_link(v, rid@, g, v.links.len() as int, if i < to.len() { i } else { 0 });
    }
}

/// Every display that a link of the renderer leads to and that holds its pool
/// is told of a finished frame.
pub proof fn frame_reaches_every_holder(
    r: Router,
    rid: &str,
    buffer_index: u32,
    seq: u64,
    release_point: u64,
    out: Vec<Effect>,
    k: int,
)
    requires
        r@.links.len() <= u32::MAX,
        call_ensures(Router::on_renderer_frame, (&r, rid, buffer_index, seq, release_point), out),
        0 <= k < r@.links.len(),
        r@.links[k].renderer == rid@,
        r@.links[k].enabled,
        router::find_entry(r@.renderers, rid@) matches Some(e) && e.h.bind is Some,
        ({
            let d = router::find_display(r@.displays, r@.links[k].display);
            d is Some && d->0.last_renderer == Some(rid@) && d->0.last_generation == Some(
                router::find_entry(r@.renderers, rid@)->0.h.bind->0.generation,
            )
        }),
    ensures
        exists|i: int|
            0 <= i < out@.len() && (#[trigger] out@[i]@ matches EffectView::Frame {
                display,
                buffer_index: b,
                seq: q,
                release_point: p,
                ..
            } && display == r@.links[k].display && b == buffer_index && q == seq && p
                == release_point),
{
    let v = r@;
    let f = FrameInfo { buffer_index, seq, release_point };
    let g = router::find_entry(v.renderers, rid@)->0.h.bind->0.generation;
    let n = v.links.len() as int;
    lemma_recipient(v, rid@, g, n, k);
    let to = events::recipients(v, rid@, g, n);
    let i = to.index_of(v.links[k].display);
    lemma_from_link(v, rid@, g, n, i);
    assert(seqs::views(out@).len() == to.len());
    assert(seqs::views(out@)[i] == out@[i]@);
    assert(events::frame_effects(v, rid@, f)[i] == seqs::views(out@)[i]);
}

/// A frame that a renderer reports while it runs is handed on with its buffer,
/// number and release point.
pub proof fn reported_frame_is_handed_on(
    v: RouterView,
    rid: Seq<char>,
    image_index: u32,
    seq: u64,
    release_point: u64,
    fds: Seq<u64>,
    i: int,
)
    requires
        ({
            let ev = RendererEvent::FrameReady { image_index, seq, release_point };
            0 <= i < events::message_taken(v, rid, ev, fds).0.fx.len()
        }),
    ensures
        ({
            let ev = RendererEvent::FrameReady { image_index, seq, release_point };
            match events::message_taken(v, rid, ev, fds).0.fx[i] {
                EffectView::Frame {
                    renderer,
                    buffer_index,
                    seq: q,
                    release_point: p,
                    ..
                } => renderer == rid && buffer_index == image_index && q == seq && p
                    == release_point,
                EffectView::Advance { renderer, release_point: p } => renderer == rid && p
                    == release_point,
                _ => false,
            }
        }),
{
}

// ---------------------------------------------------------------------------
// Telling a display what to show
// ---------------------------------------------------------------------------

/// A display that is to show a renderer's pool is told so: the pool it holds is
/// taken back, then it is bound to the pool of the renderer its link leads to,
/// then it is told how to compose it, with the size of the pool, its own size
/// and the geometry of the link, under a number that was not used before.
pub proof fn linked_display_is_bound(
    s: Step,
    d: DisplayView,
    l: LinkView,
    e: EntryView,
    b: BindView,
)
    requires
        well_formed(s.v),
        s.v.displays.contains(d),
        s.v.links.contains(l),
        s.v.renderers.contains(e),
        l.enabled,
        l.display == d.id,
        e.h.id == l.renderer,
        e.h.bind == Some(b),
        e.h.caps is None || d.caps is None || (e.h.scheme matches Some(c) && c.fourcc == b.fourcc
            && c.modifier == b.modifier),
        d.last_renderer != Some(l.renderer) || d.last_generation != Some(b.generation),
    ensures
        ({
            let t = router::sync(s, d.id);
            let n = t.fx.len();
            &&& n == s.fx.len() + (if d.last_generation is Some {
                3int
            } else {
                2int
            })
            &&& forall|i: int| 0 <= i < s.fx.len() ==> #[trigger] t.fx[i] == s.fx[i]
            &&& d.last_generation is Some ==> t.fx[n - 3] == (EffectView::Unbind {
                display: d.id,
                generation: d.last_generation->0,
            })
            &&& t.fx[n - 2] == (EffectView::Bind {
                display: d.id,
                renderer: l.renderer,
                generation: b.generation,
            })
            &&& t.fx[n - 1] matches EffectView::SetConfig(c) && {
                &&& c.display == d.id
                &&& c.name == d.name
                &&& c.instance_id == d.instance_id
                &&& (c.width, c.height) == (d.width, d.height)
                &&& c.tex == (b.width, b.height)
                &&& c.geometry == l.geometry
                &&& c.generation == t.v.next_config_generation
            }
            &&& s.v.next_config_generation < u64::MAX ==> t.v.next_config_generation
                == s.v.next_config_generation + 1
            &&& t.v.links == s.v.links
            &&& t.v.renderers == s.v.renderers
            &&& t.v.displays.len() == s.v.displays.len()
            &&& forall|i: int|
                0 <= i < s.v.displays.len() ==> #[trigger] t.v.displays[i] == (if s.v.displays[i].id
                    == d.id {
                    DisplayView {
                        last_renderer: Some(l.renderer),
                        last_generation: Some(b.generation),
                        ..s.v.displays[i]
                    }
                } else {
                    s.v.displays[i]
                })
        }),
{
    lemma_orders(s.v);
    lemma_the_display(s.v.displays, d);
    lemma_the_entry(s.v.renderers, e);
    lemma_only_link(s.v.links, l);
}

/// A display that nothing leads to any more gives its pool back, and is told
/// nothing else.
pub proof fn unlinked_display_is_released(s: Step, d: DisplayView)
    requires
        well_formed(s.v),
        s.v.displays.contains(d),
        forall|i: int|
            0 <= i < s.v.links.len() && (#[trigger] s.v.links[i]).display == d.id
                ==> !s.v.links[i].enabled,
    ensures
        ({
            let t = router::sync(s, d.id);
            &&& t.fx == (match d.last_generation {
                Some(g) => s.fx.push(EffectView::Unbind { display: d.id, generation: g }),
                None => s.fx,
            })
            &&& t.v.links == s.v.links
            &&& t.v.renderers == s.v.renderers
            &&& forall|i: int|
                0 <= i < s.v.displays.len() && (#[trigger] s.v.displays[i]).id == d.id ==> {
                    &&& t.v.displays[i].last_renderer is None
                    &&& t.v.displays[i].last_generation is None
                }
        }),
{
    lemma_orders(s.v);
    lemma_the_display(s.v.displays, d);
    lemma_the_link(s.v.links, d.id);
    assert forall|i: int|
        0 <= i < s.v.displays.len() && (#[trigger] s.v.displays[i]).id == d.id implies s.v.displays[i]
        == d by {
        let k = s.v.displays.index_of(d);
        if i < k {
            assert(s.v.displays[i].id < s.v.displays[k].id);
        } else if k < i {
            assert(s.v.displays[k].id < s.v.displays[i].id);
        }
    }
}

/// While a renderer and a display negotiate and the renderer has not delivered
/// the pool that was agreed on, the display is told nothing.
pub proof fn display_waits_for_the_agreed_pool(s: Step, d: DisplayView, l: LinkView, e: EntryView)
    requires
        well_formed(s.v),
        s.v.displays.contains(d),
        s.v.links.contains(l),
        s.v.renderers.contains(e),
        l.enabled,
        l.display == d.id,
        e.h.id == l.renderer,
        e.h.caps is Some,
        d.caps is Some,
        e.h.bind matches Some(b) && !(e.h.scheme matches Some(c) && c.fourcc == b.fourcc
            && c.modifier == b.modifier),
    ensures
        router::sync(s, d.id) == s,
{
    lemma_orders(s.v);
    lemma_the_display(s.v.displays, d);
    lemma_the_entry(s.v.renderers, e);
    lemma_only_link(s.v.links, l);
}

// ---------------------------------------------------------------------------
// Pausing and resuming
// ---------------------------------------------------------------------------

/// A link that is enabled leads from the renderer to some display.
pub open spec fn is_shown(links: Seq<LinkView>, rid: Seq<char>) -> bool {
    exists|i: int| 0 <= i < links.len() && (#[trigger] links[i]).renderer == rid && links[i].enabled
}

/// The message is what renderer `k` is told once its links changed.
spec fn tells(v: RouterView, k: int, x: EffectView) -> bool {
    let e = v.renderers[k];
    &&& is_shown(v.links, e.h.id) == (e.paused is Some)
    &&& x == (if e.paused is Some {
        EffectView::Play(e.h.id)
    } else {
        EffectView::Pause(e.h.id)
    })
}

proof fn lemma_controls(v: RouterView, n: int)
    requires
        0 <= n <= v.renderers.len(),
    ensures
        forall|x: EffectView| #[trigger]
            router::controls(v, n).contains(x) <==> exists|k: int| 0 <= k < n && tells(v, k, x),
    decreases n,
{
    if n > 0 {
        lemma_controls(v, n - 1);
        let rest = router::controls(v, n - 1);
        let all = router::controls(v, n);
        let e = v.renderers[n - 1];
        assert(router::active(v.links, e.h.id) == is_shown(v.links, e.h.id));
        assert forall|x: EffectView| #[trigger] all.contains(x) <==> exists|k: int|
            0 <= k < n && tells(v, k, x) by {
            if all.contains(x) {
                let i = all.index_of(x);
                if i < rest.len() {
                    assert(rest[i] == x);
                    assert(rest.contains(x));
                    let k = choose|k: int| 0 <= k < n - 1 && tells(v, k, x);
                    assert(tells(v, k, x));
                } else {
                    assert(tells(v, n - 1, x));
                }
            }
            if exists|k: int| 0 <= k < n && tells(v, k, x) {
                let k = choose|k: int| 0 <= k < n && tells(v, k, x);
                if k == n - 1 {
                    assert(all.last() == x);
                } else {
                    assert(tells(v, k, x));
                    assert(rest.contains(x));
                    assert(all[rest.index_of(x)] == x);
                }
            }
        }
    }
}

proof fn lemma_no_controls(v: RouterView, now: u64, n: int)
    ensures
        forall|i: int|
            0 <= i < router::status_events(v, now, n).len() ==> {
                &&& (#[trigger] router::status_events(v, now, n)[i]) is Emit
                &&& !(router::status_events(v, now, n)[i] is Play)
                &&& !(router::status_events(v, now, n)[i] is Pause)
            },
    decreases n,
{
    if n > 0 {
        lemma_no_controls(v, now, n - 1);
    }
}

/// A renderer is told to pause exactly when nothing shows it any more, and to
/// play exactly when something shows it again; one that goes on as before is
/// told nothing.
pub proof fn pausing_follows_the_links(s: Step, now: u64, rid: Seq<char>)
    requires
        well_formed(s.v),
    ensures
        ({
            let t = router::lifecycle(s, now);
            let said = t.fx.skip(s.fx.len() as int);
            &&& said.contains(EffectView::Play(rid)) <==> exists|k: int|
                0 <= k < s.v.renderers.len() && (#[trigger] s.v.renderers[k]).h.id == rid
                    && s.v.renderers[k].paused is Some && is_shown(s.v.links, rid)
            &&& said.contains(EffectView::Pause(rid)) <==> exists|k: int|
                0 <= k < s.v.renderers.len() && (#[trigger] s.v.renderers[k]).h.id == rid
                    && s.v.renderers[k].paused is None && !is_shown(s.v.links, rid)
        }),
{
    let n = s.v.renderers.len() as int;
    let c = router::controls(s.v, n);
    let e = router::status_events(s.v, now, n);
    let said = router::lifecycle(s, now).fx.skip(s.fx.len() as int);
    lemma_controls(s.v, n);
    lemma_no_controls(s.v, now, n);
    assert(said =~= c + e);
    assert forall|x: EffectView| (x is Play || x is Pause) implies #[trigger] said.contains(x)
        == c.contains(x) by {
        if said.contains(x) {
            let i = said.index_of(x);
            if i < c.len() {
                assert(c[i] == x);
            } else {
                assert(e[i - c.len()] == x);
            }
        }
        if c.contains(x) {
            let i = c.index_of(x);
            assert(said[i] == x);
        }
    }
    let play = EffectView::Play(rid);
    let pause = EffectView::Pause(rid);
    if said.contains(play) {
        assert(c.contains(play));
        let k = choose|k: int| 0 <= k < n && tells(s.v, k, play);
        assert(s.v.renderers[k].h.id == rid);
    }
    if said.contains(pause) {
        assert(c.contains(pause));
        let k = choose|k: int| 0 <= k < n && tells(s.v, k, pause);
        assert(s.v.renderers[k].h.id == rid);
    }
    assert forall|k: int|
        0 <= k < n && (#[trigger] s.v.renderers[k]).h.id == rid && is_shown(s.v.links, rid) == (
        s.v.renderers[k].paused is Some) implies said.contains(
        if s.v.renderers[k].paused is Some {
            play
        } else {
            pause
        },
    ) by {
        let x = if s.v.renderers[k].paused is Some {
            play
        } else {
            pause
        };
        assert(tells(s.v, k, x));
        assert(c.contains(x));
    }
}

/// A renderer that is hidden now counts as paused from now on, one that stays
/// hidden from when it was, and one that is shown not at all. Nothing else of
/// it changes.
pub proof fn pause_is_counted_from_its_start(s: Step, now: u64, i: int)
    requires
        0 <= i < s.v.renderers.len(),
    ensures
        ({
            let a = s.v.renderers[i];
            let b = router::lifecycle(s, now).v.renderers[i];
            &&& b.h == a.h
            &&& b.paused == (if is_shown(s.v.links, a.h.id) {
                None
            } else if a.paused is Some {
                a.paused
            } else {
                Some(now)
            })
            &&& router::lifecycle(s, now).v.renderers.len() == s.v.renderers.len()
            &&& router::lifecycle(s, now).v.links == s.v.links
            &&& router::lifecycle(s, now).v.displays == s.v.displays
        }),
{
    assert(router::active(s.v.links, s.v.renderers[i].h.id) == is_shown(
        s.v.links,
        s.v.renderers[i].h.id,
    ));
}

// ---------------------------------------------------------------------------
// Negotiating
// ---------------------------------------------------------------------------

/// A scheme for the renderer can be picked over the link.
pub open spec fn agrees_on(v: RouterView, r: RendererView, l: LinkView, scheme: NegotiatedScheme) -> bool {
    &&& l.renderer == r.id
    &&& l.enabled
    &&& router::find_display(v.displays, l.display) matches Some(d) && r.caps is Some && d.caps
        is Some && negotiate::pick_result(r.caps->0, d.caps->0) == Ok::<
        NegotiatedScheme,
        negotiate::NegotiateError,
    >(scheme)
}

proof fn lemma_chosen(v: RouterView, r: RendererView, n: int)
    requires
        0 <= n <= v.links.len(),
    ensures
        match router::chosen_scheme(v, r, n) {
            Some(scheme) => exists|k: int|
                {
                    &&& 0 <= k < n
                    &&& agrees_on(v, r, #[trigger] v.links[k], scheme)
                    &&& forall|m: int, other: NegotiatedScheme|
                        k < m < n ==> !(#[trigger] agrees_on(v, r, v.links[m], other))
                },
            None => forall|m: int, other: NegotiatedScheme|
                0 <= m < n ==> !(#[trigger] agrees_on(v, r, v.links[m], other)),
        },
    decreases n,
{
    if n > 0 {
        lemma_chosen(v, r, n - 1);
        let l = v.links[n - 1];
        if exists|x: NegotiatedScheme| agrees_on(v, r, l, x) {
            let x = choose|x: NegotiatedScheme| agrees_on(v, r, l, x);
            assert(agrees_on(v, r, v.links[n - 1], x));
            assert(router::chosen_scheme(v, r, n) == Some(x));
        } else {
            assert(router::chosen_scheme(v, r, n) == router::chosen_scheme(v, r, n - 1)) by {
                if l.renderer == r.id && l.enabled {
                    if let Some(d) = router::find_display(v.displays, l.display) {
                        if r.caps is Some && d.caps is Some {
                            if let Ok(x) = negotiate::pick_result(r.caps->0, d.caps->0) {
                                assert(agrees_on(v, r, l, x));
                            }
                        }
                    }
                }
            }
            if router::chosen_scheme(v, r, n - 1) is Some {
                let scheme = router::chosen_scheme(v, r, n - 1)->0;
                let k = choose|k: int|
                    {
                        &&& 0 <= k < n - 1
                        &&& agrees_on(v, r, #[trigger] v.links[k], scheme)
                        &&& forall|m: int, other: NegotiatedScheme|
                            k < m < n - 1 ==> !(#[trigger] agrees_on(v, r, v.links[m], other))
                    };
                assert(agrees_on(v, r, v.links[k], scheme));
            }
        }
    }
}

/// Renderer `k` is told the scheme: it is picked for the last of its links that
/// one can be picked for, and is not what it was told before.
pub open spec fn due(v: RouterView, k: int, rid: Seq<char>, scheme: NegotiatedScheme) -> bool {
    let r = v.renderers[k].h;
    &&& r.id == rid
    &&& r.scheme != Some(scheme)
    &&& exists|j: int|
        {
            &&& 0 <= j < v.links.len()
            &&& agrees_on(v, r, #[trigger] v.links[j], scheme)
            &&& forall|m: int, other: NegotiatedScheme|
                j < m < v.links.len() ==> !(#[trigger] agrees_on(v, r, v.links[m], other))
        }
}

proof fn lemma_negotiations(v: RouterView, n: int)
    requires
        0 <= n <= v.renderers.len(),
    ensures
        forall|rid: Seq<char>, scheme: NegotiatedScheme|
            router::negotiations(v, n).contains(EffectView::Negotiate { renderer: rid, scheme })
                <==> exists|k: int| 0 <= k < n && #[trigger] due(v, k, rid, scheme),
        forall|i: int|
            0 <= i < router::negotiations(v, n).len() ==> (#[trigger] router::negotiations(
                v,
                n,
            )[i]) is Negotiate,
    decreases n,
{
    if n > 0 {
        lemma_negotiations(v, n - 1);
        let rest = router::negotiations(v, n - 1);
        let all = router::negotiations(v, n);
        let r = v.renderers[n - 1].h;
        lemma_chosen(v, r, v.links.len() as int);
        let c = router::chosen_scheme(v, r, v.links.len() as int);
        assert forall|rid: Seq<char>, scheme: NegotiatedScheme| #[trigger]
            due(v, n - 1, rid, scheme) <==> rid == r.id && c == Some(scheme) && r.scheme != Some(
            scheme,
        ) by {
            if due(v, n - 1, rid, scheme) {
                let j = choose|j: int|
                    {
                        &&& 0 <= j < v.links.len()
                        &&& agrees_on(v, r, #[trigger] v.links[j], scheme)
                        &&& forall|m: int, other: NegotiatedScheme|
                            j < m < v.links.len() ==> !(#[trigger] agrees_on(
                                v,
                                r,
                                v.links[m],
                                other,
                            ))
                    };
                assert(agrees_on(v, r, v.links[j], scheme));
                let got = c->0;
                let k = choose|k: int|
                    {
                        &&& 0 <= k < v.links.len()
                        &&& agrees_on(v, r, #[trigger] v.links[k], got)
                        &&& forall|m: int, other: NegotiatedScheme|
                            k < m < v.links.len() ==> !(#[trigger] agrees_on(
                                v,
                                r,
                                v.links[m],
                                other,
                            ))
                    };
                assert(agrees_on(v, r, v.links[k], got));
                assert(k == j);
            }
        }
        assert forall|rid: Seq<char>, scheme: NegotiatedScheme|
            all.contains(EffectView::Negotiate { renderer: rid, scheme }) <==> exists|k: int|
                0 <= k < n && #[trigger] due(v, k, rid, scheme) by {
            let x = EffectView::Negotiate { renderer: rid, scheme };
            if all.contains(x) {
                let i = all.index_of(x);
                if i < rest.len() {
                    assert(rest[i] == x);
                    assert(rest.contains(x));
                    let k = choose|k: int| 0 <= k < n - 1 && #[trigger] due(v, k, rid, scheme);
                    assert(due(v, k, rid, scheme));
                } else {
                    assert(due(v, n - 1, rid, scheme));
                }
            }
            if exists|k: int| 0 <= k < n && #[trigger] due(v, k, rid, scheme) {
                let k = choose|k: int| 0 <= k < n && #[trigger] due(v, k, rid, scheme);
                if k == n - 1 {
                    assert(all.last() == x);
                } else {
                    assert(due(v, k, rid, scheme));
                    assert(rest.contains(x));
                    assert(all[rest.index_of(x)] == x);
                }
            }
        }
    }
}

/// A renderer is asked for exactly the scheme that is picked for it and the
/// last of its displays that one can be picked for, and only where that is not
/// what it was asked for last. Nobody else is told anything.
pub proof fn renderers_are_asked_for_their_scheme(
    s: Step,
    rid: Seq<char>,
    scheme: NegotiatedScheme,
)
    ensures
        ({
            let t = router::negotiate_all(s);
            let said = t.fx.skip(s.fx.len() as int);
            &&& t.v == s.v
            &&& said.contains(EffectView::Negotiate { renderer: rid, scheme }) <==> exists|k: int|
                0 <= k < s.v.renderers.len() && #[trigger] due(s.v, k, rid, scheme)
            &&& forall|i: int| 0 <= i < said.len() ==> (#[trigger] said[i]) is Negotiate
        }),
{
    let n = s.v.renderers.len() as int;
    lemma_negotiations(s.v, n);
    let said = router::negotiate_all(s).fx.skip(s.fx.len() as int);
    assert(said =~= router::negotiations(s.v, n));
}

/// A display that cannot take a format is not offered it again: the pair counts
/// as rejected by that display, and nothing else of any display changes.
pub proof fn rejection_is_kept_for_the_display(s: Step, d: DisplayView, pair: (u32, u64))
    requires
        well_formed(s.v),
        s.v.displays.contains(d),
        d.caps is Some,
    ensures
        ({
            let t = events::display_rejects(s, d.id, pair);
            &&& t.v.displays.len() == s.v.displays.len()
            &&& t.v.links == s.v.links
            &&& t.v.renderers == s.v.renderers
            &&& forall|i: int|
                0 <= i < s.v.displays.len() ==> {
                    let a = s.v.displays[i];
                    let b = #[trigger] t.v.displays[i];
                    if a.id == d.id {
                        &&& b == (DisplayView { caps: b.caps, ..a })
                        &&& b.caps is Some
                        &&& b.caps->0 == (PeerCapsView {
                            blacklist: b.caps->0.blacklist,
                            ..d.caps->0
                        })
                        &&& b.caps->0.blacklist.contains(pair)
                        &&& forall|p: (u32, u64)| #[trigger]
                            b.caps->0.blacklist.contains(p) ==> p == pair
                                || d.caps->0.blacklist.contains(p)
                        &&& forall|p: (u32, u64)| #[trigger]
                            d.caps->0.blacklist.contains(p) ==> b.caps->0.blacklist.contains(p)
                    } else {
                        b == a
                    }
                }
        }),
{
    lemma_orders(s.v);
    lemma_the_display(s.v.displays, d);
    let new = DisplayView {
        caps: Some(events::rejecting(d.caps->0, pair)),
        ..d
    };
    lemma_replaced_display(s.v.displays, d, new);
}

proof fn lemma_replaced_display(s: Seq<DisplayView>, d: DisplayView, new: DisplayView)
    requires
        s.contains(d),
        new.id == d.id,
        forall|i: int, j: int|
            0 <= i < j < s.len() ==> (#[trigger] s[i]).id < (#[trigger] s[j]).id,
    ensures
        ({
            let t = router::with_display(s, d.id, new);
            &&& t.len() == s.len()
            &&& forall|i: int|
                0 <= i < s.len() ==> #[trigger] t[i] == (if s[i].id == d.id {
                    new
                } else {
                    s[i]
                })
            &&& forall|i: int| 0 <= i < s.len() && (#[trigger] s[i]).id == d.id ==> s[i] == d
        }),
    decreases s.len(),
{
    let k = s.index_of(d);
    assert forall|i: int| 0 <= i < s.len() && (#[trigger] s[i]).id == d.id implies s[i] == d by {
        if i < k {
            assert(s[i].id < s[k].id);
        } else if k < i {
            assert(s[k].id < s[i].id);
        }
    }
    let rest = s.drop_last();
    assert forall|i: int, j: int| 0 <= i < j < rest.len() implies (#[trigger] rest[i]).id < (
    #[trigger] rest[j]).id by {
        assert(s[i].id < s[j].id);
    }
    lemma_no_display(rest, d.id);
    if rest.contains(d) {
        lemma_replaced_display(rest, d, new);
        assert(router::find_display(rest, d.id) is Some) by {
            assert(rest[rest.index_of(d)].id == d.id);
        }
        assert(s[s.len() - 1].id != d.id) by {
            let m = rest.index_of(d);
            assert(s[m] == d);
            assert(s[m].id < s[s.len() - 1].id);
        }
    } else {
        if k < rest.len() {
            assert(rest[k] == d);
        }
        assert(s.last() == d);
        assert forall|i: int| 0 <= i < rest.len() implies (#[trigger] rest[i]).id != d.id by {
            assert(s[i].id < s[s.len() - 1].id);
        }
    }
}

proof fn lemma_replaced_entry(s: Seq<EntryView>, e: EntryView, h: RendererView)
    requires
        s.contains(e),
        forall|i: int, j: int|
            0 <= i < j < s.len() ==> (#[trigger] s[i]).h.id != (#[trigger] s[j]).h.id,
    ensures
        ({
            let t = router::with_handle(s, e.h.id, h);
            &&& t.len() == s.len()
            &&& forall|i: int|
                0 <= i < s.len() ==> #[trigger] t[i] == (if s[i].h.id == e.h.id {
                    EntryView { h, ..e }
                } else {
                    s[i]
                })
            &&& forall|i: int| 0 <= i < s.len() && (#[trigger] s[i]).h.id == e.h.id ==> s[i] == e
        }),
    decreases s.len(),
{
    let k = s.index_of(e);
    assert forall|i: int| 0 <= i < s.len() && (#[trigger] s[i]).h.id == e.h.id implies s[i]
        == e by {
        if i < k {
            assert(s[i].h.id != s[k].h.id);
        } else if k < i {
            assert(s[k].h.id != s[i].h.id);
        }
    }
    let rest = s.drop_last();
    assert forall|i: int, j: int| 0 <= i < j < rest.len() implies (#[trigger] rest[i]).h.id != (
    #[trigger] rest[j]).h.id by {
        assert(s[i].h.id != s[j].h.id);
    }
    lemma_no_entry(rest, e.h.id);
    if rest.contains(e) {
        lemma_replaced_entry(rest, e, h);
        assert(router::find_entry(rest, e.h.id) is Some) by {
            assert(rest[rest.index_of(e)].h.id == e.h.id);
        }
        assert(s[s.len() - 1].h.id != e.h.id) by {
            let m = rest.index_of(e);
            assert(s[m] == e);
            assert(s[m].h.id != s[s.len() - 1].h.id);
        }
    } else {
        if k < rest.len() {
            assert(rest[k] == e);
        }
        assert(s.last() == e);
        assert forall|i: int| 0 <= i < rest.len() implies (#[trigger] rest[i]).h.id != e.h.id by {
            assert(s[i].h.id != s[s.len() - 1].h.id);
        }
    }
}

/// A renderer that cannot make a format is not asked for it again: the pair
/// counts as rejected by that renderer, and nothing else of any renderer
/// changes.
pub proof fn rejection_is_kept_for_the_renderer(s: Step, e: EntryView, pair: (u32, u64))
    requires
        well_formed(s.v),
        s.v.renderers.contains(e),
        e.h.caps is Some,
    ensures
        ({
            let t = events::renderer_rejects(s, e.h.id, pair);
            &&& t.v.renderers.len() == s.v.renderers.len()
            &&& t.v.links == s.v.links
            &&& t.v.displays == s.v.displays
            &&& forall|i: int|
                0 <= i < s.v.renderers.len() ==> {
                    let a = s.v.renderers[i];
                    let b = #[trigger] t.v.renderers[i];
                    if a.h.id == e.h.id {
                        &&& b.paused == a.paused
                        &&& b.h == (RendererView { caps: b.h.caps, ..a.h })
                        &&& b.h.caps is Some
                        &&& b.h.caps->0 == (PeerCapsView {
                            blacklist: b.h.caps->0.blacklist,
                            ..e.h.caps->0
                        })
                        &&& b.h.caps->0.blacklist.contains(pair)
                        &&& forall|p: (u32, u64)| #[trigger]
                            b.h.caps->0.blacklist.contains(p) ==> p == pair
                                || e.h.caps->0.blacklist.contains(p)
                        &&& forall|p: (u32, u64)| #[trigger]
                            e.h.caps->0.blacklist.contains(p) ==> b.h.caps->0.blacklist.contains(p)
                    } else {
                        b == a
                    }
                }
        }),
{
    lemma_orders(s.v);
    lemma_the_entry(s.v.renderers, e);
    let h = RendererView { caps: Some(events::rejecting(e.h.caps->0, pair)), ..e.h };
    lemma_replaced_entry(s.v.renderers, e, h);
}

/// What a display announces of itself counts for it from then on, and for no
/// other display.
pub proof fn announced_caps_count_for_the_display(s: Step, d: DisplayView, caps: PeerCapsView)
    requires
        well_formed(s.v),
        s.v.displays.contains(d),
    ensures
        ({
            let t = events::take_caps(s, d.id, caps);
            &&& t.v.displays.len() == s.v.displays.len()
            &&& t.v.links == s.v.links
            &&& t.v.renderers == s.v.renderers
            &&& forall|i: int|
                0 <= i < s.v.displays.len() ==> #[trigger] t.v.displays[i] == (if s.v.displays[i].id
                    == d.id {
                    DisplayView { caps: Some(caps), ..s.v.displays[i] }
                } else {
                    s.v.displays[i]
                })
        }),
{
    lemma_orders(s.v);
    lemma_the_display(s.v.displays, d);
    lemma_replaced_display(s.v.displays, d, DisplayView { caps: Some(caps), ..d });
}

// ---------------------------------------------------------------------------
// Renderers that go
// ---------------------------------------------------------------------------

proof fn lemma_links_without_renderer(links: Seq<LinkView>, rid: Seq<char>)
    ensures
        forall|l: LinkView| #[trigger]
            router::links_without_renderer(links, rid).contains(l) <==> links.contains(l)
                && l.renderer != rid,
    decreases links.len(),
{
    if links.len() > 0 {
        let t = links.drop_last();
        lemma_links_without_renderer(t, rid);
        let rest = router::links_without_renderer(t, rid);
        let all = router::links_without_renderer(links, rid);
        assert forall|l: LinkView| #[trigger] all.contains(l) <==> links.contains(l) && l.renderer
            != rid by {
            lemma_contains_last(links, l);
            if links.last().renderer != rid {
                lemma_contains_last(all, l);
                assert(all.drop_last() =~= rest);
            }
        }
    }
}

proof fn lemma_contains_last<T>(s: Seq<T>, x: T)
    requires
        s.len() > 0,
    ensures
        s.contains(x) <==> s.drop_last().contains(x) || s.last() == x,
{
    if s.contains(x) {
        let i = s.index_of(x);
        if i < s.len() - 1 {
            assert(s.drop_last()[i] == x);
        }
    }
    if s.drop_last().contains(x) {
        let i = s.drop_last().index_of(x);
        assert(s[i] == x);
    }
    assert(s[s.len() - 1] == s.last());
}

proof fn lemma_links_without_display(links: Seq<LinkView>, id: u64)
    ensures
        forall|l: LinkView| #[trigger]
            router::links_without_display(links, id).contains(l) <==> links.contains(l)
                && l.display != id,
    decreases links.len(),
{
    if links.len() > 0 {
        let t = links.drop_last();
        lemma_links_without_display(t, id);
        let rest = router::links_without_display(t, id);
        let all = router::links_without_display(links, id);
        assert forall|l: LinkView| #[trigger] all.contains(l) <==> links.contains(l) && l.display
            != id by {
            lemma_contains_last(links, l);
            if links.last().display != id {
                lemma_contains_last(all, l);
                assert(all.drop_last() =~= rest);
            }
        }
    }
}

proof fn lemma_entries_left(s: Seq<EntryView>, rid: Seq<char>)
    ensures
        forall|e: EntryView| #[trigger]
            router::entries_without(s, rid).contains(e) <==> s.contains(e) && e.h.id != rid,
    decreases s.len(),
{
    if s.len() > 0 {
        let t = s.drop_last();
        lemma_entries_left(t, rid);
        let rest = router::entries_without(t, rid);
        let all = router::entries_without(s, rid);
        assert forall|e: EntryView| #[trigger] all.contains(e) <==> s.contains(e) && e.h.id
            != rid by {
            lemma_contains_last(s, e);
            if s.last().h.id != rid {
                lemma_contains_last(all, e);
                assert(all.drop_last() =~= rest);
            }
        }
    }
}

proof fn lemma_displays_left(s: Seq<DisplayView>, id: u64)
    ensures
        forall|d: DisplayView| #[trigger]
            router::displays_without(s, id).contains(d) <==> s.contains(d) && d.id != id,
    decreases s.len(),
{
    if s.len() > 0 {
        let t = s.drop_last();
        lemma_displays_left(t, id);
        let rest = router::displays_without(t, id);
        let all = router::displays_without(s, id);
        assert forall|d: DisplayView| #[trigger] all.contains(d) <==> s.contains(d) && d.id
            != id by {
            lemma_contains_last(s, d);
            if s.last().id != id {
                lemma_contains_last(all, d);
                assert(all.drop_last() =~= rest);
            }
        }
    }
}

proof fn lemma_sync_all_keeps(s: Step, ids: Seq<u64>, n: int)
    ensures
        router::sync_all(s, ids, n).v.links == s.v.links,
        router::sync_all(s, ids, n).v.renderers == s.v.renderers,
        router::sync_all(s, ids, n).v.timers == s.v.timers,
        router::sync_all(s, ids, n).v.displays.len() == s.v.displays.len(),
        router::sync_all(s, ids, n).v.next_display_id == s.v.next_display_id,
        router::sync_all(s, ids, n).v.next_link_id == s.v.next_link_id,
        s.fx.is_prefix_of(router::sync_all(s, ids, n).fx),
        forall|i: int|
            0 <= i < s.v.displays.len() ==> {
                let b = #[trigger] router::sync_all(s, ids, n).v.displays[i];
                b == (DisplayView {
                    last_renderer: b.last_renderer,
                    last_generation: b.last_generation,
                    ..s.v.displays[i]
                })
            },
    decreases n,
{
    if n > 0 {
        lemma_sync_all_keeps(s, ids, n - 1);
        let a = router::sync_all(s, ids, n - 1);
        let b = router::sync(a, ids[n - 1]);
        assert(a.fx.is_prefix_of(b.fx));
        assert forall|i: int| 0 <= i < s.v.displays.len() implies {
            let x = #[trigger] b.v.displays[i];
            x == (DisplayView {
                last_renderer: x.last_renderer,
                last_generation: x.last_generation,
                ..s.v.displays[i]
            })
        } by {
            let y = a.v.displays[i];
        }
    }
}

/// Taking a renderer out leaves exactly the other renderers and exactly the
/// links of others, and tells subscribers that it is gone. Stopping it ends its
/// process besides, after everything else.
pub proof fn stopped_renderer_is_gone(s: Step, rid: Seq<char>, now: u64, other: Seq<char>)
    ensures
        ({
            let t = router::unregister(s, rid, now);
            &&& forall|l: LinkView| #[trigger]
                t.v.links.contains(l) <==> s.v.links.contains(l) && l.renderer != rid
            &&& renderer_ids(t.v).contains(other) <==> renderer_ids(s.v).contains(other) && other
                != rid
            &&& t.v.displays.len() == s.v.displays.len()
            &&& !t.v.timers.contains(rid)
            &&& t.fx.skip(s.fx.len() as int).contains(
                EffectView::Emit(EventView::RendererRemoved(rid)),
            )
            &&& router::stop(s, rid, now).v == t.v
            &&& router::stop(s, rid, now).fx == t.fx.push(EffectView::Kill(rid))
        }),
{
    lemma_links_without_renderer(s.v.links, rid);
    lemma_entries_left(s.v.renderers, rid);
    let affected = router::linked_displays(s.v.links, rid);
    let removed = router::cancel_timer(
        Step {
            v: RouterView {
                renderers: router::entries_without(s.v.renderers, rid),
                links: router::links_without_renderer(s.v.links, rid),
                ..s.v
            },
            fx: s.fx,
        },
        rid,
    );
    let gone = EffectView::Emit(EventView::RendererRemoved(rid));
    let told = Step { v: removed.v, fx: removed.fx.push(gone) };
    lemma_sync_all_keeps(told, affected, affected.len() as int);
    let t = router::unregister(s, rid, now);
    let at = removed.fx.len();
    let done = router::lifecycle(
        router::sync_all(told, affected, affected.len() as int),
        now,
    );
    let synced = router::sync_all(told, affected, affected.len() as int);
    assert(synced.fx.subrange(0, told.fx.len() as int)[at as int] == gone);
    assert(done.fx[at as int] == gone);
    assert(t.fx[at as int] == gone);
    assert(t.fx.skip(s.fx.len() as int)[at - s.fx.len()] == gone);
    let left = router::entries_without(s.v.renderers, rid);
    assert(renderer_ids(t.v).len() == left.len());
    assert forall|i: int| 0 <= i < left.len() implies #[trigger] renderer_ids(t.v)[i]
        == left[i].h.id by {}
    if renderer_ids(t.v).contains(other) {
        let i = renderer_ids(t.v).index_of(other);
        assert(left.contains(left[i]));
        let k = s.v.renderers.index_of(left[i]);
        assert(renderer_ids(s.v)[k] == other);
    }
    if renderer_ids(s.v).contains(other) && other != rid {
        let k = renderer_ids(s.v).index_of(other);
        assert(s.v.renderers.contains(s.v.renderers[k]));
        assert(left.contains(s.v.renderers[k]));
        let i = left.index_of(s.v.renderers[k]);
        assert(renderer_ids(t.v)[i] == other);
    }
}

proof fn lemma_idle(s: Seq<EntryView>, now: u64, n: int)
    requires
        0 <= n <= s.len(),
    ensures
        forall|r: Seq<char>| #[trigger]
            ops::idle_ids(s, now, n).contains(r) <==> exists|k: int|
                0 <= k < n && (#[trigger] s[k]).h.id == r && s[k].paused is Some && now
                    - s[k].paused->0 >= 3_600_000,
    decreases n,
{
    if n > 0 {
        lemma_idle(s, now, n - 1);
        let rest = ops::idle_ids(s, now, n - 1);
        let all = ops::idle_ids(s, now, n);
        assert forall|r: Seq<char>| #[trigger] all.contains(r) <==> exists|k: int|
            0 <= k < n && (#[trigger] s[k]).h.id == r && s[k].paused is Some && now
                - s[k].paused->0 >= 3_600_000 by {
            if all.len() > rest.len() {
                lemma_contains_last(all, r);
                assert(all.drop_last() =~= rest);
            }
            if rest.contains(r) {
                let k = choose|k: int|
                    0 <= k < n - 1 && (#[trigger] s[k]).h.id == r && s[k].paused is Some && now
                        - s[k].paused->0 >= 3_600_000;
                assert(s[k].h.id == r);
            }
            if all.contains(r) && !rest.contains(r) {
                assert(s[n - 1].h.id == r);
            }
        }
    }
}

proof fn lemma_unregister_prefix(s: Step, rid: Seq<char>, now: u64)
    ensures
        s.fx.is_prefix_of(router::unregister(s, rid, now).fx),
        ops::display_ids(router::unregister(s, rid, now).v) == ops::display_ids(s.v),
{
    let affected = router::linked_displays(s.v.links, rid);
    let removed = router::cancel_timer(
        Step {
            v: RouterView {
                renderers: router::entries_without(s.v.renderers, rid),
                links: router::links_without_renderer(s.v.links, rid),
                ..s.v
            },
            fx: s.fx,
        },
        rid,
    );
    let told = Step {
        v: removed.v,
        fx: removed.fx.push(EffectView::Emit(EventView::RendererRemoved(rid))),
    };
    lemma_sync_all_keeps(told, affected, affected.len() as int);
    let synced = router::sync_all(told, affected, affected.len() as int);
    let t = router::unregister(s, rid, now);
    assert(s.fx =~= told.fx.subrange(0, s.fx.len() as int));
    assert(synced.fx.subrange(0, told.fx.len() as int) =~= told.fx);
    assert(s.fx =~= synced.fx.subrange(0, s.fx.len() as int)) by {
        assert forall|i: int| 0 <= i < s.fx.len() implies synced.fx[i] == s.fx[i] by {
            assert(synced.fx.subrange(0, told.fx.len() as int)[i] == told.fx[i]);
        }
    }
    assert(s.fx =~= t.fx.subrange(0, s.fx.len() as int));
    assert(ops::display_ids(t.v) =~= ops::display_ids(s.v));
}

/// Stopping renderers leaves exactly the others and their links, and ends
/// exactly their processes.
pub proof fn exactly_the_stopped_are_gone(
    s: Step,
    ids: Seq<Seq<char>>,
    now: u64,
    n: int,
    r: Seq<char>,
)
    requires
        0 <= n <= ids.len(),
    ensures
        ({
            let t = router::stop_all(s, ids, now, n);
            let said = t.fx.skip(s.fx.len() as int);
            &&& renderer_ids(t.v).contains(r) <==> renderer_ids(s.v).contains(r) && !ids.take(
                n,
            ).contains(r)
            &&& forall|l: LinkView| #[trigger]
                t.v.links.contains(l) <==> s.v.links.contains(l) && !ids.take(n).contains(
                    l.renderer,
                )
            &&& s.fx.is_prefix_of(t.fx)
            &&& said.contains(EffectView::Kill(r)) <==> ids.take(n).contains(r)
            &&& ops::display_ids(t.v) == ops::display_ids(s.v)
        }),
    decreases n,
{
    let t = router::stop_all(s, ids, now, n);
    if n <= 0 {
        assert(ids.take(0) =~= Seq::empty());
        assert(t.fx.skip(s.fx.len() as int) =~= Seq::empty());
        assert(s.fx =~= t.fx.subrange(0, s.fx.len() as int));
    } else {
        let a = router::stop_all(s, ids, now, n - 1);
        let id = ids[n - 1];
        exactly_the_stopped_are_gone(s, ids, now, n - 1, r);
        stopped_renderer_is_gone(a, id, now, r);
        lemma_unregister_prefix(a, id, now);
        let u = router::unregister(a, id, now);
        let short = ids.take(n - 1);
        let long = ids.take(n);
        assert(long.drop_last() =~= short);
        assert forall|x: Seq<char>| #[trigger] long.contains(x) <==> short.contains(x) || x
            == id by {
            lemma_contains_last(long, x);
        }
        assert(u.fx.subrange(0, a.fx.len() as int) =~= a.fx);
        assert(s.fx =~= t.fx.subrange(0, s.fx.len() as int)) by {
            assert(a.fx.subrange(0, s.fx.len() as int) =~= s.fx);
            assert forall|i: int| 0 <= i < s.fx.len() implies t.fx[i] == s.fx[i] by {
                assert(a.fx.subrange(0, s.fx.len() as int)[i] == a.fx[i]);
                assert(u.fx.subrange(0, a.fx.len() as int)[i] == u.fx[i]);
            }
        }
        let k = EffectView::Kill(r);
        let before = a.fx.skip(s.fx.len() as int);
        let said = t.fx.skip(s.fx.len() as int);
        laws::retiring_ends_no_process(a, seq![id], now, 1);
        assert(router::unregister_all(a, seq![id], now, 0) == a);
        assert(router::unregister_all(a, seq![id], now, 1) == u);
        assert forall|i: int| a.fx.len() <= i < u.fx.len() implies !((#[trigger] u.fx[i]) is Kill) by {}
        if said.contains(k) {
            let i = said.index_of(k);
            let at = i + s.fx.len();
            assert(t.fx[at] == k);
            if at < a.fx.len() {
                assert(u.fx.subrange(0, a.fx.len() as int)[at] == u.fx[at]);
                assert(before[i] == k);
                assert(before.contains(k));
            } else if at < u.fx.len() {
                assert(u.fx[at] == k);
            }
        }
        if short.contains(r) {
            let i = before.index_of(k);
            let at = i + s.fx.len();
            assert(a.fx[at] == k);
            assert(u.fx.subrange(0, a.fx.len() as int)[at] == u.fx[at]);
            assert(said[i] == k);
        }
        if r == id {
            assert(t.fx.last() == k);
            assert(said.last() == k);
        }
    }
}

/// A renderer that was paused for an hour is stopped, and no other one.
pub proof fn long_idle_renderers_are_stopped(v: RouterView, now: u64, r: Seq<char>)
    requires
        well_formed(v),
    ensures
        ({
            let ids = ops::idle_ids(v.renderers, now, v.renderers.len() as int);
            let t = router::stop_all(ops::start(v), ids, now, ids.len() as int);
            let idle = exists|k: int|
                0 <= k < v.renderers.len() && (#[trigger] v.renderers[k]).h.id == r
                    && v.renderers[k].paused is Some && now - v.renderers[k].paused->0 >= 3_600_000;
            &&& t.fx.contains(EffectView::Kill(r)) <==> idle
            &&& renderer_ids(t.v).contains(r) <==> renderer_ids(v).contains(r) && !idle
        }),
{
    let ids = ops::idle_ids(v.renderers, now, v.renderers.len() as int);
    let t = router::stop_all(ops::start(v), ids, now, ids.len() as int);
    lemma_idle(v.renderers, now, v.renderers.len() as int);
    exactly_the_stopped_are_gone(ops::start(v), ids, now, ids.len() as int, r);
    assert(ids.take(ids.len() as int) =~= ids);
    assert(t.fx.skip(0) =~= t.fx);
    assert(ids.contains(r) || !ids.contains(r));
}

/// A renderer that nothing shows is stopped, unless it is the one to keep or
/// the only one while no display is connected; then it gets a grace period
/// instead. One that is shown is never stopped.
pub proof fn orphans_are_stopped_or_wait(s: Step, keep: Option<Seq<char>>, now: u64, r: Seq<char>)
    requires
        renderer_ids(s.v).contains(r),
    ensures
        ({
            let t = ops::reap_orphans(s, keep, now);
            let said = t.fx.skip(s.fx.len() as int);
            let orphan = !is_shown(s.v.links, r) && keep != Some(r);
            let waits = s.v.displays.len() == 0 && s.v.renderers.len() == 1;
            &&& said.contains(EffectView::Kill(r)) <==> orphan && !waits
            &&& orphan && waits ==> said.contains(EffectView::StartTimer(r)) && t.v.timers.contains(
                r,
            )
            &&& renderer_ids(t.v).contains(r) <==> !orphan || waits
            &&& keep is Some ==> !t.v.timers.contains(keep->0)
        }),
{
    let n = s.v.renderers.len() as int;
    let ids = ops::orphans(s.v, keep, n);
    laws::lemma_orphans(s.v, keep, n);
    let k = renderer_ids(s.v).index_of(r);
    assert(s.v.renderers[k].h.id == r);
    assert(router::active(s.v.links, r) == is_shown(s.v.links, r));
    assert(ids.contains(r) <==> !is_shown(s.v.links, r) && keep != Some(r)) by {
        if ids.contains(r) {
            let i = ids.index_of(r);
            assert(!router::active(s.v.links, ids[i]));
        }
    }
    let m = ids.len() as int;
    assert(ids.take(m) =~= ids);
    let t = ops::reap_orphans(s, keep, now);
    let said = t.fx.skip(s.fx.len() as int);
    let reaped = if ops::lone(s.v) {
        ops::start_timers(s, ids, m)
    } else {
        router::stop_all(s, ids, now, m)
    };
    if ops::lone(s.v) {
        lemma_timers(s, ids, m, r);
    } else {
        exactly_the_stopped_are_gone(s, ids, now, m, r);
    }
    let part = reaped.fx.skip(s.fx.len() as int);
    assert(said =~= part || (keep is Some && said =~= part.push(EffectView::CancelTimer(keep->0))));
    assert forall|x: EffectView| !(x is CancelTimer) implies #[trigger] said.contains(x)
        == part.contains(x) by {
        if said != part {
            lemma_contains_last(said, x);
            assert(said.drop_last() =~= part);
        }
    }
    assert(said.contains(EffectView::Kill(r)) == part.contains(EffectView::Kill(r)));
    assert(said.contains(EffectView::StartTimer(r)) == part.contains(EffectView::StartTimer(r)));
}

proof fn lemma_timers(s: Step, ids: Seq<Seq<char>>, n: int, r: Seq<char>)
    requires
        0 <= n <= ids.len(),
    ensures
        ({
            let t = ops::start_timers(s, ids, n);
            let said = t.fx.skip(s.fx.len() as int);
            &&& s.fx.len() <= t.fx.len()
            &&& t.v.renderers == s.v.renderers
            &&& t.v.timers.contains(r) <==> s.v.timers.contains(r) || ids.take(n).contains(r)
            &&& said.contains(EffectView::StartTimer(r)) <==> ids.take(n).contains(r)
            &&& forall|i: int| 0 <= i < said.len() ==> (#[trigger] said[i]) is StartTimer
            &&& !said.contains(EffectView::Kill(r))
        }),
    decreases n,
{
    let t = ops::start_timers(s, ids, n);
    let said = t.fx.skip(s.fx.len() as int);
    if n <= 0 {
        assert(ids.take(0) =~= Seq::empty());
        assert(said =~= Seq::empty());
    } else {
        lemma_timers(s, ids, n - 1, r);
        let a = ops::start_timers(s, ids, n - 1);
        let before = a.fx.skip(s.fx.len() as int);
        assert(said =~= before.push(EffectView::StartTimer(ids[n - 1])));
        assert(said.drop_last() =~= before);
        lemma_contains_last(said, EffectView::StartTimer(r));
        lemma_contains_last(said, EffectView::Kill(r));
        assert(ids.take(n).drop_last() =~= ids.take(n - 1));
        lemma_contains_last(ids.take(n), r);
    }
}

/// When its grace period is over, a renderer that is still there and that
/// nothing shows is stopped.
pub proof fn grace_ends_unseen_renderers(s: Step, rid: Seq<char>, now: u64)
    requires
        renderer_ids(s.v).contains(rid),
        !is_shown(s.v.links, rid),
    ensures
        ({
            let t = ops::grace_over(s, rid, now);
            &&& t.fx.len() > s.fx.len()
            &&& t.fx.last() == EffectView::Kill(rid)
            &&& !renderer_ids(t.v).contains(rid)
            &&& !t.v.timers.contains(rid)
        }),
{
    assert(router::active(s.v.links, rid) == is_shown(s.v.links, rid));
    lemma_no_entry(s.v.renderers, rid);
    let k = renderer_ids(s.v).index_of(rid);
    assert(s.v.renderers[k].h.id == rid);
    let cleared = Step { v: RouterView { timers: s.v.timers.remove(rid), ..s.v }, fx: s.fx };
    stopped_renderer_is_gone(cleared, rid, now, rid);
    lemma_unregister_prefix(cleared, rid, now);
}

// ---------------------------------------------------------------------------
// Displays that come and go
// ---------------------------------------------------------------------------

/// A display that connects has what it registered with, under an id that no
/// display had before. It is given to the first renderer there is, over a link
/// that shows all of it on all of the display. No other display and no other
/// link changes, and subscribers are told of the display.
pub proof fn display_connects_as_registered(s: Step, reg: DisplayRegistration, now: u64)
    requires
        well_formed(s.v),
        s.v.next_display_id < u64::MAX,
    ensures
        ({
            let t = events::add_display(s, reg, now);
            let n = s.v.displays.len();
            let d = t.v.displays[n as int];
            &&& t.v.displays.len() == n + 1
            &&& d.id == s.v.next_display_id + 1
            &&& t.v.next_display_id == d.id
            &&& forall|i: int| 0 <= i < n ==> (#[trigger] s.v.displays[i]).id < d.id
            &&& d.name == reg.name@
            &&& d.instance_id == (match reg.instance_id {
                Some(x) => Some(x@),
                None => None,
            })
            &&& (d.width, d.height) == (reg.width, reg.height)
            &&& d.refresh_mhz == reg.refresh_mhz
            &&& d.gpu == reg.gpu
            &&& d.caps == (match reg.consumer_caps {
                Some(c) => Some(c@),
                None => None,
            })
            &&& forall|i: int| 0 <= i < n ==> #[trigger] t.v.displays[i] == s.v.displays[i]
            &&& s.v.renderers.len() == 0 ==> t.v.links == s.v.links
            &&& s.v.renderers.len() > 0 ==> {
                let l = t.v.links.last();
                &&& t.v.links == s.v.links.push(l)
                &&& l.renderer == s.v.renderers[0].h.id
                &&& l.display == d.id
                &&& l.enabled
                &&& l.z_order == 0
                &&& l.geometry.transform == 0
                &&& layout::rect_eq(l.geometry.src_rect, layout::full_rect())
                &&& layout::rect_eq(l.geometry.dst_rect, layout::full_rect())
                &&& l.geometry.clear_rgba == renderer::opaque_black()
            }
            &&& t.fx.last() matches EffectView::Emit(EventView::DisplayUpsert(snap)) && {
                &&& snap.id == d.id
                &&& snap.name == reg.name@
                &&& (snap.width, snap.height) == (reg.width, reg.height)
            }
        }),
{
    let id = (s.v.next_display_id + 1) as u64;
    let v1 = RouterView {
        displays: s.v.displays.push(events::new_display(id, reg)),
        next_display_id: id,
        ..s.v
    };
    let s2 = if v1.renderers.len() > 0 {
        let first = v1.renderers[0].h.id;
        router::cancel_timer(Step { v: ops::linked(v1, first, id), fx: s.fx }, first)
    } else {
        Step { v: v1, fx: s.fx }
    };
    let t = events::add_display(s, reg, now);
    assert forall|i: int| 0 <= i < s.v.displays.len() implies (#[trigger] s.v.displays[i]).id
        < id by {
        assert(ops::display_ids(s.v)[i] <= s.v.next_display_id);
    }
    lemma_sync_one(s2, id);
    let ready = router::negotiate_all(router::lifecycle(router::sync(s2, id), now));
    lemma_no_display(ready.v.displays, id);
    let n = s.v.displays.len() as int;
    assert(ready.v.displays[n].id == id);
    let found = router::find_display(ready.v.displays, id)->0;
    let k = ready.v.displays.index_of(found);
    assert(k == n) by {
        if k < n {
            assert(ready.v.displays[k].id == s.v.displays[k].id);
        }
    }
    if s.v.renderers.len() > 0 {
        assert(t.v.links =~= s.v.links.push(t.v.links.last()));
    }
}

/// Telling one display leaves the others as they are.
proof fn lemma_sync_one(s: Step, id: u64)
    ensures
        router::sync(s, id).v.displays.len() == s.v.displays.len(),
        router::sync(s, id).v.links == s.v.links,
        router::sync(s, id).v.renderers == s.v.renderers,
        router::sync(s, id).v.next_display_id == s.v.next_display_id,
        forall|i: int|
            0 <= i < s.v.displays.len() ==> {
                let a = s.v.displays[i];
                let b = #[trigger] router::sync(s, id).v.displays[i];
                &&& a.id != id ==> b == a
                &&& b == (DisplayView {
                    last_renderer: b.last_renderer,
                    last_generation: b.last_generation,
                    ..a
                })
            },
{
}

/// A display that disconnects is gone, with every link to it. Every other
/// display stays connected and shows what it showed. Subscribers are told.
pub proof fn display_disconnects_alone(s: Step, id: u64, now: u64, other: u64)
    requires
        well_formed(s.v),
    ensures
        ({
            let t = events::drop_display(s, id, now);
            &&& ops::display_ids(t.v).contains(other) <==> ops::display_ids(s.v).contains(other)
                && other != id
            &&& other != id ==> router::first_link(t.v.links, other) == router::first_link(
                s.v.links,
                other,
            )
            &&& forall|i: int|
                0 <= i < t.v.links.len() ==> (#[trigger] t.v.links[i]).display != id
            &&& t.fx.last() == EffectView::Emit(EventView::DisplayRemoved(id))
        }),
{
    let gone = Step {
        v: RouterView {
            displays: router::displays_without(s.v.displays, id),
            links: router::links_without_display(s.v.links, id),
            ..s.v
        },
        fx: s.fx,
    };
    let reaped = ops::reap_orphans(gone, None, now);
    let t = events::drop_display(s, id, now);
    laws::only_orphans_are_reaped(gone, None, now);
    laws::lemma_lifecycle_alike(reaped, now);
    lemma_displays_left(s.v.displays, id);
    lemma_links_without_display(s.v.links, id);
    if other != id {
        laws::lemma_first_link_without_display(s.v.links, id, other);
        assert(router::first_link(reaped.v.links, other) == router::first_link(
            gone.v.links,
            other,
        ));
    }
    let n = gone.v.renderers.len() as int;
    let ids = ops::orphans(gone.v, None, n);
    if ops::lone(gone.v) {
        lemma_timers_keep(gone, ids, ids.len() as int);
    } else {
        exactly_the_stopped_are_gone(gone, ids, now, ids.len() as int, Seq::empty());
    }
    assert(ops::display_ids(t.v) == ops::display_ids(gone.v));
    assert forall|i: int| 0 <= i < t.v.links.len() implies (#[trigger] t.v.links[i]).display
        != id by {
        let l = t.v.links[i];
        assert(reaped.v.links.contains(l));
        assert(gone.v.links.contains(l));
    }
    let left = gone.v.displays;
    if ops::display_ids(t.v).contains(other) {
        let i = ops::display_ids(gone.v).index_of(other);
        assert(left.contains(left[i]));
        let k = s.v.displays.index_of(left[i]);
        assert(ops::display_ids(s.v)[k] == other);
    }
    if ops::display_ids(s.v).contains(other) && other != id {
        let k = ops::display_ids(s.v).index_of(other);
        assert(s.v.displays.contains(s.v.displays[k]));
        assert(left.contains(s.v.displays[k]));
        let i = left.index_of(s.v.displays[k]);
        assert(ops::display_ids(gone.v)[i] == other);
    }
}

proof fn lemma_timers_keep(s: Step, ids: Seq<Seq<char>>, n: int)
    ensures
        ops::start_timers(s, ids, n).v == (RouterView {
            timers: ops::start_timers(s, ids, n).v.timers,
            ..s.v
        }),
    decreases n,
{
    if n > 0 {
        lemma_timers_keep(s, ids, n - 1);
    }
}

// ---------------------------------------------------------------------------
// Compositions that change
// ---------------------------------------------------------------------------

/// A display that changed its size has the new one, and nothing else of any
/// display changes. If it shows a renderer's pool it is told how to compose it
/// at the new size, and subscribers are told the size. A size without width or
/// height is not taken.
pub proof fn display_is_resized(s: Step, d: DisplayView, width: u32, height: u32)
    requires
        well_formed(s.v),
        s.v.displays.contains(d),
    ensures
        ({
            let t = events::resized(s, d.id, width, height);
            let n = t.fx.len();
            &&& width == 0 || height == 0 ==> t == s
            &&& width > 0 && height > 0 ==> {
                &&& t.v.displays.len() == s.v.displays.len()
                &&& forall|i: int|
                    0 <= i < s.v.displays.len() ==> #[trigger] t.v.displays[i] == (
                    if s.v.displays[i].id == d.id {
                        DisplayView { width, height, ..s.v.displays[i] }
                    } else {
                        s.v.displays[i]
                    })
                &&& t.v.links == s.v.links
                &&& t.v.renderers == s.v.renderers
                &&& t.fx[n - 1] matches EffectView::Emit(EventView::DisplayUpsert(snap)) && snap.id
                    == d.id && (snap.width, snap.height) == (width, height)
                &&& (width, height) == (d.width, d.height) ==> n == s.fx.len() + 1
                &&& (width, height) != (d.width, d.height) && router::target(s.v, d.id) is Some
                    ==> {
                    let (l, r, _) = router::target(s.v, d.id)->0;
                    &&& n == s.fx.len() + 2
                    &&& t.fx[n - 2] matches EffectView::SetConfig(c) && {
                        &&& c.display == d.id
                        &&& (c.width, c.height) == (width, height)
                        &&& c.geometry == l.geometry
                        &&& c.tex == r.texture()
                        &&& c.generation == t.v.next_config_generation
                    }
                }
            }
        }),
{
    lemma_orders(s.v);
    lemma_the_display(s.v.displays, d);
    let new = DisplayView { width, height, ..d };
    lemma_replaced_display(s.v.displays, d, new);
    let v = events::replace_display(s.v, d.id, new);
    let k = s.v.displays.index_of(d);
    assert(v.displays[k] == new);
    assert(v.displays.contains(new));
    assert forall|i: int, j: int| 0 <= i < j < v.displays.len() implies (
    #[trigger] v.displays[i]).id < (#[trigger] v.displays[j]).id by {
        assert(s.v.displays[i].id < s.v.displays[j].id);
    }
    lemma_the_display(v.displays, new);
    assert(router::target(v, d.id) == router::target(s.v, d.id));
}

proof fn lemma_replaced_link(s: Seq<LinkView>, id: u64, new: LinkView)
    requires
        router::find_link(s, id) is Some,
    ensures
        ({
            let t = router::with_link(s, id, new);
            &&& t.len() == s.len()
            &&& exists|k: int|
                {
                    &&& 0 <= k < s.len()
                    &&& #[trigger] s[k] == router::find_link(s, id)->0
                    &&& s[k].id == id
                    &&& t[k] == new
                    &&& forall|i: int| 0 <= i < s.len() && i != k ==> #[trigger] t[i] == s[i]
                    &&& forall|i: int| 0 <= i < k ==> (#[trigger] s[i]).id != id
                }
        }),
    decreases s.len(),
{
    let rest = s.drop_last();
    if router::find_link(rest, id) is Some {
        lemma_replaced_link(rest, id, new);
        let a = router::with_link(rest, id, new);
        let t = router::with_link(s, id, new);
        let k = choose|k: int|
            {
                &&& 0 <= k < rest.len()
                &&& #[trigger] rest[k] == router::find_link(rest, id)->0
                &&& rest[k].id == id
                &&& a[k] == new
                &&& forall|i: int| 0 <= i < rest.len() && i != k ==> #[trigger] a[i] == rest[i]
                &&& forall|i: int| 0 <= i < k ==> (#[trigger] rest[i]).id != id
            };
        assert(s[k] == rest[k]);
        assert forall|i: int| 0 <= i < s.len() && i != k implies #[trigger] t[i] == s[i] by {
            if i < rest.len() {
                assert(a[i] == rest[i]);
            }
        }
        assert forall|i: int| 0 <= i < k implies (#[trigger] s[i]).id != id by {
            assert(rest[i].id != id);
        }
    } else {
        lemma_no_link(rest, id);
        assert(s[s.len() - 1] == s.last());
        assert forall|i: int| 0 <= i < s.len() - 1 implies (#[trigger] s[i]).id != id by {
            assert(rest[i].id != id);
        }
    }
}

proof fn lemma_no_link(s: Seq<LinkView>, id: u64)
    requires
        router::find_link(s, id) is None,
    ensures
        forall|i: int| 0 <= i < s.len() ==> (#[trigger] s[i]).id != id,
    decreases s.len(),
{
    if s.len() > 0 {
        let rest = s.drop_last();
        lemma_no_link(rest, id);
        assert forall|i: int| 0 <= i < s.len() implies (#[trigger] s[i]).id != id by {
            if i < rest.len() {
                assert(rest[i].id != id);
            }
        }
    }
}

/// Changing a link sets what the change names and keeps the rest of it, and
/// every other link. The answer says whether the change said anything new.
pub proof fn link_takes_what_the_change_names(s: Step, id: u64, c: GeometryChange)
    requires
        router::find_link(s.v.links, id) is Some,
    ensures
        ({
            let (t, changed) = events::link_changed(s, id, c);
            let a = router::find_link(s.v.links, id)->0;
            let news = {
                ||| c.src is Some && !layout::rect_eq(a.geometry.src_rect, c.src->0)
                ||| c.dst is Some && !layout::rect_eq(a.geometry.dst_rect, c.dst->0)
                ||| c.transform is Some && c.transform->0 != a.geometry.transform
                ||| c.clear_rgba is Some && !layout::color_eq(
                    a.geometry.clear_rgba,
                    c.clear_rgba->0,
                )
                ||| c.z_order is Some && c.z_order->0 != a.z_order
            };
            &&& changed == news
            &&& !changed ==> t == s
            &&& changed ==> exists|k: int|
                {
                    let b = #[trigger] t.v.links[k];
                    &&& 0 <= k < s.v.links.len() == t.v.links.len()
                    &&& s.v.links[k] == a
                    &&& b.id == a.id && b.renderer == a.renderer && b.display == a.display
                        && b.enabled == a.enabled
                    &&& c.src is Some ==> b.geometry.src_rect == c.src->0
                    &&& c.src is None ==> b.geometry.src_rect == a.geometry.src_rect
                    &&& c.dst is Some ==> b.geometry.dst_rect == c.dst->0
                    &&& c.dst is None ==> b.geometry.dst_rect == a.geometry.dst_rect
                    &&& c.transform is Some ==> b.geometry.transform == c.transform->0
                    &&& c.transform is None ==> b.geometry.transform == a.geometry.transform
                    &&& c.clear_rgba is Some ==> b.geometry.clear_rgba == c.clear_rgba->0
                    &&& c.clear_rgba is None ==> b.geometry.clear_rgba == a.geometry.clear_rgba
                    &&& c.z_order is Some ==> b.z_order == c.z_order->0
                    &&& c.z_order is None ==> b.z_order == a.z_order
                    &&& forall|i: int|
                        0 <= i < s.v.links.len() && i != k ==> #[trigger] t.v.links[i]
                            == s.v.links[i]
                    &&& forall|i: int|
                        s.fx.len() <= i < t.fx.len() ==> match #[trigger] t.fx[i] {
                            EffectView::SetConfig(g) => g.display == b.display && g.geometry
                                == b.geometry && g.generation == t.v.next_config_generation,
                            EffectView::Emit(EventView::DisplayUpsert(d)) => d.id == b.display,
                            _ => false,
                        }
                }
        }),
{
    let a = router::find_link(s.v.links, id)->0;
    let l = events::changed_link(a, c);
    lemma_replaced_link(s.v.links, id, l);
    let (t, changed) = events::link_changed(s, id, c);
    if changed {
        let links = router::with_link(s.v.links, id, l);
        assert(t.v.links == links);
        let k = choose|k: int|
            {
                &&& 0 <= k < s.v.links.len()
                &&& #[trigger] s.v.links[k] == a
                &&& s.v.links[k].id == id
                &&& links[k] == l
                &&& forall|i: int|
                    0 <= i < s.v.links.len() && i != k ==> #[trigger] links[i] == s.v.links[i]
                &&& forall|i: int| 0 <= i < k ==> (#[trigger] s.v.links[i]).id != id
            };
        assert(t.v.links[k] == l);
        lemma_no_display(s.v.displays, l.display);
    }
}

/// A display that shows the renderer of a link is told of a change of the link
/// at once.
pub proof fn shown_link_is_recomposed(s: Step, id: u64, c: GeometryChange, d: DisplayView)
    requires
        well_formed(s.v),
        router::find_link(s.v.links, id) is Some,
        events::link_changed(s, id, c).1,
        ({
            let a = router::find_link(s.v.links, id)->0;
            &&& s.v.displays.contains(d)
            &&& d.id == a.display
            &&& d.last_renderer == Some(a.renderer)
            &&& renderer_ids(s.v).contains(a.renderer)
        }),
    ensures
        ({
            let t = events::link_changed(s, id, c).0;
            &&& t.fx.len() == s.fx.len() + 2
            &&& t.fx[s.fx.len() as int] matches EffectView::SetConfig(g) && g.display == d.id && (
            g.width, g.height) == (d.width, d.height)
        }),
{
    lemma_orders(s.v);
    lemma_the_display(s.v.displays, d);
    let a = router::find_link(s.v.links, id)->0;
    let k = renderer_ids(s.v).index_of(a.renderer);
    assert(s.v.renderers[k].h.id == a.renderer);
    lemma_no_entry(s.v.renderers, a.renderer);
}

proof fn lemma_resync_keeps(s: Step, ids: Seq<u64>, n: int)
    ensures
        events::resync_all(s, ids, n).v.links == s.v.links,
        events::resync_all(s, ids, n).v.renderers == s.v.renderers,
        events::resync_all(s, ids, n).v.displays == s.v.displays,
        s.fx.len() <= events::resync_all(s, ids, n).fx.len(),
        forall|i: int|
            0 <= i < s.fx.len() ==> #[trigger] events::resync_all(s, ids, n).fx[i] == s.fx[i],
    decreases n,
{
    if n > 0 {
        lemma_resync_keeps(s, ids, n - 1);
    }
}

/// The display is told how to compose what it shows.
spec fn composed(v: RouterView, id: u64, x: EffectView) -> bool {
    x matches EffectView::SetConfig(c) && c.display == id && (match (
        router::find_display(v.displays, id),
        router::target(v, id),
    ) {
        (Some(d), Some((l, r, _))) => {
            &&& c.name == d.name
            &&& c.instance_id == d.instance_id
            &&& (c.width, c.height) == (d.width, d.height)
            &&& c.tex == r.texture()
            &&& c.geometry == l.geometry
        },
        _ => false,
    })
}

proof fn lemma_resync_says(s: Step, ids: Seq<u64>, n: int, k: int)
    requires
        0 <= k < n <= ids.len(),
        router::find_display(s.v.displays, ids[k]) is Some,
        router::target(s.v, ids[k]) is Some,
    ensures
        exists|i: int|
            s.fx.len() <= i < events::resync_all(s, ids, n).fx.len() && composed(
                s.v,
                ids[k],
                #[trigger] events::resync_all(s, ids, n).fx[i],
            ),
    decreases n,
{
    let a = events::resync_all(s, ids, n - 1);
    let t = events::resync_all(s, ids, n);
    lemma_resync_keeps(s, ids, n - 1);
    if k == n - 1 {
        let (l, r, g) = router::target(s.v, ids[k])->0;
        assert(router::target(a.v, ids[k]) == router::target(s.v, ids[k]));
        lemma_no_display(s.v.displays, ids[k]);
        assert(composed(s.v, ids[k], t.fx[a.fx.len() as int]));
    } else {
        lemma_resync_says(s, ids, n - 1, k);
        let i = choose|i: int|
            s.fx.len() <= i < a.fx.len() && composed(s.v, ids[k], #[trigger] a.fx[i]);
        assert(t.fx[i] == a.fx[i]);
    }
}

/// Composing all displays anew tells each that shows a pool, and changes
/// nothing but the number of compositions.
pub proof fn every_display_is_recomposed(v: RouterView, d: DisplayView)
    requires
        well_formed(v),
        v.displays.contains(d),
        router::target(v, d.id) is Some,
    ensures
        ({
            let t = events::resync_all(ops::start(v), ops::display_ids(v), v.displays.len() as int);
            let (l, r, _) = router::target(v, d.id)->0;
            &&& t.v.links == v.links
            &&& t.v.renderers == v.renderers
            &&& t.v.displays == v.displays
            &&& exists|i: int|
                0 <= i < t.fx.len() && (#[trigger] t.fx[i] matches EffectView::SetConfig(c)
                    && c.display == d.id && (c.width, c.height) == (d.width, d.height) && c.tex
                    == r.texture() && c.geometry == l.geometry)
        }),
{
    let ids = ops::display_ids(v);
    let n = v.displays.len() as int;
    lemma_resync_keeps(ops::start(v), ids, n);
    lemma_orders(v);
    lemma_the_display(v.displays, d);
    let k = v.displays.index_of(d);
    assert(ids[k] == d.id);
    lemma_resync_says(ops::start(v), ids, n, k);
    let t = events::resync_all(ops::start(v), ids, n);
    let i = choose|i: int| 0 <= i < t.fx.len() && composed(v, d.id, #[trigger] t.fx[i]);
    assert(composed(v, d.id, t.fx[i]));
}

proof fn lemma_recolored(links: Seq<LinkView>, rid: Seq<char>, color: ClearColor, n: int, k: int)
    requires
        0 <= k < n <= links.len(),
        links[k].renderer == rid,
        !layout::color_eq(links[k].geometry.clear_rgba, color),
    ensures
        events::recolored_displays(links, rid, color, n).contains(links[k].display),
    decreases n,
{
    let all = events::recolored_displays(links, rid, color, n);
    if k == n - 1 {
        assert(all.last() == links[k].display);
    } else {
        lemma_recolored(links, rid, color, n - 1, k);
        let rest = events::recolored_displays(links, rid, color, n - 1);
        let i = rest.index_of(links[k].display);
        assert(all[i] == links[k].display);
    }
}

/// The colour that a renderer reports goes to its own links and to no others;
/// nothing else of a link changes. Each display on which it is new and that
/// shows a pool is told.
pub proof fn reported_colour_reaches_its_links(s: Step, e: EntryView, k: int)
    requires
        well_formed(s.v),
        s.v.renderers.contains(e),
        0 <= k < s.v.links.len(),
    ensures
        ({
            let t = events::state_changed(s, e.h.id);
            let a = s.v.links[k];
            let b = t.v.links[k];
            &&& t.v.links.len() == s.v.links.len()
            &&& t.v.renderers == s.v.renderers
            &&& t.v.displays == s.v.displays
            &&& a.renderer != e.h.id ==> b == a
            &&& a.renderer == e.h.id ==> {
                &&& b.geometry.clear_rgba == e.h.clear
                &&& b.geometry.src_rect == a.geometry.src_rect
                &&& b.geometry.dst_rect == a.geometry.dst_rect
                &&& b.geometry.transform == a.geometry.transform
                &&& (b.id, b.renderer, b.display, b.enabled, b.z_order) == (
                    a.id,
                    a.renderer,
                    a.display,
                    a.enabled,
                    a.z_order,
                )
            }
            &&& a.renderer == e.h.id && !layout::color_eq(a.geometry.clear_rgba, e.h.clear)
                && router::find_display(s.v.displays, a.display) is Some && router::target(
                t.v,
                a.display,
            ) is Some ==> exists|i: int|
                s.fx.len() <= i < t.fx.len() && (#[trigger] t.fx[i] matches EffectView::SetConfig(c)
                    && c.display == a.display)
        }),
{
    lemma_orders(s.v);
    lemma_the_entry(s.v.renderers, e);
    let rid = e.h.id;
    let n = s.v.links.len() as int;
    let ids = events::recolored_displays(s.v.links, rid, e.h.clear, n);
    let s1 = Step {
        v: RouterView { links: events::recolored(s.v.links, rid, e.h.clear), ..s.v },
        fx: s.fx,
    };
    lemma_resync_keeps(s1, ids, ids.len() as int);
    let t = events::state_changed(s, rid);
    let a = s.v.links[k];
    if a.renderer == rid && !layout::color_eq(a.geometry.clear_rgba, e.h.clear)
        && router::find_display(s.v.displays, a.display) is Some && router::target(t.v, a.display)
        is Some {
        lemma_recolored(s.v.links, rid, e.h.clear, n, k);
        let m = ids.index_of(a.display);
        assert(router::target(s1.v, a.display) == router::target(t.v, a.display));
        lemma_resync_says(s1, ids, ids.len() as int, m);
        let i = choose|i: int|
            s1.fx.len() <= i < t.fx.len() && composed(s1.v, ids[m], #[trigger] t.fx[i]);
        assert(composed(s1.v, ids[m], t.fx[i]));
    }
}

// ---------------------------------------------------------------------------
// What subscribers see
// ---------------------------------------------------------------------------

spec fn listed_at(list: Seq<LinkSnapView>, renderer: Seq<char>, z_order: i32) -> bool {
    exists|i: int|
        0 <= i < list.len() && (#[trigger] list[i]).renderer == renderer && list[i].z_order
            == z_order
}

proof fn lemma_shown_links(links: Seq<LinkView>, id: u64, r: Seq<char>, z: i32)
    ensures
        listed_at(router::shown_links(links, id), r, z) == leads_at(links, id, r, z),
    decreases links.len(),
{
    if links.len() > 0 {
        let t = links.drop_last();
        lemma_shown_links(t, id, r, z);
        let rest = router::shown_links(t, id);
        let all = router::shown_links(links, id);
        if listed_at(all, r, z) {
            let i = choose|i: int|
                0 <= i < all.len() && (#[trigger] all[i]).renderer == r && all[i].z_order == z;
            if i < rest.len() {
                assert(rest[i] == all[i]);
                assert(listed_at(rest, r, z));
                let k = choose|k: int|
                    0 <= k < t.len() && (#[trigger] t[k]).display == id && t[k].enabled
                        && t[k].renderer == r && t[k].z_order == z;
                assert(links[k] == t[k]);
            } else {
                assert(links[links.len() - 1].display == id);
            }
        }
        if leads_at(links, id, r, z) {
            let k = choose|k: int|
                0 <= k < links.len() && (#[trigger] links[k]).display == id && links[k].enabled
                    && links[k].renderer == r && links[k].z_order == z;
            if k < t.len() {
                assert(t[k] == links[k]);
                assert(leads_at(t, id, r, z));
                let i = choose|i: int|
                    0 <= i < rest.len() && (#[trigger] rest[i]).renderer == r && rest[i].z_order
                        == z;
                assert(all[i] == rest[i]);
            } else {
                assert(all[rest.len() as int].renderer == r);
            }
        }
    }
}

/// An enabled link leads to the display from the renderer, at that place.
pub open spec fn leads_at(links: Seq<LinkView>, id: u64, renderer: Seq<char>, z_order: i32) -> bool {
    exists|k: int|
        0 <= k < links.len() && (#[trigger] links[k]).display == id && links[k].enabled
            && links[k].renderer == renderer && links[k].z_order == z_order
}

/// What subscribers see of a display is what is known of it, with exactly the
/// renderers that enabled links lead to it from.
pub proof fn display_is_shown_as_it_is(
    r: Router,
    id: u64,
    out: Option<crate::snapshot::DisplaySnapshot>,
    renderer: Seq<char>,
    z_order: i32,
)
    requires
        call_ensures(Router::snapshot_display, (&r, id), out),
    ensures
        out is Some <==> ops::display_ids(r@).contains(id),
        out matches Some(x) ==> {
            let d = router::find_display(r@.displays, id)->0;
            &&& r@.displays.contains(d) && d.id == id
            &&& x.id == id
            &&& x.name@ == d.name
            &&& (x.width, x.height) == (d.width, d.height)
            &&& x.refresh_mhz == d.refresh_mhz
            &&& (x.drm_render_major, x.drm_render_minor) == (d.gpu.major, d.gpu.minor)
            &&& (exists|i: int|
                0 <= i < x.links@.len() && (#[trigger] x.links@[i]).renderer_id@ == renderer
                    && x.links@[i].z_order == z_order) <==> leads_at(
                r@.links,
                id,
                renderer,
                z_order,
            )
        },
{
    lemma_no_display(r@.displays, id);
    if ops::display_ids(r@).contains(id) {
        let k = ops::display_ids(r@).index_of(id);
        assert(r@.displays[k].id == id);
    }
    if out is Some {
        let d = router::find_display(r@.displays, id)->0;
        let k = r@.displays.index_of(d);
        assert(ops::display_ids(r@)[k] == id);
        let x = out->0;
        lemma_shown_links(r@.links, id, renderer, z_order);
        let v = router::shown_links(r@.links, id);
        assert(x@.links == v);
        assert(seqs::views(x.links@) == v);
        assert forall|i: int| 0 <= i < v.len() implies (#[trigger] v[i]) == x.links@[i]@ by {
            assert(seqs::views(x.links@)[i] == x.links@[i]@);
        }
        if leads_at(r@.links, id, renderer, z_order) {
            let i = choose|i: int|
                0 <= i < v.len() && (#[trigger] v[i]).renderer == renderer && v[i].z_order
                    == z_order;
            assert(x.links@[i].renderer_id@ == renderer);
        }
        if exists|i: int|
            0 <= i < x.links@.len() && (#[trigger] x.links@[i]).renderer_id@ == renderer
                && x.links@[i].z_order == z_order {
            let i = choose|i: int|
                0 <= i < x.links@.len() && (#[trigger] x.links@[i]).renderer_id@ == renderer
                    && x.links@[i].z_order == z_order;
            assert(v[i].renderer == renderer && v[i].z_order == z_order);
        }
    }
}

/// What subscribers see of a renderer is what is known of it: it counts as
/// paused exactly while it is, and its size is that of its pool where it has
/// one.
pub proof fn renderer_is_shown_as_it_is(
    r: Router,
    id: &str,
    out: Option<crate::snapshot::RendererSnapshot>,
)
    requires
        call_ensures(Router::snapshot_renderer, (&r, id), out),
    ensures
        out is Some <==> renderer_ids(r@).contains(id@),
        out matches Some(x) ==> {
            let e = router::find_entry(r@.renderers, id@)->0;
            &&& r@.renderers.contains(e)
            &&& x.id@ == id@ && e.h.id == id@
            &&& x.wp_type@ == e.h.wp_type
            &&& x.name@ == e.h.name
            &&& (x.status == RendererStatus::Paused) == (e.paused is Some)
            &&& (x.status == RendererStatus::Playing) == (e.paused is None)
            &&& e.h.pid matches Some(p) ==> x.pid == p
            &&& (x.drm_render_major, x.drm_render_minor) == (e.h.gpu.major, e.h.gpu.minor)
            &&& (x.texture_width, x.texture_height) == (match e.h.bind {
                Some(b) => (b.width, b.height),
                None => (e.h.width, e.h.height),
            })
        },
{
    lemma_no_entry(r@.renderers, id@);
    if renderer_ids(r@).contains(id@) {
        let k = renderer_ids(r@).index_of(id@);
        assert(r@.renderers[k].h.id == id@);
    }
    if out is Some {
        let e = router::find_entry(r@.renderers, id@)->0;
        let k = r@.renderers.index_of(e);
        assert(renderer_ids(r@)[k] == id@);
    }
}

// ---------------------------------------------------------------------------
// Giving displays to a renderer
// ---------------------------------------------------------------------------

/// Giving displays to a renderer makes each connected one of them show it, and
/// it alone. A display that is not named keeps exactly the links that show
/// something on it.
pub proof fn only_the_named_displays_change(
    s: Step,
    ids: Seq<u64>,
    rid: Seq<char>,
    now: u64,
    id: u64,
)
    requires
        well_formed(s.v),
    ensures
        ({
            let t = ops::relink(s, ids, rid, now).v;
            &&& ids.contains(id) && ops::display_ids(s.v).contains(id) ==> {
                &&& exists|k: int|
                    0 <= k < t.links.len() && (#[trigger] t.links[k]).display == id
                        && t.links[k].enabled && t.links[k].renderer == rid
                &&& forall|k: int|
                    0 <= k < t.links.len() && (#[trigger] t.links[k]).display == id
                        && t.links[k].enabled ==> t.links[k].renderer == rid
            }
            &&& !ids.contains(id) ==> forall|l: LinkView|
                l.display == id && l.enabled ==> (#[trigger] t.links.contains(l)
                    <==> s.v.links.contains(l))
        }),
{
    let t = ops::relink(s, ids, rid, now).v;
    laws::relinked_displays_show_the_renderer(s, ids, rid, now, id);
    laws::relinking_keeps_the_invariant(s, ids, rid, now);
    lemma_the_link(t.links, id);
    lemma_the_link(s.v.links, id);
    lemma_no_display(s.v.displays, id);
    if ids.contains(id) && ops::display_ids(s.v).contains(id) {
        let k = ops::display_ids(s.v).index_of(id);
        assert(s.v.displays[k].id == id);
        let l = router::first_link(t.links, id)->0;
        let m = t.links.index_of(l);
        assert(t.links[m] == l);
        assert forall|k: int|
            0 <= k < t.links.len() && (#[trigger] t.links[k]).display == id
                && t.links[k].enabled implies t.links[k].renderer == rid by {
            assert(t.links.contains(t.links[k]));
            lemma_only_link(t.links, t.links[k]);
        }
    }
    if !ids.contains(id) {
        assert forall|l: LinkView| l.display == id && l.enabled implies (#[trigger] t.links.contains(
            l,
        ) <==> s.v.links.contains(l)) by {
            if t.links.contains(l) {
                lemma_only_link(t.links, l);
            }
            if s.v.links.contains(l) {
                lemma_only_link(s.v.links, l);
            }
        }
    }
}

/// Stopping renderers that show nothing on a display leaves the display's links
/// as they are.
pub proof fn stopping_others_keeps_a_display(
    s: Step,
    ids: Seq<Seq<char>>,
    now: u64,
    n: int,
    id: u64,
)
    requires
        0 <= n <= ids.len(),
        forall|k: int|
            0 <= k < s.v.links.len() && (#[trigger] s.v.links[k]).display == id
                && s.v.links[k].enabled ==> !ids.contains(s.v.links[k].renderer),
    ensures
        forall|l: LinkView|
            l.display == id && l.enabled ==> (#[trigger] router::stop_all(
                s,
                ids,
                now,
                n,
            ).v.links.contains(l) <==> s.v.links.contains(l)),
{
    exactly_the_stopped_are_gone(s, ids, now, n, Seq::empty());
    assert forall|l: LinkView| l.display == id && l.enabled implies (#[trigger] router::stop_all(
        s,
        ids,
        now,
        n,
    ).v.links.contains(l) <==> s.v.links.contains(l)) by {
        if s.v.links.contains(l) {
            let k = s.v.links.index_of(l);
            assert(s.v.links[k].display == id);
            if ids.take(n).contains(l.renderer) {
                let i = ids.take(n).index_of(l.renderer);
                assert(ids[i] == l.renderer);
            }
        }
    }
}

/// A renderer that registers is listed with what it registered with, in the
/// place of one of the same id. No other one changes.
pub proof fn registered_renderer_is_listed(s: Seq<EntryView>, h: RendererView)
    ensures
        ({
            let t = events::registered(s, h);
            &&& exists|k: int| 0 <= k < t.len() && (#[trigger] t[k]).h == h
            &&& forall|i: int|
                0 <= i < s.len() ==> i < t.len() && ((#[trigger] s[i]).h.id != h.id ==> t[i]
                    == s[i])
            &&& (forall|i: int| 0 <= i < s.len() ==> (#[trigger] s[i]).h.id != h.id) ==> t
                == s.push(EntryView { h, paused: None })
        }),
    decreases s.len(),
{
    lemma_no_entry(s, h.id);
    let t = events::registered(s, h);
    if router::find_entry(s, h.id) is Some {
        lemma_with_handle_at(s, h.id, h);
    } else {
        assert(t[s.len() as int].h == h);
    }
}

proof fn lemma_with_handle_at(s: Seq<EntryView>, id: Seq<char>, h: RendererView)
    requires
        router::find_entry(s, id) is Some,
    ensures
        ({
            let t = router::with_handle(s, id, h);
            &&& t.len() == s.len()
            &&& exists|k: int| 0 <= k < t.len() && (#[trigger] t[k]).h == h
            &&& forall|i: int|
                0 <= i < s.len() && (#[trigger] s[i]).h.id != id ==> t[i] == s[i]
        }),
    decreases s.len(),
{
    let rest = s.drop_last();
    let t = router::with_handle(s, id, h);
    if router::find_entry(rest, id) is Some {
        lemma_with_handle_at(rest, id, h);
        let u = router::with_handle(rest, id, h);
        let k = choose|k: int| 0 <= k < u.len() && (#[trigger] u[k]).h == h;
        assert(t[k] == u[k]);
        assert forall|i: int| 0 <= i < s.len() && (#[trigger] s[i]).h.id != id implies t[i]
            == s[i] by {
            if i < rest.len() {
                assert(rest[i] == s[i]);
            }
        }
    } else {
        assert(t[s.len() - 1].h == h);
    }
}

// ---------------------------------------------------------------------------
// Calls and their steps
// ---------------------------------------------------------------------------

/// What is said above of the steps of displays holds of the calls that take
/// them: each leaves the routing, and gives back the effects, that its step
/// leads to.
pub proof fn display_calls_take_their_steps(
    q: &mut Router,
    id: u64,
    reg: DisplayRegistration,
    caps: PeerCaps,
    pair: (u32, u64),
    width: u32,
    height: u32,
    now: u64,
    out: Vec<Effect>,
)
    ensures
        call_ensures(Router::register_display, (q, reg, now), (id, out)) ==> {
            &&& router::at(*final(q), out@) == events::add_display(ops::start(old(q)@), reg, now)
            &&& id == old(q)@.next_display_id + 1
        },
        call_ensures(Router::unregister_display, (q, id, now), out) ==> router::at(
            *final(q),
            out@,
        ) == events::drop_display(ops::start(old(q)@), id, now),
        call_ensures(Router::set_consumer_caps, (q, id, caps), out) ==> router::at(
            *final(q),
            out@,
        ) == events::take_caps(ops::start(old(q)@), id, caps@),
        call_ensures(Router::on_consumer_bind_failed, (q, id, pair.0, pair.1), out) ==> router::at(
            *final(q),
            out@,
        ) == events::display_rejects(ops::start(old(q)@), id, pair),
        call_ensures(Router::update_display_size, (q, id, width, height), out) ==> router::at(
            *final(q),
            out@,
        ) == events::resized(ops::start(old(q)@), id, width, height),
        call_ensures(Router::resync_all_set_configs, (q,), out) ==> router::at(*final(q), out@)
            == events::resync_all(
            ops::start(old(q)@),
            ops::display_ids(old(q)@),
            old(q)@.displays.len() as int,
        ),
{
}

/// So it is with the calls that change one link, and those that relink displays.
pub proof fn link_calls_take_their_steps(
    q: &mut Router,
    link_id: u64,
    change: &GeometryChange,
    found: bool,
    ids: &Vec<u64>,
    rid: &str,
    now: u64,
    out: Vec<Effect>,
)
    ensures
        call_ensures(Router::set_link_geometry, (q, link_id, change), (found, out)) ==> (
            router::at(*final(q), out@),
            found,
        ) == events::link_changed(ops::start(old(q)@), link_id, *change),
        call_ensures(Router::relink_displays_to, (q, ids, rid, now), out) ==> router::at(
            *final(q),
            out@,
        ) == ops::relink(ops::start(old(q)@), ids@, rid@, now),
        call_ensures(Router::relink_all_displays_to, (q, rid, now), out) ==> router::at(
            *final(q),
            out@,
        ) == ops::relink(ops::start(old(q)@), ops::display_ids(old(q)@), rid@, now),
{
}

/// So it is with the calls on behalf of one renderer.
pub proof fn renderer_calls_take_their_steps(
    q: &mut Router,
    handle: RendererHandle,
    rid: &str,
    id: &String,
    pair: (u32, u64),
    ev: RendererEvent,
    fds: Vec<u64>,
    released: Vec<u64>,
    now: u64,
    out: Vec<Effect>,
)
    ensures
        call_ensures(Router::register_renderer, (q, handle), out) ==> router::at(*final(q), out@)
            == events::add_renderer(ops::start(old(q)@), handle@),
        call_ensures(Router::on_renderer_bind_failed, (q, rid, pair.0, pair.1), out) ==> router::at(
            *final(q),
            out@,
        ) == events::renderer_rejects(ops::start(old(q)@), rid@, pair),
        call_ensures(Router::on_renderer_state_changed, (q, rid), out) ==> router::at(
            *final(q),
            out@,
        ) == events::state_changed(ops::start(old(q)@), rid@),
        call_ensures(Router::on_renderer_bind, (q, rid), out) ==> router::at(*final(q), out@)
            == events::pool_announced(ops::start(old(q)@), rid@),
        call_ensures(Router::renderer_event, (q, rid, ev, fds), (out, released)) ==> (
            router::at(*final(q), out@),
            released@,
        ) == events::message_taken(old(q)@, rid@, ev, fds@),
        call_ensures(Router::unregister_renderer, (q, rid, now), out) ==> router::at(
            *final(q),
            out@,
        ) == router::unregister(ops::start(old(q)@), rid@, now),
        call_ensures(Router::mark_orphan, (q, id, now), out) ==> router::at(*final(q), out@)
            == ops::reap_orphan(ops::start(old(q)@), id@, now),
        call_ensures(Router::cancel_orphan_timer, (q, rid), out) ==> router::at(*final(q), out@)
            == router::cancel_timer(ops::start(old(q)@), rid@),
        call_ensures(Router::fire_orphan_reap, (q, rid, now), out) ==> router::at(*final(q), out@)
            == ops::grace_over(ops::start(old(q)@), rid@, now),
{
}

/// So it is with the calls that stop renderers, and with the one that brings a
/// display up to date.
pub proof fn stopping_calls_take_their_steps(
    q: &mut Router,
    ids: &Vec<String>,
    now: u64,
    out: Vec<Effect>,
)
    ensures
        call_ensures(Router::stop_renderers, (q, ids, now), out) ==> router::at(*final(q), out@)
            == router::stop_all(ops::start(old(q)@), text::lines(ids@), now, ids@.len() as int),
        call_ensures(Router::retire_renderers, (q, ids, now), out) ==> router::at(*final(q), out@)
            == router::unregister_all(
            ops::start(old(q)@),
            text::lines(ids@),
            now,
            ids@.len() as int,
        ),
        call_ensures(Router::reap_idle_renderers, (q, now), out) ==> ({
            let idle = ops::idle_ids(old(q)@.renderers, now, old(q)@.renderers.len() as int);
            router::at(*final(q), out@) == router::stop_all(
                ops::start(old(q)@),
                idle,
                now,
                idle.len() as int,
            )
        }),
{
}

/// Bringing a display up to date is the step of that name.
pub proof fn display_is_synced_by_its_step(q: &mut Router, id: u64, out: &mut Vec<Effect>)
    requires
        call_ensures(Router::sync_display, (q, id, out), ()),
    ensures
        router::at(*final(q), final(out)@) == router::sync(router::at(*old(q), old(out)@), id),
{
}

/// Of the renderers that no display shows, those that may go are named, and
/// each is let go of as it would be alone.
pub proof fn orphans_are_named(
    q: &mut Router,
    keep: Option<&str>,
    now: u64,
    named: Vec<String>,
    out: Vec<Effect>,
)
    requires
        call_ensures(Router::mark_orphans, (q, keep, now), (named, out)),
    ensures
        ({
            let kept = match keep {
                Some(k) => Some(k@),
                None => None,
            };
            &&& router::at(*final(q), out@) == ops::reap_orphans(ops::start(old(q)@), kept, now)
            &&& text::lines(named@) == ops::orphans(
                old(q)@,
                kept,
                old(q)@.renderers.len() as int,
            )
        }),
{
}

} // verus!
